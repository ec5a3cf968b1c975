# noise

A 2D platformer with a grapple hook, built on piston and OpenGL.

The crate is split in two:

- `src/` is the game's rule book, verified with Verus: the flag sets that
  say which objects collide, the collision test, the world's registry of
  bounding boxes and fighters, the command queues and the table of live
  objects, the routing of commands, the dialogue queue and overlay state, the
  camera stack, the pagoda tile layout and noise octaves of the level
  generator, the keyboard state machines of the player and the grapple, and
  the per-tick decisions of arrows and dialogue triggers, and the filter of
  fighters hostile to an enemy. Each public function's contract states what
  it returns, except what a shared `Mutex` holds, which is opaque here; the
  laws that relate several calls are public proof functions.
- `app/` is the program around it: the window and event loop, OpenGL
  drawing and shaders, the floating-point physics and movement, reading the
  json descriptors and world files, and the lisp scripting of objects.

`tests/` runs the library on concrete values.
