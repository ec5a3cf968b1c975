//! The heads-up overlay's dialogue line: which line is on screen, for how
//! many more frames, and how much of it has been typed out so far.
use vstd::prelude::*;
use vstd::string::*;
use vstd::utf8::{encode_utf8, is_char_boundary};

verus! {

/// How many frames a new line stays on screen.
pub const DIALOGUE_FRAMES: u32 = 140;

pub struct Overlay {
    dialogue: String,
    dialogue_time_left: u32,
    dialogue_chars: usize,
}

impl Overlay {
    pub closed spec fn spec_dialogue(self) -> Seq<char> {
        self.dialogue@
    }

    pub closed spec fn spec_dialogue_bytes(self) -> Seq<u8> {
        encode_utf8(self.dialogue@)
    }

    /// Frames left before the line leaves the screen.
    pub closed spec fn time_left(self) -> u32 {
        self.dialogue_time_left
    }

    /// Bytes of the line typed out so far (may run past its end).
    pub closed spec fn chars(self) -> usize {
        self.dialogue_chars
    }

    pub fn new() -> (r: Self)
        ensures
            r.spec_dialogue() == Seq::<char>::empty(),
            r.time_left() == 1,
            r.chars() == 0,
    {
        Overlay { dialogue: String::new(), dialogue_time_left: 1, dialogue_chars: 0 }
    }

    /// Advances the overlay by one frame and tells whether it is free for a
    /// new line: the line on screen has at most one frame left.
    pub fn dialogue_empty(&mut self) -> (r: bool)
        requires
            old(self).chars() < usize::MAX,
        ensures
            final(self).time_left() == (if old(self).time_left() > 0 {
                old(self).time_left() - 1
            } else {
                0
            }),
            final(self).chars() == old(self).chars() + 1,
            r == (final(self).time_left() <= 1),
            final(self).spec_dialogue() == old(self).spec_dialogue(),
            final(self).spec_dialogue_bytes() == old(self).spec_dialogue_bytes(),
    {
        if self.dialogue_time_left > 0 {
            self.dialogue_time_left = self.dialogue_time_left - 1;
        }
        self.dialogue_chars = self.dialogue_chars + 1;
        self.dialogue_time_left <= 1
    }

    /// Puts a new line on screen, if there is one: it stays for
    /// [`DIALOGUE_FRAMES`] frames and is typed out from its start.
    pub fn set_dialogue(&mut self, s: Option<String>)
        ensures
            match s {
                Some(d) => {
                    &&& final(self).spec_dialogue() == d@
                    &&& final(self).time_left() == DIALOGUE_FRAMES
                    &&& final(self).chars() == 0
                },
                None => {
                    &&& final(self).spec_dialogue() == old(self).spec_dialogue()
                    &&& final(self).spec_dialogue_bytes() == old(self).spec_dialogue_bytes()
                    &&& final(self).time_left() == old(self).time_left()
                    &&& final(self).chars() == old(self).chars()
                },
            },
    {
        match s {
            Some(d) => {
                self.dialogue = d;
                self.dialogue_time_left = DIALOGUE_FRAMES;
                self.dialogue_chars = 0;
            },
            None => {},
        }
    }

    /// Bytes of the line typed out so far.
    pub fn typed_chars(&self) -> (r: usize)
        ensures
            r == self.chars(),
    {
        self.dialogue_chars
    }

    /// Whether a line is being shown.
    pub fn showing(&self) -> (r: bool)
        ensures
            r == (self.time_left() > 1),
    {
        self.dialogue_time_left > 1
    }

    /// How many bytes of the line are shown: what has been typed out, but no
    /// more than the whole line.
    pub fn shown_len(&self) -> (n: usize)
        ensures
            n == (if self.chars() > self.spec_dialogue_bytes().len() as usize {
                self.spec_dialogue_bytes().len() as usize
            } else {
                self.chars()
            }),
    {
        let text = self.dialogue.as_str();
        assert(text.spec_bytes() == encode_utf8(self.dialogue@));
        let len = text.len();
        if self.dialogue_chars > len {
            len
        } else {
            self.dialogue_chars
        }
    }

    /// The part of the line shown so far. The line is cut at a byte count,
    /// so the cut must fall on a character boundary.
    pub fn shown_text(&self) -> (t: &str)
        requires
            is_char_boundary(
                self.spec_dialogue_bytes(),
                (if self.chars() > self.spec_dialogue_bytes().len() as usize {
                    (self.spec_dialogue_bytes().len() as usize) as int
                } else {
                    self.chars() as int
                }),
            ),
        ensures
            t.spec_bytes() == self.spec_dialogue_bytes().subrange(
                0,
                (if self.chars() > self.spec_dialogue_bytes().len() as usize {
                    (self.spec_dialogue_bytes().len() as usize) as int
                } else {
                    self.chars() as int
                }),
            ),
    {
        let n = self.shown_len();
        let text = self.dialogue.as_str();
        assert(text.spec_bytes() == encode_utf8(self.dialogue@));
        let (shown, _) = text.split_at(n);
        shown
    }
}

/// Frames left on screen after `k` frames, starting from `t` frames left.
pub open spec fn time_left_after(t: int, k: nat) -> int
    decreases k,
{
    if k == 0 {
        t
    } else {
        let prev = time_left_after(t, (k - 1) as nat);
        if prev > 0 {
            prev - 1
        } else {
            0
        }
    }
}

/// A line put on screen with `t` frames to go has `t - k` frames left after
/// `k` frames, and none once `t` frames have passed; so a new line keeps the
/// overlay busy for exactly `DIALOGUE_FRAMES - 1` frames.
pub proof fn lemma_line_duration(t: int, k: nat)
    requires
        t >= 0,
    ensures
        time_left_after(t, k) == (if t >= k {
            t - k
        } else {
            0
        }),
        t == DIALOGUE_FRAMES ==> ((time_left_after(t, k) <= 1) <==> k >= DIALOGUE_FRAMES - 1),
    decreases k,
{
    if k > 0 {
        lemma_line_duration(t, (k - 1) as nat);
    }
}

} // verus!
