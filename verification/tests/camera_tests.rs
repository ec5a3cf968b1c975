use noise::camera::{CameraId, CameraPriority, Editor};

#[test]
fn editor_numbers_cameras_and_skips_one() {
    let mut e: Editor<&str> = Editor::new(vec![(CameraPriority(1), "a"), (CameraPriority(5), "b")]);
    let id = e.add_camera(CameraPriority(3), "c");
    assert_eq!(id, CameraId(3));
    assert_eq!(e.add_camera(CameraPriority(0), "d"), CameraId(4));
}

#[test]
fn top_camera_has_highest_priority() {
    let mut e: Editor<&str> = Editor::new(vec![(CameraPriority(1), "a"), (CameraPriority(5), "b")]);
    e.add_camera(CameraPriority(3), "c");
    let top = e.pop_top().unwrap();
    assert_eq!(top.camera, "b");
    assert_eq!(top.id, CameraId(1));
    e.push_back(top);
    let again = e.pop_top().unwrap();
    assert_eq!(again.camera, "b");
}

#[test]
fn remove_camera_by_id() {
    let mut e: Editor<&str> = Editor::new(vec![(CameraPriority(1), "a"), (CameraPriority(5), "b")]);
    e.remove_camera(CameraId(1));
    let top = e.pop_top().unwrap();
    assert_eq!(top.camera, "a");
    assert!(e.pop_top().is_none());
}

#[test]
fn empty_editor_has_no_top() {
    let mut e: Editor<u8> = Editor::new(vec![]);
    assert!(e.pop_top().is_none());
    assert_eq!(e.add_camera(CameraPriority(2), 7), CameraId(1));
}
