use noise::dialogue::{Dialogue, DialogueBuffer};
use noise::overlay::Overlay;

fn fresh_at(time: f64) -> impl Fn(&Dialogue<f64>) -> bool {
    move |d: &Dialogue<f64>| time - d.timestamp < 1.5
}

#[test]
fn highest_priority_first() {
    let mut b: DialogueBuffer<f64> = DialogueBuffer::new();
    b.add(Dialogue::new(0.0, 1, String::from("low")));
    b.add(Dialogue::new(0.0, 8, String::from("high")));
    b.add(Dialogue::new(0.0, 4, String::from("mid")));
    assert_eq!(b.get(fresh_at(0.5)), Some(String::from("high")));
    assert_eq!(b.get(fresh_at(0.5)), Some(String::from("mid")));
    assert_eq!(b.get(fresh_at(0.5)), Some(String::from("low")));
    assert_eq!(b.get(fresh_at(0.5)), None);
}

#[test]
fn stale_lines_are_dropped() {
    let mut b: DialogueBuffer<f64> = DialogueBuffer::new();
    b.add(Dialogue::new(10.0, 1, String::from("fresh")));
    b.add(Dialogue::new(0.0, 9, String::from("stale")));
    assert_eq!(b.get(fresh_at(10.5)), Some(String::from("fresh")));
    assert_eq!(b.get(fresh_at(10.5)), None);
}

#[test]
fn nothing_fresh_empties_the_queue() {
    let mut b: DialogueBuffer<f64> = DialogueBuffer::new();
    b.add(Dialogue::new(0.0, 1, String::from("a")));
    b.add(Dialogue::new(0.0, 2, String::from("b")));
    assert_eq!(b.get(fresh_at(100.0)), None);
    assert_eq!(b.get(fresh_at(0.0)), None);
}

#[test]
fn equal_priority_latest_first() {
    let mut b: DialogueBuffer<f64> = DialogueBuffer::new();
    b.add(Dialogue::new(0.0, 3, String::from("one")));
    b.add(Dialogue::new(0.0, 3, String::from("two")));
    assert_eq!(b.get(fresh_at(0.0)), Some(String::from("two")));
}

#[test]
fn overlay_line_lasts_its_frames() {
    let mut o = Overlay::new();
    assert!(o.dialogue_empty());
    o.set_dialogue(Some(String::from("So I snuck into the field")));
    assert!(o.showing());
    let mut busy = 0;
    while !o.dialogue_empty() {
        busy += 1;
    }
    assert_eq!(busy, 138);
    assert!(!o.showing());
}

#[test]
fn overlay_types_out_the_line() {
    let mut o = Overlay::new();
    o.set_dialogue(Some(String::from("abc")));
    assert_eq!(o.shown_len(), 0);
    assert_eq!(o.shown_text(), "");
    o.dialogue_empty();
    o.dialogue_empty();
    assert_eq!(o.shown_text(), "ab");
    o.dialogue_empty();
    o.dialogue_empty();
    assert_eq!(o.shown_len(), 3);
    assert_eq!(o.shown_text(), "abc");
    o.set_dialogue(None);
    assert_eq!(o.shown_text(), "abc");
}
