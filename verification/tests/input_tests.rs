use game_core::input::{
    ElementState, InputEvent, InputEvents, InputManager, Modifiers, Repeat, WindowEvent,
    DEFAULT_TEXT_REPEAT_US,
};
use game_core::time::GameTime;

fn press(key: u32) -> WindowEvent {
    WindowEvent::KeyboardInput(ElementState::Pressed, Some(key), Modifiers::new())
}

fn release(key: u32) -> WindowEvent {
    WindowEvent::KeyboardInput(ElementState::Released, Some(key), Modifiers::new())
}

fn at(us: u64) -> GameTime {
    GameTime::new(us, 16_667)
}

#[test]
fn first_press_emits_one_edge_event() {
    let mut m = InputManager::new();
    let t = at(1_000_000);
    m.translate_event(&press(65), &t);
    assert!(m.is_key_down(65));
    let batch = m.get_events(&t);
    assert_eq!(
        batch.as_vec().as_slice(),
        &[InputEvent::VirtKey(65, Modifiers::new(), Repeat::NoRepeat)]
    );
}

#[test]
fn pressing_a_held_key_adds_no_second_edge_event() {
    let mut m = InputManager::new();
    let t = at(1_000_000);
    m.translate_event(&press(65), &t);
    m.translate_event(&press(65), &at(1_050_000));
    let batch = m.get_events(&t);
    assert_eq!(batch.len(), 1);
    assert_eq!(
        batch.as_vec()[0],
        InputEvent::VirtKey(65, Modifiers::new(), Repeat::NoRepeat)
    );
    // The timestamp of the original press is kept: a batch taken later
    // classifies against the first press time, not the repeated one.
    let later = m.get_events(&at(1_100_000));
    assert_eq!(
        later.as_vec().as_slice(),
        &[InputEvent::VirtKey(65, Modifiers::new(), Repeat::EarlyRepeat(100_000))]
    );
}

#[test]
fn repeat_classification_escalates_with_hold_time() {
    assert_eq!(DEFAULT_TEXT_REPEAT_US, 250_000);
    let mut m = InputManager::new();
    let t0 = at(1_000_000);
    m.translate_event(&press(65), &t0);

    let b0 = m.get_events(&t0);
    assert_eq!(
        b0.as_vec().as_slice(),
        &[InputEvent::VirtKey(65, Modifiers::new(), Repeat::NoRepeat)]
    );

    let b1 = m.get_events(&at(1_100_000));
    assert_eq!(
        b1.as_vec().as_slice(),
        &[InputEvent::VirtKey(65, Modifiers::new(), Repeat::EarlyRepeat(100_000))]
    );

    let b2 = m.get_events(&at(1_300_000));
    assert_eq!(
        b2.as_vec().as_slice(),
        &[InputEvent::VirtKey(65, Modifiers::new(), Repeat::TextRepeat(300_000))]
    );
}

#[test]
fn release_removes_exactly_one_entry() {
    let mut m = InputManager::new();
    let t = at(2_000_000);
    m.translate_event(&press(10), &t);
    m.translate_event(&press(11), &t);
    m.translate_event(&press(12), &t);
    // Drain the three edge-triggered press events first.
    assert_eq!(m.get_events(&t).len(), 3);
    m.translate_event(&release(11), &at(2_010_000));
    assert!(m.is_key_down(10));
    assert!(!m.is_key_down(11));
    assert!(m.is_key_down(12));
    let batch = m.get_events(&at(2_050_000));
    // Two synthesized repeats, one per still-held key, and no edge events.
    assert_eq!(batch.len(), 2);
    for e in batch.as_vec() {
        match e {
            InputEvent::VirtKey(k, _, Repeat::EarlyRepeat(d)) => {
                assert!(*k == 10 || *k == 12);
                assert_eq!(*d, 50_000);
            }
            other => panic!("unexpected event {:?}", other),
        }
    }
}

#[test]
fn releasing_a_key_that_is_not_held_is_a_no_op() {
    let mut m = InputManager::new();
    let t = at(500_000);
    m.translate_event(&release(99), &t);
    assert!(!m.is_key_down(99));
    assert!(m.get_events(&t).is_empty());
}

#[test]
fn focus_loss_clears_all_held_keys() {
    let mut m = InputManager::new();
    let t = at(3_000_000);
    m.translate_event(&press(1), &t);
    m.translate_event(&press(2), &t);
    m.translate_event(&press(3), &t);
    let _ = m.get_events(&t);
    m.translate_event(&WindowEvent::Focused(false), &at(3_100_000));
    assert!(!m.is_key_down(1));
    assert!(!m.is_key_down(2));
    assert!(!m.is_key_down(3));
    // The next batch synthesizes zero repeat events.
    let batch = m.get_events(&at(3_200_000));
    assert!(batch.is_empty());
}

#[test]
fn focus_gain_keeps_held_keys() {
    let mut m = InputManager::new();
    let t = at(3_000_000);
    m.translate_event(&press(1), &t);
    m.translate_event(&WindowEvent::Focused(true), &t);
    assert!(m.is_key_down(1));
}

#[test]
fn no_edge_event_is_delivered_twice() {
    let mut m = InputManager::new();
    let t = at(4_000_000);
    m.translate_event(&press(7), &t);
    let first = m.get_events(&at(4_000_100));
    let edges = |b: &InputEvents| {
        b.as_vec()
            .iter()
            .filter(|e| matches!(e, InputEvent::VirtKey(_, _, Repeat::NoRepeat)))
            .count()
    };
    assert_eq!(edges(&first), 1);
    let second = m.get_events(&at(4_000_200));
    assert_eq!(edges(&second), 0);
}

#[test]
fn characters_are_appended_unconditionally() {
    let mut m = InputManager::new();
    let t = at(100);
    m.translate_event(&WindowEvent::ReceivedCharacter('a'), &t);
    m.translate_event(&WindowEvent::ReceivedCharacter('a'), &t);
    let batch = m.get_events(&t);
    assert_eq!(
        batch.as_vec().as_slice(),
        &[InputEvent::Character('a'), InputEvent::Character('a')]
    );
    // The buffer was consumed: a second batch with no new events is empty.
    assert!(m.get_events(&t).is_empty());
}

#[test]
fn undecoded_keys_are_ignored() {
    let mut m = InputManager::new();
    let t = at(100);
    m.translate_event(
        &WindowEvent::KeyboardInput(ElementState::Pressed, None, Modifiers::new()),
        &t,
    );
    assert!(m.get_events(&t).is_empty());
}

#[test]
fn window_close_changes_nothing() {
    let mut m = InputManager::new();
    let t = at(100);
    m.translate_event(&press(5), &t);
    m.translate_event(&WindowEvent::Closed, &t);
    assert!(m.is_key_down(5));
}

#[test]
fn repeats_carry_the_current_modifier_snapshot() {
    let mut m = InputManager::new();
    let t = at(5_000_000);
    m.translate_event(&press(9), &t);
    let _ = m.get_events(&t);
    // A later keyboard event updates the stored modifiers; the synthesized
    // repeat for the still-held key uses the *current* snapshot.
    let shifted = Modifiers { shift: true, ctrl: false, alt: false, super_key: false };
    m.translate_event(
        &WindowEvent::KeyboardInput(ElementState::Released, Some(50), shifted),
        &at(5_050_000),
    );
    let batch = m.get_events(&at(5_100_000));
    assert_eq!(
        batch.as_vec().as_slice(),
        &[InputEvent::VirtKey(9, shifted, Repeat::EarlyRepeat(100_000))]
    );
}
