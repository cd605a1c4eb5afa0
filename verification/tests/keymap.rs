use aili::tui::keymap::{resolve, Action, KeyCode, KeyContext, KeyEvent, KeyModifiers};

const NONE: KeyModifiers = KeyModifiers { ctrl: false, alt: false, shift: false };
const CONTROL: KeyModifiers = KeyModifiers { ctrl: true, alt: false, shift: false };
const SHIFT: KeyModifiers = KeyModifiers { ctrl: false, alt: false, shift: true };

fn key(code: KeyCode, mods: KeyModifiers) -> KeyEvent {
    KeyEvent::new(code, mods)
}

#[test]
fn ctrl_c_streaming_cancels() {
    let r = resolve(&key(KeyCode::Char('c'), CONTROL), KeyContext::Streaming);
    assert_eq!(r, Action::CancelStream);
}

#[test]
fn esc_closes_dialog() {
    let r = resolve(&key(KeyCode::Esc, NONE), KeyContext::Dialog);
    assert_eq!(r, Action::DialogClose);
}

#[test]
fn ctrl_c_idle_arms_then_quits() {
    let r1 = resolve(&key(KeyCode::Char('c'), CONTROL), KeyContext::IdleUnarmed);
    assert_eq!(r1, Action::QuitArm);
    let r2 = resolve(&key(KeyCode::Char('c'), CONTROL), KeyContext::IdleArmed);
    assert_eq!(r2, Action::QuitNow);
}

#[test]
fn enter_submits_shift_enter_newlines() {
    assert_eq!(resolve(&key(KeyCode::Enter, NONE), KeyContext::IdleUnarmed), Action::Submit);
    assert_eq!(
        resolve(&key(KeyCode::Enter, SHIFT), KeyContext::IdleUnarmed),
        Action::InsertNewline
    );
}

#[test]
fn ctrl_d_quits() {
    assert_eq!(
        resolve(&key(KeyCode::Char('d'), CONTROL), KeyContext::IdleUnarmed),
        Action::QuitNow
    );
}

#[test]
fn unknown_keys_forward_to_composer() {
    assert_eq!(
        resolve(&key(KeyCode::Char('x'), NONE), KeyContext::IdleUnarmed),
        Action::ForwardToComposer
    );
}

#[test]
fn dialog_keys_are_its_own() {
    let dialog = |code: KeyCode| resolve(&key(code, CONTROL), KeyContext::Dialog);
    assert_eq!(dialog(KeyCode::Char('q')), Action::DialogClose);
    assert_eq!(dialog(KeyCode::Char('k')), Action::DialogUp);
    assert_eq!(dialog(KeyCode::Down), Action::DialogDown);
    assert_eq!(dialog(KeyCode::Enter), Action::DialogConfirm);
    assert_eq!(dialog(KeyCode::Char('c')), Action::ForwardToComposer);
}

#[test]
fn scroll_keys_scroll() {
    let chat = |code: KeyCode, mods: KeyModifiers| resolve(&key(code, mods), KeyContext::Streaming);
    assert_eq!(chat(KeyCode::PageUp, NONE), Action::ScrollPageUp);
    assert_eq!(chat(KeyCode::PageDown, NONE), Action::ScrollPageDown);
    assert_eq!(chat(KeyCode::Home, NONE), Action::ScrollTop);
    assert_eq!(chat(KeyCode::End, NONE), Action::ScrollBottom);
    assert_eq!(chat(KeyCode::Up, CONTROL), Action::ScrollUp);
    assert_eq!(chat(KeyCode::Up, NONE), Action::ForwardToComposer);
    assert_eq!(chat(KeyCode::Char('j'), CONTROL), Action::ScrollDown);
    assert_eq!(chat(KeyCode::Char('j'), NONE), Action::ForwardToComposer);
}
