//! What a key means.
use vstd::prelude::*;

verus! {

/// What state the app is in when a key arrives. Used to disambiguate keys
/// that mean different things in different contexts (e.g. Ctrl-C).
#[derive(Debug, Clone, Copy, PartialEq, Eq, Structural)]
pub enum KeyContext {
    /// A network stream is currently delivering tokens.
    Streaming,
    /// Idle, and the user recently pressed Ctrl-C (within the quit-arm window).
    IdleArmed,
    /// Idle, no quit-arm active.
    IdleUnarmed,
    /// A dialog overlay is active (model select, help, etc).
    Dialog,
}

/// What the app should *do* in response to a key. Decoupled from the key
/// itself so that configurable keymaps can swap the resolver without
/// touching the app loop.
#[derive(Debug, Clone, Copy, PartialEq, Eq, Structural)]
pub enum Action {
    Submit,
    InsertNewline,
    CancelStream,
    QuitArm,
    QuitNow,
    /// Pass the key event through to the composer (typing, cursor movement,
    /// editing).
    ForwardToComposer,
    /// Scroll the fullscreen session message history.
    ScrollUp,
    ScrollDown,
    ScrollPageUp,
    ScrollPageDown,
    ScrollTop,
    ScrollBottom,
    /// Dialog navigation
    DialogUp,
    DialogDown,
    DialogConfirm,
    DialogClose,
}

/// The keys that have a meaning here, and one for all others.
#[derive(Debug, Clone, Copy, PartialEq, Eq, Structural)]
pub enum KeyCode {
    Char(char),
    Enter,
    Backspace,
    Delete,
    Tab,
    Left,
    Right,
    Up,
    Down,
    Home,
    End,
    PageUp,
    PageDown,
    Esc,
    Other,
}

/// The modifiers held while a key is pressed.
#[derive(Debug, Clone, Copy, PartialEq, Eq, Structural)]
pub struct KeyModifiers {
    pub ctrl: bool,
    pub alt: bool,
    pub shift: bool,
}

/// A pressed key.
#[derive(Debug, Clone, Copy, PartialEq, Eq, Structural)]
pub struct KeyEvent {
    pub code: KeyCode,
    pub modifiers: KeyModifiers,
}

impl KeyEvent {
    pub fn new(code: KeyCode, modifiers: KeyModifiers) -> (r: Self)
        ensures
            r == (KeyEvent { code, modifiers }),
    {
        KeyEvent { code, modifiers }
    }
}

/// The keys of an open dialog. Modifiers do not count.
pub open spec fn dialog_binding(code: KeyCode) -> Action {
    match code {
        KeyCode::Esc => Action::DialogClose,
        KeyCode::Up => Action::DialogUp,
        KeyCode::Down => Action::DialogDown,
        KeyCode::Enter => Action::DialogConfirm,
        KeyCode::Char(c) => if c == 'q' {
            Action::DialogClose
        } else if c == 'k' {
            Action::DialogUp
        } else if c == 'j' {
            Action::DialogDown
        } else {
            Action::ForwardToComposer
        },
        _ => Action::ForwardToComposer,
    }
}

/// The keys outside dialogs.
pub open spec fn chat_binding(k: KeyEvent, ctx: KeyContext) -> Action {
    let ctrl = k.modifiers.ctrl;
    match k.code {
        KeyCode::Char(c) => if !ctrl {
            Action::ForwardToComposer
        } else if c == 'c' {
            match ctx {
                KeyContext::Streaming => Action::CancelStream,
                KeyContext::IdleArmed => Action::QuitNow,
                KeyContext::IdleUnarmed => Action::QuitArm,
                KeyContext::Dialog => Action::DialogClose,
            }
        } else if c == 'd' {
            Action::QuitNow
        } else if c == 'k' {
            Action::ScrollUp
        } else if c == 'j' {
            Action::ScrollDown
        } else {
            Action::ForwardToComposer
        },
        KeyCode::Enter => if k.modifiers.shift || k.modifiers.alt {
            Action::InsertNewline
        } else {
            Action::Submit
        },
        KeyCode::Up => if ctrl {
            Action::ScrollUp
        } else {
            Action::ForwardToComposer
        },
        KeyCode::Down => if ctrl {
            Action::ScrollDown
        } else {
            Action::ForwardToComposer
        },
        KeyCode::PageUp => Action::ScrollPageUp,
        KeyCode::PageDown => Action::ScrollPageDown,
        KeyCode::Home => Action::ScrollTop,
        KeyCode::End => Action::ScrollBottom,
        _ => Action::ForwardToComposer,
    }
}

/// The default bindings.
pub open spec fn binding(k: KeyEvent, ctx: KeyContext) -> Action {
    if ctx == KeyContext::Dialog {
        dialog_binding(k.code)
    } else {
        chat_binding(k, ctx)
    }
}

/// Default keybindings. The function signature is the seam for
/// user-configurable bindings.
pub fn resolve(k: &KeyEvent, ctx: KeyContext) -> (r: Action)
    ensures
        r == binding(*k, ctx),
{
    let ctrl = k.modifiers.ctrl;
    let shift = k.modifiers.shift;
    let alt = k.modifiers.alt;

    // Dialog mode
    if ctx == KeyContext::Dialog {
        return match k.code {
            KeyCode::Esc | KeyCode::Char('q') => Action::DialogClose,
            KeyCode::Up | KeyCode::Char('k') => Action::DialogUp,
            KeyCode::Down | KeyCode::Char('j') => Action::DialogDown,
            KeyCode::Enter => Action::DialogConfirm,
            _ => Action::ForwardToComposer,
        };
    }
    if ctrl && k.code == KeyCode::Char('c') {
        return match ctx {
            KeyContext::Streaming => Action::CancelStream,
            KeyContext::IdleArmed => Action::QuitNow,
            KeyContext::IdleUnarmed => Action::QuitArm,
            KeyContext::Dialog => Action::DialogClose,
        };
    }
    if ctrl && k.code == KeyCode::Char('d') {
        return Action::QuitNow;
    }
    if k.code == KeyCode::Enter {
        if shift || alt {
            return Action::InsertNewline;
        }
        return Action::Submit;
    }
    // Scroll keys for fullscreen session mode

    match k.code {
        KeyCode::Up if ctrl => return Action::ScrollUp,
        KeyCode::Char('k') if ctrl => return Action::ScrollUp,
        KeyCode::Down if ctrl => return Action::ScrollDown,
        KeyCode::Char('j') if ctrl => return Action::ScrollDown,
        KeyCode::PageUp => return Action::ScrollPageUp,
        KeyCode::PageDown => return Action::ScrollPageDown,
        KeyCode::Home => return Action::ScrollTop,
        KeyCode::End => return Action::ScrollBottom,
        _ => {},
    }
    Action::ForwardToComposer
}

/// Outside a dialog no key navigates one, and in a dialog every key either
/// navigates it or is left alone: nothing submits, scrolls, cancels or quits.
pub proof fn law_dialog_keys_stay_apart(k: KeyEvent, ctx: KeyContext)
    ensures
        ({
            let a = binding(k, ctx);
            let navigates = a == Action::DialogUp || a == Action::DialogDown || a
                == Action::DialogConfirm || a == Action::DialogClose;
            if ctx == KeyContext::Dialog {
                navigates || a == Action::ForwardToComposer
            } else {
                !navigates
            }
        }),
{
}

/// Ctrl-C never quits at once: while a stream runs it cancels the stream, idle it
/// arms, and only a second press within the window quits.
pub proof fn law_ctrl_c(k: KeyEvent, ctx: KeyContext)
    requires
        k.code == KeyCode::Char('c'),
        k.modifiers.ctrl,
    ensures
        binding(k, ctx) == Action::QuitNow <==> ctx == KeyContext::IdleArmed,
        binding(k, ctx) == Action::CancelStream <==> ctx == KeyContext::Streaming,
        binding(k, ctx) == Action::QuitArm <==> ctx == KeyContext::IdleUnarmed,
{
}

/// The keys outside dialogs: Ctrl with c, d, k, j and the arrows, Enter, and the keys
/// that page. Every other key is typed.
pub proof fn law_chat_keys(k: KeyEvent, ctx: KeyContext)
    requires
        ctx != KeyContext::Dialog,
    ensures
        ({
            let a = binding(k, ctx);
            let ctrl = k.modifiers.ctrl;
            &&& a == Action::Submit <==> k.code == KeyCode::Enter && !k.modifiers.shift
                && !k.modifiers.alt
            &&& a == Action::InsertNewline <==> k.code == KeyCode::Enter && (k.modifiers.shift
                || k.modifiers.alt)
            &&& a == Action::QuitNow <==> ctrl && (k.code == KeyCode::Char('d') || (k.code
                == KeyCode::Char('c') && ctx == KeyContext::IdleArmed))
            &&& a == Action::QuitArm <==> ctrl && k.code == KeyCode::Char('c') && ctx
                == KeyContext::IdleUnarmed
            &&& a == Action::CancelStream <==> ctrl && k.code == KeyCode::Char('c') && ctx
                == KeyContext::Streaming
            &&& a == Action::ScrollUp <==> ctrl && (k.code == KeyCode::Up || k.code == KeyCode::Char(
                'k',
            ))
            &&& a == Action::ScrollDown <==> ctrl && (k.code == KeyCode::Down || k.code
                == KeyCode::Char('j'))
            &&& a == Action::ScrollPageUp <==> k.code == KeyCode::PageUp
            &&& a == Action::ScrollPageDown <==> k.code == KeyCode::PageDown
            &&& a == Action::ScrollTop <==> k.code == KeyCode::Home
            &&& a == Action::ScrollBottom <==> k.code == KeyCode::End
        }),
{
}

/// The keys of a dialog: the arrows or j and k move, Enter takes, Esc or q closes,
/// whatever is held with them.
pub proof fn law_dialog_bindings(k: KeyEvent)
    ensures
        ({
            let a = binding(k, KeyContext::Dialog);
            &&& a == Action::DialogUp <==> k.code == KeyCode::Up || k.code == KeyCode::Char('k')
            &&& a == Action::DialogDown <==> k.code == KeyCode::Down || k.code == KeyCode::Char('j')
            &&& a == Action::DialogConfirm <==> k.code == KeyCode::Enter
            &&& a == Action::DialogClose <==> k.code == KeyCode::Esc || k.code == KeyCode::Char('q')
        }),
{
}

} // verus!
