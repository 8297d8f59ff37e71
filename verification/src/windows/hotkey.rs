//! The shortcuts that take the place of the system's own.
use vstd::prelude::*;

use crate::text::push_word;

verus! {

/// What a shortcut asks for.
#[derive(Clone, Copy, Debug, PartialEq, Eq, Structural)]
pub enum ShortcutAction {
    Area,
    Record,
}

/// The words that a shortcut starts the program with.
pub open spec fn shortcut_words(action: ShortcutAction) -> Seq<Seq<char>> {
    match action {
        ShortcutAction::Area => seq!["area"@, "--instant"@],
        ShortcutAction::Record => seq!["record"@],
    }
}

/// The words that a shortcut starts the program with.
pub fn shortcut_arguments(action: ShortcutAction) -> (r: Vec<String>)
    ensures
        crate::text::views(r@) == shortcut_words(action),
{
    let mut words: Vec<String> = Vec::new();
    match action {
        ShortcutAction::Area => {
            push_word(&mut words, "area");
            push_word(&mut words, "--instant");
        },
        ShortcutAction::Record => {
            push_word(&mut words, "record");
        },
    }
    proof {
        assert(crate::text::views(words@) =~= shortcut_words(action));
    }
    words
}

/// A key that the shortcuts know.
#[derive(Clone, Copy, Debug, PartialEq, Eq, Structural)]
pub enum Key {
    LeftWin,
    RightWin,
    LeftShift,
    RightShift,
    Shift,
    PrintScreen,
    S,
    Other,
}

/// The key of a number of Windows.
pub fn key_of(code: u32) -> (r: Key)
    ensures
        r == (if code == 0x5b {
            Key::LeftWin
        } else if code == 0x5c {
            Key::RightWin
        } else if code == 0xa0 {
            Key::LeftShift
        } else if code == 0xa1 {
            Key::RightShift
        } else if code == 0x10 {
            Key::Shift
        } else if code == 0x2c {
            Key::PrintScreen
        } else if code == 0x53 {
            Key::S
        } else {
            Key::Other
        }),
{
    if code == 0x5b {
        Key::LeftWin
    } else if code == 0x5c {
        Key::RightWin
    } else if code == 0xa0 {
        Key::LeftShift
    } else if code == 0xa1 {
        Key::RightShift
    } else if code == 0x10 {
        Key::Shift
    } else if code == 0x2c {
        Key::PrintScreen
    } else if code == 0x53 {
        Key::S
    } else {
        Key::Other
    }
}

/// Whether a message says that a key goes down or up: neither where it is about something else.
pub fn goes_down(message: u32) -> (r: Option<bool>)
    ensures
        r == (if message == 0x100 || message == 0x104 {
            Some(true)
        } else if message == 0x101 || message == 0x105 {
            Some(false)
        } else {
            None
        }),
{
    if message == 0x100 || message == 0x104 {
        Some(true)
    } else if message == 0x101 || message == 0x105 {
        Some(false)
    } else {
        None
    }
}

/// What is done about a key.
#[derive(Clone, Copy, Debug, PartialEq, Eq, Structural)]
pub struct Handled {
    /// No other program sees the key.
    pub blocked: bool,
    pub launch: Option<ShortcutAction>,
}

/// The keys that are held.
#[derive(Clone, Copy, Debug, PartialEq, Eq, Structural)]
pub struct Keyboard {
    pub left_win: bool,
    pub right_win: bool,
    pub left_shift: bool,
    pub right_shift: bool,
    pub generic_shift: bool,
    /// Print Screen is held and was kept from the other programs.
    pub print_screen_blocked: bool,
    /// The S of the other shortcut is held and was kept from the other programs.
    pub win_shift_s_blocked: bool,
}

impl Keyboard {
    /// The keys of the second shortcut but for its letter are held.
    pub open spec fn chorded(self) -> bool {
        (self.left_win || self.right_win) && (self.left_shift || self.right_shift
            || self.generic_shift)
    }

    /// What a key that goes down or up does.
    pub open spec fn keyed(self, key: Key, down: bool) -> (Keyboard, Handled) {
        let passed = Handled { blocked: false, launch: None };
        let kept = Handled { blocked: true, launch: None };
        let launched = Handled { blocked: true, launch: Some(ShortcutAction::Area) };
        match key {
            Key::LeftWin => (Keyboard { left_win: down, ..self }, passed),
            Key::RightWin => (Keyboard { right_win: down, ..self }, passed),
            Key::LeftShift => (Keyboard { left_shift: down, ..self }, passed),
            Key::RightShift => (Keyboard { right_shift: down, ..self }, passed),
            Key::Shift => (Keyboard { generic_shift: down, ..self }, passed),
            Key::PrintScreen => (
                Keyboard { print_screen_blocked: down, ..self },
                if down {
                    if self.print_screen_blocked {
                        kept
                    } else {
                        launched
                    }
                } else if self.print_screen_blocked {
                    kept
                } else {
                    passed
                },
            ),
            Key::S => if down {
                if self.chorded() {
                    (
                        Keyboard { win_shift_s_blocked: true, ..self },
                        if self.win_shift_s_blocked {
                            kept
                        } else {
                            launched
                        },
                    )
                } else {
                    (self, passed)
                }
            } else {
                (
                    Keyboard { win_shift_s_blocked: false, ..self },
                    if self.win_shift_s_blocked {
                        kept
                    } else {
                        passed
                    },
                )
            },
            Key::Other => (self, passed),
        }
    }

    /// No key is held.
    pub fn new() -> (r: Self)
        ensures
            r == (Keyboard {
                left_win: false,
                right_win: false,
                left_shift: false,
                right_shift: false,
                generic_shift: false,
                print_screen_blocked: false,
                win_shift_s_blocked: false,
            }),
    {
        Keyboard {
            left_win: false,
            right_win: false,
            left_shift: false,
            right_shift: false,
            generic_shift: false,
            print_screen_blocked: false,
            win_shift_s_blocked: false,
        }
    }

    /// What a key that goes down or up does.
    pub fn keyboard_hook(&mut self, key: Key, down: bool) -> (r: Handled)
        ensures
            (*final(self), r) == old(self).keyed(key, down),
    {
        match key {
            Key::LeftWin => {
                self.left_win = down;
            },
            Key::RightWin => {
                self.right_win = down;
            },
            Key::LeftShift => {
                self.left_shift = down;
            },
            Key::RightShift => {
                self.right_shift = down;
            },
            Key::Shift => {
                self.generic_shift = down;
            },
            Key::PrintScreen => {
                let blocked = self.print_screen_blocked;
                self.print_screen_blocked = down;
                if down && !blocked {
                    return Handled { blocked: true, launch: Some(ShortcutAction::Area) };
                }
                if down || blocked {
                    return Handled { blocked: true, launch: None };
                }
            },
            Key::S => {
                let blocked = self.win_shift_s_blocked;
                if down {
                    if (self.left_win || self.right_win) && (self.left_shift || self.right_shift
                        || self.generic_shift) {
                        self.win_shift_s_blocked = true;
                        if blocked {
                            return Handled { blocked: true, launch: None };
                        }
                        return Handled { blocked: true, launch: Some(ShortcutAction::Area) };
                    }
                } else {
                    self.win_shift_s_blocked = false;
                    if blocked {
                        return Handled { blocked: true, launch: None };
                    }
                }
            },
            Key::Other => {},
        }
        Handled { blocked: false, launch: None }
    }
}

/// A key that is held launches once, however often it repeats.
pub proof fn lemma_repeats_launch_once(keyboard: Keyboard, key: Key)
    ensures
        keyboard.keyed(key, true).0.keyed(key, true).1.launch is None,
{
}

/// Where a shortcut was kept from the other programs, so is the key's release: they never see one
/// without the other.
pub proof fn lemma_release_is_kept(keyboard: Keyboard, key: Key)
    requires
        keyboard.keyed(key, true).1.blocked,
    ensures
        keyboard.keyed(key, true).0.keyed(key, false).1.blocked,
{
}

/// Where a key was let through, so is its release, if it was not kept before.
pub proof fn lemma_release_is_passed(keyboard: Keyboard, key: Key)
    requires
        !keyboard.keyed(key, true).1.blocked,
        !keyboard.win_shift_s_blocked,
    ensures
        !keyboard.keyed(key, true).0.keyed(key, false).1.blocked,
{
}

/// Both shortcuts are called as commands: an area at once, and a recording.
pub proof fn lemma_shortcut_words(action: ShortcutAction, words: Vec<String>)
    requires
        call_ensures(shortcut_arguments, (action,), words),
    ensures
        action == ShortcutAction::Area ==> words@.len() == 2 && words@[0]@ == "area"@ && words@[1]@
            == "--instant"@,
        action == ShortcutAction::Record ==> words@.len() == 1 && words@[0]@ == "record"@,
{
    let told = crate::text::views(words@);
    assert(told.len() == words@.len());
    assert(told[0] == words@[0]@);
    if action == ShortcutAction::Area {
        assert(told[1] == words@[1]@);
    }
}

/// Which key a code is, and which way it goes.
pub proof fn lemma_keys(code: u32, key: Key, message: u32, down: Option<bool>)
    requires
        call_ensures(key_of, (code,), key),
        call_ensures(goes_down, (message,), down),
    ensures
        key == Key::LeftWin <==> code == 0x5b,
        key == Key::RightWin <==> code == 0x5c,
        key == Key::LeftShift <==> code == 0xa0,
        key == Key::RightShift <==> code == 0xa1,
        key == Key::Shift <==> code == 0x10,
        key == Key::PrintScreen <==> code == 0x2c,
        key == Key::S <==> code == 0x53,
        down == Some(true) <==> message == 0x100 || message == 0x104,
        down == Some(false) <==> message == 0x101 || message == 0x105,
{
}

/// A key that is held is remembered by itself, and nothing is launched but by the two shortcuts; what
/// launches is kept from others.
pub proof fn lemma_keyed(keyboard: Keyboard, key: Key, down: bool)
    ensures
        ({
            let (after, handled) = keyboard.keyed(key, down);
            &&& after.left_win == (if key == Key::LeftWin {
                down
            } else {
                keyboard.left_win
            })
            &&& after.right_win == (if key == Key::RightWin {
                down
            } else {
                keyboard.right_win
            })
            &&& after.left_shift == (if key == Key::LeftShift {
                down
            } else {
                keyboard.left_shift
            })
            &&& after.right_shift == (if key == Key::RightShift {
                down
            } else {
                keyboard.right_shift
            })
            &&& after.generic_shift == (if key == Key::Shift {
                down
            } else {
                keyboard.generic_shift
            })
            &&& handled.launch is Some ==> handled.launch == Some(ShortcutAction::Area)
                && handled.blocked && down
            &&& handled.launch is Some <==> down && ((key == Key::PrintScreen
                && !keyboard.print_screen_blocked) || (key == Key::S && !keyboard.win_shift_s_blocked
                && (keyboard.left_win || keyboard.right_win) && (keyboard.left_shift
                || keyboard.right_shift || keyboard.generic_shift)))
            &&& handled.blocked ==> key == Key::PrintScreen || key == Key::S
            &&& key == Key::PrintScreen && down ==> handled.blocked
            &&& key != Key::PrintScreen ==> after.print_screen_blocked
                == keyboard.print_screen_blocked
            &&& key != Key::S ==> after.win_shift_s_blocked == keyboard.win_shift_s_blocked
        }),
{
}

} // verus!
