//! Logical actions a key press can resolve to, and the fixed dictionary of
//! action names accepted on the right-hand side of a rule.

use vstd::prelude::*;

verus! {

use vstd::string::StringSliceAdditionalSpecFns;
use crate::bytes::{bytes_eq, bytes_to_vec};

/// A logical action bound to a key: synthesize a key combination from a
/// textual spec, launch a program by path, or send a numeric host command.
#[derive(Debug, PartialEq, Eq)]
pub enum Action {
    KeyCombo(Vec<u8>),
    Run(Vec<u8>),
    AppCommand(u32),
}

/// The mathematical value of an [`Action`]: its payload as a byte sequence.
pub enum ActionV {
    KeyCombo(Seq<u8>),
    Run(Seq<u8>),
    AppCommand(u32),
}

impl View for Action {
    type V = ActionV;

    open spec fn view(&self) -> ActionV {
        match self {
            Action::KeyCombo(s) => ActionV::KeyCombo(s@),
            Action::Run(s) => ActionV::Run(s@),
            Action::AppCommand(c) => ActionV::AppCommand(*c),
        }
    }
}

impl Clone for Action {
    fn clone(&self) -> (r: Self)
        ensures
            r@ == self@,
    {
        match self {
            Action::KeyCombo(s) => Action::KeyCombo(bytes_to_vec(s.as_slice())),
            Action::Run(s) => Action::Run(bytes_to_vec(s.as_slice())),
            Action::AppCommand(c) => Action::AppCommand(*c),
        }
    }
}

/// The action names accepted verbatim on the right-hand side of a rule; each
/// stands for synthesizing the key combination of the same name.
#[verifier::opaque]
pub open spec fn spec_is_action_name(n: Seq<u8>) -> bool {
    n == "WIN+TAB".spec_bytes()
    || n == "WIN+S".spec_bytes()
    || n == "WIN+H".spec_bytes()
    || n == "WIN+A".spec_bytes()
    || n == "DELETE".spec_bytes()
    || n == "HOME".spec_bytes()
    || n == "END".spec_bytes()
    || n == "PAGE_UP".spec_bytes()
    || n == "PAGE_DOWN".spec_bytes()
    || n == "MUTE".spec_bytes()
    || n == "BRIGHTNESS_DOWN".spec_bytes()
    || n == "BRIGHTNESS_UP".spec_bytes()
    || n == "MEDIA_NEXT".spec_bytes()
    || n == "MEDIA_PREV".spec_bytes()
    || n == "MEDIA_PLAY_PAUSE".spec_bytes()
    || n == "VOLUME_UP".spec_bytes()
    || n == "VOLUME_DOWN".spec_bytes()
    || n == "A".spec_bytes()
    || n == "B".spec_bytes()
    || n == "C".spec_bytes()
    || n == "D".spec_bytes()
    || n == "E".spec_bytes()
    || n == "F".spec_bytes()
    || n == "G".spec_bytes()
    || n == "H".spec_bytes()
    || n == "I".spec_bytes()
    || n == "J".spec_bytes()
    || n == "K".spec_bytes()
    || n == "L".spec_bytes()
    || n == "M".spec_bytes()
    || n == "N".spec_bytes()
    || n == "O".spec_bytes()
    || n == "P".spec_bytes()
    || n == "Q".spec_bytes()
    || n == "R".spec_bytes()
    || n == "S".spec_bytes()
    || n == "T".spec_bytes()
    || n == "U".spec_bytes()
    || n == "V".spec_bytes()
    || n == "W".spec_bytes()
    || n == "X".spec_bytes()
    || n == "Y".spec_bytes()
    || n == "Z".spec_bytes()
    || n == "0".spec_bytes()
    || n == "1".spec_bytes()
    || n == "2".spec_bytes()
    || n == "3".spec_bytes()
    || n == "4".spec_bytes()
    || n == "5".spec_bytes()
    || n == "6".spec_bytes()
    || n == "7".spec_bytes()
    || n == "8".spec_bytes()
    || n == "9".spec_bytes()
    || n == "ENTER".spec_bytes()
    || n == "ESCAPE".spec_bytes()
    || n == "BACKSPACE".spec_bytes()
    || n == "TAB".spec_bytes()
    || n == "SPACE".spec_bytes()
    || n == "F1".spec_bytes()
    || n == "F2".spec_bytes()
    || n == "F3".spec_bytes()
    || n == "F4".spec_bytes()
    || n == "F5".spec_bytes()
    || n == "F6".spec_bytes()
    || n == "F7".spec_bytes()
    || n == "F8".spec_bytes()
    || n == "F9".spec_bytes()
    || n == "F10".spec_bytes()
    || n == "F11".spec_bytes()
    || n == "F12".spec_bytes()
    || n == "RIGHT_ARROW".spec_bytes()
    || n == "LEFT_ARROW".spec_bytes()
    || n == "DOWN_ARROW".spec_bytes()
    || n == "UP_ARROW".spec_bytes()
}

/// Look a right-hand side up in the fixed action-name dictionary.  Every entry
/// maps a name to the key combination of that same name.
pub fn string_to_action(name: &[u8]) -> (r: Option<Action>)
    ensures
        match r {
            Some(a) => spec_is_action_name(name@) && a@ == ActionV::KeyCombo(name@),
            None => !spec_is_action_name(name@),
        },
{
    proof {
        reveal(spec_is_action_name);
    }
    let hit = bytes_eq(name, "WIN+TAB".as_bytes())
    || bytes_eq(name, "WIN+S".as_bytes())
    || bytes_eq(name, "WIN+H".as_bytes())
    || bytes_eq(name, "WIN+A".as_bytes())
    || bytes_eq(name, "DELETE".as_bytes())
    || bytes_eq(name, "HOME".as_bytes())
    || bytes_eq(name, "END".as_bytes())
    || bytes_eq(name, "PAGE_UP".as_bytes())
    || bytes_eq(name, "PAGE_DOWN".as_bytes())
    || bytes_eq(name, "MUTE".as_bytes())
    || bytes_eq(name, "BRIGHTNESS_DOWN".as_bytes())
    || bytes_eq(name, "BRIGHTNESS_UP".as_bytes())
    || bytes_eq(name, "MEDIA_NEXT".as_bytes())
    || bytes_eq(name, "MEDIA_PREV".as_bytes())
    || bytes_eq(name, "MEDIA_PLAY_PAUSE".as_bytes())
    || bytes_eq(name, "VOLUME_UP".as_bytes())
    || bytes_eq(name, "VOLUME_DOWN".as_bytes())
    || bytes_eq(name, "A".as_bytes())
    || bytes_eq(name, "B".as_bytes())
    || bytes_eq(name, "C".as_bytes())
    || bytes_eq(name, "D".as_bytes())
    || bytes_eq(name, "E".as_bytes())
    || bytes_eq(name, "F".as_bytes())
    || bytes_eq(name, "G".as_bytes())
    || bytes_eq(name, "H".as_bytes())
    || bytes_eq(name, "I".as_bytes())
    || bytes_eq(name, "J".as_bytes())
    || bytes_eq(name, "K".as_bytes())
    || bytes_eq(name, "L".as_bytes())
    || bytes_eq(name, "M".as_bytes())
    || bytes_eq(name, "N".as_bytes())
    || bytes_eq(name, "O".as_bytes())
    || bytes_eq(name, "P".as_bytes())
    || bytes_eq(name, "Q".as_bytes())
    || bytes_eq(name, "R".as_bytes())
    || bytes_eq(name, "S".as_bytes())
    || bytes_eq(name, "T".as_bytes())
    || bytes_eq(name, "U".as_bytes())
    || bytes_eq(name, "V".as_bytes())
    || bytes_eq(name, "W".as_bytes())
    || bytes_eq(name, "X".as_bytes())
    || bytes_eq(name, "Y".as_bytes())
    || bytes_eq(name, "Z".as_bytes())
    || bytes_eq(name, "0".as_bytes())
    || bytes_eq(name, "1".as_bytes())
    || bytes_eq(name, "2".as_bytes())
    || bytes_eq(name, "3".as_bytes())
    || bytes_eq(name, "4".as_bytes())
    || bytes_eq(name, "5".as_bytes())
    || bytes_eq(name, "6".as_bytes())
    || bytes_eq(name, "7".as_bytes())
    || bytes_eq(name, "8".as_bytes())
    || bytes_eq(name, "9".as_bytes())
    || bytes_eq(name, "ENTER".as_bytes())
    || bytes_eq(name, "ESCAPE".as_bytes())
    || bytes_eq(name, "BACKSPACE".as_bytes())
    || bytes_eq(name, "TAB".as_bytes())
    || bytes_eq(name, "SPACE".as_bytes())
    || bytes_eq(name, "F1".as_bytes())
    || bytes_eq(name, "F2".as_bytes())
    || bytes_eq(name, "F3".as_bytes())
    || bytes_eq(name, "F4".as_bytes())
    || bytes_eq(name, "F5".as_bytes())
    || bytes_eq(name, "F6".as_bytes())
    || bytes_eq(name, "F7".as_bytes())
    || bytes_eq(name, "F8".as_bytes())
    || bytes_eq(name, "F9".as_bytes())
    || bytes_eq(name, "F10".as_bytes())
    || bytes_eq(name, "F11".as_bytes())
    || bytes_eq(name, "F12".as_bytes())
    || bytes_eq(name, "RIGHT_ARROW".as_bytes())
    || bytes_eq(name, "LEFT_ARROW".as_bytes())
    || bytes_eq(name, "DOWN_ARROW".as_bytes())
    || bytes_eq(name, "UP_ARROW".as_bytes());
    if hit {
        Some(Action::KeyCombo(bytes_to_vec(name)))
    } else {
        None
    }
}

} // verus!
