//! The modifier context: which of the five mutually exclusive combinations of
//! held modifiers selects the table a key press is resolved against.

use vstd::prelude::*;

verus! {

/// One of the five modifier contexts a rule can be filed under and a press can
/// be resolved in.
#[derive(Debug, Clone, Copy, PartialEq, Eq, Hash, Structural)]
pub enum ModContext {
    Normal,
    FnLayer,
    Shift,
    Eject,
    EjectFn,
}

/// The context selected by a set of held modifiers, by strict priority:
/// eject and function layer together, then eject, then shift, then the
/// function layer, then none.
pub open spec fn spec_context(fn_down: bool, shift_down: bool, eject_down: bool) -> ModContext {
    if eject_down && fn_down {
        ModContext::EjectFn
    } else if eject_down {
        ModContext::Eject
    } else if shift_down {
        ModContext::Shift
    } else if fn_down {
        ModContext::FnLayer
    } else {
        ModContext::Normal
    }
}

/// Select the modifier context for a set of held modifiers.  Both the mapping
/// engine and the decide-without-committing lookup go through this one
/// function.
pub fn select_context(fn_down: bool, shift_down: bool, eject_down: bool) -> (c: ModContext)
    ensures
        c == spec_context(fn_down, shift_down, eject_down),
{
    if eject_down && fn_down {
        ModContext::EjectFn
    } else if eject_down {
        ModContext::Eject
    } else if shift_down {
        ModContext::Shift
    } else if fn_down {
        ModContext::FnLayer
    } else {
        ModContext::Normal
    }
}

} // verus!
