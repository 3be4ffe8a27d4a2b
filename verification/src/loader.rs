//! The rule-file grammar: one rule per line, `#`-prefixed and blank lines
//! ignored, each remaining line an `=`-separated pair of a modifier-prefixed
//! control name and an action.

use vstd::prelude::*;

verus! {

use vstd::string::StringSliceAdditionalSpecFns;
use crate::HidKey;
use crate::actions::{Action, ActionV, string_to_action};
use crate::bytes::{
    bytes_to_vec,
    find_byte,
    has_prefix,
    parse_u32_bytes,
    rfind_pair,
    spec_find,
    spec_parse_u32,
    spec_rfind2,
    spec_trim,
    strip_prefix_bytes,
    trim_bytes,
};
use crate::context::ModContext;
use crate::keys::{spec_key_for_name, string_to_hid_key};

/// What one line of the rule file means.
#[derive(Debug)]
pub enum LineOutcome {
    /// A blank line or a comment: ignored, not counted.
    Blank,
    /// A counted line that yields no rule: no single `=`, or an unknown
    /// control name.
    Malformed,
    /// A rule.  `diagnostic` notes a malformed `RUN`/`APPCOMMAND` call that
    /// fell back to a key-combination action.
    Rule { ctx: ModContext, key: HidKey, action: Action, diagnostic: bool },
}

/// The mathematical value of a [`LineOutcome`].
#[verifier::ext_equal]
pub enum LineOutcomeV {
    Blank,
    Malformed,
    Rule { ctx: ModContext, key: HidKey, action: ActionV, diagnostic: bool },
}

impl View for LineOutcome {
    type V = LineOutcomeV;

    open spec fn view(&self) -> LineOutcomeV {
        match self {
            LineOutcome::Blank => LineOutcomeV::Blank,
            LineOutcome::Malformed => LineOutcomeV::Malformed,
            LineOutcome::Rule { ctx, key, action, diagnostic } => LineOutcomeV::Rule {
                ctx: *ctx,
                key: *key,
                action: action@,
                diagnostic: *diagnostic,
            },
        }
    }
}

/// Strip an optional shift prefix (either physical shift key) from a
/// left-hand side; the flag says whether one was present.
pub open spec fn spec_strip_shift(lhs: Seq<u8>) -> (bool, Seq<u8>) {
    if has_prefix(lhs, "LEFT_SHIFT+".spec_bytes()) {
        (true, spec_trim(lhs.subrange("LEFT_SHIFT+".spec_bytes().len() as int, lhs.len() as int)))
    } else if has_prefix(lhs, "RIGHT_SHIFT+".spec_bytes()) {
        (true, spec_trim(lhs.subrange("RIGHT_SHIFT+".spec_bytes().len() as int, lhs.len() as int)))
    } else {
        (false, lhs)
    }
}

/// Strip an optional `EJECT+` prefix.
pub open spec fn spec_strip_eject(s: Seq<u8>) -> (bool, Seq<u8>) {
    if has_prefix(s, "EJECT+".spec_bytes()) {
        (true, spec_trim(s.subrange("EJECT+".spec_bytes().len() as int, s.len() as int)))
    } else {
        (false, s)
    }
}

/// Strip an optional `FN+` prefix.
pub open spec fn spec_strip_fn(s: Seq<u8>) -> (bool, Seq<u8>) {
    if has_prefix(s, "FN+".spec_bytes()) {
        (true, spec_trim(s.subrange("FN+".spec_bytes().len() as int, s.len() as int)))
    } else {
        (false, s)
    }
}

/// The context a rule is filed under, from the modifier prefixes present on
/// its left-hand side.  The combined eject-and-function context takes
/// precedence over either alone; shift is its own context, not combinable.
pub open spec fn spec_rule_context(is_shift: bool, is_eject: bool, is_fn: bool) -> ModContext {
    if is_eject && is_fn {
        ModContext::EjectFn
    } else if is_eject {
        ModContext::Eject
    } else if is_shift {
        ModContext::Shift
    } else if is_fn {
        ModContext::FnLayer
    } else {
        ModContext::Normal
    }
}

/// The action a right-hand side parses to, with a flag for a malformed
/// `RUN`/`APPCOMMAND` call that fell back to a key combination.  A right-hand
/// side that is neither call form is a key-combination spec, whether or not it
/// is one of the named actions of the dictionary.
pub open spec fn spec_parse_rhs(rhs: Seq<u8>) -> (ActionV, bool) {
    if has_prefix(rhs, "RUN(\"".spec_bytes()) {
        let rest = rhs.subrange("RUN(\"".spec_bytes().len() as int, rhs.len() as int);
        match spec_rfind2(rest, 34, 41) {
            Some(e) => (ActionV::Run(rest.subrange(0, e)), false),
            None => (ActionV::KeyCombo(rhs), true),
        }
    } else if has_prefix(rhs, "APPCOMMAND(".spec_bytes()) {
        let rest = rhs.subrange("APPCOMMAND(".spec_bytes().len() as int, rhs.len() as int);
        match spec_find(rest, 41) {
            Some(e) => match spec_parse_u32(rest.subrange(0, e)) {
                Some(v) => (ActionV::AppCommand(v), false),
                None => (ActionV::KeyCombo(rhs), true),
            },
            None => (ActionV::KeyCombo(rhs), true),
        }
    } else {
        (ActionV::KeyCombo(rhs), false)
    }
}

/// What the two `=`-separated, trimmed sides of a counted line mean.
pub open spec fn spec_parse_sides(lhs: Seq<u8>, rhs: Seq<u8>) -> LineOutcomeV {
    let (is_shift, r1) = spec_strip_shift(lhs);
    let (is_eject, r2) = spec_strip_eject(r1);
    let (is_fn, name) = spec_strip_fn(r2);
    match spec_key_for_name(name) {
        None => LineOutcomeV::Malformed,
        Some(key) => {
            let (action, diagnostic) = spec_parse_rhs(rhs);
            LineOutcomeV::Rule {
                ctx: spec_rule_context(is_shift, is_eject, is_fn),
                key,
                action,
                diagnostic,
            }
        },
    }
}

/// What one raw line of the rule file means.
pub open spec fn spec_parse_line(line: Seq<u8>) -> LineOutcomeV {
    let t = spec_trim(line);
    if t.len() == 0 || t[0] == 35 {
        LineOutcomeV::Blank
    } else {
        match spec_find(t, 61) {
            None => LineOutcomeV::Malformed,
            Some(i) => if spec_find(t.subrange(i + 1, t.len() as int), 61) is Some {
                LineOutcomeV::Malformed
            } else {
                spec_parse_sides(
                    spec_trim(t.subrange(0, i)),
                    spec_trim(t.subrange(i + 1, t.len() as int)),
                )
            },
        }
    }
}

/// Parse the right-hand side of a rule into its action.
fn parse_rhs(rhs: &[u8]) -> (r: (Action, bool))
    ensures
        (r.0@, r.1) == spec_parse_rhs(rhs@),
{
    if let Some(rest) = strip_prefix_bytes(rhs, "RUN(\"".as_bytes()) {
        match rfind_pair(rest, 34, 41) {
            Some(e) => {
                let path = vstd::slice::slice_subrange(rest, 0, e);
                (Action::Run(bytes_to_vec(path)), false)
            },
            None => (Action::KeyCombo(bytes_to_vec(rhs)), true),
        }
    } else if let Some(rest) = strip_prefix_bytes(rhs, "APPCOMMAND(".as_bytes()) {
        match find_byte(rest, 41) {
            Some(e) => {
                let digits = vstd::slice::slice_subrange(rest, 0, e);
                match parse_u32_bytes(digits) {
                    Some(v) => (Action::AppCommand(v), false),
                    None => (Action::KeyCombo(bytes_to_vec(rhs)), true),
                }
            },
            None => (Action::KeyCombo(bytes_to_vec(rhs)), true),
        }
    } else {
        // The dictionary maps every known action name to the key combination
        // of the same name, so a miss and a hit come to the same value.
        match string_to_action(rhs) {
            Some(a) => (a, false),
            None => (Action::KeyCombo(bytes_to_vec(rhs)), false),
        }
    }
}

/// Parse one line of the rule file.
pub fn parse_rule_line(line: &[u8]) -> (r: LineOutcome)
    ensures
        r@ == spec_parse_line(line@),
{
    let t = trim_bytes(line);
    if t.len() == 0 || t[0] == 35 {
        return LineOutcome::Blank;
    }
    let i = match find_byte(t, 61) {
        None => {
            return LineOutcome::Malformed;
        },
        Some(i) => i,
    };
    let after = vstd::slice::slice_subrange(t, i + 1, t.len());
    if find_byte(after, 61).is_some() {
        return LineOutcome::Malformed;
    }
    let lhs = trim_bytes(vstd::slice::slice_subrange(t, 0, i));
    let rhs = trim_bytes(after);

    let (is_shift, r1) = match strip_prefix_bytes(lhs, "LEFT_SHIFT+".as_bytes()) {
        Some(rest) => (true, trim_bytes(rest)),
        None => match strip_prefix_bytes(lhs, "RIGHT_SHIFT+".as_bytes()) {
            Some(rest) => (true, trim_bytes(rest)),
            None => (false, lhs),
        },
    };
    let (is_eject, r2) = match strip_prefix_bytes(r1, "EJECT+".as_bytes()) {
        Some(rest) => (true, trim_bytes(rest)),
        None => (false, r1),
    };
    let (is_fn, name) = match strip_prefix_bytes(r2, "FN+".as_bytes()) {
        Some(rest) => (true, trim_bytes(rest)),
        None => (false, r2),
    };
    let key = match string_to_hid_key(name) {
        None => {
            return LineOutcome::Malformed;
        },
        Some(k) => k,
    };
    let (action, diagnostic) = parse_rhs(rhs);
    let ctx = rule_context_of(is_shift, is_eject, is_fn);
    LineOutcome::Rule { ctx, key, action, diagnostic }
}

/// The context a rule is filed under, from its modifier prefixes.
fn rule_context_of(is_shift: bool, is_eject: bool, is_fn: bool) -> (c: ModContext)
    ensures
        c == spec_rule_context(is_shift, is_eject, is_fn),
{
    if is_eject && is_fn {
        ModContext::EjectFn
    } else if is_eject {
        ModContext::Eject
    } else if is_shift {
        ModContext::Shift
    } else if is_fn {
        ModContext::FnLayer
    } else {
        ModContext::Normal
    }
}

} // verus!
