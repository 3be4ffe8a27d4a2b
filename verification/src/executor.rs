//! The compute half of action execution: turn a resolved action into the
//! exact sequence of host operations an executor must perform, including the
//! parsing of key-combination specs into virtual-key codes.

use vstd::prelude::*;

verus! {

use vstd::string::StringSliceAdditionalSpecFns;
use crate::actions::{Action, ActionV};
use crate::bytes::{
    bytes_eq,
    bytes_to_vec,
    find_byte,
    lemma_spec_find_bounds,
    spec_find,
    spec_trim,
    spec_upper,
    to_upper_bytes,
    trim_bytes,
};

/// One primitive operation handed to the host-side executor: press or
/// release a virtual key, launch a program by path, or post a numeric
/// application command.
#[derive(Debug, PartialEq, Eq)]
pub enum HostOp {
    KeyDown(u16),
    KeyUp(u16),
    Launch(Vec<u8>),
    AppCommand(u32),
}

/// The mathematical value of a [`HostOp`].
pub enum HostOpV {
    KeyDown(u16),
    KeyUp(u16),
    Launch(Seq<u8>),
    AppCommand(u32),
}

impl View for HostOp {
    type V = HostOpV;

    open spec fn view(&self) -> HostOpV {
        match self {
            HostOp::KeyDown(v) => HostOpV::KeyDown(*v),
            HostOp::KeyUp(v) => HostOpV::KeyUp(*v),
            HostOp::Launch(p) => HostOpV::Launch(p@),
            HostOp::AppCommand(c) => HostOpV::AppCommand(*c),
        }
    }
}

/// The views of a sequence of host operations.
pub open spec fn ops_view(s: Seq<HostOp>) -> Seq<HostOpV> {
    s.map_values(|o: HostOp| o@)
}

/// The virtual-key code a key name stands for, 0 when the name is unknown;
/// names are matched after ASCII upper-casing by the combo parser.
#[verifier::opaque]
pub open spec fn spec_parse_key(k: Seq<u8>) -> u16 {
    if k == "ESC".spec_bytes() || k == "ESCAPE".spec_bytes() {
        0x1B
    } else if k == "TAB".spec_bytes() {
        0x09
    } else if k == "ENTER".spec_bytes() || k == "RETURN".spec_bytes() {
        0x0D
    } else if k == "BACKSPACE".spec_bytes() {
        0x08
    } else if k == "SPACE".spec_bytes() {
        0x20
    } else if k == "DELETE".spec_bytes() {
        0x2E
    } else if k == "HOME".spec_bytes() {
        0x24
    } else if k == "END".spec_bytes() {
        0x23
    } else if k == "PAGE_UP".spec_bytes() || k == "PAGEUP".spec_bytes() {
        0x21
    } else if k == "PAGE_DOWN".spec_bytes() || k == "PAGEDOWN".spec_bytes() {
        0x22
    } else if k == "LEFT_ARROW".spec_bytes() || k == "LEFT".spec_bytes() {
        0x25
    } else if k == "RIGHT_ARROW".spec_bytes() || k == "RIGHT".spec_bytes() {
        0x27
    } else if k == "UP_ARROW".spec_bytes() || k == "UP".spec_bytes() {
        0x26
    } else if k == "DOWN_ARROW".spec_bytes() || k == "DOWN".spec_bytes() {
        0x28
    } else if k == "F1".spec_bytes() {
        0x70
    } else if k == "F2".spec_bytes() {
        0x71
    } else if k == "F3".spec_bytes() {
        0x72
    } else if k == "F4".spec_bytes() {
        0x73
    } else if k == "F5".spec_bytes() {
        0x74
    } else if k == "F6".spec_bytes() {
        0x75
    } else if k == "F7".spec_bytes() {
        0x76
    } else if k == "F8".spec_bytes() {
        0x77
    } else if k == "F9".spec_bytes() {
        0x78
    } else if k == "F10".spec_bytes() {
        0x79
    } else if k == "F11".spec_bytes() {
        0x7A
    } else if k == "F12".spec_bytes() {
        0x7B
    } else if k == "BRIGHTNESS_DOWN".spec_bytes() {
        0xE6
    } else if k == "BRIGHTNESS_UP".spec_bytes() {
        0xE7
    } else if k == "MEDIA_NEXT".spec_bytes() || k == "NEXT_TRACK".spec_bytes() {
        0xB0
    } else if k == "MEDIA_PREV".spec_bytes() || k == "PREV_TRACK".spec_bytes() {
        0xB1
    } else if k == "MEDIA_PLAY_PAUSE".spec_bytes() || k == "PLAY_PAUSE".spec_bytes() {
        0xB3
    } else if k == "MEDIA_STOP".spec_bytes() {
        0xB2
    } else if k == "MUTE".spec_bytes() || k == "VOLUME_MUTE".spec_bytes() {
        0xAD
    } else if k == "VOLUME_DOWN".spec_bytes() {
        0xAE
    } else if k == "VOLUME_UP".spec_bytes() {
        0xAF
    } else if k == "0".spec_bytes() {
        0x30
    } else if k == "1".spec_bytes() {
        0x31
    } else if k == "2".spec_bytes() {
        0x32
    } else if k == "3".spec_bytes() {
        0x33
    } else if k == "4".spec_bytes() {
        0x34
    } else if k == "5".spec_bytes() {
        0x35
    } else if k == "6".spec_bytes() {
        0x36
    } else if k == "7".spec_bytes() {
        0x37
    } else if k == "8".spec_bytes() {
        0x38
    } else if k == "9".spec_bytes() {
        0x39
    } else if k == "A".spec_bytes() {
        0x41
    } else if k == "B".spec_bytes() {
        0x42
    } else if k == "C".spec_bytes() {
        0x43
    } else if k == "D".spec_bytes() {
        0x44
    } else if k == "E".spec_bytes() {
        0x45
    } else if k == "F".spec_bytes() {
        0x46
    } else if k == "G".spec_bytes() {
        0x47
    } else if k == "H".spec_bytes() {
        0x48
    } else if k == "I".spec_bytes() {
        0x49
    } else if k == "J".spec_bytes() {
        0x4A
    } else if k == "K".spec_bytes() {
        0x4B
    } else if k == "L".spec_bytes() {
        0x4C
    } else if k == "M".spec_bytes() {
        0x4D
    } else if k == "N".spec_bytes() {
        0x4E
    } else if k == "O".spec_bytes() {
        0x4F
    } else if k == "P".spec_bytes() {
        0x50
    } else if k == "Q".spec_bytes() {
        0x51
    } else if k == "R".spec_bytes() {
        0x52
    } else if k == "S".spec_bytes() {
        0x53
    } else if k == "T".spec_bytes() {
        0x54
    } else if k == "U".spec_bytes() {
        0x55
    } else if k == "V".spec_bytes() {
        0x56
    } else if k == "W".spec_bytes() {
        0x57
    } else if k == "X".spec_bytes() {
        0x58
    } else if k == "Y".spec_bytes() {
        0x59
    } else if k == "Z".spec_bytes() {
        0x5A
    } else if k == "MINUS".spec_bytes() || k == "-".spec_bytes() || k == "_".spec_bytes() {
        0xBD
    } else if k == "EQUALS".spec_bytes() || k == "=".spec_bytes() || k == "+".spec_bytes() {
        0xBB
    } else if k == "LEFT_BRACKET".spec_bytes() || k == "LBRACKET".spec_bytes() || k == "[".spec_bytes() || k == "{".spec_bytes() {
        0xDB
    } else if k == "RIGHT_BRACKET".spec_bytes() || k == "RBRACKET".spec_bytes() || k == "]".spec_bytes() || k == "}".spec_bytes() {
        0xDD
    } else if k == "SEMICOLON".spec_bytes() || k == ";".spec_bytes() || k == ":".spec_bytes() {
        0xBA
    } else if k == "APOSTROPHE".spec_bytes() || k == "'".spec_bytes() || k == "\"".spec_bytes() {
        0xDE
    } else if k == "GRAVE".spec_bytes() || k == "`".spec_bytes() || k == "~".spec_bytes() {
        0xC0
    } else if k == "BACKSLASH".spec_bytes() || k == "\\".spec_bytes() || k == "|".spec_bytes() {
        0xDC
    } else if k == "COMMA".spec_bytes() || k == ",".spec_bytes() || k == "<".spec_bytes() {
        0xBC
    } else if k == "PERIOD".spec_bytes() || k == ".".spec_bytes() || k == ">".spec_bytes() {
        0xBE
    } else if k == "SLASH".spec_bytes() || k == "/".spec_bytes() || k == "?".spec_bytes() {
        0xBF
    } else {
        0
    }
}

/// Translate a key name into its virtual-key code; 0 means the name is
/// unknown and the press is skipped.
pub fn parse_key(key: &[u8]) -> (vk: u16)
    ensures
        vk == spec_parse_key(key@),
{
    proof {
        reveal(spec_parse_key);
    }
    if bytes_eq(key, "ESC".as_bytes()) || bytes_eq(key, "ESCAPE".as_bytes()) {
        0x1B
    } else if bytes_eq(key, "TAB".as_bytes()) {
        0x09
    } else if bytes_eq(key, "ENTER".as_bytes()) || bytes_eq(key, "RETURN".as_bytes()) {
        0x0D
    } else if bytes_eq(key, "BACKSPACE".as_bytes()) {
        0x08
    } else if bytes_eq(key, "SPACE".as_bytes()) {
        0x20
    } else if bytes_eq(key, "DELETE".as_bytes()) {
        0x2E
    } else if bytes_eq(key, "HOME".as_bytes()) {
        0x24
    } else if bytes_eq(key, "END".as_bytes()) {
        0x23
    } else if bytes_eq(key, "PAGE_UP".as_bytes()) || bytes_eq(key, "PAGEUP".as_bytes()) {
        0x21
    } else if bytes_eq(key, "PAGE_DOWN".as_bytes()) || bytes_eq(key, "PAGEDOWN".as_bytes()) {
        0x22
    } else if bytes_eq(key, "LEFT_ARROW".as_bytes()) || bytes_eq(key, "LEFT".as_bytes()) {
        0x25
    } else if bytes_eq(key, "RIGHT_ARROW".as_bytes()) || bytes_eq(key, "RIGHT".as_bytes()) {
        0x27
    } else if bytes_eq(key, "UP_ARROW".as_bytes()) || bytes_eq(key, "UP".as_bytes()) {
        0x26
    } else if bytes_eq(key, "DOWN_ARROW".as_bytes()) || bytes_eq(key, "DOWN".as_bytes()) {
        0x28
    } else if bytes_eq(key, "F1".as_bytes()) {
        0x70
    } else if bytes_eq(key, "F2".as_bytes()) {
        0x71
    } else if bytes_eq(key, "F3".as_bytes()) {
        0x72
    } else if bytes_eq(key, "F4".as_bytes()) {
        0x73
    } else if bytes_eq(key, "F5".as_bytes()) {
        0x74
    } else if bytes_eq(key, "F6".as_bytes()) {
        0x75
    } else if bytes_eq(key, "F7".as_bytes()) {
        0x76
    } else if bytes_eq(key, "F8".as_bytes()) {
        0x77
    } else if bytes_eq(key, "F9".as_bytes()) {
        0x78
    } else if bytes_eq(key, "F10".as_bytes()) {
        0x79
    } else if bytes_eq(key, "F11".as_bytes()) {
        0x7A
    } else if bytes_eq(key, "F12".as_bytes()) {
        0x7B
    } else if bytes_eq(key, "BRIGHTNESS_DOWN".as_bytes()) {
        0xE6
    } else if bytes_eq(key, "BRIGHTNESS_UP".as_bytes()) {
        0xE7
    } else if bytes_eq(key, "MEDIA_NEXT".as_bytes()) || bytes_eq(key, "NEXT_TRACK".as_bytes()) {
        0xB0
    } else if bytes_eq(key, "MEDIA_PREV".as_bytes()) || bytes_eq(key, "PREV_TRACK".as_bytes()) {
        0xB1
    } else if bytes_eq(key, "MEDIA_PLAY_PAUSE".as_bytes()) || bytes_eq(key, "PLAY_PAUSE".as_bytes()) {
        0xB3
    } else if bytes_eq(key, "MEDIA_STOP".as_bytes()) {
        0xB2
    } else if bytes_eq(key, "MUTE".as_bytes()) || bytes_eq(key, "VOLUME_MUTE".as_bytes()) {
        0xAD
    } else if bytes_eq(key, "VOLUME_DOWN".as_bytes()) {
        0xAE
    } else if bytes_eq(key, "VOLUME_UP".as_bytes()) {
        0xAF
    } else if bytes_eq(key, "0".as_bytes()) {
        0x30
    } else if bytes_eq(key, "1".as_bytes()) {
        0x31
    } else if bytes_eq(key, "2".as_bytes()) {
        0x32
    } else if bytes_eq(key, "3".as_bytes()) {
        0x33
    } else if bytes_eq(key, "4".as_bytes()) {
        0x34
    } else if bytes_eq(key, "5".as_bytes()) {
        0x35
    } else if bytes_eq(key, "6".as_bytes()) {
        0x36
    } else if bytes_eq(key, "7".as_bytes()) {
        0x37
    } else if bytes_eq(key, "8".as_bytes()) {
        0x38
    } else if bytes_eq(key, "9".as_bytes()) {
        0x39
    } else if bytes_eq(key, "A".as_bytes()) {
        0x41
    } else if bytes_eq(key, "B".as_bytes()) {
        0x42
    } else if bytes_eq(key, "C".as_bytes()) {
        0x43
    } else if bytes_eq(key, "D".as_bytes()) {
        0x44
    } else if bytes_eq(key, "E".as_bytes()) {
        0x45
    } else if bytes_eq(key, "F".as_bytes()) {
        0x46
    } else if bytes_eq(key, "G".as_bytes()) {
        0x47
    } else if bytes_eq(key, "H".as_bytes()) {
        0x48
    } else if bytes_eq(key, "I".as_bytes()) {
        0x49
    } else if bytes_eq(key, "J".as_bytes()) {
        0x4A
    } else if bytes_eq(key, "K".as_bytes()) {
        0x4B
    } else if bytes_eq(key, "L".as_bytes()) {
        0x4C
    } else if bytes_eq(key, "M".as_bytes()) {
        0x4D
    } else if bytes_eq(key, "N".as_bytes()) {
        0x4E
    } else if bytes_eq(key, "O".as_bytes()) {
        0x4F
    } else if bytes_eq(key, "P".as_bytes()) {
        0x50
    } else if bytes_eq(key, "Q".as_bytes()) {
        0x51
    } else if bytes_eq(key, "R".as_bytes()) {
        0x52
    } else if bytes_eq(key, "S".as_bytes()) {
        0x53
    } else if bytes_eq(key, "T".as_bytes()) {
        0x54
    } else if bytes_eq(key, "U".as_bytes()) {
        0x55
    } else if bytes_eq(key, "V".as_bytes()) {
        0x56
    } else if bytes_eq(key, "W".as_bytes()) {
        0x57
    } else if bytes_eq(key, "X".as_bytes()) {
        0x58
    } else if bytes_eq(key, "Y".as_bytes()) {
        0x59
    } else if bytes_eq(key, "Z".as_bytes()) {
        0x5A
    } else if bytes_eq(key, "MINUS".as_bytes()) || bytes_eq(key, "-".as_bytes()) || bytes_eq(key, "_".as_bytes()) {
        0xBD
    } else if bytes_eq(key, "EQUALS".as_bytes()) || bytes_eq(key, "=".as_bytes()) || bytes_eq(key, "+".as_bytes()) {
        0xBB
    } else if bytes_eq(key, "LEFT_BRACKET".as_bytes()) || bytes_eq(key, "LBRACKET".as_bytes()) || bytes_eq(key, "[".as_bytes()) || bytes_eq(key, "{".as_bytes()) {
        0xDB
    } else if bytes_eq(key, "RIGHT_BRACKET".as_bytes()) || bytes_eq(key, "RBRACKET".as_bytes()) || bytes_eq(key, "]".as_bytes()) || bytes_eq(key, "}".as_bytes()) {
        0xDD
    } else if bytes_eq(key, "SEMICOLON".as_bytes()) || bytes_eq(key, ";".as_bytes()) || bytes_eq(key, ":".as_bytes()) {
        0xBA
    } else if bytes_eq(key, "APOSTROPHE".as_bytes()) || bytes_eq(key, "'".as_bytes()) || bytes_eq(key, "\"".as_bytes()) {
        0xDE
    } else if bytes_eq(key, "GRAVE".as_bytes()) || bytes_eq(key, "`".as_bytes()) || bytes_eq(key, "~".as_bytes()) {
        0xC0
    } else if bytes_eq(key, "BACKSLASH".as_bytes()) || bytes_eq(key, "\\".as_bytes()) || bytes_eq(key, "|".as_bytes()) {
        0xDC
    } else if bytes_eq(key, "COMMA".as_bytes()) || bytes_eq(key, ",".as_bytes()) || bytes_eq(key, "<".as_bytes()) {
        0xBC
    } else if bytes_eq(key, "PERIOD".as_bytes()) || bytes_eq(key, ".".as_bytes()) || bytes_eq(key, ">".as_bytes()) {
        0xBE
    } else if bytes_eq(key, "SLASH".as_bytes()) || bytes_eq(key, "/".as_bytes()) || bytes_eq(key, "?".as_bytes()) {
        0xBF
    } else {
        0
    }
}

/// The names that act as chord modifiers in a key-combination spec.
pub open spec fn spec_is_combo_modifier(u: Seq<u8>) -> bool {
    u == "CTRL".spec_bytes() || u == "CONTROL".spec_bytes() || u == "SHIFT".spec_bytes() || u
        == "ALT".spec_bytes() || u == "MENU".spec_bytes() || u == "WIN".spec_bytes() || u
        == "GUI".spec_bytes()
}

/// The virtual-key code of a chord modifier name.
pub open spec fn spec_modifier_vk(u: Seq<u8>) -> u16 {
    if u == "CTRL".spec_bytes() || u == "CONTROL".spec_bytes() {
        0x11
    } else if u == "SHIFT".spec_bytes() {
        0x10
    } else if u == "ALT".spec_bytes() || u == "MENU".spec_bytes() {
        0x12
    } else {
        0x5B
    }
}

/// Whether a combo part names a chord modifier, matched case-insensitively.
pub fn is_combo_modifier(part: &[u8]) -> (r: bool)
    ensures
        r == spec_is_combo_modifier(spec_upper(part@)),
{
    let u = to_upper_bytes(part);
    bytes_eq(u.as_slice(), "CTRL".as_bytes()) || bytes_eq(u.as_slice(), "CONTROL".as_bytes())
        || bytes_eq(u.as_slice(), "SHIFT".as_bytes()) || bytes_eq(u.as_slice(), "ALT".as_bytes())
        || bytes_eq(u.as_slice(), "MENU".as_bytes()) || bytes_eq(u.as_slice(), "WIN".as_bytes())
        || bytes_eq(u.as_slice(), "GUI".as_bytes())
}

/// The raw `+`-separated fields of a combo spec, before trimming.
pub open spec fn split_plus(s: Seq<u8>) -> Seq<Seq<u8>>
    decreases s.len(),
    via split_plus_decreases
{
    match spec_find(s, 43) {
        None => seq![s],
        Some(i) => seq![s.subrange(0, i)] + split_plus(s.subrange(i + 1, s.len() as int)),
    }
}

#[via_fn]
proof fn split_plus_decreases(s: Seq<u8>) {
    lemma_spec_find_bounds(s, 43);
}

/// The parts of a combo spec: its `+`-separated fields, each trimmed.
pub open spec fn combo_parts(s: Seq<u8>) -> Seq<Seq<u8>> {
    split_plus(s).map_values(|p: Seq<u8>| spec_trim(p))
}

/// The modifier virtual keys of a part list, in order, one per part that
/// names a chord modifier (after upper-casing), duplicates kept.
pub open spec fn mods_of(parts: Seq<Seq<u8>>) -> Seq<u16>
    decreases parts.len(),
{
    if parts.len() == 0 {
        Seq::empty()
    } else {
        mods_of(parts.drop_last()) + (if spec_is_combo_modifier(spec_upper(parts.last())) {
            seq![spec_modifier_vk(spec_upper(parts.last()))]
        } else {
            Seq::empty()
        })
    }
}

/// The main key of a part list: the virtual-key code of the last part that is
/// not a chord modifier, if any.
pub open spec fn main_key_of(parts: Seq<Seq<u8>>) -> Option<u16>
    decreases parts.len(),
{
    if parts.len() == 0 {
        None
    } else if !spec_is_combo_modifier(spec_upper(parts.last())) {
        Some(spec_parse_key(spec_upper(parts.last())))
    } else {
        main_key_of(parts.drop_last())
    }
}

/// Press operations for the modifiers, in order.
pub open spec fn downs_of(mods: Seq<u16>) -> Seq<HostOpV> {
    Seq::new(mods.len(), |j: int| HostOpV::KeyDown(mods[j]))
}

/// Release operations for the modifiers, in reverse order.
pub open spec fn ups_of(mods: Seq<u16>) -> Seq<HostOpV> {
    Seq::new(mods.len(), |j: int| HostOpV::KeyUp(mods[mods.len() - 1 - j]))
}

/// The press of the main key followed by its release; a key that parsed to 0
/// is skipped.
pub open spec fn main_ops_of(main: Option<u16>) -> Seq<HostOpV> {
    match main {
        Some(vk) => if vk != 0 {
            seq![HostOpV::KeyDown(vk), HostOpV::KeyUp(vk)]
        } else {
            Seq::empty()
        },
        None => Seq::empty(),
    }
}

/// The operations a key-combination spec performs: press the modifiers in
/// order, press and release the main key, release the modifiers in reverse
/// order.
pub open spec fn combo_ops(s: Seq<u8>) -> Seq<HostOpV> {
    downs_of(mods_of(combo_parts(s))) + main_ops_of(main_key_of(combo_parts(s))) + ups_of(
        mods_of(combo_parts(s)),
    )
}

/// The operations an action performs.
pub open spec fn spec_execute(a: ActionV) -> Seq<HostOpV> {
    match a {
        ActionV::KeyCombo(s) => combo_ops(s),
        ActionV::Run(p) => seq![HostOpV::Launch(p)],
        ActionV::AppCommand(c) => seq![HostOpV::AppCommand(c)],
    }
}

/// Split a combo spec into its trimmed parts.
#[verifier::loop_isolation(false)]
fn split_combo(s: &[u8]) -> (parts: Vec<Vec<u8>>)
    ensures
        parts@.map_values(|p: Vec<u8>| p@) == combo_parts(s@),
{
    let mut parts: Vec<Vec<u8>> = Vec::new();
    let mut pos: usize = 0;
    let mut done: bool = false;
    let n = s.len();
    proof {
        assert(s@.subrange(0, n as int) =~= s@);
    }
    while !done
        invariant
            pos <= n,
            done ==> parts@.map_values(|p: Vec<u8>| p@) == combo_parts(s@),
            !done ==> parts@.map_values(|p: Vec<u8>| p@) + combo_parts(s@.subrange(
                pos as int,
                n as int,
            )) == combo_parts(s@),
        decreases n - pos + (if done { 0int } else { 1int }),
    {
        let rest = vstd::slice::slice_subrange(s, pos, n);
        let ghost rest_seq = s@.subrange(pos as int, n as int);
        let ghost parts0 = parts@;
        match find_byte(rest, 43) {
            Some(i) => {
                let raw = vstd::slice::slice_subrange(rest, 0, i);
                parts.push(bytes_to_vec(trim_bytes(raw)));
                proof {
                    assert(rest_seq.subrange(i + 1, rest_seq.len() as int) =~= s@.subrange(
                        pos + i + 1,
                        n as int,
                    ));
                    assert(split_plus(rest_seq) == seq![raw@] + split_plus(
                        s@.subrange(pos + i + 1, n as int),
                    ));
                    assert(combo_parts(rest_seq) =~= seq![spec_trim(raw@)] + combo_parts(
                        s@.subrange(pos + i + 1, n as int),
                    ));
                    assert(parts@.map_values(|p: Vec<u8>| p@) =~= parts0.map_values(
                        |p: Vec<u8>| p@,
                    ).push(spec_trim(raw@)));
                    assert(parts@.map_values(|p: Vec<u8>| p@) + combo_parts(
                        s@.subrange(pos + i + 1, n as int),
                    ) =~= parts0.map_values(|p: Vec<u8>| p@) + combo_parts(rest_seq));
                }
                pos = pos + i + 1;
            },
            None => {
                parts.push(bytes_to_vec(trim_bytes(rest)));
                proof {
                    assert(split_plus(rest_seq) == seq![rest_seq]);
                    assert(combo_parts(rest_seq) =~= seq![spec_trim(rest_seq)]);
                    assert(parts@.map_values(|p: Vec<u8>| p@) =~= parts0.map_values(
                        |p: Vec<u8>| p@,
                    ).push(spec_trim(rest_seq)));
                    assert(parts@.map_values(|p: Vec<u8>| p@) =~= parts0.map_values(
                        |p: Vec<u8>| p@,
                    ) + combo_parts(rest_seq));
                }
                done = true;
            },
        }
    }
    parts
}

/// The operations a key-combination spec performs.
#[verifier::loop_isolation(false)]
pub fn key_combo_ops(combo: &[u8]) -> (ops: Vec<HostOp>)
    ensures
        ops_view(ops@) == combo_ops(combo@),
{
    let parts = split_combo(combo);
    let ghost parts_v = combo_parts(combo@);
    let mut mods: Vec<u16> = Vec::new();
    let mut main: Option<u16> = None;
    let mut k: usize = 0;
    proof {
        assert(parts_v.subrange(0, 0) =~= Seq::<Seq<u8>>::empty());
    }
    while k < parts.len()
        invariant
            k <= parts@.len(),
            parts@.map_values(|p: Vec<u8>| p@) == parts_v,
            mods@ == mods_of(parts_v.subrange(0, k as int)),
            main == main_key_of(parts_v.subrange(0, k as int)),
        decreases parts@.len() - k,
    {
        let part: &Vec<u8> = &parts[k];
        let ghost pre = parts_v.subrange(0, k as int);
        let ghost post = parts_v.subrange(0, k + 1);
        proof {
            assert(post.drop_last() =~= pre);
            assert(post.last() == parts_v[k as int]);
            assert(parts_v[k as int] == part@);
        }
        if is_combo_modifier(part.as_slice()) {
            let u = to_upper_bytes(part.as_slice());
            let vk: u16 = if bytes_eq(u.as_slice(), "CTRL".as_bytes()) || bytes_eq(
                u.as_slice(),
                "CONTROL".as_bytes(),
            ) {
                0x11
            } else if bytes_eq(u.as_slice(), "SHIFT".as_bytes()) {
                0x10
            } else if bytes_eq(u.as_slice(), "ALT".as_bytes()) || bytes_eq(
                u.as_slice(),
                "MENU".as_bytes(),
            ) {
                0x12
            } else {
                0x5B
            };
            mods.push(vk);
            proof {
                assert(mods@ =~= mods_of(post));
            }
        } else {
            let u = to_upper_bytes(part.as_slice());
            main = Some(parse_key(u.as_slice()));
        }
        k += 1;
    }
    proof {
        assert(parts_v.subrange(0, parts_v.len() as int) =~= parts_v);
    }

    let mut ops: Vec<HostOp> = Vec::new();
    let mut i: usize = 0;
    while i < mods.len()
        invariant
            i <= mods@.len(),
            ops_view(ops@) == downs_of(mods@.subrange(0, i as int)),
        decreases mods@.len() - i,
    {
        let ghost ops0 = ops@;
        ops.push(HostOp::KeyDown(mods[i]));
        proof {
            assert(ops@ =~= ops0.push(HostOp::KeyDown(mods@[i as int])));
            assert(ops_view(ops@) =~= ops_view(ops0).push(HostOpV::KeyDown(mods@[i as int])));
            assert(ops_view(ops@) =~= downs_of(mods@.subrange(0, i + 1)));
        }
        i += 1;
    }
    proof {
        assert(mods@.subrange(0, mods@.len() as int) =~= mods@);
        assert(ops_view(ops@) =~= downs_of(mods@));
    }
    let ghost after_downs = ops_view(ops@);
    if let Some(vk) = main {
        if vk != 0 {
            ops.push(HostOp::KeyDown(vk));
            ops.push(HostOp::KeyUp(vk));
        }
    }
    proof {
        assert(ops_view(ops@) =~= after_downs + main_ops_of(main_key_of(parts_v)));
    }
    let ghost after_main = ops_view(ops@);
    let mut j: usize = mods.len();
    while j > 0
        invariant
            j <= mods@.len(),
            ops_view(ops@) == after_main + Seq::new(
                (mods@.len() - j) as nat,
                |q: int| HostOpV::KeyUp(mods@[mods@.len() - 1 - q]),
            ),
        decreases j,
    {
        j -= 1;
        let ghost ops0 = ops@;
        ops.push(HostOp::KeyUp(mods[j]));
        proof {
            assert(ops@ =~= ops0.push(HostOp::KeyUp(mods@[j as int])));
            assert(ops_view(ops@) =~= ops_view(ops0).push(HostOpV::KeyUp(mods@[j as int])));
            assert(ops_view(ops@) =~= after_main + Seq::new(
                (mods@.len() - j) as nat,
                |q: int| HostOpV::KeyUp(mods@[mods@.len() - 1 - q]),
            ));
        }
    }
    proof {
        assert(ops_view(ops@) =~= after_main + ups_of(mods@));
    }
    ops
}

/// The sequence of host operations an action calls for: a key combination
/// becomes its chord of key presses and releases, a launch and a host command
/// each become their one operation.
pub fn execute_action(action: &Action) -> (ops: Vec<HostOp>)
    ensures
        ops_view(ops@) == spec_execute(action@),
{
    match action {
        Action::KeyCombo(s) => key_combo_ops(s.as_slice()),
        Action::Run(p) => {
            let mut ops: Vec<HostOp> = Vec::new();
            ops.push(HostOp::Launch(bytes_to_vec(p.as_slice())));
            proof {
                assert(ops_view(ops@) =~= seq![HostOpV::Launch(p@)]);
            }
            ops
        },
        Action::AppCommand(c) => {
            let mut ops: Vec<HostOp> = Vec::new();
            ops.push(HostOp::AppCommand(*c));
            proof {
                assert(ops_view(ops@) =~= seq![HostOpV::AppCommand(*c)]);
            }
            ops
        },
    }
}

/// The message parameter a numeric application command is posted with: the
/// command in the high word, 1 (a keyboard source) in the low word.
pub fn app_command_lparam(cmd: u32) -> (r: i64)
    ensures
        r == cmd * 0x10000 + 1,
{
    (cmd as i64) * 0x10000 + 1
}

} // verus!
