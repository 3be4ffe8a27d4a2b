//! The mapping engine: five mapping tables partitioned by modifier context,
//! three modifier flags, and the resolution of key events against them; and
//! the loader that replaces the tables wholesale from rule-file text.

use vstd::prelude::*;

verus! {

use crate::HidKey;
use crate::actions::{Action, ActionV};
use crate::bytes::{find_byte, lemma_spec_find_bounds, lemma_trim_shorter, spec_find, spec_trim};
use crate::context::{ModContext, select_context, spec_context};
use crate::keys::{eject_key, fn_state_key, left_shift_key, right_shift_key};
use crate::loader::{parse_rule_line, spec_parse_line, LineOutcome, LineOutcomeV};
use crate::table::RuleTable;

/// The mathematical value of a full mapping-table set: one finite map per
/// modifier context.
#[verifier::ext_equal]
pub struct TablesV {
    pub normal: Map<HidKey, ActionV>,
    pub fn_layer: Map<HidKey, ActionV>,
    pub shift: Map<HidKey, ActionV>,
    pub eject: Map<HidKey, ActionV>,
    pub eject_fn: Map<HidKey, ActionV>,
}

/// The table set with no rules at all.
pub open spec fn empty_tables() -> TablesV {
    TablesV {
        normal: Map::empty(),
        fn_layer: Map::empty(),
        shift: Map::empty(),
        eject: Map::empty(),
        eject_fn: Map::empty(),
    }
}

/// The table a given modifier context selects.
pub open spec fn table_in(t: TablesV, c: ModContext) -> Map<HidKey, ActionV> {
    match c {
        ModContext::Normal => t.normal,
        ModContext::FnLayer => t.fn_layer,
        ModContext::Shift => t.shift,
        ModContext::Eject => t.eject,
        ModContext::EjectFn => t.eject_fn,
    }
}

/// Look `k` up in the one table context `c` selects; no other table takes
/// part.
pub open spec fn spec_lookup(t: TablesV, c: ModContext, k: HidKey) -> Option<ActionV> {
    if table_in(t, c).contains_key(k) {
        Some(table_in(t, c)[k])
    } else {
        None
    }
}

/// The view of an optional action.
pub open spec fn opt_action_view(r: Option<Action>) -> Option<ActionV> {
    match r {
        Some(a) => Some(a@),
        None => None,
    }
}

/// `t` with `k` bound to `a` in the table of context `c`.
pub open spec fn insert_rule(t: TablesV, c: ModContext, k: HidKey, a: ActionV) -> TablesV {
    match c {
        ModContext::Normal => TablesV { normal: t.normal.insert(k, a), ..t },
        ModContext::FnLayer => TablesV { fn_layer: t.fn_layer.insert(k, a), ..t },
        ModContext::Shift => TablesV { shift: t.shift.insert(k, a), ..t },
        ModContext::Eject => TablesV { eject: t.eject.insert(k, a), ..t },
        ModContext::EjectFn => TablesV { eject_fn: t.eject_fn.insert(k, a), ..t },
    }
}

/// The five mapping tables, as held by the engine.
struct TableSet {
    normal: RuleTable,
    fn_layer: RuleTable,
    shift: RuleTable,
    eject: RuleTable,
    eject_fn: RuleTable,
}

impl View for TableSet {
    type V = TablesV;

    closed spec fn view(&self) -> TablesV {
        TablesV {
            normal: self.normal@,
            fn_layer: self.fn_layer@,
            shift: self.shift@,
            eject: self.eject@,
            eject_fn: self.eject_fn@,
        }
    }
}

impl TableSet {
    spec fn wf(&self) -> bool {
        self.normal.wf() && self.fn_layer.wf() && self.shift.wf() && self.eject.wf()
            && self.eject_fn.wf()
    }

    fn new() -> (r: TableSet)
        ensures
            r.wf(),
            r@ == empty_tables(),
    {
        let r = TableSet {
            normal: RuleTable::new(),
            fn_layer: RuleTable::new(),
            shift: RuleTable::new(),
            eject: RuleTable::new(),
            eject_fn: RuleTable::new(),
        };
        proof {
            assert(r@ =~= empty_tables());
        }
        r
    }

    fn insert(&mut self, c: ModContext, k: HidKey, a: Action)
        requires
            old(self).wf(),
        ensures
            final(self).wf(),
            final(self)@ == insert_rule(old(self)@, c, k, a@),
    {
        let ghost t0 = self@;
        let ghost av = a@;
        match c {
            ModContext::Normal => self.normal.insert(k, a),
            ModContext::FnLayer => self.fn_layer.insert(k, a),
            ModContext::Shift => self.shift.insert(k, a),
            ModContext::Eject => self.eject.insert(k, a),
            ModContext::EjectFn => self.eject_fn.insert(k, a),
        }
        proof {
            assert(self@ =~= insert_rule(t0, c, k, av));
        }
    }

    fn get_in(&self, c: ModContext, k: HidKey) -> (r: Option<&Action>)
        requires
            self.wf(),
        ensures
            match r {
                Some(a) => spec_lookup(self@, c, k) == Some(a@),
                None => spec_lookup(self@, c, k) is None,
            },
    {
        match c {
            ModContext::Normal => self.normal.get(k),
            ModContext::FnLayer => self.fn_layer.get(k),
            ModContext::Shift => self.shift.get(k),
            ModContext::Eject => self.eject.get(k),
            ModContext::EjectFn => self.eject_fn.get(k),
        }
    }
}

/// A line with its trailing carriage return removed, as the line splitter
/// hands lines out.
pub open spec fn strip_cr(l: Seq<u8>) -> Seq<u8> {
    if l.len() > 0 && l.last() == 13 {
        l.drop_last()
    } else {
        l
    }
}

/// The lines of a text: split at each line feed, one trailing carriage
/// return removed per line, no trailing empty line for text that ends in a
/// line feed.
pub open spec fn split_lines(s: Seq<u8>) -> Seq<Seq<u8>>
    decreases s.len(),
    via split_lines_decreases
{
    if s.len() == 0 {
        Seq::empty()
    } else {
        match spec_find(s, 10) {
            None => seq![strip_cr(s)],
            Some(i) => seq![strip_cr(s.subrange(0, i))] + split_lines(
                s.subrange(i + 1, s.len() as int),
            ),
        }
    }
}

#[via_fn]
proof fn split_lines_decreases(s: Seq<u8>) {
    lemma_spec_find_bounds(s, 10);
}

/// One line applied to a table set: a rule inserts into the table its context
/// selects; anything else leaves the tables as they are.
pub open spec fn apply_line(t: TablesV, line: Seq<u8>) -> TablesV {
    match spec_parse_line(line) {
        LineOutcomeV::Rule { ctx, key, action, .. } => insert_rule(t, ctx, key, action),
        _ => t,
    }
}

/// A sequence of lines applied in order.
pub open spec fn load_from(t: TablesV, ls: Seq<Seq<u8>>) -> TablesV
    decreases ls.len(),
{
    if ls.len() == 0 {
        t
    } else {
        load_from(apply_line(t, ls[0]), ls.subrange(1, ls.len() as int))
    }
}

/// The table set a rule-file text loads to, starting from empty tables:
/// total replacement, never a merge.
pub open spec fn spec_load(s: Seq<u8>) -> TablesV {
    load_from(empty_tables(), split_lines(s))
}

/// Whether a line counts as a rule line: anything but a blank line or a
/// comment.
pub open spec fn line_counted(l: Seq<u8>) -> nat {
    if spec_parse_line(l) is Blank {
        0
    } else {
        1
    }
}

/// How many diagnostics a line produces.
pub open spec fn line_errors(l: Seq<u8>) -> nat {
    match spec_parse_line(l) {
        LineOutcomeV::Blank => 0,
        LineOutcomeV::Malformed => 1,
        LineOutcomeV::Rule { diagnostic, .. } => if diagnostic {
            1
        } else {
            0
        },
    }
}

/// How many lines of a text are counted as rule lines.
pub open spec fn count_lines(ls: Seq<Seq<u8>>) -> nat
    decreases ls.len(),
{
    if ls.len() == 0 {
        0
    } else {
        line_counted(ls[0]) + count_lines(ls.subrange(1, ls.len() as int))
    }
}

/// How many diagnostics a text produces.
pub open spec fn count_errors(ls: Seq<Seq<u8>>) -> nat
    decreases ls.len(),
{
    if ls.len() == 0 {
        0
    } else {
        line_errors(ls[0]) + count_errors(ls.subrange(1, ls.len() as int))
    }
}

/// A counted line holds at least one byte of the text, so the counted lines
/// of a text never outnumber its bytes.
proof fn lemma_count_lines_le(s: Seq<u8>)
    ensures
        count_errors(split_lines(s)) <= count_lines(split_lines(s)),
        count_lines(split_lines(s)) <= s.len(),
    decreases s.len(),
{
    lemma_count_errors_le(split_lines(s));
    if s.len() > 0 {
        reveal_with_fuel(count_lines, 2);
        lemma_spec_find_bounds(s, 10);
        match spec_find(s, 10) {
            None => {
                let ls = split_lines(s);
                assert(ls == seq![strip_cr(s)]);
                assert(ls[0] == strip_cr(s));
                assert(ls.subrange(1, ls.len() as int) =~= Seq::<Seq<u8>>::empty());
                assert(count_lines(ls) == line_counted(strip_cr(s)));
                if line_counted(strip_cr(s)) == 1 {
                    lemma_trim_shorter(strip_cr(s));
                    assert(spec_trim(strip_cr(s)).len() > 0);
                }
            },
            Some(i) => {
                let tail = s.subrange(i + 1, s.len() as int);
                lemma_count_lines_le(tail);
                let line0 = strip_cr(s.subrange(0, i));
                let ls = split_lines(s);
                assert(ls == seq![line0] + split_lines(tail));
                assert(ls[0] == line0);
                assert(ls.subrange(1, ls.len() as int) =~= split_lines(tail));
                assert(count_lines(ls) == line_counted(line0) + count_lines(split_lines(tail)));
                if line_counted(line0) == 1 {
                    lemma_trim_shorter(line0);
                    assert(spec_trim(line0).len() > 0);
                    assert(line0.len() <= i);
                    assert(i >= 1);
                }
            },
        }
    }
}

proof fn lemma_count_errors_le(ls: Seq<Seq<u8>>)
    ensures
        count_errors(ls) <= count_lines(ls),
    decreases ls.len(),
{
    if ls.len() > 0 {
        lemma_count_errors_le(ls.subrange(1, ls.len() as int));
    }
}

/// What a load reports back: how many rule lines were counted, how many drew
/// a diagnostic, and how many rules each table now holds.
#[derive(Debug, Clone, Copy, PartialEq, Eq, Structural)]
pub struct LoadSummary {
    pub rules: usize,
    pub errors: usize,
    pub normal: usize,
    pub fn_layer: usize,
    pub shift: usize,
    pub eject: usize,
    pub eject_fn: usize,
}

/// The mapping engine: the active table set and the three modifier flags.
pub struct KeyMapper {
    maps: TableSet,
    fn_down: bool,
    shift_down: bool,
    eject_down: bool,
}

/// How an event updates the three modifier flags: an event for a modifier
/// identity sets its flag from the event value; any other event leaves all
/// flags as they are.  Either physical shift drives the one shift flag.
pub open spec fn spec_step_flags(f: bool, s: bool, e: bool, k: HidKey, value: i32) -> (
    bool,
    bool,
    bool,
) {
    if k == fn_state_key() {
        (value != 0, s, e)
    } else if k == left_shift_key() || k == right_shift_key() {
        (f, value != 0, e)
    } else if k == eject_key() {
        (f, s, value != 0)
    } else {
        (f, s, e)
    }
}

/// The action an event resolves to: none for modifier identities and for
/// releases; for a press of an ordinary control, the entry of the one table
/// the current modifier context selects.
pub open spec fn spec_step_action(
    t: TablesV,
    f: bool,
    s: bool,
    e: bool,
    k: HidKey,
    value: i32,
) -> Option<ActionV> {
    if k == fn_state_key() || k == left_shift_key() || k == right_shift_key() || k
        == eject_key() {
        None
    } else if value == 0 {
        None
    } else {
        spec_lookup(t, spec_context(f, s, e), k)
    }
}

impl KeyMapper {
    /// All five tables have pairwise distinct keys.
    pub closed spec fn wf(&self) -> bool {
        self.maps.wf()
    }

    /// The active table set.
    pub closed spec fn tables(&self) -> TablesV {
        self.maps@
    }

    /// Whether the function layer is held.
    pub closed spec fn fn_held(&self) -> bool {
        self.fn_down
    }

    /// Whether a shift key is held.
    pub closed spec fn shift_held(&self) -> bool {
        self.shift_down
    }

    /// Whether the eject key is held.
    pub closed spec fn eject_held(&self) -> bool {
        self.eject_down
    }

    /// A fresh engine: empty tables, no modifier held.
    pub fn new() -> (r: KeyMapper)
        ensures
            r.wf(),
            r.tables() == empty_tables(),
            !r.fn_held(),
            !r.shift_held(),
            !r.eject_held(),
    {
        KeyMapper { maps: TableSet::new(), fn_down: false, shift_down: false, eject_down: false }
    }

    /// Whether the function layer is currently held.
    pub fn is_fn_down(&self) -> (r: bool)
        ensures
            r == self.fn_held(),
    {
        self.fn_down
    }

    /// Whether a shift key is currently held.
    pub fn is_shift_down(&self) -> (r: bool)
        ensures
            r == self.shift_held(),
    {
        self.shift_down
    }

    /// Whether the eject key is currently held.
    pub fn is_eject_down(&self) -> (r: bool)
        ensures
            r == self.eject_held(),
    {
        self.eject_down
    }

    /// Load a rule-file text, replacing the whole table set as one unit; the
    /// modifier flags are untouched.  Returns the counts of the load.
    #[verifier::loop_isolation(false)]
    pub fn load_mapping_text(&mut self, text: &[u8]) -> (summary: LoadSummary)
        requires
            old(self).wf(),
        ensures
            final(self).wf(),
            final(self).tables() == spec_load(text@),
            final(self).fn_held() == old(self).fn_held(),
            final(self).shift_held() == old(self).shift_held(),
            final(self).eject_held() == old(self).eject_held(),
            summary.rules == count_lines(split_lines(text@)),
            summary.errors == count_errors(split_lines(text@)),
            summary.normal == spec_load(text@).normal.len(),
            summary.fn_layer == spec_load(text@).fn_layer.len(),
            summary.shift == spec_load(text@).shift.len(),
            summary.eject == spec_load(text@).eject.len(),
            summary.eject_fn == spec_load(text@).eject_fn.len(),
    {
        proof {
            lemma_count_lines_le(text@);
            assert(text@.subrange(0, text@.len() as int) =~= text@);
        }
        let mut tabs = TableSet::new();
        let mut rules: usize = 0;
        let mut errors: usize = 0;
        let mut pos: usize = 0;
        let n = text.len();
        while pos < n
            invariant
                pos <= n,
                tabs.wf(),
                load_from(tabs@, split_lines(text@.subrange(pos as int, n as int))) == spec_load(
                    text@,
                ),
                rules + count_lines(split_lines(text@.subrange(pos as int, n as int)))
                    == count_lines(split_lines(text@)),
                errors + count_errors(split_lines(text@.subrange(pos as int, n as int)))
                    == count_errors(split_lines(text@)),
            decreases n - pos,
        {
            let rest = vstd::slice::slice_subrange(text, pos, n);
            let ghost rest_seq = text@.subrange(pos as int, n as int);
            let (line_raw, next_pos): (&[u8], usize) = match find_byte(rest, 10) {
                Some(i) => (vstd::slice::slice_subrange(rest, 0, i), pos + i + 1),
                None => (rest, n),
            };
            let line: &[u8] = if line_raw.len() > 0 && line_raw[line_raw.len() - 1] == 13 {
                vstd::slice::slice_subrange(line_raw, 0, line_raw.len() - 1)
            } else {
                line_raw
            };
            proof {
                assert(line@ == strip_cr(line_raw@));
                match spec_find(rest_seq, 10) {
                    None => {
                        assert(split_lines(rest_seq) =~= seq![line@]);
                        assert(text@.subrange(next_pos as int, n as int) =~= Seq::<u8>::empty());
                    },
                    Some(i) => {
                        assert(rest_seq.subrange(i + 1, rest_seq.len() as int) =~= text@.subrange(
                            next_pos as int,
                            n as int,
                        ));
                        assert(split_lines(rest_seq) =~= seq![line@] + split_lines(
                            text@.subrange(next_pos as int, n as int),
                        ));
                    },
                }
                let tail_lines = split_lines(text@.subrange(next_pos as int, n as int));
                assert((seq![line@] + tail_lines)[0] == line@);
                assert((seq![line@] + tail_lines).subrange(
                    1,
                    (seq![line@] + tail_lines).len() as int,
                ) =~= tail_lines);
                assert(load_from(tabs@, split_lines(rest_seq)) == load_from(
                    apply_line(tabs@, line@),
                    tail_lines,
                ));
                assert(count_lines(split_lines(rest_seq)) == line_counted(line@) + count_lines(
                    tail_lines,
                ));
                assert(count_errors(split_lines(rest_seq)) == line_errors(line@) + count_errors(
                    tail_lines,
                ));
            }
            match parse_rule_line(line) {
                LineOutcome::Blank => {},
                LineOutcome::Malformed => {
                    rules += 1;
                    errors += 1;
                },
                LineOutcome::Rule { ctx, key, action, diagnostic } => {
                    rules += 1;
                    if diagnostic {
                        errors += 1;
                    }
                    tabs.insert(ctx, key, action);
                },
            }
            pos = next_pos;
        }
        proof {
            assert(text@.subrange(n as int, n as int) =~= Seq::<u8>::empty());
        }
        let normal = tabs.normal.len();
        let fn_layer = tabs.fn_layer.len();
        let shift = tabs.shift.len();
        let eject = tabs.eject.len();
        let eject_fn = tabs.eject_fn.len();
        self.maps = tabs;
        LoadSummary { rules, errors, normal, fn_layer, shift, eject, eject_fn }
    }

    /// Consume one canonical event: update modifier state for modifier
    /// identities, drop releases of ordinary controls, and resolve a press of
    /// an ordinary control against the one table the held modifiers select.
    pub fn handle_hid_event(&mut self, usage_page: u16, usage: u16, value: i32) -> (r: Option<
        Action,
    >)
        requires
            old(self).wf(),
        ensures
            final(self).wf(),
            final(self).tables() == old(self).tables(),
            (final(self).fn_held(), final(self).shift_held(), final(self).eject_held())
                == spec_step_flags(
                old(self).fn_held(),
                old(self).shift_held(),
                old(self).eject_held(),
                HidKey { usage_page, usage },
                value,
            ),
            opt_action_view(r) == spec_step_action(
                old(self).tables(),
                old(self).fn_held(),
                old(self).shift_held(),
                old(self).eject_held(),
                HidKey { usage_page, usage },
                value,
            ),
    {
        let key = HidKey { usage_page, usage };
        if key == (HidKey { usage_page: 0xFF00, usage: 0x0003 }) {
            self.fn_down = value != 0;
            return None;
        }
        if key == (HidKey { usage_page: 0x07, usage: 0x00E1 }) || key == (HidKey {
            usage_page: 0x07,
            usage: 0x00E5,
        }) {
            self.shift_down = value != 0;
            return None;
        }
        if key == (HidKey { usage_page: 0x0C, usage: 0x00B8 }) {
            self.eject_down = value != 0;
            return None;
        }
        if value == 0 {
            return None;
        }
        self.resolve_event(key, value)
    }

    /// The one shared resolution path: both the mapping engine and the
    /// decide-without-committing lookup go through this selection and lookup,
    /// so the two can never diverge.
    fn resolve_event(&self, key: HidKey, value: i32) -> (r: Option<Action>)
        requires
            self.wf(),
        ensures
            opt_action_view(r) == spec_step_action(
                self.tables(),
                self.fn_held(),
                self.shift_held(),
                self.eject_held(),
                key,
                value,
            ),
    {
        if key == (HidKey { usage_page: 0xFF00, usage: 0x0003 }) || key == (HidKey {
            usage_page: 0x07,
            usage: 0x00E1,
        }) || key == (HidKey { usage_page: 0x07, usage: 0x00E5 }) || key == (HidKey {
            usage_page: 0x0C,
            usage: 0x00B8,
        }) {
            return None;
        }
        if value == 0 {
            return None;
        }
        let c = select_context(self.fn_down, self.shift_down, self.eject_down);
        match self.maps.get_in(c, key) {
            Some(a) => Some(a.clone()),
            None => None,
        }
    }

    /// The decide-without-committing lookup: what `handle_hid_event` would
    /// resolve this event to, without touching any state.  An interception
    /// layer may call this before letting a physical key through.
    pub fn try_trigger_mapping(&self, usage_page: u16, usage: u16, value: i32) -> (r: Option<
        Action,
    >)
        requires
            self.wf(),
        ensures
            opt_action_view(r) == spec_step_action(
                self.tables(),
                self.fn_held(),
                self.shift_held(),
                self.eject_held(),
                HidKey { usage_page, usage },
                value,
            ),
    {
        self.resolve_event(HidKey { usage_page, usage }, value)
    }
}


/// How many rules a table set holds over all five tables.
pub open spec fn total_entries(t: TablesV) -> nat {
    t.normal.len() + t.fn_layer.len() + t.shift.len() + t.eject.len() + t.eject_fn.len()
}

/// Whether a line parses to a rule.
pub open spec fn line_is_rule(l: Seq<u8>) -> bool {
    spec_parse_line(l) is Rule
}

/// The table slot a rule line fills: its context and control identity.
pub open spec fn line_slot(l: Seq<u8>) -> (ModContext, HidKey) {
    match spec_parse_line(l) {
        LineOutcomeV::Rule { ctx, key, .. } => (ctx, key),
        _ => (ModContext::Normal, HidKey { usage_page: 0, usage: 0 }),
    }
}

/// All five table domains are finite.
pub open spec fn tables_finite(t: TablesV) -> bool {
    t.normal.dom().finite() && t.fn_layer.dom().finite() && t.shift.dom().finite()
        && t.eject.dom().finite() && t.eject_fn.dom().finite()
}

proof fn lemma_load_from_snoc(t: TablesV, ls: Seq<Seq<u8>>, l: Seq<u8>)
    ensures
        load_from(t, ls.push(l)) == apply_line(load_from(t, ls), l),
    decreases ls.len(),
{
    reveal_with_fuel(load_from, 2);
    if ls.len() == 0 {
        assert(ls.push(l)[0] == l);
        assert(ls.push(l).subrange(1, 1) =~= Seq::<Seq<u8>>::empty());
    } else {
        assert(ls.push(l)[0] == ls[0]);
        assert(ls.push(l).subrange(1, ls.len() as int + 1) =~= ls.subrange(1, ls.len() as int).push(l));
        lemma_load_from_snoc(apply_line(t, ls[0]), ls.subrange(1, ls.len() as int), l);
    }
}

proof fn lemma_load_finite(t: TablesV, ls: Seq<Seq<u8>>)
    requires
        tables_finite(t),
    ensures
        tables_finite(load_from(t, ls)),
    decreases ls.len(),
{
    if ls.len() > 0 {
        assert(tables_finite(apply_line(t, ls[0])));
        lemma_load_finite(apply_line(t, ls[0]), ls.subrange(1, ls.len() as int));
    }
}

proof fn lemma_load_dom(ls: Seq<Seq<u8>>, c: ModContext, k: HidKey)
    ensures
        table_in(load_from(empty_tables(), ls), c).contains_key(k) <==> exists|i: int|
            0 <= i < ls.len() && line_is_rule(#[trigger] ls[i]) && line_slot(ls[i]) == (c, k),
    decreases ls.len(),
{
    if ls.len() == 0 {
    } else {
        let d = ls.drop_last();
        let l = ls.last();
        assert(d.push(l) =~= ls);
        lemma_load_from_snoc(empty_tables(), d, l);
        lemma_load_dom(d, c, k);
        let before = load_from(empty_tables(), d);
        assert(load_from(empty_tables(), ls) == apply_line(before, l));
        if exists|i: int|
            0 <= i < d.len() && line_is_rule(#[trigger] d[i]) && line_slot(d[i]) == (c, k) {
            let i = choose|i: int|
                0 <= i < d.len() && line_is_rule(#[trigger] d[i]) && line_slot(d[i]) == (c, k);
            assert(ls[i] == d[i]);
            assert(line_is_rule(ls[i]) && line_slot(ls[i]) == (c, k));
        }
        if table_in(apply_line(before, l), c).contains_key(k) && !table_in(
            before,
            c,
        ).contains_key(k) {
            assert(line_is_rule(l) && line_slot(l) == (c, k));
            assert(ls[ls.len() - 1] == l);
        }
        if exists|i: int|
            0 <= i < ls.len() && line_is_rule(#[trigger] ls[i]) && line_slot(ls[i]) == (c, k) {
            let i = choose|i: int|
                0 <= i < ls.len() && line_is_rule(#[trigger] ls[i]) && line_slot(ls[i]) == (c, k);
            if i < ls.len() - 1 {
                assert(d[i] == ls[i]);
                assert(table_in(before, c).contains_key(k));
            } else {
                assert(l == ls[i]);
            }
            assert(table_in(apply_line(before, l), c).contains_key(k));
        }
    }
}

/// Loading well-formed rule lines with pairwise distinct slots - no two lines
/// binding the same control under the same modifier context - yields tables
/// whose total entry count equals the number of lines.
pub proof fn lemma_load_entry_count(ls: Seq<Seq<u8>>)
    requires
        forall|i: int| 0 <= i < ls.len() ==> line_is_rule(#[trigger] ls[i]),
        forall|i: int, j: int| 0 <= i < j < ls.len() ==> line_slot(#[trigger] ls[i]) != line_slot(
            #[trigger] ls[j],
        ),
    ensures
        total_entries(load_from(empty_tables(), ls)) == ls.len(),
    decreases ls.len(),
{
    if ls.len() > 0 {
        let d = ls.drop_last();
        let l = ls.last();
        assert(d.push(l) =~= ls);
        assert(forall|i: int| 0 <= i < d.len() ==> line_is_rule(#[trigger] d[i])) by {
            assert(forall|i: int| 0 <= i < d.len() ==> d[i] == ls[i]);
        }
        assert(forall|i: int, j: int|
            0 <= i < j < d.len() ==> line_slot(#[trigger] d[i]) != line_slot(#[trigger] d[j]))
            by {
            assert(forall|i: int| 0 <= i < d.len() ==> d[i] == ls[i]);
        }
        lemma_load_entry_count(d);
        lemma_load_from_snoc(empty_tables(), d, l);
        lemma_load_finite(empty_tables(), d);
        let before = load_from(empty_tables(), d);
        let slot = line_slot(l);
        lemma_load_dom(d, slot.0, slot.1);
        assert(!table_in(before, slot.0).contains_key(slot.1)) by {
            if exists|i: int|
                0 <= i < d.len() && line_is_rule(#[trigger] d[i]) && line_slot(d[i]) == slot {
                let i = choose|i: int|
                    0 <= i < d.len() && line_is_rule(#[trigger] d[i]) && line_slot(d[i]) == slot;
                assert(ls[i] == d[i]);
                assert(line_slot(ls[i]) != line_slot(ls[ls.len() - 1]));
                assert(false);
            }
        }
        match spec_parse_line(l) {
            LineOutcomeV::Rule { ctx, key, action, .. } => {
                assert(table_in(before, ctx).insert(key, action).dom() =~= table_in(
                    before,
                    ctx,
                ).dom().insert(key));
            },
            _ => {
                assert(false);
            },
        }
    }
}

/// A text none of whose lines yields a rule - only comments, blank lines, and
/// rejected lines - loads to the all-empty table set.
pub proof fn lemma_load_ignores_non_rules(ls: Seq<Seq<u8>>)
    requires
        forall|i: int| 0 <= i < ls.len() ==> !line_is_rule(#[trigger] ls[i]),
    ensures
        load_from(empty_tables(), ls) == empty_tables(),
    decreases ls.len(),
{
    if ls.len() > 0 {
        assert(apply_line(empty_tables(), ls[0]) == empty_tables());
        assert(forall|i: int|
            0 <= i < ls.subrange(1, ls.len() as int).len() ==> !line_is_rule(
                #[trigger] ls.subrange(1, ls.len() as int)[i],
            )) by {
            assert(forall|i: int|
                0 <= i < ls.len() - 1 ==> ls.subrange(1, ls.len() as int)[i] == ls[i + 1]);
        }
        lemma_load_ignores_non_rules(ls.subrange(1, ls.len() as int));
    }
}

/// With both the secondary modifier and the function layer held, a press
/// resolves only against the combined table: the selected context is the
/// combined one whatever the shift flag says, and the result is the same for
/// any two table sets that agree on the combined table, however their other
/// tables - the plain function-layer table included - differ.
pub proof fn lemma_combined_context_only(
    t1: TablesV,
    t2: TablesV,
    shift1: bool,
    shift2: bool,
    k: HidKey,
)
    requires
        t1.eject_fn == t2.eject_fn,
    ensures
        spec_context(true, shift1, true) == ModContext::EjectFn,
        spec_lookup(t1, spec_context(true, shift1, true), k) == spec_lookup(
            t2,
            spec_context(true, shift2, true),
            k,
        ),
{
}

} // verus!
