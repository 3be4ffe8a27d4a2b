//! The report decoder: one raw report buffer in, a burst of canonical
//! `(usage page, usage, value)` events out, with the set of held stateful
//! keys carried between calls so that releases can be inferred by diffing
//! snapshots.

use vstd::prelude::*;

verus! {

use crate::HidKey;
use crate::keys::{eject_key, fn_state_key};

broadcast use vstd::seq_lib::group_seq_properties;


/// A 16-bit value read little-endian from two bytes.
pub open spec fn le16(lo: u8, hi: u8) -> u16 {
    (lo + 256 * hi) as u16
}

/// The format identifiers the decoder knows: standard keyboard, the two
/// consumer-control variants, and the two vendor function-state variants.
pub open spec fn known_report_id(id: u8) -> bool {
    id == 0x01 || id == 0x02 || id == 0x03 || id == 0x05 || id == 0x11
}

/// A report of a known, stateful format that is long enough for that format.
pub open spec fn report_ok(r: Seq<u8>) -> bool {
    r.len() >= 2 && ((r[0] == 0x01 && r.len() >= 8) || ((r[0] == 0x02 || r[0] == 0x03) && r.len()
        >= 3) || r[0] == 0x05 || r[0] == 0x11)
}

/// A report of an unknown format that is long enough to carry a momentary
/// event.
pub open spec fn is_momentary_report(r: Seq<u8>) -> bool {
    r.len() >= 4 && !known_report_id(r[0])
}

/// The one-shot press a momentary report emits: bytes 1 and 2 give the usage
/// page, byte 3 the usage; a zero usage emits nothing.  No release ever
/// follows: unknown formats degrade to one-shot triggers.
pub open spec fn momentary_events(r: Seq<u8>) -> Seq<(u16, u16, i32)> {
    if r[3] != 0 {
        seq![(le16(r[1], r[2]), r[3] as u16, 1i32)]
    } else {
        Seq::empty()
    }
}

/// Whether byte `u` names a held key in some key slot among bytes 3 to `n` of
/// a standard keyboard report; slot values 0 (no key) and 1 (rollover error)
/// name none.
pub open spec fn kb_slot_code(r: Seq<u8>, n: int, u: u16) -> bool {
    exists|i: int| 3 <= i < n && r[i] != 0 && r[i] != 1 && u == r[i] as u16
}

/// The held keys a standard keyboard report shows, reading modifier bits
/// below `bits` and key slots below `slots`.
pub open spec fn kb_keys_upto(r: Seq<u8>, bits: u16, slots: int) -> Set<HidKey> {
    Set::new(
        |k: HidKey|
            k.usage_page == 0x07 && ((0xE0 <= k.usage && k.usage < 0xE0 + bits && ((r[1] >> (
                k.usage - 0xE0
            ) as u8) & 1) == 1) || kb_slot_code(r, slots, k.usage)),
    )
}

/// The held keys a standard keyboard report shows: one reserved identity per
/// set modifier bit of byte 1, and one keyboard-page identity per valid key
/// slot code.
pub open spec fn kb_keys(r: Seq<u8>) -> Set<HidKey> {
    kb_keys_upto(r, 8, r.len() as int)
}

/// The held key a consumer-control report shows: the little-endian usage of
/// bytes 1 and 2, under the consumer page; zero shows none.
pub open spec fn consumer_keys(r: Seq<u8>) -> Set<HidKey> {
    if le16(r[1], r[2]) != 0 {
        set![HidKey { usage_page: 0x0C, usage: le16(r[1], r[2]) }]
    } else {
        Set::empty()
    }
}

/// The held keys a vendor function-state report shows.  The function-layer
/// bit sits at bit 0 in the one variant and bit 4 in the other; only the
/// second variant also carries an eject bit, at bit 3.
pub open spec fn vendor_keys(r: Seq<u8>) -> Set<HidKey> {
    let fn_held = if r[0] == 0x05 {
        (r[1] & 1) == 1
    } else {
        ((r[1] >> 4) & 1) == 1
    };
    let eject_held = r[0] == 0x11 && ((r[1] >> 3) & 1) == 1;
    (if fn_held {
        set![fn_state_key()]
    } else {
        Set::empty()
    }).union(
        if eject_held {
            set![eject_key()]
        } else {
            Set::empty()
        },
    )
}

/// The new Stateful-Key Set a report of a known format shows.
pub open spec fn report_keys(r: Seq<u8>) -> Set<HidKey> {
    if r[0] == 0x01 {
        kb_keys(r)
    } else if r[0] == 0x02 || r[0] == 0x03 {
        consumer_keys(r)
    } else {
        vendor_keys(r)
    }
}

/// The release events a diff emits: one event of value 0 for each previously
/// held key absent from the new set, in the order the previous snapshot held
/// them.
pub open spec fn up_events(prev: Seq<HidKey>, now: Set<HidKey>) -> Seq<(u16, u16, i32)>
    decreases prev.len(),
{
    if prev.len() == 0 {
        Seq::empty()
    } else {
        up_events(prev.drop_last(), now) + (if now.contains(prev.last()) {
            Seq::empty()
        } else {
            seq![(prev.last().usage_page, prev.last().usage, 0i32)]
        })
    }
}

/// The press events a diff emits: one event of value 1 for each newly held
/// key absent from the previous set.
pub open spec fn down_events(now: Seq<HidKey>, prev: Set<HidKey>) -> Seq<(u16, u16, i32)>
    decreases now.len(),
{
    if now.len() == 0 {
        Seq::empty()
    } else {
        down_events(now.drop_last(), prev) + (if prev.contains(now.last()) {
            Seq::empty()
        } else {
            seq![(now.last().usage_page, now.last().usage, 1i32)]
        })
    }
}

/// The decoder's piece of session state: the set of stateful keys whose last
/// observation said "held", as a duplicate-free sequence.  Created empty;
/// replaced wholesale by each report of a stateful format.
pub struct DecoderState {
    held: Vec<HidKey>,
}

impl View for DecoderState {
    type V = Seq<HidKey>;

    closed spec fn view(&self) -> Seq<HidKey> {
        self.held@
    }
}

impl DecoderState {
    /// No key listed twice.
    pub open spec fn wf(&self) -> bool {
        self@.no_duplicates()
    }

    /// A fresh decoder: nothing held.  The first report decoded against it
    /// emits a press for every key it shows and no releases.
    pub fn new() -> (r: DecoderState)
        ensures
            r.wf(),
            r@ == Seq::<HidKey>::empty(),
    {
        DecoderState { held: Vec::new() }
    }
}

/// Whether `v` holds `k`.
fn vec_contains(v: &Vec<HidKey>, k: HidKey) -> (r: bool)
    ensures
        r == v@.contains(k),
{
    let mut i: usize = 0;
    while i < v.len()
        invariant
            i <= v@.len(),
            forall|j: int| 0 <= j < i ==> v@[j] != k,
        decreases v@.len() - i,
    {
        if v[i] == k {
            assert(v@.contains(k));
            return true;
        }
        i += 1;
    }
    false
}

/// The reserved modifier identity of one bit of a standard report's modifier
/// byte: bits 0 through 7 name left control, left shift, left alt, left meta,
/// then the same four on the right.
pub fn modifier_usage(bit: u16) -> (u: u16)
    requires
        bit < 8,
    ensures
        u == 0xE0 + bit,
{
    0xE0 + bit
}

/// Decode one raw report.  A report of a stateful format replaces the held
/// set with what the report shows and emits the diff against the previous
/// held set: all releases first, then all presses.  A report of an unknown
/// format of length at least 4 emits at most one momentary press and leaves
/// the held set alone.  Anything else - a report shorter than its format's
/// minimum - is rejected: no events, no state change.
#[verifier::loop_isolation(false)]
pub fn parse_a1314_hid_report(state: &mut DecoderState, report: &[u8]) -> (events: Vec<
    (u16, u16, i32),
>)
    requires
        old(state).wf(),
    ensures
        final(state).wf(),
        report_ok(report@) ==> final(state)@.to_set() == report_keys(report@) && events@
            == up_events(old(state)@, report_keys(report@)) + down_events(
            final(state)@,
            old(state)@.to_set(),
        ),
        is_momentary_report(report@) ==> final(state)@ == old(state)@ && events@
            == momentary_events(report@),
        !report_ok(report@) && !is_momentary_report(report@) ==> final(state)@ == old(state)@
            && events@ == Seq::<(u16, u16, i32)>::empty(),
{
    let mut events: Vec<(u16, u16, i32)> = Vec::new();
    if report.len() < 2 {
        proof {
            assert(events@ =~= Seq::<(u16, u16, i32)>::empty());
        }
        return events;
    }
    let id = report[0];
    let mut new_held: Vec<HidKey> = Vec::new();

    if id == 0x01 {
        if report.len() < 8 {
            proof {
                assert(events@ =~= Seq::<(u16, u16, i32)>::empty());
            }
            return events;
        }
        let modifiers = report[1];
        let mut bit: u16 = 0;
        while bit < 8
            invariant
                bit <= 8,
                new_held@.no_duplicates(),
                forall|j: int| 0 <= j < new_held@.len() ==> (#[trigger] new_held@[j]).usage_page
                    == 0x07 && 0xE0 <= new_held@[j].usage < 0xE0 + bit,
                new_held@.to_set() == kb_keys_upto(report@, bit, 3),
            decreases 8 - bit,
        {
            let ghost held0 = new_held@;
            let ghost s_new = kb_keys_upto(report@, (bit + 1) as u16, 3);
            if (modifiers >> (bit as u8)) & 1 == 1 {
                let k = HidKey { usage_page: 0x07, usage: 0xE0 + bit };
                proof {
                    assert(!held0.contains(k));
                }
                new_held.push(k);
                proof {
                    assert(new_held@.drop_last() =~= held0);
                    assert forall|x: HidKey| new_held@.to_set().contains(x) implies s_new.contains(
                        x,
                    ) by {
                        if held0.contains(x) {
                            assert(held0.to_set().contains(x));
                        } else {
                            assert(x == k);
                        }
                    }
                    assert forall|x: HidKey| s_new.contains(x) implies new_held@.to_set().contains(
                        x,
                    ) by {
                        if 0xE0 <= x.usage && x.usage < 0xE0 + bit + 1 && x.usage_page == 0x07
                            && !kb_slot_code(report@, 3, x.usage) {
                            if x.usage < 0xE0 + bit {
                                assert(held0.to_set().contains(x));
                            } else {
                                assert(x == k);
                                assert(new_held@.contains(k));
                            }
                        }
                    }
                    assert(new_held@.to_set() =~= s_new);
                }
            } else {
                proof {
                    assert forall|x: HidKey| held0.to_set().contains(x) implies s_new.contains(
                        x,
                    ) by {}
                    assert forall|x: HidKey| s_new.contains(x) implies held0.to_set().contains(
                        x,
                    ) by {
                        if 0xE0 <= x.usage && x.usage < 0xE0 + bit + 1 && x.usage_page == 0x07
                            && !kb_slot_code(report@, 3, x.usage) {
                            assert(x.usage != 0xE0 + bit);
                        }
                    }
                    assert(held0.to_set() =~= s_new);
                }
            }
            bit += 1;
        }
        let mut idx: usize = 3;
        while idx < report.len()
            invariant
                3 <= idx <= report@.len(),
                new_held@.no_duplicates(),
                new_held@.to_set() == kb_keys_upto(report@, 8, idx as int),
            decreases report@.len() - idx,
        {
            let c = report[idx];
            let ghost held0 = new_held@;
            let ghost s_old = kb_keys_upto(report@, 8, idx as int);
            let ghost s_new = kb_keys_upto(report@, 8, idx + 1);
            proof {
                assert forall|u: u16| kb_slot_code(report@, idx as int, u) implies kb_slot_code(
                    report@,
                    idx + 1,
                    u,
                ) by {
                    let w = choose|i: int|
                        3 <= i < idx && report@[i] != 0 && report@[i] != 1 && u == report@[i] as u16;
                    assert(3 <= w < idx + 1 && report@[w] != 0 && report@[w] != 1 && u
                        == report@[w] as u16);
                }
            }
            if c != 0 && c != 1 {
                let k = HidKey { usage_page: 0x07, usage: c as u16 };
                proof {
                    assert(kb_slot_code(report@, idx + 1, c as u16)) by {
                        assert(3 <= idx && (idx as int) < idx + 1 && report@[idx as int] != 0
                            && report@[idx as int] != 1 && c as u16 == report@[idx as int] as u16);
                    }
                }
                if !vec_contains(&new_held, k) {
                    new_held.push(k);
                }
                proof {
                    assert forall|x: HidKey| new_held@.to_set().contains(x) implies s_new.contains(
                        x,
                    ) by {
                        if held0.contains(x) {
                            assert(held0.to_set().contains(x));
                            assert(s_old.contains(x));
                        } else {
                            assert(x == k);
                        }
                    }
                    assert forall|x: HidKey| s_new.contains(x) implies new_held@.to_set().contains(
                        x,
                    ) by {
                        if !s_old.contains(x) {
                            assert(kb_slot_code(report@, idx + 1, x.usage));
                            let w = choose|i: int|
                                3 <= i < idx + 1 && report@[i] != 0 && report@[i] != 1 && x.usage
                                    == report@[i] as u16;
                            if w < idx {
                                assert(kb_slot_code(report@, idx as int, x.usage));
                                assert(false);
                            }
                            assert(x.usage == c as u16);
                            assert(x == k);
                            assert(new_held@.contains(k));
                        } else {
                            assert(held0.to_set().contains(x));
                        }
                    }
                    assert(new_held@.to_set() =~= s_new);
                }
            } else {
                proof {
                    assert forall|x: HidKey| s_new.contains(x) implies s_old.contains(x) by {
                        if kb_slot_code(report@, idx + 1, x.usage) {
                            let w = choose|i: int|
                                3 <= i < idx + 1 && report@[i] != 0 && report@[i] != 1 && x.usage
                                    == report@[i] as u16;
                            if w == idx {
                                assert(false);
                            }
                            assert(kb_slot_code(report@, idx as int, x.usage));
                        }
                    }
                    assert(new_held@.to_set() =~= s_new);
                }
            }
            idx += 1;
        }
    } else if id == 0x02 || id == 0x03 {
        if report.len() < 3 {
            proof {
                assert(events@ =~= Seq::<(u16, u16, i32)>::empty());
            }
            return events;
        }
        let usage: u16 = report[1] as u16 + 256 * (report[2] as u16);
        if usage != 0 {
            new_held.push(HidKey { usage_page: 0x0C, usage });
        }
        proof {
            assert(new_held@.to_set() =~= consumer_keys(report@));
        }
    } else if id == 0x05 || id == 0x11 {
        let fn_held = if id == 0x05 {
            (report[1] & 1) == 1
        } else {
            ((report[1] >> 4) & 1) == 1
        };
        let eject_held = id == 0x11 && ((report[1] >> 3) & 1) == 1;
        if fn_held {
            new_held.push(HidKey { usage_page: 0xFF00, usage: 0x0003 });
        }
        if eject_held {
            new_held.push(HidKey { usage_page: 0x0C, usage: 0x00B8 });
        }
        proof {
            assert(new_held@.to_set() =~= vendor_keys(report@));
        }
    } else {
        if report.len() >= 4 {
            let page: u16 = report[1] as u16 + 256 * (report[2] as u16);
            let usage: u16 = report[3] as u16;
            if usage != 0 {
                events.push((page, usage, 1));
                proof {
                    assert(events@ =~= momentary_events(report@));
                }
            } else {
                proof {
                    assert(events@ =~= momentary_events(report@));
                }
            }
        } else {
            proof {
                assert(events@ =~= Seq::<(u16, u16, i32)>::empty());
            }
        }
        return events;
    }

    proof {
        assert(new_held@.to_set() == report_keys(report@));
    }
    let ghost prev_seq = state.held@;
    let ghost now_set = new_held@.to_set();

    proof {
        assert(events@ =~= Seq::<(u16, u16, i32)>::empty());
        assert(prev_seq.subrange(0, 0) =~= Seq::<HidKey>::empty());
    }
    let mut i: usize = 0;
    while i < state.held.len()
        invariant
            i <= prev_seq.len(),
            state.held@ == prev_seq,
            events@ == up_events(prev_seq.subrange(0, i as int), now_set),
        decreases prev_seq.len() - i,
    {
        let k = state.held[i];
        let ghost pre = prev_seq.subrange(0, i as int);
        let ghost post = prev_seq.subrange(0, i + 1);
        if !vec_contains(&new_held, k) {
            events.push((k.usage_page, k.usage, 0));
        }
        proof {
            assert(post.drop_last() =~= pre);
            assert(post.last() == prev_seq[i as int]);
            assert(events@ =~= up_events(post, now_set));
        }
        i += 1;
    }
    proof {
        assert(prev_seq.subrange(0, prev_seq.len() as int) =~= prev_seq);
    }
    let ghost after_ups = events@;

    proof {
        assert(new_held@.subrange(0, 0) =~= Seq::<HidKey>::empty());
        assert(events@ =~= after_ups + down_events(new_held@.subrange(0, 0), prev_seq.to_set()));
    }
    let mut j: usize = 0;
    while j < new_held.len()
        invariant
            j <= new_held@.len(),
            state.held@ == prev_seq,
            events@ == after_ups + down_events(new_held@.subrange(0, j as int), prev_seq.to_set()),
        decreases new_held@.len() - j,
    {
        let k = new_held[j];
        let ghost pre = new_held@.subrange(0, j as int);
        let ghost post = new_held@.subrange(0, j + 1);
        if !vec_contains(&state.held, k) {
            events.push((k.usage_page, k.usage, 1));
        }
        proof {
            assert(post.drop_last() =~= pre);
            assert(post.last() == new_held@[j as int]);
            assert(events@ =~= after_ups + down_events(post, prev_seq.to_set()));
        }
        j += 1;
    }
    proof {
        assert(new_held@.subrange(0, new_held@.len() as int) =~= new_held@);
    }
    state.held = new_held;
    events
}


/// How many times one event occurs in a burst of events.
pub open spec fn count_event(evs: Seq<(u16, u16, i32)>, e: (u16, u16, i32)) -> nat
    decreases evs.len(),
{
    if evs.len() == 0 {
        0
    } else {
        count_event(evs.drop_last(), e) + (if evs.last() == e {
            1nat
        } else {
            0nat
        })
    }
}

proof fn lemma_count_event_concat(a: Seq<(u16, u16, i32)>, b: Seq<(u16, u16, i32)>, e: (u16, u16, i32))
    ensures
        count_event(a + b, e) == count_event(a, e) + count_event(b, e),
    decreases b.len(),
{
    if b.len() == 0 {
        assert(a + b =~= a);
    } else {
        assert((a + b).drop_last() =~= a + b.drop_last());
        lemma_count_event_concat(a, b.drop_last(), e);
    }
}

proof fn lemma_up_events_counts(prev: Seq<HidKey>, now: Set<HidKey>, k: HidKey)
    requires
        prev.no_duplicates(),
    ensures
        count_event(up_events(prev, now), (k.usage_page, k.usage, 0i32)) == if prev.contains(k)
            && !now.contains(k) {
            1nat
        } else {
            0nat
        },
        count_event(up_events(prev, now), (k.usage_page, k.usage, 1i32)) == 0,
    decreases prev.len(),
{
    reveal_with_fuel(count_event, 3);
    if prev.len() > 0 {
        assert(prev.drop_last().contains(k) ==> prev.contains(k)) by {
            if prev.drop_last().contains(k) {
                let i = choose|i: int|
                    0 <= i < prev.drop_last().len() && prev.drop_last()[i] == k;
                assert(prev[i] == k);
            }
        }
        let d = prev.drop_last();
        let l = prev.last();
        assert(d.no_duplicates());
        lemma_up_events_counts(d, now, k);
        let tail: Seq<(u16, u16, i32)> = if now.contains(l) {
            Seq::empty()
        } else {
            seq![(l.usage_page, l.usage, 0i32)]
        };
        lemma_count_event_concat(up_events(d, now), tail, (k.usage_page, k.usage, 0i32));
        lemma_count_event_concat(up_events(d, now), tail, (k.usage_page, k.usage, 1i32));
        if l == k {
            if d.contains(k) {
                let i = choose|i: int| 0 <= i < d.len() && d[i] == k;
                assert(prev[i] == prev[prev.len() - 1]);
                assert(false);
            }
        } else {
            assert((l.usage_page, l.usage, 0i32) != (k.usage_page, k.usage, 0i32)) by {
                if (l.usage_page, l.usage, 0i32) == (k.usage_page, k.usage, 0i32) {
                    assert(l == k);
                }
            }
            if prev.contains(k) {
                let i = choose|i: int| 0 <= i < prev.len() && prev[i] == k;
                assert(i < prev.len() - 1);
                assert(d.contains(k));
            }
        }
    }
}

proof fn lemma_down_events_counts(now: Seq<HidKey>, prev: Set<HidKey>, k: HidKey)
    requires
        now.no_duplicates(),
    ensures
        count_event(down_events(now, prev), (k.usage_page, k.usage, 1i32)) == if now.contains(k)
            && !prev.contains(k) {
            1nat
        } else {
            0nat
        },
        count_event(down_events(now, prev), (k.usage_page, k.usage, 0i32)) == 0,
    decreases now.len(),
{
    reveal_with_fuel(count_event, 3);
    if now.len() > 0 {
        assert(now.drop_last().contains(k) ==> now.contains(k)) by {
            if now.drop_last().contains(k) {
                let i = choose|i: int|
                    0 <= i < now.drop_last().len() && now.drop_last()[i] == k;
                assert(now[i] == k);
            }
        }
        let d = now.drop_last();
        let l = now.last();
        assert(d.no_duplicates());
        lemma_down_events_counts(d, prev, k);
        let tail: Seq<(u16, u16, i32)> = if prev.contains(l) {
            Seq::empty()
        } else {
            seq![(l.usage_page, l.usage, 1i32)]
        };
        lemma_count_event_concat(down_events(d, prev), tail, (k.usage_page, k.usage, 1i32));
        lemma_count_event_concat(down_events(d, prev), tail, (k.usage_page, k.usage, 0i32));
        if l == k {
            if d.contains(k) {
                let i = choose|i: int| 0 <= i < d.len() && d[i] == k;
                assert(now[i] == now[now.len() - 1]);
                assert(false);
            }
        } else {
            assert((l.usage_page, l.usage, 1i32) != (k.usage_page, k.usage, 1i32)) by {
                if (l.usage_page, l.usage, 1i32) == (k.usage_page, k.usage, 1i32) {
                    assert(l == k);
                }
            }
            if now.contains(k) {
                let i = choose|i: int| 0 <= i < now.len() && now[i] == k;
                assert(i < now.len() - 1);
                assert(d.contains(k));
            }
        }
    }
}

/// A key shown by the new snapshot but not previously held draws exactly one
/// press event in the diff, and a key no longer shown draws exactly one
/// release; a key present in both snapshots, or in neither, draws no event at
/// all.  With the decoder's contract this pins down the events of every
/// stateful report: one press the first time a key code appears, one release
/// the first report it is absent from, and nothing while it stays held.
pub proof fn lemma_event_occurrences(prev: Seq<HidKey>, now: Seq<HidKey>, k: HidKey)
    requires
        prev.no_duplicates(),
        now.no_duplicates(),
    ensures
        count_event(
            up_events(prev, now.to_set()) + down_events(now, prev.to_set()),
            (k.usage_page, k.usage, 1i32),
        ) == if now.contains(k) && !prev.contains(k) {
            1nat
        } else {
            0nat
        },
        count_event(
            up_events(prev, now.to_set()) + down_events(now, prev.to_set()),
            (k.usage_page, k.usage, 0i32),
        ) == if prev.contains(k) && !now.contains(k) {
            1nat
        } else {
            0nat
        },
{
    lemma_up_events_counts(prev, now.to_set(), k);
    lemma_down_events_counts(now, prev.to_set(), k);
    lemma_count_event_concat(
        up_events(prev, now.to_set()),
        down_events(now, prev.to_set()),
        (k.usage_page, k.usage, 1i32),
    );
    lemma_count_event_concat(
        up_events(prev, now.to_set()),
        down_events(now, prev.to_set()),
        (k.usage_page, k.usage, 0i32),
    );
}

proof fn lemma_up_events_all_contained(prev: Seq<HidKey>, now: Set<HidKey>)
    requires
        forall|i: int| 0 <= i < prev.len() ==> now.contains(#[trigger] prev[i]),
    ensures
        up_events(prev, now) == Seq::<(u16, u16, i32)>::empty(),
    decreases prev.len(),
{
    if prev.len() > 0 {
        lemma_up_events_all_contained(prev.drop_last(), now);
        assert(up_events(prev, now) =~= Seq::<(u16, u16, i32)>::empty());
    }
}

proof fn lemma_down_events_all_contained(now: Seq<HidKey>, prev: Set<HidKey>)
    requires
        forall|i: int| 0 <= i < now.len() ==> prev.contains(#[trigger] now[i]),
    ensures
        down_events(now, prev) == Seq::<(u16, u16, i32)>::empty(),
    decreases now.len(),
{
    if now.len() > 0 {
        lemma_down_events_all_contained(now.drop_last(), prev);
        assert(down_events(now, prev) =~= Seq::<(u16, u16, i32)>::empty());
    }
}

/// Decoding is idempotent over the Stateful-Key Set: when the held set
/// already equals, as a set, what a stateful report shows - as it does right
/// after that same report was decoded once - the diff emits no events at all,
/// and the held set is unchanged as a set.  Together with the decoder's
/// contract: the first decode of a report emits its press burst, the second
/// decode of the same report emits nothing.
pub proof fn lemma_redecode_silent(prev: Seq<HidKey>, now: Seq<HidKey>)
    requires
        prev.to_set() == now.to_set(),
    ensures
        up_events(prev, now.to_set()) == Seq::<(u16, u16, i32)>::empty(),
        down_events(now, prev.to_set()) == Seq::<(u16, u16, i32)>::empty(),
{
    assert(forall|i: int| 0 <= i < prev.len() ==> now.to_set().contains(#[trigger] prev[i]));
    assert(forall|i: int| 0 <= i < now.len() ==> prev.to_set().contains(#[trigger] now[i]));
    lemma_up_events_all_contained(prev, now.to_set());
    lemma_down_events_all_contained(now, prev.to_set());
}

} // verus!
