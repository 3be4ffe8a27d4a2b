//! One mapping table: control identity to action, with unique keys.  Its
//! mathematical value is a finite `Map<HidKey, ActionV>`.

use vstd::prelude::*;

verus! {

use crate::HidKey;
use crate::actions::{Action, ActionV};

/// The map an association sequence stands for; a later pair with the same key
/// overrides an earlier one.
pub open spec fn assoc_view(s: Seq<(HidKey, Action)>) -> Map<HidKey, ActionV>
    decreases s.len(),
{
    if s.len() == 0 {
        Map::empty()
    } else {
        assoc_view(s.drop_last()).insert(s.last().0, s.last().1@)
    }
}

/// Keys pairwise distinct.
pub open spec fn keys_unique(s: Seq<(HidKey, Action)>) -> bool {
    forall|i: int, j: int| 0 <= i < j < s.len() ==> (#[trigger] s[i]).0 != (#[trigger] s[j]).0
}

proof fn lemma_assoc_view_contains(s: Seq<(HidKey, Action)>, k: HidKey)
    ensures
        assoc_view(s).contains_key(k) <==> exists|i: int|
            0 <= i < s.len() && (#[trigger] s[i]).0 == k,
    decreases s.len(),
{
    if s.len() > 0 {
        lemma_assoc_view_contains(s.drop_last(), k);
        if s.last().0 == k {
            assert(s[s.len() - 1].0 == k);
        } else if assoc_view(s).contains_key(k) {
            let i = choose|i: int| 0 <= i < s.drop_last().len() && (#[trigger] s.drop_last()[i]).0
                == k;
            assert(s[i].0 == k);
        } else {
            if exists|i: int| 0 <= i < s.len() && (#[trigger] s[i]).0 == k {
                let i = choose|i: int| 0 <= i < s.len() && (#[trigger] s[i]).0 == k;
                assert(i < s.len() - 1);
                assert(s.drop_last()[i].0 == k);
            }
        }
    }
}

proof fn lemma_assoc_view_at(s: Seq<(HidKey, Action)>, i: int)
    requires
        keys_unique(s),
        0 <= i < s.len(),
    ensures
        assoc_view(s).contains_key(s[i].0),
        assoc_view(s)[s[i].0] == s[i].1@,
    decreases s.len(),
{
    if i == s.len() - 1 {
    } else {
        lemma_assoc_view_at(s.drop_last(), i);
        assert(s.drop_last()[i] == s[i]);
        assert(s.last().0 != s[i].0);
    }
}

proof fn lemma_assoc_view_len(s: Seq<(HidKey, Action)>)
    requires
        keys_unique(s),
    ensures
        assoc_view(s).dom().finite(),
        assoc_view(s).len() == s.len(),
    decreases s.len(),
{
    if s.len() > 0 {
        lemma_assoc_view_len(s.drop_last());
        lemma_assoc_view_contains(s.drop_last(), s.last().0);
        assert(forall|i: int| 0 <= i < s.drop_last().len() ==> (#[trigger] s.drop_last()[i]).0
            != s.last().0) by {
            assert(forall|i: int| 0 <= i < s.len() - 1 ==> (#[trigger] s[i]).0 != s[s.len()
                - 1].0);
        }
        assert(!assoc_view(s.drop_last()).contains_key(s.last().0));
    }
}

/// One of the five mapping tables: a lookup table from control identity to
/// action with unique keys.
pub struct RuleTable {
    entries: Vec<(HidKey, Action)>,
}

impl View for RuleTable {
    type V = Map<HidKey, ActionV>;

    closed spec fn view(&self) -> Map<HidKey, ActionV> {
        assoc_view(self.entries@)
    }
}

impl RuleTable {
    /// Keys are pairwise distinct.
    pub closed spec fn wf(&self) -> bool {
        keys_unique(self.entries@)
    }

    /// An empty table.
    pub fn new() -> (r: RuleTable)
        ensures
            r.wf(),
            r@ == Map::<HidKey, ActionV>::empty(),
            r@.len() == 0,
    {
        let r = RuleTable { entries: Vec::new() };
        proof {
            lemma_assoc_view_len(r.entries@);
        }
        r
    }

    /// How many rules the table holds.
    pub fn len(&self) -> (n: usize)
        requires
            self.wf(),
        ensures
            n == self@.len(),
    {
        proof {
            lemma_assoc_view_len(self.entries@);
        }
        self.entries.len()
    }

    /// Look a control identity up; `None` when the table has no rule for it.
    pub fn get(&self, k: HidKey) -> (r: Option<&Action>)
        requires
            self.wf(),
        ensures
            match r {
                Some(a) => self@.contains_key(k) && a@ == self@[k],
                None => !self@.contains_key(k),
            },
    {
        let mut i: usize = 0;
        while i < self.entries.len()
            invariant
                i <= self.entries@.len(),
                forall|j: int| 0 <= j < i ==> (#[trigger] self.entries@[j]).0 != k,
                self.wf(),
            decreases self.entries@.len() - i,
        {
            let pair: &(HidKey, Action) = &self.entries[i];
            if pair.0 == k {
                proof {
                    lemma_assoc_view_at(self.entries@, i as int);
                }
                return Some(&pair.1);
            }
            i += 1;
        }
        proof {
            lemma_assoc_view_contains(self.entries@, k);
        }
        None
    }

    /// Bind `k` to `a`, replacing any earlier rule for `k`.
    #[verifier::loop_isolation(false)]
    pub fn insert(&mut self, k: HidKey, a: Action)
        requires
            old(self).wf(),
        ensures
            final(self).wf(),
            final(self)@ == old(self)@.insert(k, a@),
    {
        let ghost a_view = a@;
        let mut i: usize = 0;
        while i < self.entries.len()
            invariant
                self == old(self),
                i <= self.entries@.len(),
                forall|j: int| 0 <= j < i ==> (#[trigger] self.entries@[j]).0 != k,
                self.wf(),
            decreases self.entries@.len() - i,
        {
            let pair: &(HidKey, Action) = &self.entries[i];
            if pair.0 == k {
                let ghost s0 = self.entries@;
                self.entries[i] = (k, a);
                proof {
                    assert(self.entries@[i as int] == (k, a));
                    lemma_assoc_update(s0, i as int, k, a_view, self.entries@);
                }
                return ;
            }
            i += 1;
        }
        proof {
            lemma_assoc_view_contains(self.entries@, k);
        }
        let ghost s0 = self.entries@;
        self.entries.push((k, a));
        proof {
            assert(self.entries@.drop_last() =~= s0);
            assert(self.entries@.last() == (k, a));
            assert(assoc_view(self.entries@) == assoc_view(s0).insert(k, a_view));
            assert(keys_unique(self.entries@)) by {
                assert(forall|j: int| 0 <= j < s0.len() ==> (#[trigger] s0[j]).0 != k);
                assert(forall|j: int| 0 <= j < self.entries@.len() - 1 ==> self.entries@[j]
                    == s0[j]);
            }
        }
    }
}

proof fn lemma_assoc_update(
    s0: Seq<(HidKey, Action)>,
    i: int,
    k: HidKey,
    av: ActionV,
    s1: Seq<(HidKey, Action)>,
)
    requires
        keys_unique(s0),
        0 <= i < s0.len(),
        s0[i].0 == k,
        s1.len() == s0.len(),
        s1[i].0 == k,
        s1[i].1@ == av,
        forall|j: int| 0 <= j < s0.len() && j != i ==> s1[j] == s0[j],
    ensures
        keys_unique(s1),
        assoc_view(s1) == assoc_view(s0).insert(k, av),
    decreases s0.len(),
{
    assert(keys_unique(s1)) by {
        assert(forall|p: int, q: int| 0 <= p < q < s1.len() ==> (#[trigger] s1[p]).0
            != (#[trigger] s1[q]).0) by {
            assert(forall|p: int| 0 <= p < s1.len() ==> (#[trigger] s1[p]).0 == s0[p].0);
        }
    }
    if i == s0.len() - 1 {
        assert(s1.drop_last() =~= s0.drop_last());
        assert(assoc_view(s1) == assoc_view(s0.drop_last()).insert(k, av));
        assert(assoc_view(s0).insert(k, av) =~= assoc_view(s0.drop_last()).insert(k, av));
    } else {
        lemma_assoc_update(s0.drop_last(), i, k, av, s1.drop_last());
        assert(s1.last() == s0.last());
        assert(s0.last().0 != k);
        assert(assoc_view(s1) == assoc_view(s0.drop_last()).insert(k, av).insert(
            s0.last().0,
            s0.last().1@,
        ));
        assert(assoc_view(s0.drop_last()).insert(k, av).insert(s0.last().0, s0.last().1@)
            =~= assoc_view(s0.drop_last()).insert(s0.last().0, s0.last().1@).insert(k, av));
    }
}

} // verus!
