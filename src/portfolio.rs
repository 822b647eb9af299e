use vstd::prelude::*;
use crate::fixed::Fixed;
use crate::security::{Security, SecurityView};

verus! {

/// The state of one position: signed quantity, cost-basis price and mark.
#[derive(Clone, Copy, Debug, PartialEq, Eq, Structural)]
pub struct Holding {
    pub quantity: Fixed,
    pub price: Fixed,
    pub mark: Fixed,
}

/// The holding of an instrument that is not held: nothing at price and mark zero.
pub open spec fn empty_holding() -> Holding {
    Holding { quantity: Fixed { raw: 0 }, price: Fixed { raw: 0 }, mark: Fixed { raw: 0 } }
}

/// What `m` holds of `k`, or the empty holding.
pub open spec fn holding_at(m: Map<SecurityView, Holding>, k: SecurityView) -> Holding {
    if m.contains_key(k) {
        m[k]
    } else {
        empty_holding()
    }
}

/// No entry of `m` has quantity zero.
pub open spec fn nonzero_entries(m: Map<SecurityView, Holding>) -> bool {
    forall|k: SecurityView| #[trigger] m.contains_key(k) ==> m[k].quantity@ != 0
}

impl Holding {
    pub fn new(quantity: Fixed, price: Fixed, mark: Fixed) -> (r: Holding)
        ensures
            r == (Holding { quantity, price, mark }),
    {
        Holding { quantity, price, mark }
    }

    /// No position: quantity, price and mark zero.
    pub fn default() -> (r: Holding)
        ensures
            r == empty_holding(),
    {
        Holding { quantity: Fixed { raw: 0 }, price: Fixed { raw: 0 }, mark: Fixed { raw: 0 } }
    }
}

/// The map that a list of entries stands for, a later entry of a key taking precedence.
pub open spec fn map_of(s: Seq<(Security, Holding)>) -> Map<SecurityView, Holding>
    decreases s.len(),
{
    if s.len() == 0 {
        Map::empty()
    } else {
        map_of(s.drop_last()).insert(s.last().0@, s.last().1)
    }
}

pub open spec fn keys_unique(s: Seq<(Security, Holding)>) -> bool {
    forall|i: int, j: int| 0 <= i < j < s.len() ==> s[i].0@ != s[j].0@
}

proof fn lemma_map_of_dom(s: Seq<(Security, Holding)>)
    ensures
        map_of(s).dom().finite(),
        forall|k: SecurityView| #[trigger] map_of(s).contains_key(k)
            <==> exists|i: int| 0 <= i < s.len() && s[i].0@ == k,
    decreases s.len(),
{
    if s.len() > 0 {
        let t = s.drop_last();
        lemma_map_of_dom(t);
        assert forall|k: SecurityView| #[trigger] map_of(s).contains_key(k)
            <==> exists|i: int| 0 <= i < s.len() && s[i].0@ == k by {
            if map_of(s).contains_key(k) {
                if k == s.last().0@ {
                    assert(s[s.len() - 1].0@ == k);
                } else {
                    let i = choose|i: int| 0 <= i < t.len() && t[i].0@ == k;
                    assert(s[i].0@ == k);
                }
            }
            if exists|i: int| 0 <= i < s.len() && s[i].0@ == k {
                let i = choose|i: int| 0 <= i < s.len() && s[i].0@ == k;
                if i < s.len() - 1 {
                    assert(t[i].0@ == k);
                }
            }
        }
    }
}

proof fn lemma_map_of_at(s: Seq<(Security, Holding)>, i: int)
    requires
        keys_unique(s),
        0 <= i < s.len(),
    ensures
        map_of(s).contains_key(s[i].0@),
        map_of(s)[s[i].0@] == s[i].1,
    decreases s.len(),
{
    if i < s.len() - 1 {
        let t = s.drop_last();
        assert(t[i] == s[i]);
        lemma_map_of_at(t, i);
        assert(s[i].0@ != s[s.len() - 1].0@);
    }
}

proof fn lemma_map_of_len(s: Seq<(Security, Holding)>)
    requires
        keys_unique(s),
    ensures
        map_of(s).len() == s.len(),
    decreases s.len(),
{
    if s.len() > 0 {
        let t = s.drop_last();
        lemma_map_of_len(t);
        lemma_map_of_dom(t);
        if map_of(t).contains_key(s.last().0@) {
            let i = choose|i: int| 0 <= i < t.len() && t[i].0@ == s.last().0@;
            assert(s[i].0@ == s[s.len() - 1].0@);
        }
    }
}

proof fn lemma_map_of_update(s: Seq<(Security, Holding)>, i: int, e: (Security, Holding))
    requires
        keys_unique(s),
        0 <= i < s.len(),
        e.0@ == s[i].0@,
    ensures
        map_of(s.update(i, e)) == map_of(s).insert(e.0@, e.1),
    decreases s.len(),
{
    let t = s.drop_last();
    let u = s.update(i, e);
    if i == s.len() - 1 {
        assert(u.drop_last() =~= t);
        assert(map_of(u) =~= map_of(s).insert(e.0@, e.1));
    } else {
        assert(u.drop_last() =~= t.update(i, e));
        lemma_map_of_update(t, i, e);
        assert(s[i].0@ != s[s.len() - 1].0@);
        assert(map_of(u) =~= map_of(s).insert(e.0@, e.1));
    }
}

proof fn lemma_map_of_remove(s: Seq<(Security, Holding)>, i: int)
    requires
        keys_unique(s),
        0 <= i < s.len(),
    ensures
        map_of(s.remove(i)) == map_of(s).remove(s[i].0@),
    decreases s.len(),
{
    let t = s.drop_last();
    let u = s.remove(i);
    if i == s.len() - 1 {
        assert(u =~= t);
        lemma_map_of_dom(t);
        if map_of(t).contains_key(s[i].0@) {
            let j = choose|j: int| 0 <= j < t.len() && t[j].0@ == s[i].0@;
            assert(s[j].0@ == s[i].0@);
        }
        assert(map_of(u) =~= map_of(s).remove(s[i].0@));
    } else {
        assert(u.drop_last() =~= t.remove(i));
        assert(u.last() == s.last());
        lemma_map_of_remove(t, i);
        assert(s[i].0@ != s[s.len() - 1].0@);
        assert(map_of(u) =~= map_of(s).remove(s[i].0@));
    }
}

/// The positions held: at most one holding per instrument, none of quantity zero.
#[derive(Debug)]
pub struct Portfolio {
    entries: Vec<(Security, Holding)>,
}

impl View for Portfolio {
    type V = Map<SecurityView, Holding>;

    closed spec fn view(&self) -> Map<SecurityView, Holding> {
        map_of(self.entries@)
    }
}

impl Portfolio {
    /// The portfolio is well formed: its map view has no entry of quantity zero.
    pub closed spec fn wf(&self) -> bool {
        &&& keys_unique(self.entries@)
        &&& forall|i: int| 0 <= i < self.entries@.len() ==> (#[trigger] self.entries@[i]).1.quantity@ != 0
    }

    pub proof fn lemma_wf(&self)
        requires
            self.wf(),
        ensures
            nonzero_entries(self@),
            self@.dom().finite(),
    {
        lemma_map_of_dom(self.entries@);
        assert forall|k: SecurityView| #[trigger] self@.contains_key(k) implies self@[k].quantity@ != 0 by {
            let i = choose|i: int| 0 <= i < self.entries@.len() && self.entries@[i].0@ == k;
            lemma_map_of_at(self.entries@, i);
        }
    }

    pub fn new() -> (r: Portfolio)
        ensures
            r.wf(),
            r@ == Map::<SecurityView, Holding>::empty(),
    {
        Portfolio { entries: Vec::new() }
    }

    /// Number of instruments held.
    pub fn len(&self) -> (r: usize)
        requires
            self.wf(),
        ensures
            r == self@.len(),
    {
        proof {
            lemma_map_of_len(self.entries@);
        }
        self.entries.len()
    }

    pub fn is_empty(&self) -> (r: bool)
        requires
            self.wf(),
        ensures
            r == (self@.len() == 0),
    {
        proof {
            lemma_map_of_len(self.entries@);
        }
        self.entries.len() == 0
    }

    fn find(&self, s: &Security) -> (r: Option<usize>)
        ensures
            r matches Some(i) ==> i < self.entries@.len() && self.entries@[i as int].0@ == s@,
            r is None ==> forall|i: int| 0 <= i < self.entries@.len() ==> self.entries@[i].0@ != s@,
    {
        let mut i: usize = 0;
        while i < self.entries.len()
            invariant
                i <= self.entries@.len(),
                forall|j: int| 0 <= j < i ==> self.entries@[j].0@ != s@,
            decreases self.entries@.len() - i,
        {
            if self.entries[i].0 == *s {
                return Some(i);
            }
            i = i + 1;
        }
        None
    }

    /// The holding of instrument `s`, if it is held.
    pub fn get(&self, s: &Security) -> (r: Option<&Holding>)
        requires
            self.wf(),
        ensures
            r matches Some(h) ==> self@.contains_key(s@) && *h == self@[s@],
            r is None ==> !self@.contains_key(s@),
    {
        proof {
            lemma_map_of_dom(self.entries@);
        }
        match self.find(s) {
            Some(i) => {
                proof {
                    lemma_map_of_at(self.entries@, i as int);
                }
                Some(&self.entries[i].1)
            },
            None => None,
        }
    }

    /// What is held of `s`: its holding, or the empty holding.
    pub fn holding(&self, s: &Security) -> (r: Holding)
        requires
            self.wf(),
        ensures
            r == holding_at(self@, s@),
    {
        match self.get(s) {
            Some(h) => *h,
            None => Holding::default(),
        }
    }

    /// Records `h` as the holding of `s`; a holding of quantity zero removes `s`.
    pub fn store(&mut self, s: &Security, h: Holding)
        requires
            old(self).wf(),
        ensures
            final(self).wf(),
            final(self)@ == if h.quantity@ == 0 {
                old(self)@.remove(s@)
            } else {
                old(self)@.insert(s@, h)
            },
    {
        proof {
            lemma_map_of_dom(self.entries@);
        }
        match self.find(s) {
            Some(i) => {
                proof {
                    lemma_map_of_at(self.entries@, i as int);
                }
                if h.quantity.is_zero() {
                    proof {
                        lemma_map_of_remove(self.entries@, i as int);
                    }
                    let ghost before = self.entries@;
                    self.entries.remove(i);
                    assert(self.entries@ == before.remove(i as int));
                } else {
                    let e = (s.duplicate(), h);
                    proof {
                        lemma_map_of_update(self.entries@, i as int, e);
                    }
                    self.entries.set(i, e);
                }
            },
            None => {
                if h.quantity.is_zero() {
                    assert(self@ =~= old(self)@.remove(s@));
                } else {
                    let e = (s.duplicate(), h);
                    let ghost before = self.entries@;
                    self.entries.push(e);
                    assert(self.entries@.drop_last() =~= before);
                    assert(self@ =~= old(self)@.insert(s@, h));
                }
            },
        }
    }
}

} // verus!
