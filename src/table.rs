//! A map from byte sequences to keypresses that also answers prefix queries.
use vstd::prelude::*;

use vstd::slice::slice_to_vec;

use crate::keys::Keypress;

verus! {

/// `p` is a prefix of `s` (possibly `s` itself).
pub open spec fn is_prefix(p: Seq<u8>, s: Seq<u8>) -> bool {
    p.len() <= s.len() && s.subrange(0, p.len() as int) == p
}

/// `p` is a prefix of `s` and strictly shorter than it.
pub open spec fn is_proper_prefix(p: Seq<u8>, s: Seq<u8>) -> bool {
    p.len() < s.len() && s.subrange(0, p.len() as int) == p
}

/// Some stored sequence starts with `p` (or equals it).
pub open spec fn has_prefix_in(m: Map<Seq<u8>, Keypress>, p: Seq<u8>) -> bool {
    exists|k: Seq<u8>| #[trigger] m.contains_key(k) && is_prefix(p, k)
}

/// Some stored sequence starts with `p` and is longer than it.
pub open spec fn has_longer_in(m: Map<Seq<u8>, Keypress>, p: Seq<u8>) -> bool {
    exists|k: Seq<u8>| #[trigger] m.contains_key(k) && is_proper_prefix(p, k)
}

/// The lookup table of the key decoder.
///
/// Entries are kept in a vector with pairwise distinct keys; the map they
/// describe is the table's view.
pub struct PrefixTable {
    entries: Vec<(Vec<u8>, Keypress)>,
    contents: Ghost<Map<Seq<u8>, Keypress>>,
}

impl View for PrefixTable {
    type V = Map<Seq<u8>, Keypress>;

    closed spec fn view(&self) -> Map<Seq<u8>, Keypress> {
        self.contents@
    }
}

impl PrefixTable {
    /// Keys are distinct and the entries describe exactly the view.
    pub closed spec fn wf(&self) -> bool {
        &&& forall|i: int, j: int|
            0 <= i < j < self.entries@.len() ==> #[trigger] self.entries@[i].0@
                != #[trigger] self.entries@[j].0@
        &&& forall|i: int|
            0 <= i < self.entries@.len() ==> {
                &&& #[trigger] self.contents@.contains_key(self.entries@[i].0@)
                &&& self.contents@[self.entries@[i].0@] == self.entries@[i].1
            }
        &&& forall|k: Seq<u8>|
            #[trigger] self.contents@.contains_key(k) ==> exists|i: int|
                0 <= i < self.entries@.len() && #[trigger] self.entries@[i].0@ == k
    }

    /// An empty table.
    pub fn new() -> (r: PrefixTable)
        ensures
            r.wf(),
            r@ == Map::<Seq<u8>, Keypress>::empty(),
    {
        PrefixTable { entries: Vec::new(), contents: Ghost(Map::empty()) }
    }

    /// Index of the entry stored under `seq`, if any.
    fn position(&self, seq: &[u8]) -> (r: Option<usize>)
        requires
            self.wf(),
        ensures
            match r {
                Some(i) => i < self.entries@.len() && self.entries@[i as int].0@ == seq@,
                None => !self@.contains_key(seq@),
            },
    {
        let mut i: usize = 0;
        while i < self.entries.len()
            invariant
                self.wf(),
                i <= self.entries@.len(),
                forall|j: int| 0 <= j < i ==> #[trigger] self.entries@[j].0@ != seq@,
            decreases self.entries@.len() - i,
        {
            if bytes_equal(self.entries[i].0.as_slice(), seq) {
                return Some(i);
            }
            i = i + 1;
        }
        None
    }

    /// Stores `value` under `seq`, replacing what was stored there before.
    pub fn insert(&mut self, seq: &[u8], value: Keypress)
        requires
            old(self).wf(),
        ensures
            final(self).wf(),
            final(self)@ == old(self)@.insert(seq@, value),
    {
        let ghost before = self.contents@;
        match self.position(seq) {
            Some(i) => {
                self.entries.set(i, (slice_to_vec(seq), value));
                self.contents = Ghost(before.insert(seq@, value));
                assert forall|k: Seq<u8>| #[trigger] self.contents@.contains_key(k) implies exists|
                    j: int,
                |
                    0 <= j < self.entries@.len() && #[trigger] self.entries@[j].0@ == k by {
                    if k != seq@ {
                        let j = choose|j: int|
                            0 <= j < old(self).entries@.len() && #[trigger] old(
                                self,
                            ).entries@[j].0@ == k;
                        assert(self.entries@[j].0@ == k);
                    } else {
                        assert(self.entries@[i as int].0@ == k);
                    }
                }
            },
            None => {
                self.entries.push((slice_to_vec(seq), value));
                self.contents = Ghost(before.insert(seq@, value));
                let ghost n: int = self.entries@.len() - 1;
                assert forall|k: Seq<u8>| #[trigger] self.contents@.contains_key(k) implies exists|
                    j: int,
                |
                    0 <= j < self.entries@.len() && #[trigger] self.entries@[j].0@ == k by {
                    if k != seq@ {
                        let j = choose|j: int|
                            0 <= j < old(self).entries@.len() && #[trigger] old(
                                self,
                            ).entries@[j].0@ == k;
                        assert(self.entries@[j].0@ == k);
                    } else {
                        assert(self.entries@[n].0@ == k);
                    }
                }
            },
        }
    }

    /// The value stored under exactly `seq`.
    pub fn find(&self, seq: &[u8]) -> (r: Option<Keypress>)
        requires
            self.wf(),
        ensures
            r == (if self@.contains_key(seq@) {
                Some(self@[seq@])
            } else {
                None
            }),
    {
        match self.position(seq) {
            Some(i) => Some(self.entries[i].1),
            None => None,
        }
    }

    /// Whether `seq` is a prefix (proper or equal) of some stored sequence.
    pub fn has_prefix(&self, seq: &[u8]) -> (r: bool)
        requires
            self.wf(),
        ensures
            r == has_prefix_in(self@, seq@),
    {
        let mut i: usize = 0;
        while i < self.entries.len()
            invariant
                self.wf(),
                i <= self.entries@.len(),
                forall|j: int| 0 <= j < i ==> !is_prefix(seq@, #[trigger] self.entries@[j].0@),
            decreases self.entries@.len() - i,
        {
            if starts_with(self.entries[i].0.as_slice(), seq) {
                assert(self@.contains_key(self.entries@[i as int].0@));
                return true;
            }
            i = i + 1;
        }
        assert forall|k: Seq<u8>| #[trigger] self@.contains_key(k) implies !is_prefix(seq@, k) by {
            let j = choose|j: int| 0 <= j < self.entries@.len() && #[trigger] self.entries@[j].0@ == k;
            assert(!is_prefix(seq@, self.entries@[j].0@));
        }
        false
    }

    /// Whether some stored sequence starts with `seq` and is longer than it.
    pub fn has_longer(&self, seq: &[u8]) -> (r: bool)
        requires
            self.wf(),
        ensures
            r == has_longer_in(self@, seq@),
    {
        let mut i: usize = 0;
        while i < self.entries.len()
            invariant
                self.wf(),
                i <= self.entries@.len(),
                forall|j: int|
                    0 <= j < i ==> !is_proper_prefix(seq@, #[trigger] self.entries@[j].0@),
            decreases self.entries@.len() - i,
        {
            if self.entries[i].0.len() > seq.len() && starts_with(self.entries[i].0.as_slice(), seq) {
                assert(self@.contains_key(self.entries@[i as int].0@));
                return true;
            }
            i = i + 1;
        }
        assert forall|k: Seq<u8>| #[trigger] self@.contains_key(k) implies !is_proper_prefix(
            seq@,
            k,
        ) by {
            let j = choose|j: int| 0 <= j < self.entries@.len() && #[trigger] self.entries@[j].0@ == k;
            assert(!is_proper_prefix(seq@, self.entries@[j].0@));
        }
        false
    }
}

/// Whether `s` begins with `p`.
fn starts_with(s: &[u8], p: &[u8]) -> (r: bool)
    ensures
        r == is_prefix(p@, s@),
{
    if p.len() > s.len() {
        return false;
    }
    let mut i: usize = 0;
    while i < p.len()
        invariant
            p@.len() <= s@.len(),
            i <= p@.len(),
            forall|j: int| 0 <= j < i ==> s@[j] == p@[j],
        decreases p@.len() - i,
    {
        if s[i] != p[i] {
            assert(s@.subrange(0, p@.len() as int)[i as int] != p@[i as int]);
            return false;
        }
        i = i + 1;
    }
    assert(s@.subrange(0, p@.len() as int) =~= p@);
    true
}

/// Whether `a` and `b` hold the same bytes.
fn bytes_equal(a: &[u8], b: &[u8]) -> (r: bool)
    ensures
        r == (a@ == b@),
{
    if a.len() != b.len() {
        return false;
    }
    let r = starts_with(a, b);
    proof {
        if r {
            assert(a@ =~= a@.subrange(0, b@.len() as int));
        } else {
            assert(a@.subrange(0, b@.len() as int) =~= a@);
        }
    }
    r
}

/// A sequence stored in the table is found again, and every prefix of it,
/// itself included, is reported as a prefix of something stored.
pub proof fn lemma_inserted_is_found(m: Map<Seq<u8>, Keypress>, s: Seq<u8>, v: Keypress)
    ensures
        m.insert(s, v).contains_key(s),
        m.insert(s, v)[s] == v,
        forall|n: int| 0 <= n <= s.len() ==> has_prefix_in(m.insert(s, v), #[trigger] s.take(n)),
{
    let m2 = m.insert(s, v);
    assert forall|n: int| 0 <= n <= s.len() implies has_prefix_in(m2, #[trigger] s.take(n)) by {
        assert(m2.contains_key(s));
        assert(s.subrange(0, s.take(n).len() as int) =~= s.take(n));
        assert(is_prefix(s.take(n), s));
    }
}

} // verus!
