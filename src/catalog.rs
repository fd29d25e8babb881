//! The table of key sequences that the decoder recognises.
use vstd::prelude::*;

use crate::keys::Keypress;
use crate::table::PrefixTable;

verus! {

/// Number of function keys taken from the capability source (F1 to F11).
pub const FUNCTION_KEYS: usize = 11;

/// Highest control byte given a control-key mapping (`^Y`).
pub const LAST_CONTROL: u8 = 25;

/// The escape byte.
pub const ESCAPE: u8 = 27;

/// The byte sequences that the terminal sends for its special keys, as the
/// capability source reports them; `None` where it has none.
pub struct KeySequences {
    pub backspace: Option<Vec<u8>>,
    pub enter: Option<Vec<u8>>,
    pub tab: Option<Vec<u8>>,
    pub up: Option<Vec<u8>>,
    pub down: Option<Vec<u8>>,
    pub left: Option<Vec<u8>>,
    pub right: Option<Vec<u8>>,
    pub home: Option<Vec<u8>>,
    pub end: Option<Vec<u8>>,
    pub insert: Option<Vec<u8>>,
    pub delete: Option<Vec<u8>>,
    /// F1, F2, ... in order; entries after the eleventh are not used.
    pub function: Vec<Option<Vec<u8>>>,
}

/// `m` with `k` stored under `s`, when there is an `s` and it is not empty:
/// an empty sequence counts as no sequence at all.
pub open spec fn put(m: Map<Seq<u8>, Keypress>, s: Option<Vec<u8>>, k: Keypress) -> Map<
    Seq<u8>,
    Keypress,
> {
    match s {
        Some(v) => if v@.len() > 0 {
            m.insert(v@, k)
        } else {
            m
        },
        None => m,
    }
}

/// `m` after storing F1 to F`n` from `fs`.
pub open spec fn put_function_keys(
    m: Map<Seq<u8>, Keypress>,
    fs: Seq<Option<Vec<u8>>>,
    n: nat,
) -> Map<Seq<u8>, Keypress>
    decreases n,
{
    if n == 0 {
        m
    } else {
        put(put_function_keys(m, fs, (n - 1) as nat), fs[n - 1], Keypress::KeyF(n as isize))
    }
}

/// How many function keys are taken from `keys`.
pub open spec fn function_count(keys: &KeySequences) -> nat {
    if keys.function@.len() < FUNCTION_KEYS {
        keys.function@.len()
    } else {
        FUNCTION_KEYS as nat
    }
}

/// The mappings that come from the capability source, in insertion order:
/// backspace, return, tab; arrows, home, end, insert, delete; function keys.
pub open spec fn capability_keys(keys: &KeySequences) -> Map<Seq<u8>, Keypress> {
    let m0 = Map::<Seq<u8>, Keypress>::empty();
    let m1 = put(put(put(m0, keys.backspace, Keypress::KeyBackspace), keys.enter, Keypress::KeyReturn), keys.tab, Keypress::KeyTab);
    let m2 = put(put(put(put(m1, keys.up, Keypress::KeyUp), keys.down, Keypress::KeyDown), keys.left, Keypress::KeyLeft), keys.right, Keypress::KeyRight);
    let m3 = put(put(put(put(m2, keys.home, Keypress::KeyHome), keys.end, Keypress::KeyEnd), keys.insert, Keypress::KeyInsert), keys.delete, Keypress::KeyDelete);
    put_function_keys(m3, keys.function@, function_count(keys))
}

/// `m` after the control pass over the bytes 1 to `n`: each byte not yet
/// mapped alone becomes a control key.
pub open spec fn control_keys(m: Map<Seq<u8>, Keypress>, n: nat) -> Map<Seq<u8>, Keypress>
    decreases n,
{
    if n == 0 {
        m
    } else {
        let prev = control_keys(m, (n - 1) as nat);
        let s = seq![n as u8];
        if prev.contains_key(s) {
            prev
        } else {
            prev.insert(s, Keypress::KeyCtrl(n as u8 as char))
        }
    }
}

/// The complete table: capability keys, then control keys, then escape.
pub open spec fn catalog(keys: &KeySequences) -> Map<Seq<u8>, Keypress> {
    control_keys(capability_keys(keys), LAST_CONTROL as nat).insert(seq![ESCAPE], Keypress::KeyEscape)
}

/// Stores `k` under `s`, when there is an `s` and it is not empty.
fn insert_some(t: &mut PrefixTable, s: &Option<Vec<u8>>, k: Keypress)
    requires
        old(t).wf(),
    ensures
        final(t).wf(),
        final(t)@ == put(old(t)@, *s, k),
{
    match s {
        Some(v) => {
            if v.len() > 0 {
                t.insert(v.as_slice(), k);
            }
        },
        None => {},
    }
}

/// Builds the decoder's table from the terminal's key sequences.
pub fn build_escapes_trie(keys: &KeySequences) -> (r: PrefixTable)
    ensures
        r.wf(),
        r@ == catalog(keys),
        !r@.contains_key(Seq::<u8>::empty()),
{
    proof {
        lemma_catalog_has_no_empty(keys);
    }
    let mut t = PrefixTable::new();
    insert_some(&mut t, &keys.backspace, Keypress::KeyBackspace);
    insert_some(&mut t, &keys.enter, Keypress::KeyReturn);
    insert_some(&mut t, &keys.tab, Keypress::KeyTab);
    insert_some(&mut t, &keys.up, Keypress::KeyUp);
    insert_some(&mut t, &keys.down, Keypress::KeyDown);
    insert_some(&mut t, &keys.left, Keypress::KeyLeft);
    insert_some(&mut t, &keys.right, Keypress::KeyRight);
    insert_some(&mut t, &keys.home, Keypress::KeyHome);
    insert_some(&mut t, &keys.end, Keypress::KeyEnd);
    insert_some(&mut t, &keys.insert, Keypress::KeyInsert);
    insert_some(&mut t, &keys.delete, Keypress::KeyDelete);
    let ghost base = t@;
    let count = if keys.function.len() < FUNCTION_KEYS {
        keys.function.len()
    } else {
        FUNCTION_KEYS
    };
    let mut i: usize = 0;
    while i < count
        invariant
            t.wf(),
            count == function_count(keys),
            count <= FUNCTION_KEYS,
            i <= count,
            t@ == put_function_keys(base, keys.function@, i as nat),
        decreases count - i,
    {
        insert_some(&mut t, &keys.function[i], Keypress::KeyF((i + 1) as isize));
        i = i + 1;
    }
    let ghost caps = t@;
    let mut c: u8 = 1;
    while c <= LAST_CONTROL
        invariant
            t.wf(),
            1 <= c <= LAST_CONTROL + 1,
            t@ == control_keys(caps, (c - 1) as nat),
        decreases LAST_CONTROL + 1 - c,
    {
        let s = vec![c];
        assert(s@ =~= seq![c]);
        if t.find(s.as_slice()).is_none() {
            t.insert(s.as_slice(), Keypress::KeyCtrl(c as char));
        }
        c = c + 1;
    }
    let e = vec![ESCAPE];
    assert(e@ =~= seq![ESCAPE]);
    t.insert(e.as_slice(), Keypress::KeyEscape);
    t
}

/// The control pass never replaces a single byte that is already mapped.
pub proof fn lemma_control_pass_keeps(m: Map<Seq<u8>, Keypress>, n: nat, s: Seq<u8>)
    requires
        m.contains_key(s),
    ensures
        control_keys(m, n).contains_key(s),
        control_keys(m, n)[s] == m[s],
    decreases n,
{
    if n > 0 {
        lemma_control_pass_keeps(m, (n - 1) as nat, s);
    }
}

/// When the capability keys map `^J` (byte 10) to return, the finished table
/// still does: the control pass does not turn it into a control key.
pub proof fn lemma_return_wins(keys: &KeySequences)
    requires
        capability_keys(keys).contains_key(seq![10u8]),
        capability_keys(keys)[seq![10u8]] == Keypress::KeyReturn,
    ensures
        catalog(keys).contains_key(seq![10u8]),
        catalog(keys)[seq![10u8]] == Keypress::KeyReturn,
{
    lemma_control_pass_keeps(capability_keys(keys), LAST_CONTROL as nat, seq![10u8]);
    assert(seq![10u8] != seq![ESCAPE]) by {
        assert(seq![10u8][0] != seq![ESCAPE][0]);
    }
}

/// `put` never stores the empty sequence.
proof fn lemma_put_no_empty(m: Map<Seq<u8>, Keypress>, s: Option<Vec<u8>>, k: Keypress)
    requires
        !m.contains_key(Seq::<u8>::empty()),
    ensures
        !put(m, s, k).contains_key(Seq::<u8>::empty()),
{
    match s {
        Some(v) => {
            if v@.len() > 0 {
                assert(v@ != Seq::<u8>::empty());
            }
        },
        None => {},
    }
}

proof fn lemma_function_keys_no_empty(m: Map<Seq<u8>, Keypress>, fs: Seq<Option<Vec<u8>>>, n: nat)
    requires
        !m.contains_key(Seq::<u8>::empty()),
    ensures
        !put_function_keys(m, fs, n).contains_key(Seq::<u8>::empty()),
    decreases n,
{
    if n > 0 {
        lemma_function_keys_no_empty(m, fs, (n - 1) as nat);
        lemma_put_no_empty(put_function_keys(m, fs, (n - 1) as nat), fs[n - 1], Keypress::KeyF(n as isize));
    }
}

proof fn lemma_control_keys_no_empty(m: Map<Seq<u8>, Keypress>, n: nat)
    requires
        !m.contains_key(Seq::<u8>::empty()),
    ensures
        !control_keys(m, n).contains_key(Seq::<u8>::empty()),
    decreases n,
{
    if n > 0 {
        lemma_control_keys_no_empty(m, (n - 1) as nat);
        assert(seq![n as u8].len() == 1);
    }
}

/// The finished table never holds the empty sequence, whatever the capability
/// source reported.
pub proof fn lemma_catalog_has_no_empty(keys: &KeySequences)
    ensures
        !catalog(keys).contains_key(Seq::<u8>::empty()),
{
    let e = Seq::<u8>::empty();
    let m0 = Map::<Seq<u8>, Keypress>::empty();
    lemma_put_no_empty(m0, keys.backspace, Keypress::KeyBackspace);
    let m = put(m0, keys.backspace, Keypress::KeyBackspace);
    lemma_put_no_empty(m, keys.enter, Keypress::KeyReturn);
    let m = put(m, keys.enter, Keypress::KeyReturn);
    lemma_put_no_empty(m, keys.tab, Keypress::KeyTab);
    let m = put(m, keys.tab, Keypress::KeyTab);
    lemma_put_no_empty(m, keys.up, Keypress::KeyUp);
    let m = put(m, keys.up, Keypress::KeyUp);
    lemma_put_no_empty(m, keys.down, Keypress::KeyDown);
    let m = put(m, keys.down, Keypress::KeyDown);
    lemma_put_no_empty(m, keys.left, Keypress::KeyLeft);
    let m = put(m, keys.left, Keypress::KeyLeft);
    lemma_put_no_empty(m, keys.right, Keypress::KeyRight);
    let m = put(m, keys.right, Keypress::KeyRight);
    lemma_put_no_empty(m, keys.home, Keypress::KeyHome);
    let m = put(m, keys.home, Keypress::KeyHome);
    lemma_put_no_empty(m, keys.end, Keypress::KeyEnd);
    let m = put(m, keys.end, Keypress::KeyEnd);
    lemma_put_no_empty(m, keys.insert, Keypress::KeyInsert);
    let m = put(m, keys.insert, Keypress::KeyInsert);
    lemma_put_no_empty(m, keys.delete, Keypress::KeyDelete);
    let m = put(m, keys.delete, Keypress::KeyDelete);
    lemma_function_keys_no_empty(m, keys.function@, function_count(keys));
    lemma_control_keys_no_empty(capability_keys(keys), LAST_CONTROL as nat);
    assert(seq![ESCAPE] != e) by {
        assert(seq![ESCAPE].len() == 1);
    }
}

/// `m` after storing each pair of `ops` in turn.
pub open spec fn apply_all(m: Map<Seq<u8>, Keypress>, ops: Seq<(Seq<u8>, Keypress)>) -> Map<
    Seq<u8>,
    Keypress,
>
    decreases ops.len(),
{
    if ops.len() == 0 {
        m
    } else {
        apply_all(m, ops.drop_last()).insert(ops.last().0, ops.last().1)
    }
}

/// The insertion that `put` makes, as a list of at most one pair.
pub open spec fn insertion(s: Option<Vec<u8>>, k: Keypress) -> Seq<(Seq<u8>, Keypress)> {
    match s {
        Some(v) => if v@.len() > 0 {
            seq![(v@, k)]
        } else {
            Seq::empty()
        },
        None => Seq::empty(),
    }
}

/// The insertions of F1 to F`n` from `fs`, in order.
pub open spec fn function_insertions(fs: Seq<Option<Vec<u8>>>, n: nat) -> Seq<(Seq<u8>, Keypress)>
    decreases n,
{
    if n == 0 {
        Seq::empty()
    } else {
        function_insertions(fs, (n - 1) as nat) + insertion(fs[n - 1], Keypress::KeyF(n as isize))
    }
}

/// Every insertion the build makes from the capability source, in order.
pub open spec fn capability_insertions(keys: &KeySequences) -> Seq<(Seq<u8>, Keypress)> {
    insertion(keys.backspace, Keypress::KeyBackspace) + insertion(keys.enter, Keypress::KeyReturn)
        + insertion(keys.tab, Keypress::KeyTab) + insertion(keys.up, Keypress::KeyUp) + insertion(
        keys.down,
        Keypress::KeyDown,
    ) + insertion(keys.left, Keypress::KeyLeft) + insertion(keys.right, Keypress::KeyRight)
        + insertion(keys.home, Keypress::KeyHome) + insertion(keys.end, Keypress::KeyEnd)
        + insertion(keys.insert, Keypress::KeyInsert) + insertion(keys.delete, Keypress::KeyDelete)
        + function_insertions(keys.function@, function_count(keys))
}

proof fn lemma_apply_concat(
    m: Map<Seq<u8>, Keypress>,
    a: Seq<(Seq<u8>, Keypress)>,
    b: Seq<(Seq<u8>, Keypress)>,
)
    ensures
        apply_all(m, a + b) == apply_all(apply_all(m, a), b),
    decreases b.len(),
{
    if b.len() == 0 {
        assert(a + b =~= a);
    } else {
        assert((a + b).drop_last() =~= a + b.drop_last());
        assert((a + b).last() == b.last());
        lemma_apply_concat(m, a, b.drop_last());
    }
}

proof fn lemma_put_is_insertion(m: Map<Seq<u8>, Keypress>, s: Option<Vec<u8>>, k: Keypress)
    ensures
        put(m, s, k) == apply_all(m, insertion(s, k)),
{
    match s {
        Some(v) => {
            if v@.len() > 0 {
                let ops = seq![(v@, k)];
                assert(ops.drop_last() =~= Seq::<(Seq<u8>, Keypress)>::empty());
                assert(apply_all(m, ops.drop_last()) == m);
                assert(ops.last() == (v@, k));
            }
        },
        None => {},
    }
}

/// `m` and then `ops`, then one more `put`, is `m` and then `ops` with the
/// `put`'s insertion appended.
proof fn lemma_put_after(
    m: Map<Seq<u8>, Keypress>,
    ops: Seq<(Seq<u8>, Keypress)>,
    s: Option<Vec<u8>>,
    k: Keypress,
)
    ensures
        put(apply_all(m, ops), s, k) == apply_all(m, ops + insertion(s, k)),
{
    lemma_put_is_insertion(apply_all(m, ops), s, k);
    lemma_apply_concat(m, ops, insertion(s, k));
}

proof fn lemma_function_keys_are_insertions(
    m: Map<Seq<u8>, Keypress>,
    fs: Seq<Option<Vec<u8>>>,
    n: nat,
)
    ensures
        put_function_keys(m, fs, n) == apply_all(m, function_insertions(fs, n)),
    decreases n,
{
    if n > 0 {
        lemma_function_keys_are_insertions(m, fs, (n - 1) as nat);
        lemma_put_after(m, function_insertions(fs, (n - 1) as nat), fs[n - 1], Keypress::KeyF(n as isize));
    }
}

/// The capability keys are the result of the build's list of insertions.
pub proof fn lemma_capability_keys_are_insertions(keys: &KeySequences)
    ensures
        capability_keys(keys) == apply_all(Map::empty(), capability_insertions(keys)),
{
    let e = Map::<Seq<u8>, Keypress>::empty();
    let o0 = Seq::<(Seq<u8>, Keypress)>::empty();
    lemma_put_after(e, o0, keys.backspace, Keypress::KeyBackspace);
    assert(o0 + insertion(keys.backspace, Keypress::KeyBackspace) =~= insertion(keys.backspace, Keypress::KeyBackspace));
    let o1 = insertion(keys.backspace, Keypress::KeyBackspace);
    lemma_put_after(e, o1, keys.enter, Keypress::KeyReturn);
    let o2 = o1 + insertion(keys.enter, Keypress::KeyReturn);
    lemma_put_after(e, o2, keys.tab, Keypress::KeyTab);
    let o3 = o2 + insertion(keys.tab, Keypress::KeyTab);
    lemma_put_after(e, o3, keys.up, Keypress::KeyUp);
    let o4 = o3 + insertion(keys.up, Keypress::KeyUp);
    lemma_put_after(e, o4, keys.down, Keypress::KeyDown);
    let o5 = o4 + insertion(keys.down, Keypress::KeyDown);
    lemma_put_after(e, o5, keys.left, Keypress::KeyLeft);
    let o6 = o5 + insertion(keys.left, Keypress::KeyLeft);
    lemma_put_after(e, o6, keys.right, Keypress::KeyRight);
    let o7 = o6 + insertion(keys.right, Keypress::KeyRight);
    lemma_put_after(e, o7, keys.home, Keypress::KeyHome);
    let o8 = o7 + insertion(keys.home, Keypress::KeyHome);
    lemma_put_after(e, o8, keys.end, Keypress::KeyEnd);
    let o9 = o8 + insertion(keys.end, Keypress::KeyEnd);
    lemma_put_after(e, o9, keys.insert, Keypress::KeyInsert);
    let o10 = o9 + insertion(keys.insert, Keypress::KeyInsert);
    lemma_put_after(e, o10, keys.delete, Keypress::KeyDelete);
    let o11 = o10 + insertion(keys.delete, Keypress::KeyDelete);
    lemma_function_keys_are_insertions(apply_all(e, o11), keys.function@, function_count(keys));
    lemma_apply_concat(e, o11, function_insertions(keys.function@, function_count(keys)));
}

/// After a list of insertions, a sequence holds the value of the last
/// insertion of it.
pub proof fn lemma_last_insertion_wins(m: Map<Seq<u8>, Keypress>, ops: Seq<(Seq<u8>, Keypress)>, i: int)
    requires
        0 <= i < ops.len(),
        forall|j: int| i < j < ops.len() ==> #[trigger] ops[j].0 != ops[i].0,
    ensures
        apply_all(m, ops).contains_key(ops[i].0),
        apply_all(m, ops)[ops[i].0] == ops[i].1,
    decreases ops.len(),
{
    if i < ops.len() - 1 {
        let d = ops.drop_last();
        assert forall|j: int| i < j < d.len() implies #[trigger] d[j].0 != d[i].0 by {
            assert(d[j] == ops[j]);
        }
        lemma_last_insertion_wins(m, d, i);
        assert(ops.last().0 != ops[i].0);
    }
}

/// Every sequence the build inserts ends up holding the value of its last
/// insertion: the last capability insertion of it, unless the control pass or
/// the escape byte comes later. The control pass only fills single bytes that
/// no capability maps, and the escape byte is always inserted last.
pub proof fn lemma_build_last_insertion_wins(keys: &KeySequences, i: int)
    requires
        0 <= i < capability_insertions(keys).len(),
        forall|j: int|
            i < j < capability_insertions(keys).len() ==> #[trigger] capability_insertions(keys)[j].0
                != capability_insertions(keys)[i].0,
    ensures
        catalog(keys).contains_key(capability_insertions(keys)[i].0),
        catalog(keys)[capability_insertions(keys)[i].0] == if capability_insertions(keys)[i].0
            == seq![ESCAPE] {
            Keypress::KeyEscape
        } else {
            capability_insertions(keys)[i].1
        },
{
    let ops = capability_insertions(keys);
    lemma_capability_keys_are_insertions(keys);
    lemma_last_insertion_wins(Map::empty(), ops, i);
    lemma_control_pass_keeps(capability_keys(keys), LAST_CONTROL as nat, ops[i].0);
}

/// A control byte that no capability maps alone becomes its control key.
pub proof fn lemma_control_fills_gaps(keys: &KeySequences, c: u8)
    requires
        1 <= c <= LAST_CONTROL,
        !capability_keys(keys).contains_key(seq![c]),
    ensures
        catalog(keys).contains_key(seq![c]),
        catalog(keys)[seq![c]] == Keypress::KeyCtrl(c as char),
{
    lemma_control_pass_fills(capability_keys(keys), LAST_CONTROL as nat, c);
    assert(seq![c] != seq![ESCAPE]) by {
        assert(seq![c][0] != seq![ESCAPE][0]);
    }
}

proof fn lemma_control_pass_fills(m: Map<Seq<u8>, Keypress>, n: nat, c: u8)
    requires
        1 <= c <= n,
        n <= LAST_CONTROL,
        !m.contains_key(seq![c]),
    ensures
        control_keys(m, n).contains_key(seq![c]),
        control_keys(m, n)[seq![c]] == Keypress::KeyCtrl(c as char),
    decreases n,
{
    if c < n {
        lemma_control_pass_fills(m, (n - 1) as nat, c);
        assert(seq![n as u8] != seq![c]) by {
            assert(seq![n as u8][0] != seq![c][0]);
        }
    } else {
        lemma_control_pass_absent(m, (n - 1) as nat, c);
        assert(seq![n as u8] =~= seq![c]);
    }
}

proof fn lemma_control_pass_absent(m: Map<Seq<u8>, Keypress>, n: nat, c: u8)
    requires
        n < c,
        !m.contains_key(seq![c]),
    ensures
        !control_keys(m, n).contains_key(seq![c]),
    decreases n,
{
    if n > 0 {
        lemma_control_pass_absent(m, (n - 1) as nat, c);
        assert(seq![n as u8] != seq![c]) by {
            assert(seq![n as u8][0] != seq![c][0]);
        }
    }
}

} // verus!
