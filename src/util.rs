//! Utilities

use vstd::prelude::*;

verus! {

broadcast use vstd::seq_lib::to_multiset_update;

/// 100ms at 1MHz count rate.
pub const DEBOUNCE_TIME: u32 = 100 * 1_000_000 / 1000;

/// An edge is accepted when its source's timer reads zero: the last
/// suppression window has closed.
pub open spec fn accepts(timer_reading: u32) -> bool {
    timer_reading == 0
}

/// Debounce Helper: runs `f` only when the source's timer reads zero.
///
/// On a run, returns what `f` returned and the count to rearm the timer
/// with; otherwise `None`, and `f` is not called.
pub fn debounce<R, F: FnOnce() -> R>(timer_reading: u32, f: F) -> (r: Option<(R, u32)>)
    requires
        accepts(timer_reading) ==> f.requires(()),
    ensures
        r is Some <==> accepts(timer_reading),
        r matches Some(x) ==> f.ensures((), x.0) && x.1 == DEBOUNCE_TIME,
{
    if timer_reading == 0 {
        let x = f();
        Some((x, DEBOUNCE_TIME))
    } else {
        None
    }
}

/// What a one-shot timer armed with `period` reads, `elapsed` counts later:
/// non-zero while it runs, zero once it has expired.
pub open spec fn reads_zero_after(period: u32, elapsed: nat) -> bool {
    elapsed >= period
}

/// How many of the edges with these timer readings run their action.
pub open spec fn runs(readings: Seq<u32>) -> nat
    decreases readings.len(),
{
    if readings.len() == 0 {
        0
    } else {
        runs(readings.drop_last()) + if accepts(readings.last()) {
            1nat
        } else {
            0
        }
    }
}

/// Two edges on one source, the first while its timer is idle and the
/// second `elapsed` counts later: the second runs its action only when the
/// window that the first opened has closed.
pub proof fn lemma_two_edges(elapsed: nat, second_reading: u32)
    requires
        accepts(second_reading) <==> reads_zero_after(DEBOUNCE_TIME, elapsed),
    ensures
        runs(seq![0u32, second_reading]) == if elapsed < DEBOUNCE_TIME {
            1nat
        } else {
            2nat
        },
{
    let s = seq![0u32, second_reading];
    assert(s.drop_last() =~= seq![0u32]);
    assert(seq![0u32].drop_last() =~= Seq::<u32>::empty());
    assert(runs(Seq::<u32>::empty()) == 0);
    assert(runs(seq![0u32]) == 1);
    assert(s.last() == second_reading);
}

/// `g`, asked about `a` and `b`, did not put `b` before `a`: it either said
/// that `b` is not less than `a` or that `a` is less than `b`.
pub open spec fn in_order<T, G: Fn(&T, &T) -> bool>(g: G, a: T, b: T) -> bool {
    g.ensures((&b, &a), false) || g.ensures((&a, &b), true)
}

/// `a` and `b` hold the same items, counted with multiplicity.
pub open spec fn permutes<T>(a: Seq<T>, b: Seq<T>) -> bool {
    a.to_multiset() == b.to_multiset()
}

/// The sequence with the items at `i` and `j` exchanged.
pub open spec fn swapped<T>(s: Seq<T>, i: int, j: int) -> Seq<T> {
    s.update(i, s[j]).update(j, s[i])
}

/// `b` holds the three items of `a`, each once, in some order.
pub open spec fn rearranges3<T>(b: Seq<T>, a: Seq<T>) -> bool {
    &&& a.len() == 3
    &&& b.len() == 3
    &&& exists|i: int, j: int, k: int|
        0 <= i < 3 && 0 <= j < 3 && 0 <= k < 3 && i != j && j != k && i != k && b[0] == a[i]
            && b[1] == a[j] && b[2] == a[k]
}

/// Exchanging two items keeps the multiset of items.
pub proof fn lemma_swap_permutes<T>(s: Seq<T>, i: int, j: int)
    requires
        0 <= i < s.len(),
        0 <= j < s.len(),
    ensures
        permutes(swapped(s, i, j), s),
{
    broadcast use vstd::multiset::group_multiset_axioms;

    let s1 = s.update(i, s[j]);
    assert(s1.len() == s.len());
    if i == j {
        assert(swapped(s, i, j) =~= s);
    } else {
        let m = s.to_multiset();
        assert(s.contains(s[i]) && s.contains(s[j]));
        vstd::seq_lib::to_multiset_contains(s, s[i]);
        vstd::seq_lib::to_multiset_contains(s, s[j]);
        assert(s1[j] == s[j]);
        assert(swapped(s, i, j).to_multiset() =~= m);
    }
}

/// Relies on `<[T]>::swap`: exchanges the items at `i` and `j`.
#[verifier::external_body]
pub(crate) fn swap_items<T>(list: &mut [T], i: usize, j: usize)
    requires
        i < old(list)@.len(),
        j < old(list)@.len(),
    ensures
        final(list)@ == swapped(old(list)@, i as int, j as int),
{
    list.swap(i, j)
}

/// Sorts exactly three elements.
///
/// Three comparisons at most; each neighbouring pair of the result is in
/// order as far as the answers of `g` show it.
pub fn sort3<T, G>(list: &mut [T], g: G)
    where
        G: Fn(&T, &T) -> bool,
    requires
        old(list)@.len() == 3,
        forall|a: &T, b: &T| #[trigger] g.requires((a, b)),
    ensures
        rearranges3(final(list)@, old(list)@),
        in_order(g, final(list)@[0], final(list)@[1]),
        in_order(g, final(list)@[1], final(list)@[2]),
{
    let ghost s0 = list@;
    // `list@[m] == s0[p[m]]` throughout.
    let ghost mut p: Seq<int> = seq![0, 1, 2];
    if g(&list[1], &list[0]) {
        swap_items(list, 1, 0);
        proof { p = swapped(p, 1, 0); }
    }
    let ghost s1 = list@;
    assert(in_order(g, s1[0], s1[1]));
    if g(&list[2], &list[1]) {
        swap_items(list, 2, 1);
        proof { p = swapped(p, 2, 1); }
        if g(&list[1], &list[0]) {
            swap_items(list, 1, 0);
            proof { p = swapped(p, 1, 0); }
        }
    }
    assert(list@[0] == s0[p[0]] && list@[1] == s0[p[1]] && list@[2] == s0[p[2]]);
}

/// `f` can be called on every item and gives each item a single key.
pub open spec fn is_key_fn<T, F: Fn(&T) -> u64>(f: F) -> bool {
    &&& forall|x: &T| #[trigger] f.requires((x,))
    &&& forall|x: &T, k1: u64, k2: u64|
        #[trigger] f.ensures((x,), k1) && #[trigger] f.ensures((x,), k2) ==> k1 == k2
}

/// `f` gave `a` a key that is at most a key it gave `b`.
pub open spec fn key_le<T, F: Fn(&T) -> u64>(f: F, a: T, b: T) -> bool {
    exists|ka: u64, kb: u64|
        #[trigger] f.ensures((&a,), ka) && #[trigger] f.ensures((&b,), kb) && ka <= kb
}

/// Sorts exactly three elements by key.
pub fn sort3_by_key<T, F>(list: &mut [T], f: F)
    where
        F: Fn(&T) -> u64,
    requires
        old(list)@.len() == 3,
        is_key_fn(f),
    ensures
        rearranges3(final(list)@, old(list)@),
        key_le(f, final(list)@[0], final(list)@[1]),
        key_le(f, final(list)@[1], final(list)@[2]),
{
    let key = &f;
    let less = |a: &T, b: &T| -> (r: bool)
        requires
            key.requires((a,)),
            key.requires((b,)),
        ensures
            exists|ka: u64, kb: u64|
                key.ensures((a,), ka) && key.ensures((b,), kb) && r == (ka < kb),
        { key(a) < key(b) };
    sort3(list, less);
    proof {
        let s = list@;
        assert forall|i: int| 0 <= i < 2 implies key_le(f, #[trigger] s[i], s[i + 1]) by {
            assert(in_order(less, s[i], s[i + 1]));
        }
        assert(key_le(f, s[0], s[1]));
        assert(key_le(f, s[1], s[2]));
    }
}

} // verus!
