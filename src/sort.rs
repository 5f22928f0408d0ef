//! A comparison sort for slices of any length.

use vstd::prelude::*;

use crate::util::{is_key_fn, key_le, lemma_swap_permutes, permutes, swap_items, swapped};

verus! {

/// `lt` is a strict weak order: asymmetric, and "not less" is transitive.
pub open spec fn strict_weak_order<T>(lt: spec_fn(T, T) -> bool) -> bool {
    &&& forall|a: T, b: T| #[trigger] lt(a, b) ==> !lt(b, a)
    &&& forall|a: T, b: T, c: T|
        #![trigger lt(a, b), lt(b, c)]
        #![trigger lt(a, b), lt(a, c)]
        #![trigger lt(b, c), lt(a, c)]
        !lt(a, b) && !lt(b, c) ==> !lt(a, c)
}

/// Every answer that `g` gives is the one that `lt` gives.
pub open spec fn answers_by<T, G: Fn(&T, &T) -> bool>(g: G, lt: spec_fn(T, T) -> bool) -> bool {
    forall|a: &T, b: &T, r: bool| #[trigger] g.ensures((a, b), r) ==> r == lt(*a, *b)
}

/// No item of `s` is less than an item before it.
pub open spec fn sorted_by<T>(lt: spec_fn(T, T) -> bool, s: Seq<T>) -> bool {
    forall|i: int, j: int| 0 <= i < j < s.len() ==> !lt(#[trigger] s[j], #[trigger] s[i])
}

/// Every pair that ends at or after `k` is in order.
pub open spec fn sorted_from<T>(lt: spec_fn(T, T) -> bool, s: Seq<T>, k: int) -> bool {
    forall|p: int, q: int| 0 <= p < q < s.len() && q >= k ==> !lt(#[trigger] s[q], #[trigger] s[p])
}

/// No item up to `j` is greater than the item at `j`.
pub open spec fn max_at<T>(lt: spec_fn(T, T) -> bool, s: Seq<T>, j: int) -> bool {
    forall|m: int| 0 <= m < j ==> !lt(s[j], #[trigger] s[m])
}

proof fn lemma_bubble_step<T>(lt: spec_fn(T, T) -> bool, s: Seq<T>, j: int, k: int, swap: bool)
    requires
        strict_weak_order(lt),
        0 <= j,
        j + 1 < k <= s.len(),
        sorted_from(lt, s, k),
        max_at(lt, s, j),
        swap == lt(s[j + 1], s[j]),
    ensures
        ({
            let t = if swap { swapped(s, j, j + 1) } else { s };
            sorted_from(lt, t, k) && max_at(lt, t, j + 1)
        }),
{
    if swap {
        let t = swapped(s, j, j + 1);
        assert forall|p: int, q: int| 0 <= p < q < t.len() && q >= k implies !lt(
            #[trigger] t[q],
            #[trigger] t[p],
        ) by {
            if p == j {
                assert(t[p] == s[j + 1]);
            } else if p == j + 1 {
                assert(t[p] == s[j]);
            } else {
                assert(t[p] == s[p]);
            }
        }
        assert forall|m: int| 0 <= m < j + 1 implies !lt(t[j + 1], #[trigger] t[m]) by {
            if m < j {
                assert(t[m] == s[m]);
            }
        }
    } else {
        assert forall|m: int| 0 <= m < j + 1 implies !lt(s[j + 1], #[trigger] s[m]) by {
            if m < j {
                assert(!lt(s[j], s[m]));
                assert(!lt(s[j + 1], s[j]));
            }
        }
    }
}

/// `g` has answered a question about `x`.
pub open spec fn answered<T, G: Fn(&T, &T) -> bool>(g: G, x: T) -> bool {
    exists|y: T, r: bool|
        #![trigger g.ensures((&x, &y), r)]
        #![trigger g.ensures((&y, &x), r)]
        g.ensures((&x, &y), r) || g.ensures((&y, &x), r)
}

/// Sorts `list` with bubble sort, where `g(a, b)` tells whether `a` is less than `b`.
///
/// The result holds the same items. It is sorted by every strict weak order
/// that agrees with each answer `g` gives.
pub fn bubblesort<T, G>(list: &mut [T], g: G)
    where
        G: Fn(&T, &T) -> bool,
    requires
        old(list)@.len() >= 1,
        forall|a: &T, b: &T| #[trigger] g.requires((a, b)),
    ensures
        permutes(final(list)@, old(list)@),
        forall|lt: spec_fn(T, T) -> bool|
            strict_weak_order(lt) && answers_by(g, lt) ==> #[trigger] sorted_by(lt, final(list)@),
        final(list)@.len() >= 2 ==> forall|m: int|
            0 <= m < final(list)@.len() ==> answered(g, #[trigger] final(list)@[m]),
{
    let ghost s0 = list@;
    let n = list.len();
    let mut i: usize = 0;
    while i < n - 1
        invariant
            n == list@.len(),
            n >= 1,
            i <= n - 1,
            permutes(list@, s0),
            forall|a: &T, b: &T| #[trigger] g.requires((a, b)),
            forall|lt: spec_fn(T, T) -> bool|
                strict_weak_order(lt) && answers_by(g, lt) ==> #[trigger] sorted_from(
                    lt,
                    list@,
                    n - i,
                ),
            i > 0 ==> forall|m: int| 0 <= m < n ==> answered(g, #[trigger] list@[m]),
        decreases n - 1 - i,
    {
        let mut j: usize = 0;
        while j < n - 1 - i
            invariant
                n == list@.len(),
                n >= 1,
                i < n - 1,
                j <= n - 1 - i,
                permutes(list@, s0),
                forall|a: &T, b: &T| #[trigger] g.requires((a, b)),
                forall|lt: spec_fn(T, T) -> bool|
                    strict_weak_order(lt) && answers_by(g, lt) ==> #[trigger] sorted_from(
                        lt,
                        list@,
                        n - i,
                    ),
                forall|lt: spec_fn(T, T) -> bool|
                    strict_weak_order(lt) && answers_by(g, lt) ==> #[trigger] max_at(
                        lt,
                        list@,
                        j as int,
                    ),
                i > 0 ==> forall|m: int| 0 <= m < n ==> answered(g, #[trigger] list@[m]),
                i == 0 && j > 0 ==> forall|m: int| 0 <= m <= j ==> answered(g, #[trigger] list@[m]),
            decreases n - 1 - i - j,
        {
            let ghost s = list@;
            let swap = g(&list[j + 1], &list[j]);
            if swap {
                swap_items(list, j, j + 1);
                proof { lemma_swap_permutes(s, j as int, j + 1); }
            }
            proof {
                assert(g.ensures((&s[j + 1], &s[j as int]), swap));
                assert(answered(g, s[j as int]));
                assert(answered(g, s[j + 1]));
                if swap {
                    assert(list@ == swapped(s, j as int, j + 1));
                } else {
                    assert(list@ == s);
                }
                assert(answered(g, list@[j as int]));
                assert(answered(g, list@[j + 1]));
                assert forall|lt: spec_fn(T, T) -> bool|
                    strict_weak_order(lt) && answers_by(g, lt) implies sorted_from(
                        lt,
                        list@,
                        n - i,
                    ) && max_at(lt, list@, j + 1) by {
                    assert(sorted_from(lt, s, n - i));
                    assert(max_at(lt, s, j as int));
                    assert(swap == lt(s[j + 1], s[j as int]));
                    lemma_bubble_step(lt, s, j as int, n - i, swap);
                }
            }
            j += 1;
        }
        proof {
            assert forall|lt: spec_fn(T, T) -> bool|
                strict_weak_order(lt) && answers_by(g, lt) implies #[trigger] sorted_from(
                    lt,
                    list@,
                    n - (i + 1),
                ) by {
                assert(sorted_from(lt, list@, n - i));
                assert(max_at(lt, list@, n - 1 - i));
            }
        }
        i += 1;
    }
    proof {
        assert forall|lt: spec_fn(T, T) -> bool|
            strict_weak_order(lt) && answers_by(g, lt) implies #[trigger] sorted_by(lt, list@) by {
            assert(sorted_from(lt, list@, n - i));
        }
    }
}

/// The key that `f` gives `x`, where it gives one.
pub open spec fn key_of<T, F: Fn(&T) -> u64>(f: F, x: T) -> u64 {
    choose|k: u64| f.ensures((&x,), k)
}

/// An item that `less` has answered about has a key.
proof fn lemma_answered_has_key<T, F: Fn(&T) -> u64, G: Fn(&T, &T) -> bool>(f: F, less: G, x: T)
    requires
        answered(less, x),
        forall|a: &T, b: &T, r: bool|
            #[trigger] less.ensures((a, b), r) ==> exists|ka: u64, kb: u64|
                f.ensures((a,), ka) && f.ensures((b,), kb) && r == (ka < kb),
    ensures
        f.ensures((&x,), key_of(f, x)),
{
    let (y, r) = choose|y: T, r: bool|
        #![trigger less.ensures((&x, &y), r)]
        #![trigger less.ensures((&y, &x), r)]
        less.ensures((&x, &y), r) || less.ensures((&y, &x), r);
    if less.ensures((&x, &y), r) {
        let (ka, kb) = choose|ka: u64, kb: u64|
            f.ensures((&x,), ka) && f.ensures((&y,), kb) && r == (ka < kb);
    } else {
        let (ka, kb) = choose|ka: u64, kb: u64|
            f.ensures((&y,), ka) && f.ensures((&x,), kb) && r == (ka < kb);
    }
}

/// Sorts `list` by the keys that `f` gives its items.
pub fn sort_by_key<T, F>(list: &mut [T], f: F)
    where
        F: Fn(&T) -> u64,
    requires
        old(list)@.len() >= 1,
        is_key_fn(f),
    ensures
        permutes(final(list)@, old(list)@),
        forall|i: int, j: int|
            0 <= i < j < final(list)@.len() ==> key_le(
                f,
                #[trigger] final(list)@[i],
                #[trigger] final(list)@[j],
            ),
{
    let key = &f;
    let less = |a: &T, b: &T| -> (r: bool)
        requires
            key.requires((a,)),
            key.requires((b,)),
        ensures
            exists|ka: u64, kb: u64|
                key.ensures((a,), ka) && key.ensures((b,), kb) && r == (ka < kb),
        { key(a) < key(b) };
    bubblesort(list, less);
    proof {
        let lt = |a: T, b: T| key_of(f, a) < key_of(f, b);
        assert(strict_weak_order(lt));
        assert forall|a: &T, b: &T, r: bool| #[trigger] less.ensures((a, b), r) implies r == lt(
            *a,
            *b,
        ) by {
            let (ka, kb) = choose|ka: u64, kb: u64|
                key.ensures((a,), ka) && key.ensures((b,), kb) && r == (ka < kb);
            assert(f.ensures((a,), key_of(f, *a)));
            assert(f.ensures((b,), key_of(f, *b)));
        }
        assert(sorted_by(lt, list@));
        let s = list@;
        assert forall|i: int, j: int| 0 <= i < j < s.len() implies key_le(
            f,
            #[trigger] s[i],
            #[trigger] s[j],
        ) by {
            assert(!lt(s[j], s[i]));
            lemma_answered_has_key(f, less, s[i]);
            lemma_answered_has_key(f, less, s[j]);
            assert(f.ensures((&s[i],), key_of(f, s[i])));
            assert(f.ensures((&s[j],), key_of(f, s[j])));
        }
    }
}

} // verus!
