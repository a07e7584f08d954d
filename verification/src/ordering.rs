//! Putting inflected forms in alphabetical order with a comparison the
//! caller supplies.

use vstd::prelude::*;

verus! {

/// `a` may stand before `b`: the comparison found `b` not below `a`, or `a`
/// below `b`. For a comparison that is a total order, both say `a <= b`.
pub open spec fn in_order<F: Fn(&String, &String) -> i32>(compare: F, a: String, b: String) -> bool {
    ||| exists|r: i32| call_ensures(compare, (&b, &a), r) && r >= 0
    ||| exists|r: i32| call_ensures(compare, (&a, &b), r) && r < 0
}

/// Every two neighbours of `s` are in order.
pub open spec fn sorted_by<F: Fn(&String, &String) -> i32>(compare: F, s: Seq<String>) -> bool {
    forall|k: int| 0 <= k < s.len() - 1 ==> #[trigger] in_order(compare, s[k], s[k + 1])
}

/// Inserting keeps what a sequence holds, with one more of the new item.
pub proof fn lemma_insert_multiset<A>(s: Seq<A>, i: int, x: A)
    requires
        0 <= i <= s.len(),
    ensures
        s.insert(i, x).to_multiset() =~= s.to_multiset().insert(x),
{
    broadcast use vstd::seq_lib::group_to_multiset_ensures;

    let t = s.insert(i, x);
    assert(t.remove(i) =~= s);
    assert(t.to_multiset().count(x) > 0) by {
        assert(t[i] == x);
        assert(t.contains(x));
    }
}

/// `compare` put `a` strictly before `b`: it answered below zero for them.
pub open spec fn strictly_before<F: Fn(&String, &String) -> i32>(compare: F, a: String, b: String) -> bool {
    exists|r: i32| call_ensures(compare, (&a, &b), r) && r < 0
}

/// `p` lists each of `0..n` once.
pub open spec fn is_permutation(p: Seq<int>, n: int) -> bool {
    &&& p.len() == n
    &&& forall|k: int| 0 <= k < n ==> 0 <= #[trigger] p[k] < n
    &&& forall|k: int, l: int| 0 <= k < l < n ==> p[k] != p[l]
}

/// `sorted` is `texts` sorted stably by `compare`: the text at each place `k`
/// came from place `origin[k]`, neighbours are in order, and a text stands
/// before one that came before it only where `compare` put it strictly first.
pub open spec fn stably_sorted<F: Fn(&String, &String) -> i32>(
    compare: F,
    texts: Seq<String>,
    sorted: Seq<String>,
    origin: Seq<int>,
) -> bool {
    &&& sorted.len() == texts.len()
    &&& is_permutation(origin, texts.len() as int)
    &&& forall|k: int| 0 <= k < sorted.len() ==> sorted[k] == texts[#[trigger] origin[k]]
    &&& sorted_by(compare, sorted)
    &&& forall|a: int, b: int|
        #![trigger origin[a], origin[b]]
        0 <= a < b < sorted.len() && origin[a] > origin[b] ==> strictly_before(
            compare,
            sorted[a],
            sorted[b],
        )
}

/// For a comparison that answers each pair one way and the reverse pair the
/// opposite way (below, at or above zero), two texts in order compare at or
/// below zero.
pub proof fn lemma_in_order_compares_at_most_zero<F: Fn(&String, &String) -> i32>(
    compare: F,
    a: String,
    b: String,
    r: i32,
)
    requires
        forall|x: i32, y: i32|
            call_ensures(compare, (&a, &b), x) && call_ensures(compare, (&a, &b), y) ==> x == y,
        forall|x: i32, y: i32|
            call_ensures(compare, (&a, &b), x) && call_ensures(compare, (&b, &a), y) ==> ((x < 0
                <==> y > 0) && (x == 0 <==> y == 0)),
        in_order(compare, a, b),
        call_ensures(compare, (&a, &b), r),
    ensures
        r <= 0,
{
    if exists|y: i32| call_ensures(compare, (&b, &a), y) && y >= 0 {
        let y = choose|y: i32| call_ensures(compare, (&b, &a), y) && y >= 0;
        assert((r < 0 <==> y > 0) && (r == 0 <==> y == 0));
    } else {
        let x = choose|x: i32| call_ensures(compare, (&a, &b), x) && x < 0;
        assert(x == r);
    }
}

/// Sorts texts by `compare` (negative: the first comes before the second),
/// keeping texts that compare equal in the order they came.
pub fn sort_texts<F: Fn(&String, &String) -> i32>(texts: Vec<String>, compare: F) -> (sorted: Vec<String>)
    requires
        forall|a: &String, b: &String| call_requires(compare, (a, b)),
    ensures
        sorted@.to_multiset() == texts@.to_multiset(),
        sorted_by(compare, sorted@),
        exists|origin: Seq<int>| #[trigger] stably_sorted(compare, texts@, sorted@, origin),
{
    let mut sorted: Vec<String> = Vec::new();
    let ghost mut origin: Seq<int> = Seq::empty();
    let mut i: usize = 0;
    assert(texts@.take(0) =~= Seq::<String>::empty());
    while i < texts.len()
        invariant
            forall|a: &String, b: &String| call_requires(compare, (a, b)),
            i <= texts.len(),
            sorted@.to_multiset() =~= texts@.take(i as int).to_multiset(),
            sorted.len() == i,
            is_permutation(origin, i as int),
            forall|k: int| 0 <= k < sorted.len() ==> sorted@[k] == texts@[#[trigger] origin[k]],
            sorted_by(compare, sorted@),
            forall|a: int, b: int|
                #![trigger origin[a], origin[b]]
                0 <= a < b < sorted.len() && origin[a] > origin[b] ==> strictly_before(
                    compare,
                    sorted@[a],
                    sorted@[b],
                ),
        decreases texts.len() - i,
    {
        let x = texts[i].clone();
        proof {
            broadcast use vstd::seq_lib::group_to_multiset_ensures;

            assert(texts@.take(i + 1) =~= texts@.take(i as int).push(x));
        }
        let mut j: usize = sorted.len();
        while j > 0 && compare(&x, &sorted[j - 1]) < 0
            invariant
                forall|a: &String, b: &String| call_requires(compare, (a, b)),
                j <= sorted.len(),
                sorted_by(compare, sorted@),
                forall|k: int| j <= k < sorted.len() ==> #[trigger] strictly_before(
                    compare,
                    x,
                    sorted@[k],
                ),
            decreases j,
        {
            proof {
                assert(strictly_before(compare, x, sorted@[j - 1]));
            }
            j = j - 1;
        }
        assert(j > 0 ==> exists|r: i32|
            #[trigger] call_ensures(compare, (&x, &sorted@[j - 1]), r) && r >= 0);
        let ghost old_sorted = sorted@;
        let ghost old_origin = origin;
        sorted.insert(j, x);
        proof {
            origin = old_origin.insert(j as int, i as int);
            lemma_insert_multiset(old_sorted, j as int, x);
            assert(x == texts@[i as int]);
            assert forall|k: int| 0 <= k < sorted@.len() - 1 implies #[trigger] in_order(
                compare,
                sorted@[k],
                sorted@[k + 1],
            ) by {
                if k < j - 1 {
                    assert(in_order(compare, old_sorted[k], old_sorted[k + 1]));
                } else if k == j - 1 {
                } else if k == j {
                    assert(strictly_before(compare, x, old_sorted[j as int]));
                } else {
                    let m = k - 1;
                    assert(in_order(compare, old_sorted[m], old_sorted[m + 1]));
                    assert(sorted@[k] == old_sorted[m]);
                    assert(sorted@[k + 1] == old_sorted[m + 1]);
                }
            }
            assert forall|k: int| 0 <= k < i + 1 implies 0 <= #[trigger] origin[k] < i + 1 by {
                if k < j {
                    assert(origin[k] == old_origin[k]);
                } else if k > j {
                    assert(origin[k] == old_origin[k - 1]);
                }
            }
            assert forall|k: int, l: int| 0 <= k < l < i + 1 implies origin[k] != origin[l] by {
                if k < j {
                    assert(origin[k] == old_origin[k]);
                    assert(0 <= old_origin[k] < i);
                } else if k > j {
                    assert(origin[k] == old_origin[k - 1]);
                }
                if l < j {
                    assert(origin[l] == old_origin[l]);
                } else if l > j {
                    assert(origin[l] == old_origin[l - 1]);
                    assert(0 <= old_origin[l - 1] < i);
                }
            }
            assert forall|k: int| 0 <= k < sorted.len() implies sorted@[k]
                == texts@[#[trigger] origin[k]] by {
                if k < j {
                    assert(origin[k] == old_origin[k]);
                    assert(sorted@[k] == old_sorted[k]);
                } else if k > j {
                    assert(origin[k] == old_origin[k - 1]);
                    assert(sorted@[k] == old_sorted[k - 1]);
                }
            }
            assert forall|a: int, b: int|
                #![trigger origin[a], origin[b]]
                0 <= a < b < sorted.len() && origin[a] > origin[b] implies strictly_before(
                compare,
                sorted@[a],
                sorted@[b],
            ) by {
                let oa = if a < j { a } else { a - 1 };
                let ob = if b < j { b } else { b - 1 };
                if a == j {
                    assert(sorted@[a] == x);
                    assert(sorted@[b] == old_sorted[b - 1]);
                    assert(strictly_before(compare, x, old_sorted[b - 1]));
                } else if b == j {
                    assert(origin[b] == i);
                    assert(origin[a] == old_origin[oa]);
                    assert(0 <= old_origin[oa] < i);
                } else {
                    assert(origin[a] == old_origin[oa]);
                    assert(origin[b] == old_origin[ob]);
                    assert(sorted@[a] == old_sorted[oa]);
                    assert(sorted@[b] == old_sorted[ob]);
                    assert(old_origin[oa] > old_origin[ob]);
                }
            }
        }
        i = i + 1;
    }
    assert(texts@.take(texts.len() as int) =~= texts@);
    assert(stably_sorted(compare, texts@, sorted@, origin));
    sorted
}

} // verus!
