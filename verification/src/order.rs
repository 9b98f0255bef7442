//! Stable ordering by integer keys.
//!
//! Listings are shown in a fixed order: sessions newest first, tickets by
//! workflow state. Both are stable sorts by an integer key, and this module
//! computes the order as a list of positions, so that the items themselves
//! never have to be copied or compared.

use vstd::prelude::*;
use crate::text::{chars_of, texts};

verus! {

/// The keys as mathematical integers.
pub open spec fn key_values(keys: Seq<i128>) -> Seq<int> {
    Seq::new(keys.len(), |i: int| keys[i] as int)
}

/// The positions as mathematical integers.
pub open spec fn positions(order: Seq<usize>) -> Seq<int> {
    Seq::new(order.len(), |i: int| order[i] as int)
}

/// `order` lists every position of `keys` exactly once, by ascending key,
/// and positions with equal keys in ascending order.
pub open spec fn is_stable_order(keys: Seq<int>, order: Seq<int>) -> bool {
    &&& order.len() == keys.len()
    &&& forall|i: int| 0 <= i < order.len() ==> 0 <= #[trigger] order[i] < keys.len()
    &&& forall|i: int, j: int|
        0 <= i < j < order.len() ==> keys[#[trigger] order[i]] < keys[#[trigger] order[j]] || (
        keys[order[i]] == keys[order[j]] && order[i] < order[j])
}

/// A stable order mentions every position.
pub proof fn lemma_stable_order_complete(keys: Seq<int>, order: Seq<int>, p: int)
    requires
        is_stable_order(keys, order),
        0 <= p < keys.len(),
    ensures
        order.contains(p),
{
    assert(order.no_duplicates()) by {
        assert forall|i: int, j: int|
            0 <= i < order.len() && 0 <= j < order.len() && i != j implies order[i] != order[j] by {
            if i < j {
                assert(keys[order[i]] < keys[order[j]] || order[i] < order[j]);
            } else {
                assert(keys[order[j]] < keys[order[i]] || order[j] < order[i]);
            }
        }
    }
    order.unique_seq_to_set();
    let all = vstd::set_lib::set_int_range(0, keys.len() as int);
    vstd::set_lib::lemma_int_range(0, keys.len() as int);
    assert(order.to_set().subset_of(all)) by {
        assert forall|x: int| order.to_set().contains(x) implies all.contains(x) by {
            let i = choose|i: int| 0 <= i < order.len() && order[i] == x;
            assert(0 <= order[i] < keys.len());
        }
    }
    vstd::set_lib::lemma_subset_equality(order.to_set(), all);
    assert(all.contains(p));
    assert(order.to_set().contains(p));
}

proof fn lemma_stable_orders_agree(keys: Seq<int>, a: Seq<int>, b: Seq<int>, i: int)
    requires
        is_stable_order(keys, a),
        is_stable_order(keys, b),
        0 <= i < a.len(),
    ensures
        a[i] == b[i],
    decreases i,
{
    assert forall|j: int| 0 <= j < i implies a[j] == b[j] by {
        lemma_stable_orders_agree(keys, a, b, j);
    }
    let x = a[i];
    let y = b[i];
    if x != y {
        lemma_stable_order_complete(keys, b, x);
        let k = choose|k: int| 0 <= k < b.len() && b[k] == x;
        if k < i {
            assert(a[k] == b[k]);
            assert(keys[a[k]] < keys[a[i]] || a[k] < a[i]);
        }
        assert(k > i);
        assert(keys[b[i]] < keys[b[k]] || (keys[b[i]] == keys[b[k]] && b[i] < b[k]));
        lemma_stable_order_complete(keys, a, y);
        let m = choose|m: int| 0 <= m < a.len() && a[m] == y;
        if m < i {
            assert(a[m] == b[m]);
            assert(keys[b[m]] < keys[b[i]] || b[m] < b[i]);
        }
        assert(m > i);
        assert(keys[a[i]] < keys[a[m]] || (keys[a[i]] == keys[a[m]] && a[i] < a[m]));
    }
}

/// The keys settle the order: there is only one stable order of them.
pub proof fn lemma_stable_order_unique(keys: Seq<int>, a: Seq<int>, b: Seq<int>)
    requires
        is_stable_order(keys, a),
        is_stable_order(keys, b),
    ensures
        a == b,
{
    assert forall|i: int| 0 <= i < a.len() implies a[i] == b[i] by {
        lemma_stable_orders_agree(keys, a, b, i);
    }
    assert(a =~= b);
}

/// Computes the stable ascending order of `keys`.
pub fn stable_order(keys: &Vec<i128>) -> (order: Vec<usize>)
    ensures
        is_stable_order(key_values(keys@), positions(order@)),
{
    let mut order: Vec<usize> = Vec::new();
    let mut next: usize = 0;
    while next < keys.len()
        invariant
            next <= keys.len(),
            order.len() == next,
            forall|i: int| 0 <= i < order.len() ==> 0 <= #[trigger] order@[i] < next,
            forall|i: int, j: int|
                0 <= i < j < order.len() ==> keys@[#[trigger] order@[i] as int] < keys@[#[trigger] order@[j] as int]
                    || (keys@[order@[i] as int] == keys@[order@[j] as int] && order@[i]
                    < order@[j]),
        decreases keys.len() - next,
    {
        let key = keys[next];
        let mut at: usize = order.len();
        while at > 0 && keys[order[at - 1]] > key
            invariant
                at <= order.len(),
                order.len() == next,
                next < keys.len(),
                key == keys@[next as int],
                forall|i: int| 0 <= i < order.len() ==> 0 <= #[trigger] order@[i] < next,
                forall|i: int| at <= i < order.len() ==> keys@[#[trigger] order@[i] as int] > key,
            decreases at,
        {
            at = at - 1;
        }
        let ghost before = order@;
        order.insert(at, next);
        proof {
            let after = order@;
            before.insert_ensures(at as int, next);
            assert(after == before.insert(at as int, next));
            assert forall|i: int, j: int| 0 <= i < j < after.len() implies keys@[#[trigger] after[i] as int]
                < keys@[#[trigger] after[j] as int] || (keys@[after[i] as int] == keys@[after[j] as int]
                && after[i] < after[j]) by {
                let bi = if i < at { i } else { i - 1 };
                let bj = if j < at { j } else { j - 1 };
                if i != at && j != at {
                    assert(after[i] == before[bi]);
                    assert(after[j] == before[bj]);
                    assert(keys@[before[bi] as int] < keys@[before[bj] as int] || (
                    keys@[before[bi] as int] == keys@[before[bj] as int] && before[bi]
                        < before[bj]));
                } else if i == at {
                    assert(after[j] == before[bj]);
                    assert(keys@[before[bj] as int] > key);
                } else {
                    assert(after[i] == before[bi]);
                    assert(before[bi] < next);
                    if at > 0 {
                        assert(keys@[before[at - 1] as int] <= key);
                        if bi < at - 1 {
                            assert(keys@[before[bi] as int] < keys@[before[at - 1] as int] || (
                            keys@[before[bi] as int] == keys@[before[at - 1] as int]
                                && before[bi] < before[at - 1]));
                        }
                    }
                }
            }
            assert forall|i: int| 0 <= i < after.len() implies 0 <= #[trigger] after[i] < next + 1 by {
                if i < at {
                    assert(after[i] == before[i]);
                } else if i > at {
                    assert(after[i] == before[i - 1]);
                }
            }
        }
        next = next + 1;
    }
    proof {
        let ks = key_values(keys@);
        let ps = positions(order@);
        assert forall|i: int, j: int| 0 <= i < j < ps.len() implies ks[#[trigger] ps[i]] < ks[#[trigger] ps[j]]
            || (ks[ps[i]] == ks[ps[j]] && ps[i] < ps[j]) by {
            assert(keys@[order@[i] as int] < keys@[order@[j] as int] || (keys@[order@[i] as int]
                == keys@[order@[j] as int] && order@[i] < order@[j]));
        }
    }
    order
}

/// Whether `a` comes before `b` in dictionary order, characters compared
/// by code point: the order of `str`.
pub open spec fn lex_less(a: Seq<char>, b: Seq<char>) -> bool
    decreases a.len(),
{
    if b.len() == 0 {
        false
    } else if a.len() == 0 {
        true
    } else if a[0] != b[0] {
        a[0] < b[0]
    } else {
        lex_less(a.drop_first(), b.drop_first())
    }
}

/// Of two different texts exactly one comes before the other, and no text
/// comes before itself.
pub proof fn lemma_lex_total(a: Seq<char>, b: Seq<char>)
    ensures
        a == b ==> !lex_less(a, b),
        a != b ==> (lex_less(a, b) <==> !lex_less(b, a)),
    decreases a.len(),
{
    if a.len() > 0 && b.len() > 0 && a[0] == b[0] {
        lemma_lex_total(a.drop_first(), b.drop_first());
        if a.drop_first() == b.drop_first() {
            assert(a =~= seq![a[0]] + a.drop_first());
            assert(b =~= seq![b[0]] + b.drop_first());
        }
    } else if a.len() == 0 && b.len() == 0 {
        assert(a =~= b);
    }
}

/// Dictionary order is transitive.
pub proof fn lemma_lex_transitive(a: Seq<char>, b: Seq<char>, c: Seq<char>)
    requires
        lex_less(a, b),
        lex_less(b, c),
    ensures
        lex_less(a, c),
    decreases a.len(),
{
    if a.len() > 0 && b.len() > 0 && c.len() > 0 && a[0] == b[0] && b[0] == c[0] {
        lemma_lex_transitive(a.drop_first(), b.drop_first(), c.drop_first());
    }
}

/// Whether `a` comes before `b` in dictionary order.
pub fn comes_before(a: &Vec<char>, b: &Vec<char>) -> (yes: bool)
    ensures
        yes == lex_less(a@, b@),
{
    let mut i: usize = 0;
    assert(a@.skip(0) == a@ && b@.skip(0) == b@);
    while i < a.len() && i < b.len() && a[i] == b[i]
        invariant
            i <= a.len(),
            i <= b.len(),
            lex_less(a@, b@) == lex_less(a@.skip(i as int), b@.skip(i as int)),
        decreases a.len() - i,
    {
        proof {
            assert(a@.skip(i as int).drop_first() == a@.skip(i + 1));
            assert(b@.skip(i as int).drop_first() == b@.skip(i + 1));
        }
        i = i + 1;
    }
    if i == b.len() {
        false
    } else if i == a.len() {
        true
    } else {
        a[i] < b[i]
    }
}

/// `out` holds the texts of `input` in dictionary order, each once.
pub open spec fn is_sorted_set_of(input: Seq<Seq<char>>, out: Seq<Seq<char>>) -> bool {
    &&& forall|i: int, j: int| 0 <= i < j < out.len() ==> lex_less(#[trigger] out[i], #[trigger] out[j])
    &&& forall|i: int| 0 <= i < out.len() ==> input.contains(#[trigger] out[i])
    &&& forall|i: int| 0 <= i < input.len() ==> out.contains(#[trigger] input[i])
}

/// Sorts names in dictionary order and drops repetitions.
pub fn sorted_unique(names: &Vec<String>) -> (out: Vec<String>)
    ensures
        is_sorted_set_of(texts(names@), texts(out@)),
{
    let mut out: Vec<String> = Vec::new();
    let mut next: usize = 0;
    while next < names.len()
        invariant
            next <= names.len(),
            is_sorted_set_of(texts(names@).take(next as int), texts(out@)),
        decreases names.len() - next,
    {
        let name = &names[next];
        let chars = chars_of(name.as_str());
        let ghost done = texts(names@).take(next as int);
        let ghost grown = texts(names@).take(next + 1);
        let ghost before = texts(out@);
        proof {
            assert(grown.drop_last() == done);
            assert(grown.last() == name@);
            assert forall|i: int| 0 <= i < before.len() implies grown.contains(#[trigger] before[i]) by {
                assert(done.contains(before[i]));
                let k = choose|k: int| 0 <= k < done.len() && done[k] == before[i];
                assert(grown[k] == before[i]);
            }
        }
        let mut at: usize = 0;
        let mut held = false;
        let mut scanning = true;
        while scanning && at < out.len()
            invariant
                at <= out.len(),
                chars@ == name@,
                before == texts(out@),
                forall|k: int| 0 <= k < at ==> lex_less(#[trigger] before[k], name@),
                scanning ==> !held,
                !scanning ==> at < out.len() && !lex_less(before[at as int], name@) && held == (
                before[at as int] == name@),
            decreases (out.len() - at) * 2 + (if scanning { 1int } else { 0int }),
        {
            let here = chars_of(out[at].as_str());
            assert(before[at as int] == here@);
            if comes_before(&here, &chars) {
                at = at + 1;
            } else {
                held = crate::text::same_chars(&here, &chars);
                scanning = false;
            }
        }
        if held {
            proof {
                assert(before[at as int] == name@);
                assert forall|i: int| 0 <= i < grown.len() implies before.contains(#[trigger] grown[i]) by {
                    if i < done.len() {
                        assert(grown[i] == done[i]);
                        assert(before.contains(done[i]));
                    }
                }
            }
        } else {
            out.insert(at, name.clone());
            proof {
                let after = texts(out@);
                assert(after =~= before.insert(at as int, name@));
                before.insert_ensures(at as int, name@);
                if at < before.len() {
                    lemma_lex_total(before[at as int], name@);
                }
                assert forall|i: int, j: int| 0 <= i < j < after.len() implies lex_less(
                    #[trigger] after[i],
                    #[trigger] after[j],
                ) by {
                    let bi = if i < at { i } else { i - 1 };
                    let bj = if j < at { j } else { j - 1 };
                    if i != at && j != at {
                        assert(after[i] == before[bi]);
                        assert(after[j] == before[bj]);
                    } else if i == at {
                        assert(after[j] == before[bj]);
                        if bj > at {
                            lemma_lex_transitive(name@, before[at as int], before[bj]);
                        }
                    } else {
                        assert(after[i] == before[bi]);
                    }
                }
                assert forall|i: int| 0 <= i < after.len() implies grown.contains(#[trigger] after[i]) by {
                    if i == at {
                        assert(grown[next as int] == name@);
                    } else {
                        let bi = if i < at { i } else { i - 1 };
                        assert(after[i] == before[bi]);
                    }
                }
                assert forall|i: int| 0 <= i < grown.len() implies after.contains(#[trigger] grown[i]) by {
                    if i < done.len() {
                        assert(grown[i] == done[i]);
                        assert(before.contains(done[i]));
                        let k = choose|k: int| 0 <= k < before.len() && before[k] == done[i];
                        let ak = if k < at { k } else { k + 1 };
                        assert(after[ak] == before[k]);
                    } else {
                        assert(after[at as int] == name@);
                    }
                }
            }
        }
        next = next + 1;
    }
    assert(texts(names@).take(names.len() as int) == texts(names@));
    out
}

} // verus!
