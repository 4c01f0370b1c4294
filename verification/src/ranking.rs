//! Positions ordered by a key.
use vstd::prelude::*;

verus! {

/// Position `a` comes before position `b`: its key is smaller, or the keys are
/// the same and it stands first.
pub open spec fn comes_before(keys: Seq<Option<int>>, a: int, b: int) -> bool {
    keys[a]->0 < keys[b]->0 || (keys[a]->0 == keys[b]->0 && a < b)
}

/// The positions that have a key, each of them once, in order.
pub open spec fn is_order(keys: Seq<Option<int>>, order: Seq<usize>) -> bool {
    &&& forall|k: int|
        0 <= k < order.len() ==> (#[trigger] order[k]) < keys.len() && keys[order[k] as int] is Some
    &&& forall|j: int, k: int|
        0 <= j < k < order.len() ==> comes_before(
            keys,
            #[trigger] order[j] as int,
            #[trigger] order[k] as int,
        )
    &&& forall|i: int|
        0 <= i < keys.len() && i <= usize::MAX && (#[trigger] keys[i]) is Some ==> order.contains(
            i as usize,
        )
}

/// Keys as mathematical integers.
pub open spec fn key_values(keys: Seq<Option<i128>>) -> Seq<Option<int>> {
    keys.map_values(
        |key: Option<i128>|
            match key {
                Some(key) => Some(key as int),
                None => None::<int>,
            },
    )
}

/// Keys put positions into one order only.
pub proof fn law_order_unique(keys: Seq<Option<int>>, a: Seq<usize>, b: Seq<usize>)
    requires
        is_order(keys, a),
        is_order(keys, b),
        keys.len() <= usize::MAX,
    ensures
        a == b,
{
    assert forall|x: usize| a.contains(x) <==> b.contains(x) by {
        if a.contains(x) {
            let k = choose|k: int| 0 <= k < a.len() && a[k] == x;
            assert(keys[a[k] as int] is Some);
        }
        if b.contains(x) {
            let k = choose|k: int| 0 <= k < b.len() && b[k] == x;
            assert(keys[b[k] as int] is Some);
        }
    }
    lemma_same_order(keys, a, b);
}

proof fn lemma_same_order(keys: Seq<Option<int>>, a: Seq<usize>, b: Seq<usize>)
    requires
        forall|j: int, k: int|
            0 <= j < k < a.len() ==> comes_before(
                keys,
                #[trigger] a[j] as int,
                #[trigger] a[k] as int,
            ),
        forall|j: int, k: int|
            0 <= j < k < b.len() ==> comes_before(
                keys,
                #[trigger] b[j] as int,
                #[trigger] b[k] as int,
            ),
        forall|x: usize| a.contains(x) <==> b.contains(x),
    ensures
        a == b,
    decreases a.len(),
{
    if a.len() == 0 {
        if b.len() > 0 {
            assert(b.contains(b[0]));
        }
        assert(a =~= b);
    } else {
        assert(a.contains(a[0]));
        assert(b.contains(a[0]));
        let at = choose|k: int| 0 <= k < b.len() && b[k] == a[0];
        assert(b.contains(b[0]));
        assert(a.contains(b[0]));
        let back = choose|k: int| 0 <= k < a.len() && a[k] == b[0];
        if at > 0 && back > 0 {
            assert(comes_before(keys, b[0] as int, b[at] as int));
            assert(comes_before(keys, a[0] as int, a[back] as int));
        }
        assert(a[0] == b[0]);
        let rest_a = a.drop_first();
        let rest_b = b.drop_first();
        assert forall|x: usize| rest_a.contains(x) <==> rest_b.contains(x) by {
            lemma_rest(keys, a, b, x);
            lemma_rest(keys, b, a, x);
        }
        assert forall|j: int, k: int| 0 <= j < k < rest_a.len() implies comes_before(
            keys,
            #[trigger] rest_a[j] as int,
            #[trigger] rest_a[k] as int,
        ) by {
            assert(rest_a[j] == a[j + 1] && rest_a[k] == a[k + 1]);
        }
        assert forall|j: int, k: int| 0 <= j < k < rest_b.len() implies comes_before(
            keys,
            #[trigger] rest_b[j] as int,
            #[trigger] rest_b[k] as int,
        ) by {
            assert(rest_b[j] == b[j + 1] && rest_b[k] == b[k + 1]);
        }
        lemma_same_order(keys, rest_a, rest_b);
        assert(a =~= seq![a[0]] + rest_a);
        assert(b =~= seq![b[0]] + rest_b);
    }
}

proof fn lemma_rest(keys: Seq<Option<int>>, a: Seq<usize>, b: Seq<usize>, x: usize)
    requires
        a.len() > 0,
        b.len() > 0,
        a[0] == b[0],
        forall|j: int, k: int|
            0 <= j < k < a.len() ==> comes_before(
                keys,
                #[trigger] a[j] as int,
                #[trigger] a[k] as int,
            ),
        a.contains(x) ==> b.contains(x),
    ensures
        a.drop_first().contains(x) ==> b.drop_first().contains(x),
{
    let rest = a.drop_first();
    if rest.contains(x) {
        let k = choose|k: int| 0 <= k < rest.len() && rest[k] == x;
        assert(a[k + 1] == x);
        assert(comes_before(keys, a[0] as int, a[k + 1] as int));
        assert(x != a[0]);
        let m = choose|m: int| 0 <= m < b.len() && b[m] == x;
        assert(m > 0);
        assert(b.drop_first()[m - 1] == x);
    }
}

/// The positions that have a key, by their key and then by their place.
pub fn order_by_key(keys: &Vec<Option<i128>>) -> (result: Vec<usize>)
    ensures
        is_order(key_values(keys@), result@),
{
    let mut order: Vec<usize> = Vec::new();
    let ghost values = key_values(keys@);
    let mut index: usize = 0;
    while index < keys.len()
        invariant
            index <= keys@.len(),
            values == key_values(keys@),
            forall|k: int|
                0 <= k < order@.len() ==> (#[trigger] order@[k]) < index && values[order@[k] as int] is Some,
            forall|j: int, k: int|
                0 <= j < k < order@.len() ==> comes_before(
                    values,
                    #[trigger] order@[j] as int,
                    #[trigger] order@[k] as int,
                ),
            forall|i: int|
                0 <= i < index && (#[trigger] values[i]) is Some ==> order@.contains(i as usize),
        decreases keys@.len() - index,
    {
        if let Some(key) = keys[index] {
            assert(values[index as int] == Some(key as int));
            let mut at: usize = order.len();
            while at > 0 && is_behind(keys, &order, at - 1, key)
                invariant
                    at <= order@.len(),
                    index < keys@.len(),
                    values == key_values(keys@),
                    forall|k: int|
                        0 <= k < order@.len() ==> (#[trigger] order@[k]) < index
                            && values[order@[k] as int] is Some,
                    forall|k: int|
                        at <= k < order@.len() ==> key < values[#[trigger] order@[k] as int]->0,
                decreases at,
            {
                at -= 1;
            }
            let ghost before = order@;
            assert(at > 0 ==> values[before[at - 1] as int]->0 <= key);
            order.insert(at, index);
            proof {
                let after = order@;
                assert(after =~= before.insert(at as int, index));
                assert forall|j: int, k: int| 0 <= j < k < after.len() implies comes_before(
                    values,
                    #[trigger] after[j] as int,
                    #[trigger] after[k] as int,
                ) by {
                    if k < at {
                        assert(comes_before(values, before[j] as int, before[k] as int));
                    } else if k == at {
                        if j < at - 1 {
                            assert(comes_before(values, before[j] as int, before[at - 1] as int));
                        }
                    } else if j < at {
                        assert(comes_before(values, before[j] as int, before[k - 1] as int));
                    } else if j == at {
                        assert(key < values[before[k - 1] as int]->0);
                    } else {
                        assert(comes_before(values, before[j - 1] as int, before[k - 1] as int));
                    }
                }
                assert forall|i: int| 0 <= i <= index && (#[trigger] values[i]) is Some implies after.contains(
                    i as usize,
                ) by {
                    if i == index {
                        assert(after[at as int] == index);
                    } else {
                        assert(before.contains(i as usize));
                        let k = choose|k: int| 0 <= k < before.len() && before[k] == i as usize;
                        if k < at {
                            assert(after[k] == i as usize);
                        } else {
                            assert(after[k + 1] == i as usize);
                        }
                    }
                }
            }
        } else {
            assert(values[index as int] is None);
        }
        index += 1;
    }
    order
}

/// Whether the key at a place in the order is greater.
fn is_behind(keys: &Vec<Option<i128>>, order: &Vec<usize>, at: usize, key: i128) -> (result: bool)
    requires
        at < order@.len(),
        order@[at as int] < keys@.len(),
        keys@[order@[at as int] as int] is Some,
    ensures
        result == (key < keys@[order@[at as int] as int]->0),
{
    match keys[order[at]] {
        Some(other) => key < other,
        None => false,
    }
}

} // verus!
