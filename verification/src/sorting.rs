//! Names in alphabetical order.
use vstd::prelude::*;
use vstd::string::*;

use crate::text::characters;

verus! {

/// `a` comes before `b` in the dictionary order of their characters, which is
/// that of their UTF-8 bytes.
pub open spec fn precedes(a: Seq<char>, b: Seq<char>) -> bool
    decreases a.len(),
{
    if b.len() == 0 {
        false
    } else if a.len() == 0 {
        true
    } else if a[0] != b[0] {
        a[0] < b[0]
    } else {
        precedes(a.drop_first(), b.drop_first())
    }
}

proof fn lemma_precedes_transitive(a: Seq<char>, b: Seq<char>, c: Seq<char>)
    requires
        precedes(a, b),
        precedes(b, c),
    ensures
        precedes(a, c),
    decreases a.len(),
{
    if a.len() > 0 && b.len() > 0 && c.len() > 0 && a[0] == b[0] && b[0] == c[0] {
        lemma_precedes_transitive(a.drop_first(), b.drop_first(), c.drop_first());
    }
}

proof fn lemma_precedes_total(a: Seq<char>, b: Seq<char>)
    ensures
        precedes(a, b) || precedes(b, a) || a == b,
        !(precedes(a, b) && precedes(b, a)),
        precedes(a, b) ==> a != b,
    decreases a.len(),
{
    if a.len() > 0 && b.len() > 0 && a[0] == b[0] {
        lemma_precedes_total(a.drop_first(), b.drop_first());
        if a.drop_first() == b.drop_first() {
            assert(a =~= seq![a[0]] + a.drop_first());
            assert(b =~= seq![b[0]] + b.drop_first());
        }
    } else if a.len() == 0 && b.len() == 0 {
        assert(a =~= b);
    }
}

/// Whether a text comes before another.
pub fn text_precedes(a: &str, b: &str) -> (result: bool)
    ensures
        result == precedes(a@, b@),
{
    let left = characters(a);
    let right = characters(b);
    let mut index: usize = 0;
    assert(a@.skip(0) =~= a@);
    assert(b@.skip(0) =~= b@);
    while index < left.len() && index < right.len()
        invariant
            left@ == a@,
            right@ == b@,
            index <= left@.len(),
            index <= right@.len(),
            precedes(a@, b@) == precedes(a@.skip(index as int), b@.skip(index as int)),
        decreases left@.len() - index,
    {
        proof {
            assert(a@.skip(index as int).drop_first() =~= a@.skip(index + 1));
            assert(b@.skip(index as int).drop_first() =~= b@.skip(index + 1));
        }
        if left[index] != right[index] {
            return left[index] < right[index];
        }
        index += 1;
    }
    index < right.len()
}

/// Position `a` comes before position `b`: by name, and those of the same name
/// in the order they stood in.
pub open spec fn named_before(names: Seq<Seq<char>>, a: int, b: int) -> bool {
    precedes(names[a], names[b]) || (names[a] == names[b] && a < b)
}

/// All positions, each of them once, by name.
pub open spec fn is_name_order(names: Seq<Seq<char>>, order: Seq<usize>) -> bool {
    &&& order.len() == names.len()
    &&& forall|k: int| 0 <= k < order.len() ==> (#[trigger] order[k]) < names.len()
    &&& forall|j: int, k: int|
        0 <= j < k < order.len() ==> named_before(
            names,
            #[trigger] order[j] as int,
            #[trigger] order[k] as int,
        )
}

/// The positions of names in alphabetical order.
pub fn order_by_name(names: &Vec<String>) -> (result: Vec<usize>)
    ensures
        is_name_order(crate::text::views(names@), result@),
{
    let ghost values = crate::text::views(names@);
    let mut order: Vec<usize> = Vec::new();
    let mut index: usize = 0;
    while index < names.len()
        invariant
            index <= names@.len(),
            values == crate::text::views(names@),
            order@.len() == index,
            forall|k: int| 0 <= k < order@.len() ==> (#[trigger] order@[k]) < index,
            forall|j: int, k: int|
                0 <= j < k < order@.len() ==> named_before(
                    values,
                    #[trigger] order@[j] as int,
                    #[trigger] order@[k] as int,
                ),
        decreases names@.len() - index,
    {
        let mut at: usize = order.len();
        while at > 0 && text_precedes(names[index].as_str(), names[order[at - 1]].as_str())
            invariant
                at <= order@.len(),
                index < names@.len(),
                order@.len() == index,
                values == crate::text::views(names@),
                forall|k: int| 0 <= k < order@.len() ==> (#[trigger] order@[k]) < index,
                forall|k: int|
                    at <= k < order@.len() ==> precedes(
                        values[index as int],
                        values[#[trigger] order@[k] as int],
                    ),
            decreases at,
        {
            at -= 1;
        }
        let ghost before = order@;
        order.insert(at, index);
        proof {
            let after = order@;
            assert(after =~= before.insert(at as int, index));
            assert(at > 0 ==> !precedes(values[index as int], values[before[at - 1] as int]));
            assert forall|j: int, k: int| 0 <= j < k < after.len() implies named_before(
                values,
                #[trigger] after[j] as int,
                #[trigger] after[k] as int,
            ) by {
                if k < at {
                    assert(named_before(values, before[j] as int, before[k] as int));
                } else if k == at {
                    let last = before[at - 1] as int;
                    lemma_precedes_total(values[index as int], values[last]);
                    if j < at - 1 {
                        assert(named_before(values, before[j] as int, last));
                        if precedes(values[before[j] as int], values[last]) && precedes(
                            values[last],
                            values[index as int],
                        ) {
                            lemma_precedes_transitive(
                                values[before[j] as int],
                                values[last],
                                values[index as int],
                            );
                        }
                    }
                } else if j < at {
                    assert(named_before(values, before[j] as int, before[k - 1] as int));
                } else if j == at {
                    assert(precedes(values[index as int], values[before[k - 1] as int]));
                } else {
                    assert(named_before(values, before[j - 1] as int, before[k - 1] as int));
                }
            }
        }
        index += 1;
    }
    order
}

/// Where two texts first differ decides which one precedes; where they do not, the
/// shorter one does.
pub proof fn law_precedes(a: Seq<char>, b: Seq<char>, at: int)
    requires
        0 <= at <= a.len(),
        at <= b.len(),
        a.take(at) == b.take(at),
    ensures
        at < a.len() && at < b.len() && a[at] < b[at] ==> precedes(a, b) && !precedes(b, a),
        at == a.len() && at < b.len() ==> precedes(a, b) && !precedes(b, a),
        at == a.len() && at == b.len() ==> !precedes(a, b),
    decreases at,
{
    if at > 0 {
        assert(a[0] == a.take(at)[0]);
        assert(b[0] == b.take(at)[0]);
        let (s, t) = (a.drop_first(), b.drop_first());
        assert(s.take(at - 1) =~= a.take(at).drop_first());
        assert(t.take(at - 1) =~= b.take(at).drop_first());
        law_precedes(s, t, at - 1);
    }
}

/// No text precedes itself.
pub proof fn lemma_precedes_itself(a: Seq<char>)
    ensures
        !precedes(a, a),
{
    law_precedes(a, a, a.len() as int);
}

/// An order by name holds every position once, and no name in it comes after one that
/// it precedes.
pub proof fn law_name_order(names: Seq<Seq<char>>, order: Seq<usize>, at: int)
    requires
        is_name_order(names, order),
        0 <= at < names.len() <= usize::MAX,
    ensures
        order.contains(at as usize),
        forall|j: int, k: int|
            0 <= j < k < order.len() ==> (#[trigger] order[j]) != (#[trigger] order[k]) && !precedes(
                names[order[k] as int],
                names[order[j] as int],
            ),
{
    assert forall|j: int, k: int| 0 <= j < k < order.len() implies (#[trigger] order[j]) != (
    #[trigger] order[k]) && !precedes(names[order[k] as int], names[order[j] as int]) by {
        let (a, b) = (names[order[j] as int], names[order[k] as int]);
        assert(named_before(names, order[j] as int, order[k] as int));
        lemma_precedes_itself(a);
        if precedes(a, b) && precedes(b, a) {
            lemma_precedes_transitive(a, b, a);
        }
    }
    let positions = order.map_values(|at: usize| at as int);
    assert(positions.no_duplicates()) by {
        assert forall|j: int, k: int| 0 <= j < k < order.len() implies positions[j] != positions[k] by {
            assert(order[j] != order[k]);
        }
    }
    positions.unique_seq_to_set();
    let range = vstd::set_lib::set_int_range(0, names.len() as int);
    vstd::set_lib::lemma_int_range(0, names.len() as int);
    assert(positions.to_set().subset_of(range)) by {
        assert forall|i: int| #[trigger] positions.to_set().contains(i) implies range.contains(i) by {
            let k = choose|k: int| 0 <= k < positions.len() && positions[k] == i;
            assert(order[k] < names.len());
        }
    }
    vstd::set_lib::lemma_subset_equality(positions.to_set(), range);
    assert(range.contains(at));
    let k = choose|k: int| 0 <= k < positions.len() && positions[k] == at;
    assert(order[k] == at as usize);
}

} // verus!
