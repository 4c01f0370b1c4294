//! Identifiers: 128-bit values, their UUID spelling, and lists of them.
use vstd::arithmetic::power::{lemma_pow0, lemma_pow_adds, lemma_pow_positive, pow};
use vstd::prelude::*;
use vstd::string::*;
use vstd::utf8::encode_utf8;


verus! {

/// The identifier of a project, task, repository, terminal or dock tab.
pub type Id = u128;

// ---------------------------------------------------------------------------
// The UUID spelling
// ---------------------------------------------------------------------------
/// The lower-case hexadecimal digit of a value below 16.
pub open spec fn hex_digit(value: int) -> char {
    if value < 10 {
        (('0' as int) + value) as char
    } else {
        (('a' as int) + value - 10) as char
    }
}

/// Which of the 32 digits stands at position `at` of the hyphenated form.
pub open spec fn digit_index(at: int) -> int {
    if at < 8 {
        at
    } else if at < 13 {
        at - 1
    } else if at < 18 {
        at - 2
    } else if at < 23 {
        at - 3
    } else {
        at - 4
    }
}

pub open spec fn is_hyphen_position(at: int) -> bool {
    at == 8 || at == 13 || at == 18 || at == 23
}

/// The digit of `id` that has `index` digits before it, the most significant first.
pub open spec fn digit_at(id: int, index: int) -> int {
    (id / pow(16, (31 - index) as nat)) % 16
}

/// The hyphenated lower-case form of an identifier: groups of 8, 4, 4, 4 and 12
/// hexadecimal digits.
pub open spec fn uuid_text(id: Id) -> Seq<char> {
    Seq::new(
        36,
        |at: int|
            if is_hyphen_position(at) {
                '-'
            } else {
                hex_digit(digit_at(id as int, digit_index(at)))
            },
    )
}

/// The value of a hexadecimal digit in either case.
pub open spec fn hex_value(byte: u8) -> Option<int> {
    if 48 <= byte <= 57 {
        Some(byte - 48)
    } else if 97 <= byte <= 102 {
        Some(byte - 87)
    } else if 65 <= byte <= 70 {
        Some(byte - 55)
    } else {
        None
    }
}

pub open spec fn all_hex(digits: Seq<u8>) -> bool {
    forall|i: int| 0 <= i < digits.len() ==> hex_value(#[trigger] digits[i]) is Some
}

/// The number that hexadecimal digits spell, the most significant first.
pub open spec fn hex_number(digits: Seq<u8>) -> int
    decreases digits.len(),
{
    if digits.len() == 0 {
        0
    } else {
        16 * hex_number(digits.drop_last()) + hex_value(digits.last())->0
    }
}

/// The identifier that 32 hexadecimal digits spell.
pub open spec fn simple_id(digits: Seq<u8>) -> Option<Id> {
    if digits.len() == 32 && all_hex(digits) {
        Some(hex_number(digits) as u128)
    } else {
        None
    }
}

/// The digits of a hyphenated form.
pub open spec fn hyphenated_digits(bytes: Seq<u8>) -> Seq<u8> {
    bytes.subrange(0, 8) + bytes.subrange(9, 13) + bytes.subrange(14, 18) + bytes.subrange(19, 23)
        + bytes.subrange(24, 36)
}

/// The identifier that a hyphenated form spells.
pub open spec fn hyphenated_id(bytes: Seq<u8>) -> Option<Id> {
    if bytes.len() == 36 && bytes[8] == 45 && bytes[13] == 45 && bytes[18] == 45 && bytes[23] == 45 {
        simple_id(hyphenated_digits(bytes))
    } else {
        None
    }
}

/// The bytes of `urn:uuid:` in either case.
pub open spec fn is_urn_prefix(bytes: Seq<u8>) -> bool {
    let wanted = seq![117u8, 114, 110, 58, 117, 117, 105, 100, 58];
    &&& bytes.len() == wanted.len()
    &&& forall|i: int|
        0 <= i < wanted.len() ==> (#[trigger] bytes[i] == wanted[i] || (97 <= wanted[i]
            && bytes[i] == wanted[i] - 32))
}

/// The identifier that a text spells: 32 digits, the hyphenated form, that form
/// in braces, or that form behind `urn:uuid:`.
pub open spec fn uuid_of(bytes: Seq<u8>) -> Option<Id> {
    if bytes.len() == 32 {
        simple_id(bytes)
    } else if bytes.len() == 36 {
        hyphenated_id(bytes)
    } else if bytes.len() == 38 && bytes[0] == 123 && bytes[37] == 125 {
        hyphenated_id(bytes.subrange(1, 37))
    } else if bytes.len() == 45 && is_urn_prefix(bytes.subrange(0, 9)) {
        hyphenated_id(bytes.subrange(9, 45))
    } else {
        None
    }
}

/// `uuid::Uuid::parse_str`: succeeds exactly on the four spellings that
/// [`uuid_of`] lists, and gives the value that the digits spell.
#[verifier::external_body]
pub(crate) fn parse_uuid(source: &str) -> (result: Option<Id>)
    ensures
        result == uuid_of(encode_utf8(source@)),
{
    match uuid::Uuid::parse_str(source) {
        Ok(id) => Some(id.as_u128()),
        Err(_) => None,
    }
}

/// `uuid::Uuid`'s `Display`: the hyphenated lower-case form.
#[verifier::external_body]
pub(crate) fn uuid_string(id: Id) -> (result: String)
    ensures
        result@ == uuid_text(id),
{
    uuid::Uuid::from_u128(id).to_string()
}

/// The identifier that a text spells.
pub fn parse_id(source: &str) -> (result: Option<Id>)
    ensures
        result == uuid_of(encode_utf8(source@)),
{
    parse_uuid(source)
}

/// The hyphenated spelling of an identifier.
pub fn id_text(id: Id) -> (result: String)
    ensures
        result@ == uuid_text(id),
{
    uuid_string(id)
}

// ---------------------------------------------------------------------------
// The spelling round-trips
// ---------------------------------------------------------------------------
/// The digits of `id` as bytes.
pub open spec fn digit_bytes(id: Id) -> Seq<u8> {
    Seq::new(32, |i: int| hex_digit(digit_at(id as int, i)) as u8)
}

proof fn lemma_digit_bounds(id: int, index: int)
    requires
        0 <= id,
        0 <= index < 32,
    ensures
        0 <= digit_at(id, index) < 16,
{
}

/// Spelling an identifier and parsing the text gives the identifier back.
pub proof fn law_uuid_round_trip(id: Id)
    ensures
        uuid_of(encode_utf8(uuid_text(id))) == Some(id),
{
    let chars = uuid_text(id);
    assert forall|i: int| 0 <= i < 36 implies (chars[i] as nat) < 128 by {
        if !is_hyphen_position(i) {
            lemma_digit_bounds(id as int, digit_index(i));
        }
    }
    vstd::utf8::is_ascii_chars_encode_utf8(chars);
    let bytes = encode_utf8(chars);
    assert(bytes =~= Seq::new(36, |i: int| chars[i] as u8));
    assert forall|i: int| 0 <= i < 32 implies hex_value(hex_digit(digit_at(id as int, i)) as u8)
        == Some(digit_at(id as int, i)) by {
        lemma_digit_bounds(id as int, i);
    }
    assert(hyphenated_digits(bytes) =~= digit_bytes(id));
    lemma_hex_number(id, 32);
    assert(digit_bytes(id).take(32) =~= digit_bytes(id));
    lemma_pow0(16);
    assert(id as int / pow(16, 0) == id as int);
}

proof fn lemma_hex_number(id: Id, count: nat)
    requires
        count <= 32,
    ensures
        hex_number(digit_bytes(id).take(count as int)) == id as int / pow(16, (32 - count) as nat),
    decreases count,
{
    let digits = digit_bytes(id).take(count as int);
    if count == 0 {
        lemma_pow_32();
        assert(id as int / pow(16, 32) == 0);
    } else {
        let before = (count - 1) as nat;
        lemma_hex_number(id, before);
        assert(digits.drop_last() =~= digit_bytes(id).take(before as int));
        lemma_digit_bounds(id as int, before as int);
        let low = pow(16, (32 - count) as nat);
        lemma_pow_positive(16, (32 - count) as nat);
        lemma_pow_adds(16, (32 - count) as nat, 1);
        vstd::arithmetic::power::lemma_pow1(16);
        assert(pow(16, (32 - before) as nat) == low * 16);
        vstd::arithmetic::div_mod::lemma_div_denominator(id as int, low, 16);
        assert(id as int / (low * 16) == (id as int / low) / 16);
        vstd::arithmetic::div_mod::lemma_fundamental_div_mod(id as int / low, 16);
    }
}

proof fn lemma_pow_32()
    ensures
        pow(16, 32) == 0x1_0000_0000_0000_0000_0000_0000_0000_0000,
{
    vstd::arithmetic::power::lemma_pow1(16);
    lemma_pow_adds(16, 1, 1);
    lemma_pow_adds(16, 2, 2);
    lemma_pow_adds(16, 4, 4);
    lemma_pow_adds(16, 8, 8);
    lemma_pow_adds(16, 16, 16);
    let (p1, p2, p4, p8, p16) = (pow(16, 1), pow(16, 2), pow(16, 4), pow(16, 8), pow(16, 16));
    assert(p16 * p16 == 0x1_0000_0000_0000_0000_0000_0000_0000_0000) by (nonlinear_arith)
        requires
            p1 == 16,
            p2 == p1 * p1,
            p4 == p2 * p2,
            p8 == p4 * p4,
            p16 == p8 * p8,
    ;
}

// ---------------------------------------------------------------------------
// Lists of identifiers
// ---------------------------------------------------------------------------
/// The position of the first `id` in `ids`, or their number.
pub open spec fn position_of(ids: Seq<Id>, id: Id) -> int
    decreases ids.len(),
{
    if ids.len() == 0 || ids[0] == id {
        0
    } else {
        1 + position_of(ids.drop_first(), id)
    }
}

/// `ids` with `id` in it: added at the end where it was missing.
pub open spec fn with_id(ids: Seq<Id>, id: Id) -> Seq<Id> {
    if ids.contains(id) {
        ids
    } else {
        ids.push(id)
    }
}

/// `ids` with the presence of `id` switched.
pub open spec fn toggled(ids: Seq<Id>, id: Id) -> Seq<Id> {
    if ids.contains(id) {
        ids.remove(position_of(ids, id))
    } else {
        ids.push(id)
    }
}

/// `ids` without any `id`.
pub open spec fn without_id(ids: Seq<Id>, id: Id) -> Seq<Id> {
    ids.filter(other_than(id))
}

/// The identifiers other than `id`.
pub open spec fn other_than(id: Id) -> spec_fn(Id) -> bool {
    |current: Id| current != id
}

/// [`position_of`] is the first occurrence.
pub proof fn lemma_position_of(ids: Seq<Id>, id: Id)
    ensures
        0 <= position_of(ids, id) <= ids.len(),
        forall|i: int| 0 <= i < position_of(ids, id) ==> ids[i] != id,
        position_of(ids, id) < ids.len() ==> ids[position_of(ids, id)] == id,
        ids.contains(id) <==> position_of(ids, id) < ids.len(),
    decreases ids.len(),
{
    if ids.len() > 0 && ids[0] != id {
        lemma_position_of(ids.drop_first(), id);
        assert forall|i: int| 0 <= i < position_of(ids, id) implies ids[i] != id by {
            if i > 0 {
                assert(ids[i] == ids.drop_first()[i - 1]);
            }
        }
        if position_of(ids, id) < ids.len() {
            assert(ids[position_of(ids, id)] == ids.drop_first()[position_of(ids, id) - 1]);
        }
        if ids.contains(id) {
            let i = choose|i: int| 0 <= i < ids.len() && ids[i] == id;
            assert(ids.drop_first()[i - 1] == id);
        }
    } else if ids.len() > 0 {
        assert(ids.contains(ids[0]));
    }
}

/// The position of the first `id` in `ids`.
pub fn find_id(ids: &[Id], id: Id) -> (result: Option<usize>)
    ensures
        match result {
            Some(at) => at == position_of(ids@, id) && at < ids@.len() && ids@[at as int] == id,
            None => !ids@.contains(id),
        },
{
    let mut index: usize = 0;
    assert(ids@.skip(0) =~= ids@);
    while index < ids.len()
        invariant
            index <= ids@.len(),
            position_of(ids@, id) == index + position_of(ids@.skip(index as int), id),
            forall|i: int| 0 <= i < index ==> ids@[i] != id,
        decreases ids@.len() - index,
    {
        if ids[index] == id {
            return Some(index);
        }
        assert(ids@.skip(index as int).drop_first() =~= ids@.skip(index + 1));
        index += 1;
    }
    None
}

/// Whether `id` is in `ids`.
pub fn contains_id(ids: &[Id], id: Id) -> (result: bool)
    ensures
        result == ids@.contains(id),
{
    match find_id(ids, id) {
        Some(_) => true,
        None => false,
    }
}

/// Adds `id` at the end unless it is there.
pub fn insert_unique(ids: &mut Vec<Id>, id: Id)
    ensures
        final(ids)@ == with_id(old(ids)@, id),
{
    if !contains_id(ids, id) {
        ids.push(id);
    }
}

/// Removes the first `id`, or adds it at the end where there is none.
pub fn toggle_id(ids: &mut Vec<Id>, id: Id)
    ensures
        final(ids)@ == toggled(old(ids)@, id),
{
    match find_id(ids, id) {
        Some(index) => {
            let _ = ids.remove(index);
        },
        None => ids.push(id),
    }
}

/// Removes every `id`.
pub fn remove_id(ids: &mut Vec<Id>, id: Id)
    ensures
        final(ids)@ == without_id(old(ids)@, id),
{
    let mut kept: Vec<Id> = Vec::new();
    let mut index: usize = 0;
    let ghost keep = other_than(id);
    while index < ids.len()
        invariant
            index <= ids@.len(),
            ids@ == old(ids)@,
            keep == other_than(id),
            kept@ == ids@.take(index as int).filter(keep),
        decreases ids@.len() - index,
    {
        assert(ids@.take(index + 1) =~= ids@.take(index as int).push(ids@[index as int]));
        proof {
            ids@.take(index as int).lemma_filter_push(ids@[index as int], keep);
        }
        if ids[index] != id {
            kept.push(ids[index]);
        }
        index += 1;
    }
    assert(ids@.take(index as int) =~= ids@);
    *ids = kept;
}

/// Adding an identifier puts it in the list, keeps the others and their order,
/// adds no duplicate, and does nothing the second time.
pub proof fn law_insert_unique(ids: Seq<Id>, id: Id)
    ensures
        with_id(ids, id).contains(id),
        ids.is_prefix_of(with_id(ids, id)),
        ids.no_duplicates() ==> with_id(ids, id).no_duplicates(),
        with_id(with_id(ids, id), id) == with_id(ids, id),
{
    if !ids.contains(id) {
        let longer = ids.push(id);
        assert(longer[ids.len() as int] == id);
        assert(longer.subrange(0, ids.len() as int) =~= ids);
        assert forall|i: int, j: int|
            ids.no_duplicates() && 0 <= i < longer.len() && 0 <= j < longer.len() && i
                != j implies longer[i] != longer[j] by {
            if i < ids.len() && j < ids.len() {
                assert(ids[i] != ids[j]);
            }
        }
    } else {
        assert(ids.subrange(0, ids.len() as int) =~= ids);
    }
}

/// Toggling switches the presence of `id`, keeps every other identifier and the
/// order of the others, keeps the list free of duplicates, and twice restores the
/// presence.
pub proof fn law_toggle(ids: Seq<Id>, id: Id, other: Id)
    requires
        ids.no_duplicates(),
    ensures
        toggled(ids, id).contains(id) <==> !ids.contains(id),
        other != id ==> (toggled(ids, id).contains(other) <==> ids.contains(other)),
        without_id(toggled(ids, id), id) == without_id(ids, id),
        toggled(ids, id).no_duplicates(),
        toggled(toggled(ids, id), id).contains(other) <==> ids.contains(other),
{
    lemma_toggle_step(ids, id, other);
    lemma_toggle_step(toggled(ids, id), id, other);
    lemma_others_in_order(ids, id);
}

proof fn lemma_others_in_order(ids: Seq<Id>, id: Id)
    ensures
        without_id(toggled(ids, id), id) == without_id(ids, id),
{
    let keep = other_than(id);
    let after = toggled(ids, id);
    assert(seq![id].filter(keep) =~= seq![]) by {
        reveal_with_fuel(Seq::<_>::filter, 2);
        assert(seq![id].drop_last() =~= seq![]);
        assert(!keep(seq![id].last()));
    }
    lemma_position_of(ids, id);
    if ids.contains(id) {
        let at = position_of(ids, id);
        let (front, back) = (ids.take(at), ids.skip(at + 1));
        assert(ids =~= front + seq![id] + back);
        assert(after =~= front + back);
        Seq::filter_distributes_over_add(front + seq![id], back, keep);
        Seq::filter_distributes_over_add(front, seq![id], keep);
        Seq::filter_distributes_over_add(front, back, keep);
        assert(front.filter(keep) + seq![] =~= front.filter(keep));
    } else {
        assert(after =~= ids + seq![id]);
        Seq::filter_distributes_over_add(ids, seq![id], keep);
        assert(ids.filter(keep) + seq![] =~= ids.filter(keep));
    }
}

proof fn lemma_toggle_step(ids: Seq<Id>, id: Id, other: Id)
    requires
        ids.no_duplicates(),
    ensures
        toggled(ids, id).contains(id) <==> !ids.contains(id),
        other != id ==> (toggled(ids, id).contains(other) <==> ids.contains(other)),
        toggled(ids, id).no_duplicates(),
{
    lemma_position_of(ids, id);
    let after = toggled(ids, id);
    if ids.contains(id) {
        let at = position_of(ids, id);
        assert forall|i: int| 0 <= i < after.len() implies #[trigger] after[i] == ids[if i < at {
            i
        } else {
            i + 1
        }] by {}
        if ids.contains(other) && other != id {
            let i = choose|i: int| 0 <= i < ids.len() && ids[i] == other;
            assert(after[if i < at {
                i
            } else {
                i - 1
            }] == other);
        }
    } else {
        assert(after[ids.len() as int] == id);
        if ids.contains(other) {
            let i = choose|i: int| 0 <= i < ids.len() && ids[i] == other;
            assert(after[i] == other);
        }
    }
}

} // verus!
