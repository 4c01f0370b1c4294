//! Text primitives: the character-level operations that the rest of the
//! library states its results with. Text is a sequence of characters.
use vstd::prelude::*;
use vstd::string::*;

verus! {

/// `String::push` appends the character to the end of the string.
pub assume_specification[ String::push ](buffer: &mut String, character: char)
    ensures
        final(buffer)@ == old(buffer)@.push(character),
;

// ---------------------------------------------------------------------------
// Characters
// ---------------------------------------------------------------------------
/// The characters with the Unicode `White_Space` property.
pub open spec fn is_space(c: char) -> bool {
    ||| 0x09 <= c as u32 <= 0x0d
    ||| c as u32 == 0x20
    ||| c as u32 == 0x85
    ||| c as u32 == 0xa0
    ||| c as u32 == 0x1680
    ||| 0x2000 <= c as u32 <= 0x200a
    ||| c as u32 == 0x2028
    ||| c as u32 == 0x2029
    ||| c as u32 == 0x202f
    ||| c as u32 == 0x205f
    ||| c as u32 == 0x3000
}

/// ASCII letters and digits.
pub open spec fn is_alphanumeric(c: char) -> bool {
    ||| 'a' <= c <= 'z'
    ||| 'A' <= c <= 'Z'
    ||| '0' <= c <= '9'
}

/// The ASCII lower-case form of a character; others stay as they are.
pub open spec fn lower(c: char) -> char {
    if 'A' <= c <= 'Z' {
        ((c as u32) + 32) as char
    } else {
        c
    }
}

pub fn space(c: char) -> (result: bool)
    ensures
        result == is_space(c),
{
    let code: u32 = c as u32;
    (code >= 0x09 && code <= 0x0d) || code == 0x20 || code == 0x85 || code == 0xa0 || code == 0x1680
        || (code >= 0x2000 && code <= 0x200a) || code == 0x2028 || code == 0x2029 || code == 0x202f
        || code == 0x205f || code == 0x3000
}

pub fn alphanumeric(c: char) -> (result: bool)
    ensures
        result == is_alphanumeric(c),
{
    (c >= 'a' && c <= 'z') || (c >= 'A' && c <= 'Z') || (c >= '0' && c <= '9')
}

pub fn to_lower(c: char) -> (result: char)
    ensures
        result == lower(c),
{
    if c >= 'A' && c <= 'Z' {
        ((c as u8) + 32) as char
    } else {
        c
    }
}

// ---------------------------------------------------------------------------
// Taking text apart and putting it together
// ---------------------------------------------------------------------------
/// The characters of `text`, in order.
pub fn characters(text: &str) -> (result: Vec<char>)
    ensures
        result@ == text@,
{
    let mut result: Vec<char> = Vec::new();
    for character in it: text.chars()
        invariant
            it.seq() == text@,
            result@ == text@.take(it.index()),
    {
        result.push(character);
    }
    assert(text@.take(text@.len() as int) =~= text@);
    result
}

/// The string made of `source[from..to]`.
pub fn string_of(source: &[char], from: usize, to: usize) -> (result: String)
    requires
        from <= to <= source@.len(),
    ensures
        result@ == source@.subrange(from as int, to as int),
{
    let mut result = String::new();
    let mut index: usize = from;
    while index < to
        invariant
            from <= index <= to <= source@.len(),
            result@ == source@.subrange(from as int, index as int),
        decreases to - index,
    {
        result.push(source[index]);
        index += 1;
        assert(source@.subrange(from as int, index as int) =~= source@.subrange(
            from as int,
            index - 1,
        ).push(source@[index - 1]));
    }
    result
}

pub fn join2(a: &str, b: &str) -> (result: String)
    ensures
        result@ == a@ + b@,
{
    let mut result = String::from_str(a);
    result.append(b);
    result
}

pub fn join3(a: &str, b: &str, c: &str) -> (result: String)
    ensures
        result@ == a@ + b@ + c@,
{
    let mut result = join2(a, b);
    result.append(c);
    result
}

pub fn join4(a: &str, b: &str, c: &str, d: &str) -> (result: String)
    ensures
        result@ == a@ + b@ + c@ + d@,
{
    let mut result = join3(a, b, c);
    result.append(d);
    result
}

pub fn join5(a: &str, b: &str, c: &str, d: &str, e: &str) -> (result: String)
    ensures
        result@ == a@ + b@ + c@ + d@ + e@,
{
    let mut result = join4(a, b, c, d);
    result.append(e);
    result
}

// ---------------------------------------------------------------------------
// Comparing and searching
// ---------------------------------------------------------------------------
/// Whether two character slices hold the same characters.
pub fn same_characters(a: &[char], b: &[char]) -> (result: bool)
    ensures
        result == (a@ == b@),
{
    if a.len() != b.len() {
        return false;
    }
    let mut index: usize = 0;
    while index < a.len()
        invariant
            index <= a@.len(),
            a@.len() == b@.len(),
            forall|i: int| 0 <= i < index ==> a@[i] == b@[i],
        decreases a@.len() - index,
    {
        if a[index] != b[index] {
            return false;
        }
        index += 1;
    }
    assert(a@ =~= b@);
    true
}

/// Whether two texts are the same.
pub fn same_text(a: &str, b: &str) -> (result: bool)
    ensures
        result == (a@ == b@),
{
    let left = characters(a);
    let right = characters(b);
    same_characters(&left, &right)
}

/// `needle` stands in `text` at position `at`.
pub open spec fn occurs_at<T>(text: Seq<T>, needle: Seq<T>, at: int) -> bool {
    &&& 0 <= at
    &&& at + needle.len() <= text.len()
    &&& text.subrange(at, at + needle.len()) == needle
}

/// `needle` stands somewhere in `text`.
pub open spec fn occurs_in<T>(text: Seq<T>, needle: Seq<T>) -> bool {
    exists|at: int| #[trigger] occurs_at(text, needle, at)
}

/// The first position at or after `from` where `needle` stands in `text`.
pub open spec fn first_occurrence<T>(text: Seq<T>, needle: Seq<T>, from: int) -> Option<int>
    decreases text.len() + 1 - from,
{
    if from < 0 || from + needle.len() > text.len() {
        None
    } else if occurs_at(text, needle, from) {
        Some(from)
    } else {
        first_occurrence(text, needle, from + 1)
    }
}

/// What [`first_occurrence`] finds is an occurrence, and none stands before it.
pub proof fn lemma_first_occurrence<T>(text: Seq<T>, needle: Seq<T>, from: int)
    requires
        0 <= from,
    ensures
        match first_occurrence(text, needle, from) {
            Some(at) => {
                &&& from <= at
                &&& occurs_at(text, needle, at)
                &&& forall|i: int| from <= i < at ==> !#[trigger] occurs_at(text, needle, i)
            },
            None => forall|i: int| from <= i ==> !#[trigger] occurs_at(text, needle, i),
        },
    decreases text.len() + 1 - from,
{
    if from + needle.len() <= text.len() && !occurs_at(text, needle, from) {
        lemma_first_occurrence(text, needle, from + 1);
    }
}

/// Whether `needle` stands in `text` at `at`.
pub fn bytes_occur_at(text: &[u8], needle: &[u8], at: usize) -> (result: bool)
    ensures
        result == occurs_at(text@, needle@, at as int),
{
    if needle.len() > text.len() || at > text.len() - needle.len() {
        return false;
    }
    let length: usize = text.len();
    let mut index: usize = 0;
    while index < needle.len()
        invariant
            index <= needle@.len(),
            at + needle@.len() <= text@.len() == length,
            forall|i: int| 0 <= i < index ==> text@[at + i] == needle@[i],
        decreases needle@.len() - index,
    {
        if text[at + index] != needle[index] {
            assert(text@.subrange(at as int, at + needle@.len())[index as int] != needle@[index as int]);
            return false;
        }
        index += 1;
    }
    assert(text@.subrange(at as int, at + needle@.len()) =~= needle@);
    true
}

/// The first position at or after `from` where `needle` stands in `text`.
pub fn find_bytes(text: &[u8], needle: &[u8], from: usize) -> (result: Option<usize>)
    ensures
        match result {
            Some(at) => first_occurrence(text@, needle@, from as int) == Some(at as int),
            None => first_occurrence(text@, needle@, from as int) is None,
        },
{
    let mut at: usize = from;
    while needle.len() <= text.len() && at <= text.len() - needle.len()
        invariant
            from <= at,
            at <= from || at <= text@.len() - needle@.len() + 1,
            first_occurrence(text@, needle@, at as int) == first_occurrence(
                text@,
                needle@,
                from as int,
            ),
        decreases text@.len() + 1 - at,
    {
        if bytes_occur_at(text, needle, at) {
            return Some(at);
        }
        assert(needle@.len() == 0 ==> text@.subrange(at as int, at as int) =~= needle@);
        at += 1;
    }
    None
}

/// Whether `needle` stands in `text` at `at`.
pub fn chars_occur_at(text: &[char], needle: &[char], at: usize) -> (result: bool)
    ensures
        result == occurs_at(text@, needle@, at as int),
{
    if needle.len() > text.len() || at > text.len() - needle.len() {
        return false;
    }
    let length: usize = text.len();
    let mut index: usize = 0;
    while index < needle.len()
        invariant
            index <= needle@.len(),
            at + needle@.len() <= text@.len() == length,
            forall|i: int| 0 <= i < index ==> text@[at + i] == needle@[i],
        decreases needle@.len() - index,
    {
        if text[at + index] != needle[index] {
            assert(text@.subrange(at as int, at + needle@.len())[index as int] != needle@[index as int]);
            return false;
        }
        index += 1;
    }
    assert(text@.subrange(at as int, at + needle@.len()) =~= needle@);
    true
}

/// Whether `needle` stands somewhere in `text`.
pub fn contains(text: &[char], needle: &str) -> (result: bool)
    ensures
        result == occurs_in(text@, needle@),
{
    let wanted = characters(needle);
    let mut at: usize = 0;
    while wanted.len() <= text.len() && at <= text.len() - wanted.len()
        invariant
            wanted@ == needle@,
            at <= text@.len() - wanted@.len() + 1 || wanted@.len() > text@.len(),
            forall|i: int| 0 <= i < at ==> !occurs_at(text@, needle@, i),
        decreases text@.len() + 1 - at,
    {
        if chars_occur_at(text, &wanted, at) {
            return true;
        }
        assert(wanted@.len() == 0 ==> text@.subrange(at as int, at as int) =~= needle@);
        at += 1;
    }
    false
}

/// Whether `text` starts with `prefix`.
pub fn starts_with(text: &[char], prefix: &str) -> (result: bool)
    ensures
        result == prefix@.is_prefix_of(text@),
{
    let wanted = characters(prefix);
    if wanted.len() > text.len() {
        return false;
    }
    let mut index: usize = 0;
    while index < wanted.len()
        invariant
            wanted@ == prefix@,
            index <= wanted@.len() <= text@.len(),
            forall|i: int| 0 <= i < index ==> text@[i] == wanted@[i],
        decreases wanted@.len() - index,
    {
        if text[index] != wanted[index] {
            assert(text@.subrange(0, wanted@.len() as int)[index as int] != wanted@[index as int]);
            return false;
        }
        index += 1;
    }
    assert(text@.subrange(0, wanted@.len() as int) =~= wanted@);
    true
}

/// What follows `prefix` in `text`, where `text` starts with it.
pub fn strip_prefix(text: &str, prefix: &str) -> (result: Option<String>)
    ensures
        match result {
            Some(rest) => text@ == prefix@ + rest@,
            None => !prefix@.is_prefix_of(text@),
        },
{
    let source = characters(text);
    if !starts_with(&source, prefix) {
        return None;
    }
    let skip: usize = characters(prefix).len();
    let rest = string_of(&source, skip, source.len());
    assert(text@ =~= prefix@ + rest@);
    Some(rest)
}

// ---------------------------------------------------------------------------
// Case and white space
// ---------------------------------------------------------------------------
/// Every character in its ASCII lower-case form.
pub open spec fn lowered(text: Seq<char>) -> Seq<char> {
    text.map_values(|c: char| lower(c))
}

pub fn lowercase(text: &str) -> (result: String)
    ensures
        result@ == lowered(text@),
{
    let source = characters(text);
    let mut result = String::new();
    let mut index: usize = 0;
    while index < source.len()
        invariant
            source@ == text@,
            index <= source@.len(),
            result@ == lowered(source@.take(index as int)),
        decreases source@.len() - index,
    {
        result.push(to_lower(source[index]));
        assert(lowered(source@.take(index + 1)) =~= lowered(source@.take(index as int)).push(
            lower(source@[index as int]),
        ));
        index += 1;
    }
    assert(source@.take(index as int) =~= text@);
    result
}

/// `text` without the white space it begins with.
pub open spec fn trim_start(text: Seq<char>) -> Seq<char>
    decreases text.len(),
{
    if text.len() > 0 && is_space(text[0]) {
        trim_start(text.drop_first())
    } else {
        text
    }
}

/// `text` without the white space it ends with.
pub open spec fn trim_end(text: Seq<char>) -> Seq<char>
    decreases text.len(),
{
    if text.len() > 0 && is_space(text.last()) {
        trim_end(text.drop_last())
    } else {
        text
    }
}

/// `text` without the white space at its two ends.
pub open spec fn trimmed(text: Seq<char>) -> Seq<char> {
    trim_end(trim_start(text))
}

/// Nothing but white space.
pub open spec fn is_blank(text: Seq<char>) -> bool {
    forall|i: int| 0 <= i < text.len() ==> is_space(#[trigger] text[i])
}

/// The number of white-space characters that `source` begins with, from `from` on.
fn skip_spaces(source: &[char], from: usize) -> (result: usize)
    requires
        from <= source@.len(),
    ensures
        from <= result <= source@.len(),
        trim_start(source@.skip(from as int)) == source@.skip(result as int),
        result < source@.len() ==> !is_space(source@[result as int]),
        forall|i: int| from <= i < result ==> is_space(#[trigger] source@[i]),
{
    let mut index: usize = from;
    while index < source.len() && space(source[index])
        invariant
            from <= index <= source@.len(),
            trim_start(source@.skip(from as int)) == trim_start(source@.skip(index as int)),
            forall|i: int| from <= i < index ==> is_space(#[trigger] source@[i]),
        decreases source@.len() - index,
    {
        assert(source@.skip(index as int).drop_first() =~= source@.skip(index + 1));
        index += 1;
    }
    index
}

/// Text without the white space at its two ends.
pub fn trim(text: &str) -> (result: String)
    ensures
        result@ == trimmed(text@),
{
    let source = characters(text);
    assert(source@.skip(0) =~= source@);
    let from: usize = skip_spaces(&source, 0);
    let mut to: usize = source.len();
    assert(source@.subrange(from as int, to as int) =~= source@.skip(from as int));
    while to > from && space(source[to - 1])
        invariant
            from <= to <= source@.len(),
            trim_end(source@.skip(from as int)) == trim_end(
                source@.subrange(from as int, to as int),
            ),
        decreases to,
    {
        assert(source@.subrange(from as int, to as int).drop_last() =~= source@.subrange(
            from as int,
            to - 1,
        ));
        to -= 1;
    }
    assert(to == from || source@.subrange(from as int, to as int).last() == source@[to - 1]);
    string_of(&source, from, to)
}

pub proof fn lemma_trim_start_head(text: Seq<char>)
    ensures
        trim_start(text).len() > 0 ==> !is_space(trim_start(text)[0]),
    decreases text.len(),
{
    if text.len() > 0 && is_space(text[0]) {
        lemma_trim_start_head(text.drop_first());
    }
}

/// Whether text holds nothing but white space.
pub fn blank(text: &str) -> (result: bool)
    ensures
        result == is_blank(text@),
{
    let source = characters(text);
    let from: usize = skip_spaces(&source, 0);
    from == source.len()
}

/// The position of the first white space in `text`, or its length.
pub open spec fn word_end(text: Seq<char>) -> int
    decreases text.len(),
{
    if text.len() == 0 || is_space(text[0]) {
        0
    } else {
        1 + word_end(text.drop_first())
    }
}

pub proof fn lemma_word_end(text: Seq<char>)
    ensures
        0 <= word_end(text) <= text.len(),
    decreases text.len(),
{
    if text.len() > 0 && !is_space(text[0]) {
        lemma_word_end(text.drop_first());
    }
}

pub proof fn lemma_trim_start_len(text: Seq<char>)
    ensures
        trim_start(text).len() <= text.len(),
    decreases text.len(),
{
    if text.len() > 0 && is_space(text[0]) {
        lemma_trim_start_len(text.drop_first());
    }
}

/// The maximal runs of non-white-space characters of `text`, in order.
pub open spec fn words(text: Seq<char>) -> Seq<Seq<char>>
    decreases text.len(),
    via words_decreases
{
    let rest = trim_start(text);
    if rest.len() == 0 {
        Seq::empty()
    } else {
        seq![rest.take(word_end(rest))] + words(rest.skip(word_end(rest)))
    }
}

#[via_fn]
proof fn words_decreases(text: Seq<char>) {
    let rest = trim_start(text);
    lemma_trim_start_len(text);
    lemma_trim_start_head(text);
    lemma_word_end(rest);
    if rest.len() > 0 {
        lemma_word_end(rest.drop_first());
        assert(word_end(rest) >= 1);
    }
}

/// The words of a text as strings.
pub open spec fn views(items: Seq<String>) -> Seq<Seq<char>> {
    items.map_values(|item: String| item@)
}

pub fn split_words(text: &str) -> (result: Vec<String>)
    ensures
        views(result@) == words(text@),
{
    let source = characters(text);
    let mut result: Vec<String> = Vec::new();
    let mut index: usize = 0;
    assert(source@.skip(0) =~= text@);
    assert(views(result@) + words(text@) =~= words(text@));
    while index < source.len()
        invariant
            source@ == text@,
            index <= source@.len(),
            views(result@) + words(source@.skip(index as int)) == words(text@),
        decreases source@.len() - index,
    {
        let start: usize = skip_spaces(&source, index);
        if start == source.len() {
            assert(source@.skip(start as int).len() == 0);
            assert(views(result@) + words(source@.skip(index as int)) =~= views(result@));
            return result;
        }
        let ghost rest = source@.skip(start as int);
        assert(rest[0] == source@[start as int]);
        let mut end: usize = start;
        while end < source.len() && !space(source[end])
            invariant
                start <= end <= source@.len(),
                rest == source@.skip(start as int),
                word_end(rest) == end - start + word_end(source@.skip(end as int)),
                end == start ==> start < source@.len() && !is_space(source@[start as int]),
            decreases source@.len() - end,
        {
            assert(source@.skip(end as int).drop_first() =~= source@.skip(end + 1));
            end += 1;
        }
        assert(word_end(source@.skip(end as int)) == 0);
        let word = string_of(&source, start, end);
        assert(word@ =~= rest.take(word_end(rest)));
        assert(rest.skip(word_end(rest)) =~= source@.skip(end as int));
        let ghost before = result@;
        result.push(word);
        assert(views(result@) =~= views(before).push(word@));
        assert(views(result@) + words(source@.skip(end as int)) =~= views(before) + (seq![word@]
            + words(source@.skip(end as int))));
        index = end;
    }
    assert(words(source@.skip(index as int)) =~= Seq::empty());
    assert(views(result@) + words(source@.skip(index as int)) =~= views(result@));
    result
}

// ---------------------------------------------------------------------------
// Numbers
// ---------------------------------------------------------------------------
/// The character of a decimal digit.
pub open spec fn digit(value: nat) -> char {
    (('0' as u32) + value) as char
}

/// The decimal digits of a number, without leading zeros.
pub open spec fn decimal(value: nat) -> Seq<char>
    decreases value,
{
    if value < 10 {
        seq![digit(value)]
    } else {
        decimal(value / 10).push(digit(value % 10))
    }
}

/// A number in decimal.
pub fn decimal_text(value: u64) -> (result: String)
    ensures
        result@ == decimal(value as nat),
    decreases value,
{
    let mut result = if value < 10 {
        String::new()
    } else {
        decimal_text(value / 10)
    };
    let code: u8 = (value % 10) as u8;
    result.push((48u8 + code) as char);
    assert(value < 10 ==> result@ =~= seq![digit(value as nat)]);
    result
}

// ---------------------------------------------------------------------------
// White space
// ---------------------------------------------------------------------------
/// White space parts the words of a text: those before it and those behind it are
/// the words of the whole. What holds no white space is one word.
pub proof fn law_words(front: Seq<char>, gap: char, back: Seq<char>)
    requires
        is_space(gap),
    ensures
        words(front + seq![gap] + back) == words(front) + words(back),
        words(Seq::empty()) == Seq::<Seq<char>>::empty(),
        front.len() > 0 && (forall|i: int| 0 <= i < front.len() ==> !is_space(#[trigger] front[i]))
            ==> words(front) == seq![front],
{
    lemma_words_parted(front, gap, back);
    if front.len() > 0 && (forall|i: int| 0 <= i < front.len() ==> !is_space(#[trigger] front[i])) {
        lemma_word_end_parted(front, gap, back);
        lemma_one_word(front);
        assert(!is_space(front[0]));
        assert(front.skip(front.len() as int) =~= Seq::<char>::empty());
        assert(front.take(front.len() as int) =~= front);
        assert(words(Seq::<char>::empty()) =~= Seq::<Seq<char>>::empty());
        assert(words(front) =~= seq![front]);
    }
}

proof fn lemma_one_word(text: Seq<char>)
    requires
        forall|i: int| 0 <= i < text.len() ==> !is_space(#[trigger] text[i]),
    ensures
        word_end(text) == text.len(),
    decreases text.len(),
{
    if text.len() > 0 {
        assert(!is_space(text[0]));
        assert forall|i: int| 0 <= i < text.drop_first().len() implies !is_space(
            #[trigger] text.drop_first()[i],
        ) by {
            assert(text.drop_first()[i] == text[i + 1]);
        }
        lemma_one_word(text.drop_first());
    }
}

/// White space behind a text leaves the end of its first word as it is.
proof fn lemma_word_end_parted(front: Seq<char>, gap: char, back: Seq<char>)
    requires
        is_space(gap),
    ensures
        word_end(front + seq![gap] + back) == word_end(front),
    decreases front.len(),
{
    let whole = front + seq![gap] + back;
    if front.len() > 0 && !is_space(front[0]) {
        lemma_word_end_parted(front.drop_first(), gap, back);
        assert(whole.drop_first() =~= front.drop_first() + seq![gap] + back);
    }
}

proof fn lemma_words_parted(front: Seq<char>, gap: char, back: Seq<char>)
    requires
        is_space(gap),
    ensures
        words(front + seq![gap] + back) == words(front) + words(back),
    decreases front.len(),
{
    let whole = front + seq![gap] + back;
    if front.len() == 0 {
        assert(whole.drop_first() =~= back);
        assert(trim_start(whole) == trim_start(back));
        assert(words(whole) =~= words(back));
        assert(words(front) + words(back) =~= words(back));
    } else if is_space(front[0]) {
        lemma_words_parted(front.drop_first(), gap, back);
        assert(whole.drop_first() =~= front.drop_first() + seq![gap] + back);
        assert(words(whole) =~= words(whole.drop_first()));
        assert(words(front) =~= words(front.drop_first()));
    } else {
        lemma_word_end_parted(front, gap, back);
        lemma_word_end(front);
        lemma_word_end(front.drop_first());
        let end = word_end(front);
        lemma_words_parted(front.skip(end), gap, back);
        assert(whole.take(end) =~= front.take(end));
        assert(whole.skip(end) =~= front.skip(end) + seq![gap] + back);
        assert(words(whole) =~= seq![front.take(end)] + words(whole.skip(end)));
        assert(words(whole) =~= words(front) + words(back));
    }
}

/// Trimming takes white space off the two ends of a text and nothing else: what is
/// left neither begins nor ends with white space, and only white space stood around
/// it. Trimming it again changes nothing.
pub proof fn law_trimmed(text: Seq<char>) -> (from: int)
    ensures
        0 <= from <= from + trimmed(text).len() <= text.len(),
        trimmed(text) == text.subrange(from, from + trimmed(text).len()),
        forall|i: int|
            0 <= i < text.len() && !(from <= i < from + trimmed(text).len()) ==> is_space(
                #[trigger] text[i],
            ),
        trimmed(text).len() > 0 ==> !is_space(trimmed(text)[0]) && !is_space(trimmed(text).last()),
        trimmed(trimmed(text)) == trimmed(text),
{
    let start = trim_start(text);
    lemma_trim_start_part(text);
    lemma_trim_end_part(start);
    let from = text.len() - start.len();
    let rest = trimmed(text);
    assert(rest =~= text.subrange(from, from + rest.len()));
    assert forall|i: int| 0 <= i < text.len() && !(from <= i < from + rest.len()) implies is_space(
        #[trigger] text[i],
    ) by {
        if i >= from {
            assert(start[i - from] == text[i]);
        }
    }
    if rest.len() > 0 {
        assert(rest[0] == start[0]);
        assert(trim_start(rest) == rest);
        assert(trim_end(rest) == rest);
    }
    from
}

proof fn lemma_trim_start_part(text: Seq<char>)
    ensures
        trim_start(text).len() <= text.len(),
        trim_start(text) == text.skip(text.len() - trim_start(text).len()),
        trim_start(text).len() > 0 ==> !is_space(trim_start(text)[0]),
        forall|i: int|
            0 <= i < text.len() - trim_start(text).len() ==> is_space(#[trigger] text[i]),
    decreases text.len(),
{
    if text.len() > 0 && is_space(text[0]) {
        let rest = text.drop_first();
        lemma_trim_start_part(rest);
        assert(text.skip(text.len() - trim_start(text).len()) =~= trim_start(text));
        assert forall|i: int| 0 <= i < text.len() - trim_start(text).len() implies is_space(
            #[trigger] text[i],
        ) by {
            if i > 0 {
                assert(rest[i - 1] == text[i]);
            }
        }
    } else {
        assert(text.skip(0) =~= text);
    }
}

proof fn lemma_trim_end_part(text: Seq<char>)
    ensures
        trim_end(text).len() <= text.len(),
        trim_end(text) == text.take(trim_end(text).len() as int),
        trim_end(text).len() > 0 ==> !is_space(trim_end(text).last()),
        forall|i: int| trim_end(text).len() <= i < text.len() ==> is_space(#[trigger] text[i]),
    decreases text.len(),
{
    if text.len() > 0 && is_space(text.last()) {
        let rest = text.drop_last();
        lemma_trim_end_part(rest);
        assert(text.take(trim_end(text).len() as int) =~= trim_end(text));
        assert forall|i: int| trim_end(text).len() <= i < text.len() implies is_space(
            #[trigger] text[i],
        ) by {
            if i < rest.len() {
                assert(rest[i] == text[i]);
            }
        }
    } else {
        assert(text.take(text.len() as int) =~= text);
    }
}

/// Numbers are written so that they can be told apart, and each digit counts ten
/// times the one behind it.
pub proof fn law_decimal(value: nat)
    ensures
        decimal(value).len() > 0,
        forall|i: int| 0 <= i < decimal(value).len() ==> '0' <= (#[trigger] decimal(value)[i]) <= '9',
        value > 0 ==> decimal(value)[0] != '0',
        read_decimal(decimal(value)) == value,
    decreases value,
{
    reveal_with_fuel(read_decimal, 2);
    if value >= 10 {
        law_decimal(value / 10);
        assert(decimal(value).drop_last() =~= decimal(value / 10));
        assert forall|i: int| 0 <= i < decimal(value).len() implies '0' <= (
        #[trigger] decimal(value)[i]) <= '9' by {
            if i < decimal(value).len() - 1 {
                assert(decimal(value)[i] == decimal(value / 10)[i]);
            }
        }
    } else {
        assert(decimal(value).drop_last() =~= Seq::<char>::empty());
    }
}

/// The number that digits stand for.
pub open spec fn read_decimal(digits: Seq<char>) -> int
    decreases digits.len(),
{
    if digits.len() == 0 {
        0
    } else {
        10 * read_decimal(digits.drop_last()) + (digits.last() as int - '0' as int)
    }
}

} // verus!
