//! How well a candidate of the quick-open palette matches a query.
//!
//! Candidates are scored on their UTF-8 bytes: positions and lengths in the
//! formulas are byte positions and byte lengths.
use vstd::prelude::*;
use vstd::string::*;
use vstd::utf8::encode_utf8;

use crate::text::{
    bytes_occur_at, characters, find_bytes, first_occurrence, is_space, lemma_first_occurrence,
    lemma_trim_start_head, lemma_trim_start_len, lemma_word_end, occurs_at, occurs_in, split_words, trim_start,
    views, word_end, words,
};

verus! {

/// Where the last path component of a candidate starts: behind its last `/`.
pub open spec fn name_start(candidate: Seq<u8>) -> int
    decreases candidate.len(),
{
    if candidate.len() == 0 {
        0
    } else if candidate.last() == 47 {
        candidate.len() as int
    } else {
        name_start(candidate.drop_last())
    }
}

/// Position `index` begins the candidate or follows `/`, `_`, `-`, `.` or a space.
pub open spec fn at_boundary(candidate: Seq<u8>, index: int) -> bool {
    index == 0 || candidate[index - 1] == 47 || candidate[index - 1] == 95 || candidate[index - 1] == 45
        || candidate[index - 1] == 46 || candidate[index - 1] == 32
}

/// The points of a query term that stands in the candidate at `index`.
pub open spec fn exact_term_points(candidate: Seq<u8>, index: int) -> int {
    9_000 + (if index >= name_start(candidate) {
        3_000int
    } else {
        0
    }) + (if at_boundary(candidate, index) {
        1_500int
    } else {
        0
    }) - 4 * index
}

/// The points of one character of a fuzzy match: found at `index`, searched
/// from `from`, which is where the character before it ended. The file name
/// starts at `start`.
pub open spec fn fuzzy_character_points(
    candidate: Seq<u8>,
    start: int,
    index: int,
    from: int,
    first: bool,
) -> int {
    let gap = index - from;
    700 + (if first {
        0int
    } else if gap == 0 {
        850
    } else {
        -12 * (if gap < 80 {
            gap
        } else {
            80
        })
    }) + (if at_boundary(candidate, index) {
        500int
    } else {
        0
    }) + (if index >= start {
        180int
    } else {
        0
    })
}

/// The bytes of one character.
pub open spec fn character_bytes(character: char) -> Seq<u8> {
    encode_utf8(seq![character])
}

/// The points of the characters of `term`, each found at its first occurrence
/// behind the one before it; nothing where one is missing.
pub open spec fn fuzzy_points(
    term: Seq<char>,
    candidate: Seq<u8>,
    start: int,
    from: int,
    first: bool,
) -> Option<int>
    decreases term.len(),
{
    if term.len() == 0 {
        Some(0)
    } else {
        match first_occurrence(candidate, character_bytes(term[0]), from) {
            None => None,
            Some(index) => plus(
                fuzzy_character_points(candidate, start, index, from, first),
                fuzzy_points(
                    term.drop_first(),
                    candidate,
                    start,
                    index + character_bytes(term[0]).len(),
                    false,
                ),
            ),
        }
    }
}

/// `points` added to a score, where there is one.
pub open spec fn plus(points: int, score: Option<int>) -> Option<int> {
    match score {
        Some(score) => Some(points + score),
        None => None,
    }
}

/// Where the first character of `term` stands in the candidate.
pub open spec fn first_match(term: Seq<char>, candidate: Seq<u8>) -> int {
    if term.len() == 0 {
        0
    } else {
        match first_occurrence(candidate, character_bytes(term[0]), 0) {
            Some(index) => index,
            None => 0,
        }
    }
}

/// The points of a term that matches character by character, in a candidate
/// whose file name starts at `start`.
pub open spec fn fuzzy_term_score(term: Seq<char>, candidate: Seq<u8>, start: int) -> Option<int> {
    plus(-8 * first_match(term, candidate), fuzzy_points(term, candidate, start, 0, true))
}

/// The characters of `term` stand in the candidate at the places, from `from` on
/// and each behind the one before it.
pub open spec fn stands_at(term: Seq<char>, candidate: Seq<u8>, places: Seq<int>, from: int) -> bool {
    &&& places.len() == term.len()
    &&& forall|i: int|
        0 <= i < term.len() ==> occurs_at(candidate, character_bytes(term[i]), #[trigger] places[i])
    &&& forall|i: int|
        0 <= i < term.len() ==> (#[trigger] places[i]) >= if i == 0 {
            from
        } else {
            places[i - 1] + character_bytes(term[i - 1]).len()
        }
}

/// The characters of `term` stand in the candidate, one behind the other.
pub open spec fn is_spread(term: Seq<char>, candidate: Seq<u8>) -> bool {
    exists|places: Seq<int>| #[trigger] stands_at(term, candidate, places, 0)
}

/// The points of one term of a query.
pub open spec fn term_score(term: Seq<char>, candidate: Seq<u8>) -> Option<int> {
    match first_occurrence(candidate, encode_utf8(term), 0) {
        Some(index) => Some(exact_term_points(candidate, index)),
        None => fuzzy_term_score(term, candidate, name_start(candidate)),
    }
}

/// The points of all terms, 500 more for each; nothing where one does not match.
pub open spec fn terms_score(terms: Seq<Seq<char>>, candidate: Seq<u8>) -> Option<int>
    decreases terms.len(),
{
    if terms.len() == 0 {
        Some(0)
    } else {
        match term_score(terms[0], candidate) {
            None => None,
            Some(points) => plus(points + 500, terms_score(terms.drop_first(), candidate)),
        }
    }
}

/// The score of a candidate, nothing where it does not match. In falling order:
/// the query itself, its file name, a file name or a candidate that begins with
/// it, one that holds it, and one whose parts match the query's terms.
pub open spec fn score(query: Seq<char>, candidate: Seq<char>) -> Option<int> {
    let wanted = encode_utf8(query);
    let text = encode_utf8(candidate);
    let start = name_start(text);
    let name = text.skip(start);
    if query.len() == 0 {
        Some(0)
    } else if text == wanted {
        Some(140_000)
    } else if name == wanted {
        Some(135_000 - text.len())
    } else if wanted.is_prefix_of(name) {
        Some(125_000 - name.len() - start)
    } else if wanted.is_prefix_of(text) {
        Some(118_000 - text.len())
    } else {
        match first_occurrence(text, wanted, 0) {
            Some(index) => Some(
                100_000 + (if index >= start {
                    12_000int
                } else {
                    0
                }) + (if at_boundary(text, index) {
                    4_000int
                } else {
                    0
                }) - 12 * index - text.len(),
            ),
            None => plus(30_000 - text.len(), terms_score(words(query), text)),
        }
    }
}

/// The score of a candidate of `candidate` bytes fits in 64 bits for a query of
/// `query` characters, and so does every sum on the way to it: no more than
/// 140_000 points for the kind of the match and 16_230 for each character are
/// gained, and no more than 13 for each byte of the candidate, and 8 for each
/// byte and term, are lost.
pub open spec fn score_fits(query: int, candidate: int) -> bool {
    140_000 + 16_230 * query + 13 * candidate + 8 * (query * candidate) <= i64::MAX
}

/// Whether the score of a query of so many characters on so many bytes fits.
pub fn score_is_small(query: usize, candidate: usize) -> (result: bool)
    ensures
        result == score_fits(query as int, candidate as int),
{
    let limit: u128 = i64::MAX as u128;
    let (q, c): (u128, u128) = (query as u128, candidate as u128);
    let ghost (wide, long) = (query as int, candidate as int);
    assert(0 <= wide * long) by (nonlinear_arith)
        requires
            0 <= wide,
            0 <= long,
    ;
    if 16_230 * q > limit || 13 * c > limit {
        return false;
    }
    assert(wide * long <= 0x100_0000_0000_0000_0000_0000_0000_0000) by (nonlinear_arith)
        requires
            0 <= wide <= 0x400_0000_0000_0000,
            0 <= long <= 0x4000_0000_0000_0000,
    ;
    140_000 + 16_230 * q + 13 * c + 8 * (q * c) <= limit
}

proof fn lemma_name_start(candidate: Seq<u8>)
    ensures
        0 <= name_start(candidate) <= candidate.len(),
    decreases candidate.len(),
{
    if candidate.len() > 0 && candidate.last() != 47 {
        lemma_name_start(candidate.drop_last());
    }
}

fn find_name_start(candidate: &[u8]) -> (result: usize)
    ensures
        result == name_start(candidate@),
        result <= candidate@.len(),
{
    let mut end: usize = candidate.len();
    assert(candidate@.take(end as int) =~= candidate@);
    while end > 0
        invariant
            end <= candidate@.len(),
            name_start(candidate@) == name_start(candidate@.take(end as int)),
        decreases end,
    {
        assert(candidate@.take(end as int).last() == candidate@[end - 1]);
        if candidate[end - 1] == 47 {
            return end;
        }
        assert(candidate@.take(end as int).drop_last() =~= candidate@.take(end - 1));
        end -= 1;
    }
    end
}

fn boundary(candidate: &[u8], index: usize) -> (result: bool)
    requires
        index <= candidate@.len(),
    ensures
        result == at_boundary(candidate@, index as int),
{
    if index == 0 {
        return true;
    }
    let byte: u8 = candidate[index - 1];
    byte == 47 || byte == 95 || byte == 45 || byte == 46 || byte == 32
}

/// The points of a term that matches character by character, in a candidate
/// whose file name starts where given: `None` exactly where its characters do not
/// stand in the candidate one behind the other.
pub fn quick_open_fuzzy_term_score(term: &str, candidate: &str, file_name_start: usize) -> (result:
    Option<i64>)
    requires
        2_230 * term@.len() + 8 * encode_utf8(candidate@).len() <= i64::MAX,
    ensures
        match result {
            Some(points) => fuzzy_term_score(
                term@,
                encode_utf8(candidate@),
                file_name_start as int,
            ) == Some(points as int),
            None => fuzzy_term_score(term@, encode_utf8(candidate@), file_name_start as int) is None,
        },
        result is Some <==> is_spread(term@, encode_utf8(candidate@)),
        term@.len() == 0 ==> result == Some(0i64),
        result matches Some(points) ==> -260 * term@.len() - 8 * encode_utf8(candidate@).len()
            <= points <= 2_230 * term@.len(),
{
    let bytes = candidate.as_bytes();
    proof {
        lemma_spread(term@, bytes@, file_name_start as int, 0, true);
    }
    let source = characters(term);
    let length: usize = bytes.len();
    let mut score: i64 = 0;
    let mut from: usize = 0;
    let mut first_index: usize = 0;
    let mut position: usize = 0;
    assert(source@.skip(0) =~= term@);
    while position < source.len()
        invariant
            source@ == term@,
            bytes@ == encode_utf8(candidate@),
            length == bytes@.len(),
            2_230 * term@.len() + 8 * length <= i64::MAX,
            position <= source@.len(),
            from <= length,
            position == 0 ==> from == 0,
            first_index <= length,
            (fuzzy_points(term@, bytes@, file_name_start as int, 0, true) is Some) == is_spread(
                term@,
                bytes@,
            ),
            first_index == if position == 0 {
                0
            } else {
                first_match(term@, bytes@)
            },
            -260 * position <= score <= 2_230 * position,
            fuzzy_points(term@, bytes@, file_name_start as int, 0, true) == plus(
                score as int,
                fuzzy_points(
                    source@.skip(position as int),
                    bytes@,
                    file_name_start as int,
                    from as int,
                    position == 0,
                ),
            ),
        decreases source@.len() - position,
    {
        let mut buffer = String::new();
        buffer.push(source[position]);
        assert(buffer@ =~= seq![source@[position as int]]);
        let needle = buffer.as_str().as_bytes();
        let ghost rest = source@.skip(position as int);
        assert(rest[0] == source@[position as int]);
        assert(rest.drop_first() =~= source@.skip(position + 1));
        match find_bytes(bytes, needle, from) {
            None => {
                return None;
            },
            Some(index) => {
                proof {
                    lemma_first_occurrence(bytes@, needle@, from as int);
                }
                assert(index + needle@.len() <= length);
                if position == 0 {
                    first_index = index;
                }
                score += 700;
                if position > 0 {
                    let gap: usize = index - from;
                    if gap == 0 {
                        score += 850;
                    } else if gap < 80 {
                        score -= (gap as i64) * 12;
                    } else {
                        score -= 960;
                    }
                }
                if boundary(bytes, index) {
                    score += 500;
                }
                if index >= file_name_start {
                    score += 180;
                }
                from = index + needle.len();
                position += 1;
            },
        }
    }
    Some(score - (first_index as i64) * 8)
}

/// Each character stands at its first place behind the one before it where the
/// characters can stand one behind the other at all.
proof fn lemma_spread(term: Seq<char>, candidate: Seq<u8>, start: int, from: int, first: bool)
    requires
        0 <= from,
    ensures
        fuzzy_points(term, candidate, start, from, first) is Some <==> exists|places: Seq<int>|
            #[trigger] stands_at(term, candidate, places, from),
    decreases term.len(),
{
    if term.len() == 0 {
        assert(stands_at(term, candidate, Seq::<int>::empty(), from));
    } else {
        let needle = character_bytes(term[0]);
        let rest = term.drop_first();
        lemma_first_occurrence(candidate, needle, from);
        if let Some(index) = first_occurrence(candidate, needle, from) {
            let behind = index + needle.len();
            lemma_spread(rest, candidate, start, behind, false);
            if fuzzy_points(rest, candidate, start, behind, false) is Some {
                let later = choose|places: Seq<int>| #[trigger]
                    stands_at(rest, candidate, places, behind);
                let places = seq![index] + later;
                assert forall|i: int| 0 <= i < term.len() implies occurs_at(
                    candidate,
                    character_bytes(term[i]),
                    #[trigger] places[i],
                ) && places[i] >= (if i == 0 {
                    from
                } else {
                    places[i - 1] + character_bytes(term[i - 1]).len()
                }) by {
                    if i > 0 {
                        assert(places[i] == later[i - 1]);
                        assert(term[i] == rest[i - 1]);
                        if i > 1 {
                            assert(places[i - 1] == later[i - 2]);
                            assert(term[i - 1] == rest[i - 2]);
                        }
                    }
                }
                assert(stands_at(term, candidate, places, from));
            }
        }
        assert forall|places: Seq<int>| #[trigger]
            stands_at(term, candidate, places, from) implies fuzzy_points(
            term,
            candidate,
            start,
            from,
            first,
        ) is Some by {
            assert(occurs_at(candidate, needle, places[0]));
            let index = first_occurrence(candidate, needle, from)->0;
            let later = places.drop_first();
            assert forall|i: int| 0 <= i < rest.len() implies occurs_at(
                candidate,
                character_bytes(rest[i]),
                #[trigger] later[i],
            ) && later[i] >= (if i == 0 {
                index + needle.len()
            } else {
                later[i - 1] + character_bytes(rest[i - 1]).len()
            }) by {
                assert(later[i] == places[i + 1]);
                assert(rest[i] == term[i + 1]);
                assert(places[i] + character_bytes(term[i]).len() <= places[i + 1]);
                if i > 0 {
                    assert(later[i - 1] == places[i]);
                    assert(rest[i - 1] == term[i]);
                }
            }
            assert(stands_at(rest, candidate, later, index + needle.len()));
        }
    }
}

/// How many characters the texts have together.
pub open spec fn total_length(texts: Seq<Seq<char>>) -> int
    decreases texts.len(),
{
    if texts.len() == 0 {
        0
    } else {
        texts[0].len() + total_length(texts.drop_first())
    }
}

proof fn lemma_total_length(texts: Seq<Seq<char>>)
    ensures
        total_length(texts) >= 0,
    decreases texts.len(),
{
    if texts.len() > 0 {
        lemma_total_length(texts.drop_first());
    }
}

/// The words are together no longer than the text, and there are no more of them
/// than characters.
proof fn lemma_words_bounds(text: Seq<char>)
    ensures
        words(text).len() <= text.len(),
        total_length(words(text)) <= text.len(),
    decreases text.len(),
{
    let rest = trim_start(text);
    lemma_trim_start_len(text);
    if rest.len() > 0 {
        lemma_trim_start_head(text);
        lemma_word_end(rest);
        lemma_word_end(rest.drop_first());
        let behind = rest.skip(word_end(rest));
        lemma_words_bounds(behind);
        assert(words(text).drop_first() =~= words(behind));
    }
}

/// The score of a candidate for a query, `None` exactly where it does not match.
pub fn quick_open_score(query: &str, candidate: &str) -> (result: Option<i64>)
    requires
        score_fits(query@.len() as int, encode_utf8(candidate@).len() as int),
    ensures
        match result {
            Some(points) => score(query@, candidate@) == Some(points as int),
            None => score(query@, candidate@) is None,
        },
        result is Some <==> query@.len() == 0 || forall|i: int|
            0 <= i < words(query@).len() ==> is_spread(
                #[trigger] words(query@)[i],
                encode_utf8(candidate@),
            ),
{
    proof {
        law_what_matches(query@, candidate@);
    }
    if query.is_empty() {
        return Some(0);
    }
    let wanted = query.as_bytes();
    let bytes = candidate.as_bytes();
    let length: usize = bytes.len();
    let start: usize = find_name_start(bytes);
    let ghost name = bytes@.skip(start as int);
    let ghost (wide, long) = (query@.len() as int, length as int);
    assert(0 <= wide * long) by (nonlinear_arith)
        requires
            0 <= wide,
            0 <= long,
    ;
    assert(occurs_at(bytes@, wanted@, 0) <==> wanted@.is_prefix_of(bytes@));
    assert(occurs_at(bytes@, wanted@, start as int) <==> wanted@.is_prefix_of(name)) by {
        if wanted@.len() <= name.len() {
            assert(name.subrange(0, wanted@.len() as int) =~= bytes@.subrange(
                start as int,
                start + wanted@.len(),
            ));
        }
    }
    assert(name == wanted@ <==> wanted@.is_prefix_of(name) && wanted@.len() == name.len()) by {
        assert(name.subrange(0, name.len() as int) =~= name);
    }
    assert(bytes@ == wanted@ <==> wanted@.is_prefix_of(bytes@) && wanted@.len() == bytes@.len()) by {
        assert(bytes@.subrange(0, bytes@.len() as int) =~= bytes@);
    }
    let begins_name: bool = bytes_occur_at(bytes, wanted, start);
    let begins: bool = bytes_occur_at(bytes, wanted, 0);
    if begins && wanted.len() == length {
        return Some(140_000);
    }
    if begins_name && wanted.len() == length - start {
        return Some(135_000 - length as i64);
    }
    if begins_name {
        return Some(125_000 - (length - start) as i64 - start as i64);
    }
    if begins {
        return Some(118_000 - length as i64);
    }
    if let Some(index) = find_bytes(bytes, wanted, 0) {
        proof {
            lemma_first_occurrence(bytes@, wanted@, 0);
        }
        let name_bonus: i64 = if index >= start {
            12_000
        } else {
            0
        };
        let boundary_bonus: i64 = if boundary(bytes, index) {
            4_000
        } else {
            0
        };
        return Some(100_000 + name_bonus + boundary_bonus - (index as i64) * 12 - length as i64);
    }
    match score_terms(query, candidate, start) {
        None => None,
        Some(points) => Some(30_000 + points - length as i64),
    }
}

/// The points of the words of a query.
fn score_terms(query: &str, candidate: &str, file_name_start: usize) -> (result: Option<i64>)
    requires
        query@.len() > 0,
        file_name_start == name_start(encode_utf8(candidate@)),
        score_fits(query@.len() as int, encode_utf8(candidate@).len() as int),
    ensures
        match result {
            Some(points) => terms_score(words(query@), encode_utf8(candidate@)) == Some(
                points as int,
            ),
            None => terms_score(words(query@), encode_utf8(candidate@)) is None,
        },
        result matches Some(points) ==> points <= i64::MAX - 40_000 && points - encode_utf8(
            candidate@,
        ).len() >= i64::MIN,
{
    let terms = split_words(query);
    let bytes = candidate.as_bytes();
    let length: usize = bytes.len();
    let mut points: i64 = 0;
    let mut index: usize = 0;
    let ghost mut used: int = 0;
    let ghost (wide, long) = (query@.len() as int, length as int);
    proof {
        lemma_words_bounds(query@);
        assert(terms@.len() == words(query@).len());
        assert(0 <= wide * long) by (nonlinear_arith)
            requires
                0 <= wide,
                0 <= long,
        ;
    }
    assert(words(query@).skip(0) =~= words(query@));
    while index < terms.len()
        invariant
            views(terms@) == words(query@),
            index <= terms@.len() <= wide,
            bytes@ == encode_utf8(candidate@),
            long == length == bytes@.len(),
            file_name_start == name_start(bytes@),
            140_000 + 16_230 * wide + 13 * long + 8 * (wide * long) <= i64::MAX,
            0 <= used,
            used + total_length(words(query@).skip(index as int)) <= wide,
            -(8 * (index * long) + 260 * used) <= points <= 14_000 * index + 2_230 * used,
            terms_score(words(query@), bytes@) == plus(
                points as int,
                terms_score(words(query@).skip(index as int), bytes@),
            ),
        decreases terms@.len() - index,
    {
        let term = terms[index].as_str();
        let ghost rest = words(query@).skip(index as int);
        proof {
            assert(views(terms@)[index as int] == term@);
            assert(rest[0] == term@);
            assert(rest.drop_first() =~= words(query@).skip(index + 1));
            lemma_total_length(rest.drop_first());
            assert((index + 1) * long == index * long + long) by (nonlinear_arith);
            assert((index + 1) * long <= wide * long) by (nonlinear_arith)
                requires
                    index + 1 <= wide,
                    0 <= long,
            ;
        }
        match find_bytes(bytes, term.as_bytes(), 0) {
            Some(at) => {
                proof {
                    lemma_first_occurrence(bytes@, encode_utf8(term@), 0);
                }
                let mut gained: i64 = 9_000;
                if at >= file_name_start {
                    gained += 3_000;
                }
                if boundary(bytes, at) {
                    gained += 1_500;
                }
                points += gained - (at as i64) * 4 + 500;
            },
            None => {
                match quick_open_fuzzy_term_score(term, candidate, file_name_start) {
                    Some(gained) => {
                        points += gained + 500;
                    },
                    None => {
                        return None;
                    },
                }
            },
        }
        proof {
            used = used + term@.len();
        }
        index += 1;
    }
    proof {
        assert(index * long <= wide * long) by (nonlinear_arith)
            requires
                index <= wide,
                0 <= long,
        ;
        lemma_total_length(words(query@).skip(index as int));
    }
    Some(points)
}

// ---------------------------------------------------------------------------
// The order of the terms
// ---------------------------------------------------------------------------
/// The points of the terms do not depend on where one of them stands.
proof fn lemma_term_taken_out(terms: Seq<Seq<char>>, candidate: Seq<u8>, at: int)
    requires
        0 <= at < terms.len(),
    ensures
        terms_score(terms, candidate) == match term_score(terms[at], candidate) {
            None => None,
            Some(points) => plus(points + 500, terms_score(terms.remove(at), candidate)),
        },
    decreases at,
{
    let others = terms.remove(at);
    if at == 0 {
        assert(others =~= terms.drop_first());
    } else {
        lemma_term_taken_out(terms.drop_first(), candidate, at - 1);
        assert(others.drop_first() =~= terms.drop_first().remove(at - 1));
        assert(others[0] == terms[0]);
    }
}

/// Terms give the same points in every order.
proof fn lemma_terms_in_any_order(one: Seq<Seq<char>>, other: Seq<Seq<char>>, candidate: Seq<u8>)
    requires
        one.to_multiset() == other.to_multiset(),
    ensures
        terms_score(one, candidate) == terms_score(other, candidate),
    decreases one.len(),
{
    one.to_multiset_ensures();
    other.to_multiset_ensures();
    assert(one.len() == other.len());
    if one.len() > 0 {
        assert(one.contains(one[0]));
        assert(one.to_multiset().contains(one[0]));
        assert(other.contains(one[0]));
        let at = choose|at: int| 0 <= at < other.len() && other[at] == one[0];
        lemma_term_taken_out(other, candidate, at);
        assert(one.remove(0) =~= one.drop_first());
        lemma_terms_in_any_order(one.drop_first(), other.remove(at), candidate);
    }
}

/// The order of the terms of a query does not matter: two queries with the same
/// terms give a candidate that holds neither of them as it stands the same score.
pub proof fn law_term_order(one: Seq<char>, other: Seq<char>, candidate: Seq<char>)
    requires
        one.len() > 0,
        other.len() > 0,
        words(one).to_multiset() == words(other).to_multiset(),
        !occurs_in(encode_utf8(candidate), encode_utf8(one)),
        !occurs_in(encode_utf8(candidate), encode_utf8(other)),
    ensures
        score(one, candidate) == score(other, candidate),
{
    lemma_scored_by_terms(one, candidate);
    lemma_scored_by_terms(other, candidate);
    lemma_terms_in_any_order(words(one), words(other), encode_utf8(candidate));
}

/// What holds the query nowhere is scored by the query's terms.
proof fn lemma_scored_by_terms(query: Seq<char>, candidate: Seq<char>)
    requires
        query.len() > 0,
        !occurs_in(encode_utf8(candidate), encode_utf8(query)),
    ensures
        score(query, candidate) == plus(
            30_000 - encode_utf8(candidate).len(),
            terms_score(words(query), encode_utf8(candidate)),
        ),
{
    let text = encode_utf8(candidate);
    let wanted = encode_utf8(query);
    let start = name_start(text);
    let name = text.skip(start);
    lemma_name_start(text);
    lemma_first_occurrence(text, wanted, 0);
    if wanted.is_prefix_of(text) {
        assert(occurs_at(text, wanted, 0));
    }
    if wanted.is_prefix_of(name) {
        assert(text.subrange(start, start + wanted.len()) =~= name.subrange(0, wanted.len() as int));
        assert(occurs_at(text, wanted, start));
    }
    if name == wanted {
        assert(name.subrange(0, wanted.len() as int) =~= name);
    }
    if text == wanted {
        assert(text.subrange(0, wanted.len() as int) =~= text);
    }
}

// ---------------------------------------------------------------------------
// What matches
// ---------------------------------------------------------------------------
/// What is written behind another text is encoded behind it.
pub proof fn lemma_encoded_behind(front: Seq<char>, back: Seq<char>)
    ensures
        encode_utf8(front + back) == encode_utf8(front) + encode_utf8(back),
    decreases front.len(),
{
    if front.len() == 0 {
        assert(front + back =~= back);
    } else {
        lemma_encoded_behind(front.drop_first(), back);
        assert((front + back).drop_first() =~= front.drop_first() + back);
    }
    assert(encode_utf8(front + back) =~= encode_utf8(front) + encode_utf8(back));
}

/// A part of a text is encoded where what stands before it ends.
proof fn lemma_encoded_part(text: Seq<char>, from: int, to: int)
    requires
        0 <= from <= to <= text.len(),
    ensures
        occurs_at(
            encode_utf8(text),
            encode_utf8(text.subrange(from, to)),
            encode_utf8(text.take(from)).len() as int,
        ),
{
    let (front, part, back) = (text.take(from), text.subrange(from, to), text.skip(to));
    assert(text =~= front + (part + back));
    lemma_encoded_behind(front, part + back);
    lemma_encoded_behind(part, back);
    let at = encode_utf8(front).len() as int;
    assert(encode_utf8(text).subrange(at, at + encode_utf8(part).len()) =~= encode_utf8(part));
}

/// What stands in a part stands in the whole.
proof fn lemma_occurs_deeper(text: Seq<u8>, part: Seq<u8>, inner: Seq<u8>, at: int, within: int)
    requires
        occurs_at(text, part, at),
        occurs_at(part, inner, within),
    ensures
        occurs_at(text, inner, at + within),
{
    assert(text.subrange(at + within, at + within + inner.len()) =~= part.subrange(
        within,
        within + inner.len(),
    ));
}

/// The characters of a text that stands in the candidate as it is stand there one
/// behind the other.
proof fn lemma_whole_is_spread(term: Seq<char>, candidate: Seq<u8>, at: int)
    requires
        occurs_at(candidate, encode_utf8(term), at),
    ensures
        is_spread(term, candidate),
{
    let places = Seq::new(term.len(), |i: int| at + encode_utf8(term.take(i)).len());
    assert forall|i: int| 0 <= i < term.len() implies occurs_at(
        candidate,
        character_bytes(term[i]),
        #[trigger] places[i],
    ) && places[i] >= (if i == 0 {
        0
    } else {
        places[i - 1] + character_bytes(term[i - 1]).len()
    }) by {
        lemma_encoded_part(term, i, i + 1);
        assert(term.subrange(i, i + 1) =~= seq![term[i]]);
        lemma_occurs_deeper(
            candidate,
            encode_utf8(term),
            character_bytes(term[i]),
            at,
            encode_utf8(term.take(i)).len() as int,
        );
        if i > 0 {
            lemma_encoded_behind(term.take(i - 1), seq![term[i - 1]]);
            assert(term.take(i) =~= term.take(i - 1) + seq![term[i - 1]]);
        }
    }
    assert(stands_at(term, candidate, places, 0));
}

/// A word stands in its text.
proof fn lemma_word_in_text(text: Seq<char>, i: int)
    requires
        0 <= i < words(text).len(),
    ensures
        exists|at: int| #[trigger] occurs_at(text, words(text)[i], at),
    decreases text.len(),
{
    let rest = trim_start(text);
    lemma_trim_start_len(text);
    lemma_trim_start_head(text);
    lemma_trimmed_tail(text);
    lemma_word_end(rest);
    lemma_word_end(rest.drop_first());
    let end = word_end(rest);
    let gone = text.len() - rest.len();
    if i == 0 {
        assert(text.subrange(gone, gone + end) =~= rest.take(end));
        assert(occurs_at(text, words(text)[0], gone));
    } else {
        let behind = rest.skip(end);
        assert(words(text)[i] == words(behind)[i - 1]);
        lemma_word_in_text(behind, i - 1);
        let at = choose|at: int| #[trigger] occurs_at(behind, words(behind)[i - 1], at);
        let word = words(text)[i];
        assert(text.subrange(gone + end + at, gone + end + at + word.len()) =~= behind.subrange(
            at,
            at + word.len(),
        ));
        assert(occurs_at(text, word, gone + end + at));
    }
}

/// What is left without the white space at the start is the end of the text.
proof fn lemma_trimmed_tail(text: Seq<char>)
    ensures
        trim_start(text).len() <= text.len(),
        trim_start(text) == text.skip(text.len() - trim_start(text).len()),
    decreases text.len(),
{
    if text.len() > 0 && is_space(text[0]) {
        lemma_trimmed_tail(text.drop_first());
        let gone = text.len() - trim_start(text).len();
        assert(text.skip(gone) =~= text.drop_first().skip(gone - 1));
    } else {
        assert(text.skip(0) =~= text);
    }
}

/// A term matches exactly where its characters stand in the candidate, one behind
/// the other.
proof fn lemma_term_matches(term: Seq<char>, candidate: Seq<u8>)
    ensures
        term_score(term, candidate) is Some <==> is_spread(term, candidate),
{
    lemma_first_occurrence(candidate, encode_utf8(term), 0);
    match first_occurrence(candidate, encode_utf8(term), 0) {
        Some(at) => lemma_whole_is_spread(term, candidate, at),
        None => lemma_spread(term, candidate, name_start(candidate), 0, true),
    }
}

proof fn lemma_all_terms_match(terms: Seq<Seq<char>>, candidate: Seq<u8>)
    ensures
        terms_score(terms, candidate) is Some <==> forall|i: int|
            0 <= i < terms.len() ==> is_spread(#[trigger] terms[i], candidate),
    decreases terms.len(),
{
    if terms.len() > 0 {
        let rest = terms.drop_first();
        lemma_term_matches(terms[0], candidate);
        lemma_all_terms_match(rest, candidate);
        if terms_score(terms, candidate) is Some {
            assert forall|i: int| 0 <= i < terms.len() implies is_spread(
                #[trigger] terms[i],
                candidate,
            ) by {
                if i > 0 {
                    assert(terms[i] == rest[i - 1]);
                }
            }
        } else if is_spread(terms[0], candidate) {
            let i = choose|i: int| 0 <= i < rest.len() && !is_spread(#[trigger] rest[i], candidate);
            assert(terms[i + 1] == rest[i]);
        }
    }
}

/// A candidate matches exactly where, for each word of the query, the characters of
/// the word stand in the candidate one behind the other. An empty query matches
/// everything.
pub proof fn law_what_matches(query: Seq<char>, candidate: Seq<char>)
    ensures
        score(query, candidate) is Some <==> query.len() == 0 || forall|i: int|
            0 <= i < words(query).len() ==> is_spread(
                #[trigger] words(query)[i],
                encode_utf8(candidate),
            ),
{
    let text = encode_utf8(candidate);
    let wanted = encode_utf8(query);
    if query.len() > 0 {
        if occurs_in(text, wanted) {
            let at = choose|at: int| #[trigger] occurs_at(text, wanted, at);
            lemma_first_occurrence(text, wanted, 0);
            assert forall|i: int| 0 <= i < words(query).len() implies is_spread(
                #[trigger] words(query)[i],
                text,
            ) by {
                let word = words(query)[i];
                lemma_word_in_text(query, i);
                let within = choose|within: int| #[trigger] occurs_at(query, word, within);
                lemma_encoded_part(query, within, within + word.len());
                let inside = encode_utf8(query.take(within)).len() as int;
                lemma_occurs_deeper(text, wanted, encode_utf8(word), at, inside);
                lemma_whole_is_spread(word, text, at + inside);
            }
        } else {
            lemma_scored_by_terms(query, candidate);
            lemma_all_terms_match(words(query), text);
        }
    }
}

/// `places` are the places of the characters of `word` in `text`, from left to right.
pub open spec fn reads(text: Seq<char>, word: Seq<char>, places: Seq<int>) -> bool {
    &&& places.len() == word.len()
    &&& forall|i: int|
        0 <= i < word.len() ==> 0 <= (#[trigger] places[i]) < text.len() && text[places[i]] == word[i]
    &&& forall|i: int, j: int|
        0 <= i < j < word.len() ==> (#[trigger] places[i]) < (#[trigger] places[j])
}

/// A candidate is found by letters of it: where each word of the query can be read
/// in the candidate from left to right, leaving out whatever stands between, the
/// candidate matches.
pub proof fn law_found_by_letters(query: Seq<char>, candidate: Seq<char>)
    requires
        forall|i: int|
            0 <= i < words(query).len() ==> exists|places: Seq<int>|
                reads(candidate, #[trigger] words(query)[i], places),
    ensures
        score(query, candidate) is Some,
{
    law_what_matches(query, candidate);
    let text = encode_utf8(candidate);
    assert forall|i: int| 0 <= i < words(query).len() implies is_spread(
        #[trigger] words(query)[i],
        text,
    ) by {
        let word = words(query)[i];
        let places = choose|places: Seq<int>| reads(candidate, word, places);
        let bytes = Seq::new(word.len(), |k: int| encode_utf8(candidate.take(places[k])).len() as int);
        assert forall|k: int| 0 <= k < word.len() implies occurs_at(
            text,
            character_bytes(word[k]),
            #[trigger] bytes[k],
        ) && bytes[k] >= (if k == 0 {
            0
        } else {
            bytes[k - 1] + character_bytes(word[k - 1]).len()
        }) by {
            let place = places[k];
            lemma_encoded_part(candidate, place, place + 1);
            assert(candidate.subrange(place, place + 1) =~= seq![word[k]]);
            if k > 0 {
                let before = places[k - 1];
                assert(places[k - 1] < places[k]);
                let head = candidate.take(place);
                lemma_encoded_part(head, before, before + 1);
                assert(head.take(before) =~= candidate.take(before));
                assert(head.subrange(before, before + 1) =~= seq![word[k - 1]]);
            }
        }
        assert(stands_at(word, text, bytes, 0));
    }
}

/// Each term counts for itself: the points of terms one after the other are those
/// of the first ones and those of the others together, and nothing where either
/// does not match.
pub proof fn law_terms_add_up(front: Seq<Seq<char>>, back: Seq<Seq<char>>, candidate: Seq<u8>)
    ensures
        terms_score(front + back, candidate) == match (
            terms_score(front, candidate),
            terms_score(back, candidate),
        ) {
            (Some(first), Some(second)) => Some(first + second),
            _ => None,
        },
    decreases front.len(),
{
    if front.len() == 0 {
        assert(front + back =~= back);
    } else {
        law_terms_add_up(front.drop_first(), back, candidate);
        assert((front + back).drop_first() =~= front.drop_first() + back);
        assert((front + back)[0] == front[0]);
    }
}

/// The sum of numbers.
pub open spec fn total(numbers: Seq<int>) -> int
    decreases numbers.len(),
{
    if numbers.len() == 0 {
        0
    } else {
        numbers[0] + total(numbers.drop_first())
    }
}

/// The byte is `/`, `_`, `-`, `.` or a space.
pub open spec fn separates(byte: u8) -> bool {
    byte == 0x2f || byte == 0x5f || byte == 0x2d || byte == 0x2e || byte == 0x20
}

/// What the `i`-th character of a term earns by where it and the one before it
/// stand.
pub open spec fn earned(
    term: Seq<char>,
    candidate: Seq<u8>,
    start: int,
    places: Seq<int>,
    i: int,
) -> int {
    let gap = places[i] - (places[i - 1] + character_bytes(term[i - 1]).len());
    let beside = if i == 0 {
        0
    } else if gap == 0 {
        850
    } else if gap < 80 {
        -12 * gap
    } else {
        -960int
    };
    let begins = places[i] == 0 || separates(candidate[places[i] - 1]);
    700 + beside + (if begins {
        500int
    } else {
        0
    }) + (if places[i] >= start {
        180int
    } else {
        0
    })
}

/// A term that is spread over a candidate is read at the earliest places, and each
/// of its characters earns its points by its place and the one before, however
/// long the term is; what stands before the first is taken off.
pub proof fn law_spread_points(term: Seq<char>, candidate: Seq<u8>, start: int) -> (places: Seq<int>)
    requires
        is_spread(term, candidate),
    ensures
        stands_at(term, candidate, places, 0),
        forall|other: Seq<int>, i: int|
            #[trigger] stands_at(term, candidate, other, 0) && 0 <= i < term.len()
                ==> (#[trigger] places[i]) <= other[i],
        fuzzy_term_score(term, candidate, start) == Some(
            total(Seq::new(term.len(), |i: int| earned(term, candidate, start, places, i))) - (
            if term.len() == 0 {
                0
            } else {
                8 * places[0]
            }),
        ),
{
    lemma_spread(term, candidate, start, 0, true);
    let places = lemma_earliest(term, candidate, start, 0, true);
    let earns = Seq::new(term.len(), |i: int| earned(term, candidate, start, places, i));
    let own = Seq::new(
        term.len(),
        |i: int| earned_from(term, candidate, start, places, 0, true, i),
    );
    assert forall|i: int| 0 <= i < term.len() implies #[trigger] own[i] == earns[i] by {
        lemma_same_earnings(term, candidate, start, places, i);
    }
    assert(own =~= earns);
    places
}

proof fn lemma_same_earnings(
    term: Seq<char>,
    candidate: Seq<u8>,
    start: int,
    places: Seq<int>,
    i: int,
)
    requires
        stands_at(term, candidate, places, 0),
        0 <= i < term.len(),
    ensures
        earned_from(term, candidate, start, places, 0, true, i) == earned(
            term,
            candidate,
            start,
            places,
            i,
        ),
{
    assert(occurs_at(candidate, character_bytes(term[i]), places[i]));
    if i > 0 {
        assert(occurs_at(candidate, character_bytes(term[i - 1]), places[i - 1]));
    }
}

/// What the `i`-th character earns where the term is read from `from` on.
spec fn earned_from(
    term: Seq<char>,
    candidate: Seq<u8>,
    start: int,
    places: Seq<int>,
    from: int,
    first: bool,
    i: int,
) -> int {
    fuzzy_character_points(
        candidate,
        start,
        places[i],
        if i == 0 {
            from
        } else {
            places[i - 1] + character_bytes(term[i - 1]).len()
        },
        first && i == 0,
    )
}

proof fn lemma_earliest(
    term: Seq<char>,
    candidate: Seq<u8>,
    start: int,
    from: int,
    first: bool,
) -> (places: Seq<int>)
    requires
        0 <= from,
        fuzzy_points(term, candidate, start, from, first) is Some,
    ensures
        stands_at(term, candidate, places, from),
        forall|other: Seq<int>, i: int|
            #[trigger] stands_at(term, candidate, other, from) && 0 <= i < term.len()
                ==> (#[trigger] places[i]) <= other[i],
        term.len() > 0 ==> Some(places[0]) == first_occurrence(
            candidate,
            character_bytes(term[0]),
            from,
        ),
        fuzzy_points(term, candidate, start, from, first) == Some(
            total(
                Seq::new(
                    term.len(),
                    |i: int| earned_from(term, candidate, start, places, from, first, i),
                ),
            ),
        ),
    decreases term.len(),
{
    if term.len() == 0 {
        Seq::empty()
    } else {
        let needle = character_bytes(term[0]);
        let rest = term.drop_first();
        lemma_first_occurrence(candidate, needle, from);
        let index = first_occurrence(candidate, needle, from)->0;
        let behind = index + needle.len();
        let later = lemma_earliest(rest, candidate, start, behind, false);
        let places = seq![index] + later;
        assert forall|i: int| 0 <= i < term.len() implies occurs_at(
            candidate,
            character_bytes(term[i]),
            #[trigger] places[i],
        ) && places[i] >= (if i == 0 {
            from
        } else {
            places[i - 1] + character_bytes(term[i - 1]).len()
        }) by {
            if i > 0 {
                assert(places[i] == later[i - 1]);
                assert(term[i] == rest[i - 1]);
                if i > 1 {
                    assert(places[i - 1] == later[i - 2]);
                    assert(term[i - 1] == rest[i - 2]);
                }
            }
        }
        assert forall|other: Seq<int>, i: int|
            #[trigger] stands_at(term, candidate, other, from) && 0 <= i < term.len() implies (
        #[trigger] places[i]) <= other[i] by {
            assert(occurs_at(candidate, needle, other[0]));
            assert(index <= other[0]);
            let shorter = other.drop_first();
            assert forall|k: int| 0 <= k < rest.len() implies occurs_at(
                candidate,
                character_bytes(rest[k]),
                #[trigger] shorter[k],
            ) && shorter[k] >= (if k == 0 {
                behind
            } else {
                shorter[k - 1] + character_bytes(rest[k - 1]).len()
            }) by {
                assert(shorter[k] == other[k + 1]);
                assert(rest[k] == term[k + 1]);
                assert(other[k] + character_bytes(term[k]).len() <= other[k + 1]);
                if k > 0 {
                    assert(shorter[k - 1] == other[k]);
                    assert(rest[k - 1] == term[k]);
                }
            }
            assert(stands_at(rest, candidate, shorter, behind));
            if i > 0 {
                assert(places[i] == later[i - 1]);
                assert(later[i - 1] <= shorter[i - 1]);
            }
        }
        let all = Seq::new(
            term.len(),
            |i: int| earned_from(term, candidate, start, places, from, first, i),
        );
        let fewer = Seq::new(
            rest.len(),
            |i: int| earned_from(rest, candidate, start, later, behind, false, i),
        );
        assert forall|i: int| 0 <= i < rest.len() implies all[i + 1] == fewer[i] by {
            assert(places[i + 1] == later[i]);
            if i > 0 {
                assert(places[i] == later[i - 1]);
                assert(term[i] == rest[i - 1]);
            }
        }
        assert(all.drop_first() =~= fewer);
        places
    }
}

/// The better a candidate holds the query, the higher it stands: the query itself
/// before a file name that is the query, that before a file name that begins with
/// it, that before a path that begins with it, and that before a path that holds it
/// anywhere else, for candidates of up to a thousand bytes.
pub proof fn law_better_match_first(query: Seq<char>, better: Seq<char>, worse: Seq<char>)
    requires
        query.len() > 0,
        encode_utf8(better).len() <= 1_000,
        encode_utf8(worse).len() <= 1_000,
        closeness(query, worse) < closeness(query, better) <= 5,
        closeness(query, worse) >= 1,
    ensures
        score(query, better) is Some,
        score(query, worse) is Some,
        score(query, worse)->0 < score(query, better)->0,
{
    lemma_name_start(encode_utf8(better));
    lemma_name_start(encode_utf8(worse));
    lemma_first_occurrence(encode_utf8(better), encode_utf8(query), 0);
    lemma_first_occurrence(encode_utf8(worse), encode_utf8(query), 0);
}

/// How closely a candidate holds a query: as a whole, as its file name, at the start
/// of that, at the start of the path, anywhere, or not as it stands.
pub open spec fn closeness(query: Seq<char>, candidate: Seq<char>) -> int {
    let (text, wanted) = (encode_utf8(candidate), encode_utf8(query));
    let name = text.skip(name_start(text));
    if text == wanted {
        5
    } else if name == wanted {
        4
    } else if wanted.is_prefix_of(name) {
        3
    } else if wanted.is_prefix_of(text) {
        2
    } else if occurs_in(text, wanted) {
        1
    } else {
        0
    }
}

/// The file name is what follows the last `/` of a path.
pub proof fn law_file_name(candidate: Seq<u8>)
    ensures
        0 <= name_start(candidate) <= candidate.len(),
        forall|i: int| name_start(candidate) <= i < candidate.len() ==> (#[trigger] candidate[i]) != 47,
        name_start(candidate) > 0 ==> candidate[name_start(candidate) - 1] == 47,
    decreases candidate.len(),
{
    if candidate.len() > 0 && candidate.last() != 47 {
        law_file_name(candidate.drop_last());
        assert forall|i: int| name_start(candidate) <= i < candidate.len() implies (
        #[trigger] candidate[i]) != 47 by {
            if i < candidate.len() - 1 {
                assert(candidate.drop_last()[i] == candidate[i]);
            }
        }
    }
}

} // verus!
