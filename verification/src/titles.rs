//! What the title of a terminal says about the program that runs in it.
use vstd::prelude::*;
use vstd::string::*;

use crate::model::AgentKind;
use crate::text::{
    alphanumeric, characters, chars_occur_at, is_alphanumeric, is_space, join2, lower, lowercase,
    lowered, occurs_at, occurs_in, same_characters, space, starts_with, string_of, trim_start,
};

verus! {

/// The animation frames in front of a title while Codex works.
pub open spec fn is_activity_frame(c: char) -> bool {
    c == '⠋' || c == '⠙' || c == '⠹' || c == '⠸' || c == '⠼' || c == '⠴' || c == '⠦' || c == '⠧' || c == '⠇'
        || c == '⠏'
}

/// `word` stands in `text` at `at`, between characters that are no letters or digits.
pub open spec fn word_at(text: Seq<char>, word: Seq<char>, at: int) -> bool {
    &&& occurs_at(text, word, at)
    &&& at == 0 || !is_alphanumeric(text[at - 1])
    &&& at + word.len() == text.len() || !is_alphanumeric(text[at + word.len()])
}

pub open spec fn has_word(text: Seq<char>, word: Seq<char>) -> bool {
    exists|at: int| #[trigger] word_at(text, word, at)
}

/// `text` from its first letter or digit on.
pub open spec fn leading_name(text: Seq<char>) -> Seq<char>
    decreases text.len(),
{
    if text.len() > 0 && !is_alphanumeric(text[0]) {
        leading_name(text.drop_first())
    } else {
        text
    }
}

/// The number of letters and digits that `text` begins with.
pub open spec fn name_length(text: Seq<char>) -> int
    decreases text.len(),
{
    if text.len() > 0 && is_alphanumeric(text[0]) {
        1 + name_length(text.drop_first())
    } else {
        0
    }
}

/// The title shows that Codex is at work or waits for an answer.
pub open spec fn is_codex_activity(title: Seq<char>) -> bool {
    ||| trim_start(title).len() > 0 && is_activity_frame(trim_start(title)[0])
    ||| "[ ! ] action required"@.is_prefix_of(lowered(title))
    ||| "[ . ] action required"@.is_prefix_of(lowered(title))
}

/// The agent that a terminal title names, if it names one.
pub open spec fn agent_of_title(title: Seq<char>, claude: Seq<char>) -> Option<AgentKind> {
    let normalized = lowered(title);
    let leading = leading_name(normalized);
    let application = leading.take(name_length(leading));
    if has_word(normalized, "codex"@) || is_codex_activity(title) {
        Some(AgentKind::Codex)
    } else if (claude + " code"@).is_prefix_of(leading) {
        Some(AgentKind::Claude)
    } else if application == "opencode"@ {
        Some(AgentKind::OpenCode)
    } else if application == "antigravity"@ || application == "agy"@ {
        Some(AgentKind::Antigravity)
    } else if has_word(normalized, "gemini"@) {
        Some(AgentKind::Gemini)
    } else {
        None
    }
}

fn activity_frame(c: char) -> (result: bool)
    ensures
        result == is_activity_frame(c),
{
    c == '⠋' || c == '⠙' || c == '⠹' || c == '⠸' || c == '⠼' || c == '⠴' || c == '⠦' || c == '⠧' || c == '⠇'
        || c == '⠏'
}

fn contains_word(text: &[char], word: &str) -> (result: bool)
    ensures
        result == has_word(text@, word@),
{
    let wanted = characters(word);
    let length: usize = text.len();
    let width: usize = wanted.len();
    if width > length {
        return false;
    }
    let mut at: usize = 0;
    while at <= length - width
        invariant
            wanted@ == word@,
            length == text@.len(),
            width == word@.len(),
            width <= length,
            at <= length - width + 1,
            forall|i: int| 0 <= i < at ==> !word_at(text@, word@, i),
        decreases length + 1 - at,
    {
        if chars_occur_at(text, &wanted, at) && (at == 0 || !alphanumeric(text[at - 1])) && (at
            == length - width || !alphanumeric(text[at + width])) {
            assert(word_at(text@, word@, at as int));
            return true;
        }
        if at == length - width {
            return false;
        }
        at += 1;
    }
    false
}

fn find_leading_name(text: &[char]) -> (result: usize)
    ensures
        result <= text@.len(),
        text@.skip(result as int) == leading_name(text@),
{
    let mut index: usize = 0;
    assert(text@.skip(0) =~= text@);
    while index < text.len() && !alphanumeric(text[index])
        invariant
            index <= text@.len(),
            leading_name(text@) == leading_name(text@.skip(index as int)),
        decreases text@.len() - index,
    {
        assert(text@.skip(index as int).drop_first() =~= text@.skip(index + 1));
        index += 1;
    }
    index
}

fn find_name_end(text: &[char], from: usize) -> (result: usize)
    requires
        from <= text@.len(),
    ensures
        from <= result <= text@.len(),
        result - from == name_length(text@.skip(from as int)),
{
    let mut index: usize = from;
    while index < text.len() && alphanumeric(text[index])
        invariant
            from <= index <= text@.len(),
            name_length(text@.skip(from as int)) == index - from + name_length(
                text@.skip(index as int),
            ),
        decreases text@.len() - index,
    {
        assert(text@.skip(index as int).drop_first() =~= text@.skip(index + 1));
        index += 1;
    }
    index
}

fn shows_activity_frame(title: &[char]) -> (result: bool)
    ensures
        result == (trim_start(title@).len() > 0 && is_activity_frame(trim_start(title@)[0])),
{
    let mut index: usize = 0;
    assert(title@.skip(0) =~= title@);
    while index < title.len() && space(title[index])
        invariant
            index <= title@.len(),
            trim_start(title@) == trim_start(title@.skip(index as int)),
        decreases title@.len() - index,
    {
        assert(title@.skip(index as int).drop_first() =~= title@.skip(index + 1));
        index += 1;
    }
    index < title.len() && activity_frame(title[index])
}

/// Whether the characters `source[from..to]` spell `word`.
fn spells(source: &[char], from: usize, to: usize, word: &str) -> (result: bool)
    requires
        from <= to <= source@.len(),
    ensures
        result == (source@.subrange(from as int, to as int) == word@),
{
    let part = characters(string_of(source, from, to).as_str());
    let wanted = characters(word);
    same_characters(&part, &wanted)
}

/// The agent that a terminal title names, if it names one.
pub fn agent_from_terminal_title(title: &str, claude: &str) -> (result: Option<AgentKind>)
    ensures
        result == agent_of_title(title@, claude@),
{
    let source = characters(title);
    let normalized = characters(lowercase(title).as_str());
    if contains_word(&normalized, "codex") || shows_activity_frame(&source) || starts_with(
        &normalized,
        "[ ! ] action required",
    ) || starts_with(&normalized, "[ . ] action required") {
        return Some(AgentKind::Codex);
    }
    let start: usize = find_leading_name(&normalized);
    let leading = characters(string_of(&normalized, start, normalized.len()).as_str());
    assert(leading@ =~= leading_name(normalized@));
    if starts_with(&leading, join2(claude, " code").as_str()) {
        return Some(AgentKind::Claude);
    }
    let end: usize = find_name_end(&leading, 0);
    assert(leading@.skip(0) =~= leading@);
    assert(leading@.subrange(0, end as int) =~= leading@.take(name_length(leading@)));
    if spells(&leading, 0, end, "opencode") {
        return Some(AgentKind::OpenCode);
    }
    if spells(&leading, 0, end, "antigravity") || spells(&leading, 0, end, "agy") {
        return Some(AgentKind::Antigravity);
    }
    if contains_word(&normalized, "gemini") {
        return Some(AgentKind::Gemini);
    }
    None
}

/// The longest title a terminal is shown under, in characters.
pub const TITLE_LIMIT: usize = 72;

/// The first characters of a title, as many as are shown.
pub open spec fn shown_title(title: Seq<char>) -> Seq<char> {
    if title.len() <= TITLE_LIMIT {
        title
    } else {
        title.take(TITLE_LIMIT as int)
    }
}

/// The title that a terminal is shown under.
pub fn display_title(title: &str) -> (result: String)
    ensures
        result@ == shown_title(title@),
{
    let source = characters(title);
    let end: usize = if source.len() <= TITLE_LIMIT {
        source.len()
    } else {
        TITLE_LIMIT
    };
    let result = string_of(&source, 0, end);
    assert(source@.subrange(0, end as int) =~= shown_title(title@));
    result
}

/// White space at the start does not depend on the case of what follows.
proof fn lemma_trimmed_in_lower_case(title: Seq<char>)
    ensures
        trim_start(lowered(title)) == lowered(trim_start(title)),
    decreases title.len(),
{
    if title.len() > 0 {
        assert(lowered(title)[0] == lower(title[0]));
        assert(is_space(lower(title[0])) == is_space(title[0]));
        if is_space(title[0]) {
            lemma_trimmed_in_lower_case(title.drop_first());
            assert(lowered(title).drop_first() =~= lowered(title.drop_first()));
        }
    }
}

/// The case of ASCII letters in a title does not matter: titles that are alike in
/// lower case name the same agent, or none.
pub proof fn law_title_case(one: Seq<char>, other: Seq<char>, claude: Seq<char>)
    requires
        lowered(one) == lowered(other),
    ensures
        agent_of_title(one, claude) == agent_of_title(other, claude),
{
    lemma_trimmed_in_lower_case(one);
    lemma_trimmed_in_lower_case(other);
    let (left, right) = (trim_start(one), trim_start(other));
    assert(lowered(left).len() == left.len() && lowered(right).len() == right.len());
    if left.len() > 0 {
        assert(lowered(left)[0] == lower(left[0]));
        assert(lowered(right)[0] == lower(right[0]));
        assert(is_activity_frame(left[0]) == is_activity_frame(lower(left[0])));
        assert(is_activity_frame(right[0]) == is_activity_frame(lower(right[0])));
    }
}

/// A title that holds the name of Codex as a word of its own is one of Codex.
pub proof fn law_codex_named(title: Seq<char>, front: Seq<char>, back: Seq<char>, claude: Seq<char>)
    requires
        lowered(title) == front + "codex"@ + back,
        front.len() > 0 ==> !is_alphanumeric(front.last()),
        back.len() > 0 ==> !is_alphanumeric(back[0]),
    ensures
        agent_of_title(title, claude) == Some(AgentKind::Codex),
{
    let text = lowered(title);
    let at = front.len() as int;
    assert(text.subrange(at, at + "codex"@.len()) =~= "codex"@);
    if back.len() > 0 {
        assert(text[at + "codex"@.len()] == back[0]);
    }
    assert(word_at(text, "codex"@, at));
}

/// So is a title in front of which its work is animated.
pub proof fn law_codex_at_work(title: Seq<char>, claude: Seq<char>)
    requires
        title.len() > 0,
        is_activity_frame(title[0]),
    ensures
        agent_of_title(title, claude) == Some(AgentKind::Codex),
{
}

/// The text from its first letter or digit on is an end of the text.
proof fn lemma_leading(text: Seq<char>)
    ensures
        leading_name(text).len() <= text.len(),
        leading_name(text) == text.skip(text.len() - leading_name(text).len()),
        leading_name(text).len() > 0 ==> is_alphanumeric(leading_name(text)[0]),
    decreases text.len(),
{
    if text.len() > 0 && !is_alphanumeric(text[0]) {
        lemma_leading(text.drop_first());
        let rest = leading_name(text.drop_first());
        assert(text.drop_first().skip(text.drop_first().len() - rest.len()) =~= text.skip(
            text.len() - rest.len(),
        ));
    } else {
        assert(text.skip(0) =~= text);
    }
}

proof fn lemma_name_length(text: Seq<char>)
    ensures
        0 <= name_length(text) <= text.len(),
    decreases text.len(),
{
    if text.len() > 0 && is_alphanumeric(text[0]) {
        lemma_name_length(text.drop_first());
    }
}

/// A terminal is taken for one of an agent only where its title holds the name of the
/// agent, but for the marks of Codex; the names of some count only in front.
pub proof fn law_agent_is_named(title: Seq<char>, claude: Seq<char>)
    ensures
        match agent_of_title(title, claude) {
            Some(AgentKind::Codex) => occurs_in(lowered(title), "codex"@) || is_codex_activity(
                title,
            ),
            Some(AgentKind::Claude) => occurs_in(lowered(title), claude + " code"@),
            Some(AgentKind::OpenCode) => occurs_in(lowered(title), "opencode"@),
            Some(AgentKind::Antigravity) => occurs_in(lowered(title), "antigravity"@) || occurs_in(
                lowered(title),
                "agy"@,
            ),
            Some(AgentKind::Gemini) => occurs_in(lowered(title), "gemini"@),
            Some(AgentKind::Shell) => false,
            None => !has_word(lowered(title), "codex"@) && !has_word(lowered(title), "gemini"@),
        },
{
    let text = lowered(title);
    let leading = leading_name(text);
    lemma_leading(text);
    lemma_name_length(leading);
    let from = text.len() - leading.len();
    let application = leading.take(name_length(leading));
    assert(application =~= text.subrange(from, from + application.len()));
    assert(occurs_at(text, application, from));
    if (claude + " code"@).is_prefix_of(leading) {
        let start = claude + " code"@;
        assert(text.subrange(from, from + start.len()) =~= leading.subrange(
            0,
            start.len() as int,
        ));
        assert(occurs_at(text, start, from));
    }
    if has_word(text, "codex"@) {
        let at = choose|at: int| #[trigger] word_at(text, "codex"@, at);
        assert(occurs_at(text, "codex"@, at));
    }
    if has_word(text, "gemini"@) {
        let at = choose|at: int| #[trigger] word_at(text, "gemini"@, at);
        assert(occurs_at(text, "gemini"@, at));
    }
}

/// The title that is shown is the title, or its first seventy-two characters.
pub proof fn law_shown_title(title: Seq<char>)
    ensures
        shown_title(title).len() <= 72,
        shown_title(title).is_prefix_of(title),
        title.len() <= 72 ==> shown_title(title) == title,
        title.len() > 72 ==> shown_title(title).len() == 72,
{
    assert(title.subrange(0, title.len() as int) =~= title);
}

} // verus!
