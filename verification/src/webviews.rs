//! The pages that the window embeds: what they are made of, how they are told
//! things, and when they are visible.
use base64::engine::general_purpose::STANDARD;
use base64::Engine;

use vstd::prelude::*;
use vstd::string::*;

use crate::model::AppTheme;
use crate::text::{characters, join2, join3, occurs_at, occurs_in, string_of};

verus! {

// ---------------------------------------------------------------------------
// Placeholders
// ---------------------------------------------------------------------------
/// A text with every occurrence of a pattern replaced, from the left; occurrences
/// do not overlap, and what is put in is not looked at again.
pub open spec fn replaced(text: Seq<char>, pattern: Seq<char>, with: Seq<char>) -> Seq<char>
    decreases text.len(),
{
    if pattern.len() == 0 || text.len() < pattern.len() {
        text
    } else if occurs_at(text, pattern, 0) {
        with + replaced(text.skip(pattern.len() as int), pattern, with)
    } else {
        seq![text[0]] + replaced(text.skip(1), pattern, with)
    }
}

/// A text with every occurrence of a pattern replaced.
pub fn replace(text: &str, pattern: &str, with: &str) -> (result: String)
    ensures
        result@ == replaced(text@, pattern@, with@),
{
    let source = characters(text);
    let wanted = characters(pattern);
    let inserted = characters(with);
    if wanted.len() == 0 {
        return text.to_string();
    }
    let mut result: Vec<char> = Vec::new();
    let mut at: usize = 0;
    assert(text@.skip(0) =~= text@);
    assert(result@ + replaced(text@, pattern@, with@) =~= replaced(text@, pattern@, with@));
    while at < source.len() && wanted.len() <= source.len() - at
        invariant
            source@ == text@,
            wanted@ == pattern@,
            inserted@ == with@,
            wanted@.len() > 0,
            at <= source@.len(),
            result@ + replaced(text@.skip(at as int), pattern@, with@) == replaced(
                text@,
                pattern@,
                with@,
            ),
        decreases source@.len() - at,
    {
        let ghost rest = text@.skip(at as int);
        let ghost done = result@;
        let mut matched: usize = 0;
        while matched < wanted.len() && source[at + matched] == wanted[matched]
            invariant
                source@ == text@,
                wanted@ == pattern@,
                at + wanted@.len() <= source@.len() <= usize::MAX,
                matched <= wanted@.len(),
                forall|i: int| 0 <= i < matched ==> source@[at + i] == #[trigger] wanted@[i],
            decreases wanted@.len() - matched,
        {
            matched += 1;
        }
        if matched == wanted.len() {
            proof {
                assert(rest.subrange(0, pattern@.len() as int) =~= pattern@);
                assert(rest.skip(pattern@.len() as int) =~= text@.skip(
                    at + pattern@.len(),
                ));
            }
            let mut index: usize = 0;
            while index < inserted.len()
                invariant
                    inserted@ == with@,
                    index <= inserted@.len(),
                    result@ == done + with@.take(index as int),
                decreases inserted@.len() - index,
            {
                result.push(inserted[index]);
                index += 1;
                assert(result@ =~= done + with@.take(index as int));
            }
            at += wanted.len();
            proof {
                assert(with@.take(index as int) =~= with@);
                assert(done + (with@ + replaced(text@.skip(at as int), pattern@, with@))
                    =~= done + with@ + replaced(text@.skip(at as int), pattern@, with@));
            }
        } else {
            proof {
                assert(rest[matched as int] != pattern@[matched as int]);
                if occurs_at(rest, pattern@, 0) {
                    assert(rest.subrange(0, pattern@.len() as int)[matched as int]
                        == rest[matched as int]);
                }
                assert(rest.skip(1) =~= text@.skip(at + 1));
            }
            result.push(source[at]);
            at += 1;
            proof {
                assert(done + (seq![rest[0]] + replaced(text@.skip(at as int), pattern@, with@))
                    =~= result@ + replaced(text@.skip(at as int), pattern@, with@));
            }
        }
    }
    let ghost done = result@;
    let ghost rest = text@.skip(at as int);
    assert(replaced(rest, pattern@, with@) == rest);
    while at < source.len()
        invariant
            source@ == text@,
            at <= source@.len(),
            done.len() + rest.len() == result@.len() + (source@.len() - at),
            result@ + text@.skip(at as int) == done + rest,
        decreases source@.len() - at,
    {
        let ghost earlier = result@;
        result.push(source[at]);
        assert(earlier + text@.skip(at as int) =~= result@ + text@.skip(at + 1));
        at += 1;
    }
    assert(result@ + text@.skip(at as int) =~= result@);
    assert(result@.subrange(0, result@.len() as int) =~= result@);
    string_of(&result, 0, result.len())
}

/// A text without the pattern stays as it is.
pub proof fn law_nothing_to_replace(text: Seq<char>, pattern: Seq<char>, with: Seq<char>)
    requires
        !occurs_in(text, pattern),
    ensures
        replaced(text, pattern, with) == text,
    decreases text.len(),
{
    if pattern.len() > 0 && text.len() >= pattern.len() {
        assert(!occurs_at(text, pattern, 0));
        assert forall|at: int| !#[trigger] occurs_at(text.skip(1), pattern, at) by {
            if occurs_at(text.skip(1), pattern, at) {
                assert(text.subrange(at + 1, at + 1 + pattern.len()) =~= text.skip(1).subrange(
                    at,
                    at + pattern.len(),
                ));
                assert(occurs_at(text, pattern, at + 1));
            }
        }
        law_nothing_to_replace(text.skip(1), pattern, with);
        assert(seq![text[0]] + text.skip(1) =~= text);
    }
}

/// The page of the tree of projects.
pub open spec fn navigation_page(
    template: Seq<char>,
    avatar_styles: Seq<char>,
    styles: Seq<char>,
    bundle: Seq<char>,
) -> Seq<char> {
    replaced(
        replaced(
            replaced(template, "{{AGENT_AVATAR_STYLES}}"@, avatar_styles),
            "{{NAVIGATION_STYLES}}"@,
            styles,
        ),
        "{{NAVIGATION_REACT_BUNDLE}}"@,
        bundle,
    )
}

/// The page of the tree of projects.
pub fn navigation_html(template: &str, avatar_styles: &str, styles: &str, bundle: &str) -> (result:
    String)
    ensures
        result@ == navigation_page(template@, avatar_styles@, styles@, bundle@),
{
    let page = replace(template, "{{AGENT_AVATAR_STYLES}}", avatar_styles);
    let page = replace(page.as_str(), "{{NAVIGATION_STYLES}}", styles);
    replace(page.as_str(), "{{NAVIGATION_REACT_BUNDLE}}", bundle)
}

/// The page of the palette.
pub open spec fn quick_open_page(template: Seq<char>, styles: Seq<char>, bundle: Seq<char>) -> Seq<char> {
    replaced(
        replaced(template, "{{QUICK_OPEN_STYLES}}"@, styles),
        "{{QUICK_OPEN_REACT_BUNDLE}}"@,
        bundle,
    )
}

/// The page of the palette.
pub fn quick_open_html(template: &str, styles: &str, bundle: &str) -> (result: String)
    ensures
        result@ == quick_open_page(template@, styles@, bundle@),
{
    let page = replace(template, "{{QUICK_OPEN_STYLES}}", styles);
    replace(page.as_str(), "{{QUICK_OPEN_REACT_BUNDLE}}", bundle)
}

// ---------------------------------------------------------------------------
// Base64
// ---------------------------------------------------------------------------
/// The character that stands for six bits.
pub open spec fn base64_digit(bits: int) -> char {
    if bits < 26 {
        (65 + bits) as char
    } else if bits < 52 {
        (71 + bits) as char
    } else if bits < 62 {
        (bits - 4) as char
    } else if bits == 62 {
        '+'
    } else {
        '/'
    }
}

/// Bytes in base64, with the standard alphabet and padding.
pub open spec fn base64_text(bytes: Seq<u8>) -> Seq<char>
    decreases bytes.len(),
{
    if bytes.len() == 0 {
        Seq::empty()
    } else if bytes.len() == 1 {
        seq![base64_digit((bytes[0] / 4) as int), base64_digit(bytes[0] % 4 * 16), '=', '=']
    } else if bytes.len() == 2 {
        seq![
            base64_digit((bytes[0] / 4) as int),
            base64_digit(bytes[0] % 4 * 16 + bytes[1] / 16),
            base64_digit(bytes[1] % 16 * 4),
            '=',
        ]
    } else {
        seq![
            base64_digit((bytes[0] / 4) as int),
            base64_digit(bytes[0] % 4 * 16 + bytes[1] / 16),
            base64_digit(bytes[1] % 16 * 4 + bytes[2] / 64),
            base64_digit((bytes[2] % 64) as int),
        ] + base64_text(bytes.skip(3))
    }
}

/// The base64 text of so many bytes can be held.
pub open spec fn base64_fits(size: nat) -> bool {
    (size + 2) / 3 * 4 <= isize::MAX
}

/// Whether the base64 text of so many bytes can be held.
pub fn fits_base64(size: usize) -> (result: bool)
    ensures
        result == base64_fits(size as nat),
{
    let most: usize = isize::MAX as usize;
    size <= most / 4 * 3
}

/// Bytes in base64: `Engine::encode` of the crate `base64`, with its engine
/// `STANDARD`. The text is that of RFC 4648 with the alphabet `A-Z a-z 0-9 + /`,
/// padded with `=`.
#[verifier::external_body]
fn encode_base64(bytes: &Vec<u8>) -> (result: String)
    requires
        base64_fits(bytes@.len()),
    ensures
        result@ == base64_text(bytes@),
{
    STANDARD.encode(bytes)
}

/// What the page of the central surface is made of.
#[derive(Debug)]
pub struct ChatAssets {
    pub template: String,
    pub avatar_styles: String,
    pub chat_styles: String,
    pub workspace_styles: String,
    pub bundle_styles: String,
    pub bundle: String,
    pub editor_styles: String,
    pub editor: Vec<u8>,
    pub logo: Vec<u8>,
}

impl ChatAssets {
    /// The parts that are put in as base64 can be held.
    pub open spec fn fit(&self) -> bool {
        base64_fits(self.editor@.len()) && base64_fits(self.logo@.len())
    }

    /// Whether the parts that are put in as base64 can be held.
    pub fn can_encode(&self) -> (result: bool)
        ensures
            result == self.fit(),
    {
        fits_base64(self.editor.len()) && fits_base64(self.logo.len())
    }

    /// The page with its styles and its program.
    pub open spec fn styled(&self) -> Seq<char> {
        replaced(
            replaced(
                replaced(
                    replaced(
                        replaced(
                            replaced(
                                self.template@,
                                "{{AGENT_AVATAR_STYLES}}"@,
                                self.avatar_styles@,
                            ),
                            "{{CHAT_STYLES}}"@,
                            self.chat_styles@,
                        ),
                        "{{WORKSPACE_STYLES}}"@,
                        self.workspace_styles@,
                    ),
                    "{{CHAT_BUNDLE_STYLES}}"@,
                    self.bundle_styles@,
                ),
                "{{CHAT_REACT_BUNDLE}}"@,
                self.bundle@,
            ),
            "{{EDITOR_BUNDLE_STYLES}}"@,
            self.editor_styles@,
        )
    }

    /// The whole page.
    pub open spec fn page(&self) -> Seq<char> {
        replaced(
            replaced(self.styled(), "{{EDITOR_BUNDLE_BASE64}}"@, base64_text(self.editor@)),
            "{{APP_LOGO_DATA_URL}}"@,
            "data:image/png;base64,"@ + base64_text(self.logo@),
        )
    }
}

/// The page of the central surface.
pub fn chat_html(assets: &ChatAssets) -> (result: String)
    requires
        assets.fit(),
    ensures
        result@ == assets.page(),
{
    let page = replace(
        assets.template.as_str(),
        "{{AGENT_AVATAR_STYLES}}",
        assets.avatar_styles.as_str(),
    );
    let page = replace(page.as_str(), "{{CHAT_STYLES}}", assets.chat_styles.as_str());
    let page = replace(page.as_str(), "{{WORKSPACE_STYLES}}", assets.workspace_styles.as_str());
    let page = replace(page.as_str(), "{{CHAT_BUNDLE_STYLES}}", assets.bundle_styles.as_str());
    let page = replace(page.as_str(), "{{CHAT_REACT_BUNDLE}}", assets.bundle.as_str());
    let page = replace(page.as_str(), "{{EDITOR_BUNDLE_STYLES}}", assets.editor_styles.as_str());
    assert(page@ == assets.styled());
    let editor = encode_base64(&assets.editor);
    let page = replace(page.as_str(), "{{EDITOR_BUNDLE_BASE64}}", editor.as_str());
    let logo = join2("data:image/png;base64,", encode_base64(&assets.logo).as_str());
    replace(page.as_str(), "{{APP_LOGO_DATA_URL}}", logo.as_str())
}

// ---------------------------------------------------------------------------
// Messages
// ---------------------------------------------------------------------------
/// The script that hands an event to the page of the tree; `payload` is the event
/// as JSON.
pub fn navigation_script(payload: &str) -> (result: String)
    ensures
        result@ == "window.blackholesNavigation?.receive("@ + payload@ + ");"@,
{
    join3("window.blackholesNavigation?.receive(", payload, ");")
}

/// The script that hands an event to the page of the palette.
pub fn quick_open_script(payload: &str) -> (result: String)
    ensures
        result@ == "window.blackholesQuickOpen?.receive("@ + payload@ + ");"@,
{
    join3("window.blackholesQuickOpen?.receive(", payload, ");")
}

/// The script that hands an event to the page of the central surface.
pub fn workspace_script(payload: &str) -> (result: String)
    ensures
        result@ == "window.blackholesNative?.receive("@ + payload@ + ");"@,
{
    join3("window.blackholesNative?.receive(", payload, ");")
}

// ---------------------------------------------------------------------------
// Visibility and appearance
// ---------------------------------------------------------------------------
/// A change of what is visible.
#[derive(Clone, Copy, Debug, PartialEq, Eq, Structural)]
pub enum VisibilityChange {
    Show,
    Hide,
}

/// Whether a page is visible after a change.
pub open spec fn visible_after(visible: bool, change: Option<VisibilityChange>) -> bool {
    match change {
        Some(VisibilityChange::Show) => true,
        Some(VisibilityChange::Hide) => false,
        None => visible,
    }
}

/// The change that makes a page as visible as it is wanted: none where it is.
pub fn set_visible(visible: bool, wanted: bool) -> (result: Option<VisibilityChange>)
    ensures
        visible_after(visible, result) == wanted,
        result is Some <==> visible != wanted,
{
    if wanted && !visible {
        Some(VisibilityChange::Show)
    } else if !wanted && visible {
        Some(VisibilityChange::Hide)
    } else {
        None
    }
}

/// How the controls of the window look.
#[derive(Clone, Copy, Debug, PartialEq, Eq, Structural)]
pub enum ThemeMode {
    Light,
    Dark,
}

/// The appearances of AppKit.
#[derive(Clone, Copy, Debug, PartialEq, Eq, Structural)]
pub enum MacAppearance {
    Aqua,
    DarkAqua,
}

/// The appearance that a theme has on macOS, which only the main thread can set.
pub fn apply_macos_appearance(theme: AppTheme, main_thread: bool) -> (result: Option<MacAppearance>)
    ensures
        result == if !main_thread {
            None
        } else {
            Some(
                match theme {
                    AppTheme::Light => MacAppearance::Aqua,
                    AppTheme::Dark => MacAppearance::DarkAqua,
                },
            )
        },
{
    if !main_thread {
        return None;
    }
    match theme {
        AppTheme::Light => Some(MacAppearance::Aqua),
        AppTheme::Dark => Some(MacAppearance::DarkAqua),
    }
}

/// How the controls of the window look under a theme.
pub fn apply_native_theme(theme: AppTheme) -> (result: ThemeMode)
    ensures
        result == match theme {
            AppTheme::Light => ThemeMode::Light,
            AppTheme::Dark => ThemeMode::Dark,
        },
{
    match theme {
        AppTheme::Light => ThemeMode::Light,
        AppTheme::Dark => ThemeMode::Dark,
    }
}

/// The first occurrence of a placeholder gives way to what is put in, what stands
/// before it stays, and the same goes for what follows; what is put in is left alone.
pub proof fn law_placeholder_replaced(
    front: Seq<char>,
    pattern: Seq<char>,
    back: Seq<char>,
    with: Seq<char>,
)
    requires
        pattern.len() > 0,
        forall|at: int|
            0 <= at < front.len() ==> !#[trigger] occurs_at(front + pattern + back, pattern, at),
    ensures
        replaced(front + pattern + back, pattern, with) == front + with + replaced(
            back,
            pattern,
            with,
        ),
    decreases front.len(),
{
    let text = front + pattern + back;
    if front.len() == 0 {
        assert(text.subrange(0, pattern.len() as int) =~= pattern);
        assert(occurs_at(text, pattern, 0));
        assert(text.skip(pattern.len() as int) =~= back);
        assert(front + with =~= with);
    } else {
        let rest = front.skip(1);
        assert(!occurs_at(text, pattern, 0));
        assert(text.skip(1) =~= rest + pattern + back);
        assert forall|at: int| 0 <= at < rest.len() implies !#[trigger] occurs_at(
            rest + pattern + back,
            pattern,
            at,
        ) by {
            assert(text.subrange(at + 1, at + 1 + pattern.len()) =~= (rest + pattern
                + back).subrange(at, at + pattern.len()));
            assert(!occurs_at(text, pattern, at + 1));
        }
        law_placeholder_replaced(rest, pattern, back, with);
        assert(seq![text[0]] + (rest + with + replaced(back, pattern, with)) =~= front + with
            + replaced(back, pattern, with));
    }
}

/// The characters of base64 are the letters, the digits, `+` and `/`, each for its own
/// six bits.
pub proof fn law_base64_alphabet(a: int, b: int)
    requires
        0 <= a < 64,
        0 <= b < 64,
    ensures
        base64_digit(a) == base64_digit(b) ==> a == b,
        base64_digit(a) != '=',
        base64_digit(0) == 'A' && base64_digit(26) == 'a' && base64_digit(52) == '0'
            && base64_digit(62) == '+' && base64_digit(63) == '/',
        a + 1 < 26 || (26 <= a && a + 1 < 52) || (52 <= a && a + 1 < 62) ==> base64_digit(a + 1) as int
            == base64_digit(a) as int + 1,
{
}

/// Three bytes make four characters, what is left over counts as three; and no two
/// sequences of bytes have the same text.
pub proof fn law_base64(a: Seq<u8>, b: Seq<u8>)
    ensures
        base64_text(a).len() == (a.len() + 2) / 3 * 4,
        base64_text(a) == base64_text(b) ==> a == b,
    decreases a.len(),
{
    if a.len() >= 3 {
        law_base64(a.skip(3), b.skip(3));
    }
    lemma_base64_length(b);
    if base64_text(a) == base64_text(b) {
        let (s, t) = (base64_text(a), base64_text(b));
        if a.len() == 0 || b.len() == 0 {
            assert(a.len() == 0 && b.len() == 0);
        } else {
            lemma_head_digits(a);
            lemma_head_digits(b);
            assert(s[0] == t[0] && s[1] == t[1] && s[2] == t[2] && s[3] == t[3]);
            lemma_same_head(a, b);
            if a.len() >= 3 {
                assert(s.skip(4) =~= base64_text(a.skip(3)));
                assert(t.skip(4) =~= base64_text(b.skip(3)));
                assert(a.skip(3) == b.skip(3));
                assert forall|i: int| 0 <= i < a.len() implies a[i] == b[i] by {
                    if i >= 3 {
                        assert(a[i] == a.skip(3)[i - 3] && b[i] == b.skip(3)[i - 3]);
                    }
                }
                assert(a.len() == b.len());
            }
        }
        assert(a =~= b);
    }
}

proof fn lemma_base64_length(bytes: Seq<u8>)
    ensures
        base64_text(bytes).len() == (bytes.len() + 2) / 3 * 4,
    decreases bytes.len(),
{
    if bytes.len() >= 3 {
        lemma_base64_length(bytes.skip(3));
    }
}

/// The six bits at a place of the first four characters.
spec fn bits_at(bytes: Seq<u8>, at: int) -> int {
    let (x, y, z) = (
        bytes[0] as int,
        if bytes.len() > 1 {
            bytes[1] as int
        } else {
            0
        },
        if bytes.len() > 2 {
            bytes[2] as int
        } else {
            0
        },
    );
    if at == 0 {
        x / 4
    } else if at == 1 {
        x % 4 * 16 + y / 16
    } else if at == 2 {
        y % 16 * 4 + z / 64
    } else {
        z % 64
    }
}

proof fn lemma_head_digits(bytes: Seq<u8>)
    requires
        bytes.len() > 0,
    ensures
        base64_text(bytes).len() >= 4,
        base64_text(bytes)[0] == base64_digit(bits_at(bytes, 0)),
        base64_text(bytes)[1] == base64_digit(bits_at(bytes, 1)),
        base64_text(bytes)[2] == if bytes.len() > 1 {
            base64_digit(bits_at(bytes, 2))
        } else {
            '='
        },
        base64_text(bytes)[3] == if bytes.len() > 2 {
            base64_digit(bits_at(bytes, 3))
        } else {
            '='
        },
{
}

/// Texts that begin alike are of bytes that begin alike.
proof fn lemma_same_head(a: Seq<u8>, b: Seq<u8>)
    requires
        a.len() > 0,
        b.len() > 0,
        base64_text(a)[0] == base64_text(b)[0],
        base64_text(a)[1] == base64_text(b)[1],
        base64_text(a)[2] == base64_text(b)[2],
        base64_text(a)[3] == base64_text(b)[3],
    ensures
        a.len() == 1 <==> b.len() == 1,
        a.len() == 2 <==> b.len() == 2,
        a[0] == b[0],
        a.len() > 1 ==> a[1] == b[1],
        a.len() > 2 ==> a[2] == b[2],
{
    lemma_head_digits(a);
    lemma_head_digits(b);
    law_base64_alphabet(bits_at(a, 0), bits_at(b, 0));
    law_base64_alphabet(bits_at(a, 1), bits_at(b, 1));
    law_base64_alphabet(bits_at(a, 2), bits_at(b, 2));
    law_base64_alphabet(bits_at(a, 3), bits_at(b, 3));
}

} // verus!
