use std::collections::hash_map::DefaultHasher;
use std::hash::{Hash, Hasher};

use blackholes::model::AppTheme;
use blackholes::surfaces::content_revision;
use blackholes::webviews::{
    apply_macos_appearance, apply_native_theme, chat_html, fits_base64, navigation_html,
    navigation_script, quick_open_html, quick_open_script, replace, set_visible, workspace_script,
    ChatAssets, MacAppearance, ThemeMode, VisibilityChange,
};

#[test]
fn every_occurrence_is_replaced() {
    assert_eq!(replace("a-b-c", "-", "+"), "a+b+c");
    assert_eq!(replace("aaa", "aa", "b"), "ba");
    assert_eq!(replace("ab", "a", "aa"), "aab");
    assert_eq!(replace("", "a", "b"), "");
    assert_eq!(replace("ñandú", "ñ", ""), "andú");
}

#[test]
fn a_text_without_the_pattern_stays() {
    assert_eq!(replace("abc", "x", "y"), "abc");
    assert_eq!(replace("ab", "abc", "y"), "ab");
}

#[test]
fn the_page_of_the_tree_is_filled_in() {
    let page = navigation_html(
        "<{{AGENT_AVATAR_STYLES}}|{{NAVIGATION_STYLES}}|{{NAVIGATION_REACT_BUNDLE}}>",
        "avatars",
        "styles",
        "bundle",
    );
    assert_eq!(page, "<avatars|styles|bundle>");
}

#[test]
fn a_later_placeholder_in_an_earlier_part_is_filled_in_too() {
    let page = navigation_html(
        "{{AGENT_AVATAR_STYLES}}",
        "{{NAVIGATION_STYLES}}",
        "{{AGENT_AVATAR_STYLES}}",
        "bundle",
    );
    assert_eq!(page, "{{AGENT_AVATAR_STYLES}}");
}

#[test]
fn the_page_of_the_palette_is_filled_in() {
    let page = quick_open_html("{{QUICK_OPEN_REACT_BUNDLE}} {{QUICK_OPEN_STYLES}}", "s", "b");
    assert_eq!(page, "b s");
}

fn encoded(bytes: &[u8]) -> String {
    let assets = ChatAssets {
        template: "{{EDITOR_BUNDLE_BASE64}}".to_string(),
        avatar_styles: String::new(),
        chat_styles: String::new(),
        workspace_styles: String::new(),
        bundle_styles: String::new(),
        bundle: String::new(),
        editor_styles: String::new(),
        editor: bytes.to_vec(),
        logo: Vec::new(),
    };
    assert!(assets.can_encode());
    chat_html(&assets)
}

#[test]
fn the_editor_is_put_in_as_base64() {
    assert_eq!(encoded(b""), "");
    assert_eq!(encoded(b"f"), "Zg==");
    assert_eq!(encoded(b"fo"), "Zm8=");
    assert_eq!(encoded(b"foobar"), "Zm9vYmFy");
    assert_eq!(encoded(&[0xfb, 0xff]), "+/8=");
    assert_eq!(encoded(&[0, 16, 131, 16, 81, 135]), "ABCDEFGH");
    assert!(fits_base64(0));
    assert!(!fits_base64(usize::MAX));
}

#[test]
fn the_page_of_the_central_surface_is_filled_in() {
    let assets = ChatAssets {
        template: "{{AGENT_AVATAR_STYLES}},{{CHAT_STYLES}},{{WORKSPACE_STYLES}},\
                   {{CHAT_BUNDLE_STYLES}},{{CHAT_REACT_BUNDLE}},{{EDITOR_BUNDLE_STYLES}},\
                   {{EDITOR_BUNDLE_BASE64}},{{APP_LOGO_DATA_URL}}"
            .to_string(),
        avatar_styles: "1".to_string(),
        chat_styles: "2".to_string(),
        workspace_styles: "3".to_string(),
        bundle_styles: "4".to_string(),
        bundle: "5".to_string(),
        editor_styles: "6".to_string(),
        editor: b"foo".to_vec(),
        logo: b"bar".to_vec(),
    };
    assert!(assets.can_encode());
    assert_eq!(chat_html(&assets), "1,2,3,4,5,6,Zm9v,data:image/png;base64,YmFy");
}

#[test]
fn events_are_handed_over_by_a_script() {
    assert_eq!(navigation_script("{}"), "window.blackholesNavigation?.receive({});");
    assert_eq!(quick_open_script("1"), "window.blackholesQuickOpen?.receive(1);");
    assert_eq!(workspace_script("null"), "window.blackholesNative?.receive(null);");
}

#[test]
fn visibility_changes_only_where_it_differs() {
    assert_eq!(set_visible(false, true), Some(VisibilityChange::Show));
    assert_eq!(set_visible(true, false), Some(VisibilityChange::Hide));
    assert_eq!(set_visible(true, true), None);
    assert_eq!(set_visible(false, false), None);
}

#[test]
fn appearance_follows_the_theme() {
    assert_eq!(apply_macos_appearance(AppTheme::Light, true), Some(MacAppearance::Aqua));
    assert_eq!(apply_macos_appearance(AppTheme::Dark, true), Some(MacAppearance::DarkAqua));
    assert_eq!(apply_macos_appearance(AppTheme::Dark, false), None);
    assert_eq!(apply_native_theme(AppTheme::Light), ThemeMode::Light);
    assert_eq!(apply_native_theme(AppTheme::Dark), ThemeMode::Dark);
}

#[test]
fn revisions_tell_texts_apart() {
    let mut hasher = DefaultHasher::new();
    "instructions".hash(&mut hasher);
    assert_eq!(content_revision("instructions"), hasher.finish());
    assert_ne!(content_revision("a"), content_revision("b"));
    assert_eq!(content_revision(""), content_revision(""));
}
