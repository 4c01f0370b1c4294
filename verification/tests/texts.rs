use blackholes::accounts::{
    agent_account, project_terminal_skip_permissions, projects_root, terminal_agent_profile,
};
use blackholes::clock::Time;
use blackholes::commands::{application_shortcut, KeyModifiers, Shortcut};
use blackholes::effects::AgentProvider;
use blackholes::frame::{terminal_extent, terminal_shell_owns_foreground};
use blackholes::ids::{
    contains_id, find_id, id_text, insert_unique, parse_id, remove_id, toggle_id,
};
use blackholes::labels::{
    file_editor_language, note_save_color, project_icon_kind, quick_open_css_color,
    repository_change_style, workspace_color_css, AppIcon, NoteSaveState, RepositoryChangeKind,
};
use blackholes::model::{tr, AgentKind, Language, WorkspaceColor};
use blackholes::paths::{
    extension, file_name, join, lies_under, parent, path_components, relative, same_path,
};
use blackholes::ranking::order_by_key;
use blackholes::scoring::{quick_open_fuzzy_term_score, quick_open_score, score_is_small};
use blackholes::sorting::{order_by_name, text_precedes};
use blackholes::text::{
    blank, decimal_text, lowercase, split_words, strip_prefix, trim,
};
use blackholes::titles::{agent_from_terminal_title, display_title};

fn provider_name() -> String {
    format!("{:?}", AgentKind::Claude).to_lowercase()
}

#[test]
fn texts_are_trimmed_lowered_and_split() {
    assert_eq!(trim("  a b\n"), "a b");
    assert_eq!(trim("\u{3000}x\u{85}"), "x");
    assert_eq!(trim(" \t "), "");
    assert!(blank(" \u{2028}\n"));
    assert!(!blank(" . "));
    assert_eq!(lowercase("ÁBc-Ñ"), "Ábc-Ñ");
    assert_eq!(split_words(" a  bc\td "), vec!["a", "bc", "d"]);
    assert!(split_words("   ").is_empty());
    assert_eq!(strip_prefix("open-task:1", "open-task:").as_deref(), Some("1"));
    assert_eq!(strip_prefix("open", "open-task:"), None);
    assert_eq!(decimal_text(0), "0");
    assert_eq!(decimal_text(u64::MAX), "18446744073709551615");
    assert_eq!(tr(Language::English, "Save", "Guardar"), "Save");
    assert_eq!(tr(Language::Spanish, "Save", "Guardar"), "Guardar");
}

#[test]
fn identifiers_are_read_in_their_four_spellings() {
    let id = 0x67e55044_10b1_426f_9247_bb680e5fe0c8_u128;
    assert_eq!(parse_id("67e55044-10b1-426f-9247-bb680e5fe0c8"), Some(id));
    assert_eq!(parse_id("67E5504410B1426F9247BB680E5FE0C8"), Some(id));
    assert_eq!(parse_id("{67e55044-10b1-426f-9247-bb680e5fe0c8}"), Some(id));
    assert_eq!(parse_id("urn:uuid:67e55044-10b1-426f-9247-bb680e5fe0c8"), Some(id));
    assert_eq!(parse_id("67e55044-10b1-426f-9247-bb680e5fe0c"), None);
    assert_eq!(parse_id("67e55044-10b1-426f-9247_bb680e5fe0c8"), None);
    assert_eq!(parse_id("g7e55044-10b1-426f-9247-bb680e5fe0c8"), None);
    assert_eq!(parse_id(""), None);
}

#[test]
fn an_identifier_that_is_written_is_read_back() {
    for id in [0_u128, 1, u128::MAX, 0x67e55044_10b1_426f_9247_bb680e5fe0c8] {
        assert_eq!(parse_id(&id_text(id)), Some(id));
    }
    assert_eq!(id_text(1), "00000000-0000-0000-0000-000000000001");
    assert_eq!(id_text(u128::MAX), "ffffffff-ffff-ffff-ffff-ffffffffffff");
}

#[test]
fn identifiers_are_held_once() {
    let mut ids: Vec<u128> = vec![1, 2];
    insert_unique(&mut ids, 2);
    assert_eq!(ids, vec![1, 2]);
    insert_unique(&mut ids, 3);
    assert_eq!(ids, vec![1, 2, 3]);
    assert_eq!(find_id(&ids, 2), Some(1));
    assert!(contains_id(&ids, 3));
    remove_id(&mut ids, 2);
    assert_eq!(ids, vec![1, 3]);
    assert_eq!(find_id(&ids, 2), None);
}

#[test]
fn toggling_twice_brings_an_identifier_back() {
    let mut ids: Vec<u128> = vec![1, 2, 3];
    toggle_id(&mut ids, 2);
    assert_eq!(ids, vec![1, 3]);
    toggle_id(&mut ids, 2);
    assert_eq!(ids, vec![1, 3, 2]);
    toggle_id(&mut ids, 3);
    assert_eq!(ids, vec![1, 2]);
}

#[test]
fn scores_of_a_palette_entry() {
    let file = "src/app.rs";
    assert_eq!(quick_open_score("", "x"), Some(0));
    assert_eq!(quick_open_score("src/app.rs", file), Some(140_000));
    assert_eq!(quick_open_score("app.rs", file), Some(134_990));
    assert_eq!(quick_open_score("app", file), Some(124_990));
    assert_eq!(quick_open_score("src", file), Some(117_990));
    assert_eq!(quick_open_score("rs", file), Some(115_894));
    assert_eq!(quick_open_score("pp", file), Some(111_930));
    assert_eq!(quick_open_score("c/a", file), Some(99_966));
    assert_eq!(quick_open_score("app src", file), Some(54_974));
    assert_eq!(quick_open_score("sar", file), Some(34_378));
    assert_eq!(quick_open_score("zz", file), None);
    assert_eq!(
        quick_open_score("workspace quick", "frontend/src/workspace/quickopen.tsx"),
        Some(54_820)
    );
    assert_eq!(quick_open_fuzzy_term_score("sar", file, 4), Some(3_888));
    assert_eq!(quick_open_fuzzy_term_score("sz", file, 4), None);
    assert_eq!(quick_open_fuzzy_term_score("sar", file, 0), Some(4_068));
    assert_eq!(quick_open_fuzzy_term_score("", file, 7), Some(0));
    assert!(score_is_small(3, 10));
    assert!(score_is_small(1 << 20, 1 << 39));
    assert!(!score_is_small(1 << 30, 1 << 30));
    assert!(!score_is_small(usize::MAX, usize::MAX));
}

#[test]
fn the_order_of_the_terms_does_not_matter() {
    let file = "frontend/src/workspace/quickopen.tsx";
    assert_eq!(
        quick_open_score("quick workspace", file),
        quick_open_score("workspace quick", file)
    );
    assert_eq!(quick_open_score("tsx wsp", file), quick_open_score("  wsp\ttsx", file));
    assert_eq!(quick_open_score("zz quick", file), None);
    assert_eq!(quick_open_score("quick zz", file), None);
}

#[test]
fn times_are_ordered_by_seconds_and_nanoseconds() {
    let rank = |seconds: i64, nanoseconds: u32| Time { seconds, nanoseconds }.ranked();
    assert!(rank(1, 999_999_999) < rank(2, 0));
    assert!(rank(1, 1_000) < rank(1, 1_001));
    assert!(rank(-2, 5) < rank(-1, 0));
    assert_eq!(rank(1, 7), 4_294_967_303);
}

#[test]
fn keys_are_ordered_and_equal_ones_stay_in_place() {
    let keys: Vec<Option<i128>> = vec![Some(1), None, Some(5), Some(1), Some(7)];
    assert_eq!(order_by_key(&keys), vec![0, 3, 2, 4]);
}

#[test]
fn names_are_ordered() {
    assert!(text_precedes("a", "b"));
    assert!(text_precedes("a", "ab"));
    assert!(!text_precedes("b", "a"));
    assert!(!text_precedes("a", "a"));
    let names = vec!["beta".to_string(), "alpha".to_string(), "Zeta".to_string()];
    assert_eq!(order_by_name(&names), vec![2, 1, 0]);
}

#[test]
fn titles_name_their_agent() {
    let name = provider_name();
    let agent = |title: &str| agent_from_terminal_title(title, &name);
    assert_eq!(agent("codex - repo"), Some(AgentKind::Codex));
    assert_eq!(agent("recodex"), None);
    assert_eq!(agent("  ⠙ my project"), Some(AgentKind::Codex));
    assert_eq!(agent("[ ! ] Action Required"), Some(AgentKind::Codex));
    assert_eq!(agent(&format!("✳ {name} Code")), Some(AgentKind::Claude));
    assert_eq!(agent(&format!("fix {name} code")), None);
    assert_eq!(agent("OpenCode | x"), Some(AgentKind::OpenCode));
    assert_eq!(agent("agy"), Some(AgentKind::Antigravity));
    assert_eq!(agent("antigravity: x"), Some(AgentKind::Antigravity));
    assert_eq!(agent("my gemini chat"), Some(AgentKind::Gemini));
    assert_eq!(agent("MY GEMINI CHAT"), Some(AgentKind::Gemini));
    assert_eq!(agent(&format!("✳ {} CODE", name.to_uppercase())), Some(AgentKind::Claude));
    assert_eq!(agent("zsh"), None);
    assert_eq!(agent(""), None);
}

#[test]
fn a_long_title_is_cut() {
    let long = "ñ".repeat(80);
    assert_eq!(display_title(&long), "ñ".repeat(72));
    assert_eq!(display_title("short"), "short");
}

#[test]
fn paths_are_taken_apart() {
    assert_eq!(file_name("/a/b.rs").as_deref(), Some("b.rs"));
    assert_eq!(file_name("/a/b/").as_deref(), Some("b"));
    assert_eq!(file_name("/a/.").as_deref(), Some("a"));
    assert_eq!(file_name("/a/.."), None);
    assert_eq!(file_name("/"), None);
    assert_eq!(extension("/a/b.RS"), "rs");
    assert_eq!(extension("/a/.bashrc"), "");
    assert_eq!(parent("/a/b").as_deref(), Some("/a"));
    assert_eq!(parent("/"), None);
    assert!(lies_under("/a/b", "/a"));
    assert!(lies_under("/a", "/a"));
    assert!(!lies_under("/ab", "/a"));
    assert_eq!(relative("/a/b/c", "/a"), "b/c");
    assert_eq!(join("/a", "b"), "/a/b");
    assert_eq!(join("/a/", "b"), "/a/b");
    assert_eq!(join("/a", "/b"), "/b");
    assert_eq!(join("", "b"), "b");
    assert_eq!(parent("a").as_deref(), Some(""));
    assert_eq!(parent(""), None);
    assert_eq!(parent("/a//b/").as_deref(), Some("/a"));
}

#[test]
fn paths_are_compared_by_components() {
    assert!(same_path("/a//b", "/a/b"));
    assert!(same_path("/a/b/", "/a/b"));
    assert!(same_path("/a/./b", "/a/b"));
    assert!(!same_path("./a", "a"));
    assert!(!same_path("/a", "a"));
    assert!(!same_path("/a/../a", "/a"));
    assert_eq!(path_components("/a//b/."), vec!["/", "a", "b"]);
    assert_eq!(path_components("./a/.."), vec![".", "a", ".."]);
    assert!(lies_under("/a//b/c", "/a/b/"));
    assert_eq!(relative("/a//b/c", "/a/"), "b/c");
}

#[test]
fn labels_and_colours() {
    assert_eq!(workspace_color_css(WorkspaceColor::Mint), "#8db9ab");
    assert_eq!(quick_open_css_color(0x8db3cf), "rgba(141, 179, 207, 1.000)");
    assert_eq!(repository_change_style(RepositoryChangeKind::Conflicted), ("!", 0xff7b72));
    assert_eq!(note_save_color(NoteSaveState::Saving), 0xe3b341);
    assert_eq!(project_icon_kind("code-2"), AppIcon::Code2);
    assert_eq!(project_icon_kind("unknown"), AppIcon::Layers3);
    assert_eq!(file_editor_language("/a/Main.RS"), "rust");
    assert_eq!(file_editor_language("/a/CMakeLists.txt"), "cmake");
    assert_eq!(file_editor_language("/a/Dockerfile"), "make");
    assert_eq!(file_editor_language("/a/notes"), "text");
}

#[test]
fn shortcuts_need_the_modifier_of_the_platform_alone() {
    let plain = KeyModifiers {
        control: false,
        platform: false,
        alt: false,
        shift: false,
        function: false,
    };
    let control = KeyModifiers { control: true, ..plain };
    let command = KeyModifiers { platform: true, ..plain };
    assert_eq!(application_shortcut("o", control, false), Some(Shortcut::NavigationPalette));
    assert_eq!(application_shortcut("P", command, true), Some(Shortcut::FilePalette));
    assert_eq!(application_shortcut("o", control, true), None);
    assert_eq!(application_shortcut("x", control, false), None);
    assert_eq!(
        application_shortcut("o", KeyModifiers { shift: true, ..control }, false),
        None
    );
}

#[test]
fn small_settings() {
    assert_eq!(agent_account(AgentKind::Codex), Some(AgentProvider::Codex));
    assert_eq!(agent_account(AgentKind::Shell), None);
    assert_eq!(
        terminal_agent_profile(AgentKind::Codex, true, "/p".to_string()).as_deref(),
        Some("/p")
    );
    assert_eq!(terminal_agent_profile(AgentKind::Codex, false, "/p".to_string()), None);
    assert!(project_terminal_skip_permissions(&Some("true".to_string())));
    assert!(!project_terminal_skip_permissions(&Some("TRUE".to_string())));
    assert!(!project_terminal_skip_permissions(&None));
    assert_eq!(projects_root(Some("/x".to_string()), "/home".to_string()), "/x");
    assert_eq!(projects_root(None, "/home".to_string()), "/home");
    assert_eq!(terminal_extent(80), 80);
    assert_eq!(terminal_extent(70_000), u16::MAX);
    assert!(terminal_shell_owns_foreground(Some(7), Some(7)));
    assert!(!terminal_shell_owns_foreground(Some(7), Some(8)));
    assert!(!terminal_shell_owns_foreground(None, Some(7)));
}
