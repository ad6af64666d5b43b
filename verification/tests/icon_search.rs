use niri_workspaces::desktop::{blank, entry_icon, has_keys_named, EntryError};
use niri_workspaces::search::{
    step_after_entry, step_after_icon, step_after_probe, IconSearch, Reply, Request, SearchError,
    Stage, DEFAULT_ICON, DESKTOP_SUFFIX, FALLBACK_ICON_NAME, ICON_SCALE, ICON_SIZE,
};

const ENTRY: &str = "[Desktop Entry]\nName=Web\nIcon=web-browser\nExec=web %u\n";

fn is_probe(request: &Request, expected: usize) -> bool {
    matches!(request, Request::Probe { dir } if *dir == expected)
}

fn is_read(request: &Request, expected: usize) -> bool {
    matches!(request, Request::Read { dir } if *dir == expected)
}

fn is_find(request: &Request, expected: &str) -> bool {
    matches!(request, Request::FindIcon { name } if name == expected)
}

fn is_icon(request: &Request, expected: &str) -> bool {
    matches!(request, Request::Finish { outcome: Ok(path) } if path == expected)
}

#[test]
fn the_constants_have_their_values() {
    assert_eq!(
        DEFAULT_ICON,
        "/usr/share/icons/Adwaita/16x16/apps/help-contents-symbolic.symbolic.png"
    );
    assert_eq!(FALLBACK_ICON_NAME, "default-application");
    assert_eq!(DESKTOP_SUFFIX, ".desktop");
    assert_eq!(ICON_SIZE, 128);
    assert_eq!(ICON_SCALE, 1);
}

#[test]
fn a_search_names_the_desktop_file_after_the_application() {
    let (search, _) = IconSearch::start("org.web", 2);
    assert_eq!(search.file_name(), "org.web.desktop");
    assert!(!search.is_finished());
    let (search, _) = IconSearch::start("", 0);
    assert_eq!(search.file_name(), ".desktop");
}

#[test]
fn the_first_directory_with_the_file_is_read_and_its_icon_found() {
    let (mut search, request) = IconSearch::start("web", 3);
    assert!(is_probe(&request, 0));
    let request = search.step(Reply::Exists(false));
    assert!(is_probe(&request, 1));
    let request = search.step(Reply::Exists(true));
    assert!(is_read(&request, 1));
    let request = search.step(Reply::Content(ENTRY.to_string()));
    assert!(is_find(&request, "web-browser"));
    assert!(!search.is_finished());
    let request = search.step(Reply::Icon(Some("/icons/web-browser.png".to_string())));
    assert!(is_icon(&request, "/icons/web-browser.png"));
    assert!(search.is_finished());
}

#[test]
fn a_named_icon_that_the_theme_lacks_gives_the_fixed_icon() {
    let (mut search, _) = IconSearch::start("web", 1);
    search.step(Reply::Exists(true));
    let request = search.step(Reply::Content(ENTRY.to_string()));
    assert!(is_find(&request, "web-browser"));
    let request = search.step(Reply::Icon(None));
    assert!(is_icon(&request, DEFAULT_ICON));
}

#[test]
fn a_desktop_file_without_icon_gives_the_fixed_icon() {
    let (mut search, _) = IconSearch::start("web", 1);
    search.step(Reply::Exists(true));
    let request = search.step(Reply::Content("[Desktop Entry]\nName=Web\n".to_string()));
    assert!(is_icon(&request, DEFAULT_ICON));
    assert!(search.is_finished());
}

#[test]
fn without_desktop_file_the_general_icon_is_asked_for() {
    let (mut search, request) = IconSearch::start("web", 2);
    assert!(is_probe(&request, 0));
    let request = search.step(Reply::Exists(false));
    assert!(is_probe(&request, 1));
    let request = search.step(Reply::Exists(false));
    assert!(is_find(&request, "default-application"));
    let request = search.step(Reply::Icon(Some("/icons/default-application.png".to_string())));
    assert!(is_icon(&request, "/icons/default-application.png"));
}

#[test]
fn without_directories_the_general_icon_is_asked_for_at_once() {
    let (mut search, request) = IconSearch::start("web", 0);
    assert!(is_find(&request, "default-application"));
    let request = search.step(Reply::Icon(None));
    assert!(is_icon(&request, DEFAULT_ICON));
}

#[test]
fn an_unreadable_desktop_file_ends_the_search() {
    let (mut search, _) = IconSearch::start("web", 1);
    search.step(Reply::Exists(true));
    let request = search.step(Reply::ReadFailed);
    assert!(matches!(request, Request::Finish { outcome: Err(SearchError::Unreadable) }));
    assert!(search.is_finished());
}

#[test]
fn a_line_that_assigns_to_no_key_ends_the_search() {
    let (mut search, _) = IconSearch::start("web", 1);
    search.step(Reply::Exists(true));
    let request = search.step(Reply::Content("[Desktop Entry]\n  =web\nIcon=web\n".to_string()));
    assert!(matches!(
        request,
        Request::Finish { outcome: Err(SearchError::Undecodable(EntryError::KeyMissing)) }
    ));
}

#[test]
fn a_reply_of_the_wrong_kind_ends_the_search() {
    let (mut search, _) = IconSearch::start("web", 2);
    let request = search.step(Reply::Icon(None));
    assert!(matches!(request, Request::Finish { outcome: Err(SearchError::UnexpectedReply) }));
    assert!(search.is_finished());
    let request = search.step(Reply::Exists(true));
    assert!(matches!(request, Request::Finish { outcome: Err(SearchError::UnexpectedReply) }));

    let (mut search, _) = IconSearch::start("web", 2);
    let request = search.step(Reply::Content(ENTRY.to_string()));
    assert!(matches!(request, Request::Finish { outcome: Err(SearchError::UnexpectedReply) }));

    let (mut search, _) = IconSearch::start("web", 2);
    let request = search.step(Reply::ReadFailed);
    assert!(matches!(request, Request::Finish { outcome: Err(SearchError::UnexpectedReply) }));

    let (mut search, _) = IconSearch::start("web", 2);
    search.step(Reply::Exists(true));
    let request = search.step(Reply::Exists(true));
    assert!(matches!(request, Request::Finish { outcome: Err(SearchError::UnexpectedReply) }));

    let (mut search, _) = IconSearch::start("web", 0);
    let request = search.step(Reply::Exists(false));
    assert!(matches!(request, Request::Finish { outcome: Err(SearchError::UnexpectedReply) }));
}

#[test]
fn the_steps_after_a_probe() {
    let (stage, request) = step_after_probe(0, 2, true);
    assert!(matches!(stage, Stage::Reading { dir: 0 }));
    assert!(is_read(&request, 0));
    let (stage, request) = step_after_probe(0, 2, false);
    assert!(matches!(stage, Stage::Probing { dir: 1 }));
    assert!(is_probe(&request, 1));
    let (stage, request) = step_after_probe(1, 2, false);
    assert!(matches!(stage, Stage::FindingFallback));
    assert!(is_find(&request, FALLBACK_ICON_NAME));
    let (stage, request) = step_after_probe(usize::MAX, usize::MAX, false);
    assert!(matches!(stage, Stage::FindingFallback));
    assert!(is_find(&request, FALLBACK_ICON_NAME));
}

#[test]
fn the_steps_after_the_entry_and_the_icon() {
    let (stage, request) = step_after_entry(Ok(Some("web".to_string())));
    assert!(matches!(stage, Stage::FindingNamed));
    assert!(is_find(&request, "web"));
    let (stage, request) = step_after_entry(Ok(None));
    assert!(matches!(stage, Stage::Finished));
    assert!(is_icon(&request, DEFAULT_ICON));
    let (stage, request) = step_after_entry(Err(EntryError::Unnamed));
    assert!(matches!(stage, Stage::Finished));
    assert!(matches!(
        request,
        Request::Finish { outcome: Err(SearchError::Undecodable(EntryError::Unnamed)) }
    ));
    let (stage, request) = step_after_icon(Some("/a.png".to_string()));
    assert!(matches!(stage, Stage::Finished));
    assert!(is_icon(&request, "/a.png"));
    let (_, request) = step_after_icon(None);
    assert!(is_icon(&request, DEFAULT_ICON));
}

#[test]
fn the_icon_is_read_from_the_desktop_entry_group() {
    assert_eq!(entry_icon("web.desktop", ENTRY).ok(), Some(Some("web-browser".to_string())));
    let other_group = "[Desktop Action new]\nIcon=other\n[Desktop Entry]\nIcon=mine\n";
    assert_eq!(entry_icon("web.desktop", other_group).ok(), Some(Some("mine".to_string())));
    let only_action = "[Desktop Action new]\nIcon=other\n";
    assert_eq!(entry_icon("web.desktop", only_action).ok(), Some(None));
    let localized = "[Desktop Entry]\nIcon[de]=deutsch\n";
    assert_eq!(entry_icon("web.desktop", localized).ok(), Some(Some("".to_string())));
    let commented = "# Icon=no\n[Desktop Entry]\n  Icon=spaced  \n";
    assert_eq!(entry_icon("web.desktop", commented).ok(), Some(Some("spaced".to_string())));
    assert_eq!(entry_icon("web.desktop", "").ok(), Some(None));
}

#[test]
fn a_path_without_file_name_names_no_application() {
    assert!(matches!(entry_icon("..", ENTRY), Err(EntryError::Unnamed)));
    assert!(matches!(entry_icon("", ENTRY), Err(EntryError::Unnamed)));
    assert!(matches!(entry_icon("/", ENTRY), Err(EntryError::Unnamed)));
}

#[test]
fn a_text_with_a_line_that_begins_with_the_equals_sign_is_refused() {
    assert!(matches!(entry_icon("a.desktop", "=x"), Err(EntryError::KeyMissing)));
    assert!(matches!(entry_icon("a.desktop", "Icon=a\n\t = b"), Err(EntryError::KeyMissing)));
    assert!(matches!(entry_icon("..", "=x"), Err(EntryError::KeyMissing)));
}

#[test]
fn keys_are_named_unless_a_line_begins_with_the_equals_sign() {
    assert!(has_keys_named(""));
    assert!(has_keys_named("Icon=a"));
    assert!(has_keys_named("a=b=c\nd==\n"));
    assert!(has_keys_named("[Desktop Entry]\nIcon=a\n\n# c\n"));
    assert!(has_keys_named(" x =1"));
    assert!(has_keys_named("\u{e9}=1"));
    assert!(!has_keys_named("="));
    assert!(!has_keys_named("=a"));
    assert!(!has_keys_named("Icon=a\n=b"));
    assert!(!has_keys_named("Icon=a\r\n=b"));
    assert!(!has_keys_named("Icon=a\n \t\u{a0}\u{3000}=b"));
    assert!(!has_keys_named("\r=b"));
    assert!(has_keys_named("Icon=a\n\u{200b}=b"));
}

#[test]
fn blank_characters_are_those_that_trimming_removes() {
    for c in ['\t', '\n', '\u{b}', '\u{c}', '\r', ' ', '\u{85}', '\u{a0}', '\u{1680}', '\u{2000}',
        '\u{2005}', '\u{200a}', '\u{2028}', '\u{2029}', '\u{202f}', '\u{205f}', '\u{3000}']
    {
        assert!(blank(c));
        assert!(c.is_whitespace());
    }
    for c in ['\u{8}', '\u{e}', '!', '=', 'a', '\u{84}', '\u{86}', '\u{9f}', '\u{a1}', '\u{180e}',
        '\u{1fff}', '\u{200b}', '\u{2027}', '\u{202a}', '\u{2060}', '\u{3001}', '\u{feff}']
    {
        assert!(!blank(c));
        assert!(!c.is_whitespace());
    }
}

#[test]
fn blank_agrees_with_the_standard_library_on_every_character() {
    let mut c = 0u32;
    while c <= 0x10ffff {
        if let Some(ch) = char::from_u32(c) {
            assert_eq!(blank(ch), ch.is_whitespace());
        }
        c += 1;
    }
}
