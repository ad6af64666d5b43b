use niri_workspaces::desktop::EntryError;
use niri_workspaces::search::{IconSearch, Reply, Request, SearchError, DEFAULT_ICON};

/// A machine as a search sees it: per directory the text of the desktop file,
/// if the directory has the file and it can be read, and the icons of the theme.
struct Machine {
    files: Vec<Option<Result<&'static str, ()>>>,
    icons: Vec<(&'static str, &'static str)>,
}

fn run(app_id: &str, machine: &Machine) -> (Result<String, SearchError>, Vec<String>) {
    let mut asked = Vec::new();
    let (mut search, mut request) = IconSearch::start(app_id, machine.files.len());
    for _ in 0..machine.files.len() + 3 {
        let reply = match request {
            Request::Probe { dir } => {
                asked.push(format!("probe {}", dir));
                Reply::Exists(machine.files[dir].is_some())
            }
            Request::Read { dir } => {
                asked.push(format!("read {}", dir));
                match machine.files[dir] {
                    Some(Ok(text)) => Reply::Content(text.to_string()),
                    _ => Reply::ReadFailed,
                }
            }
            Request::FindIcon { name } => {
                asked.push(format!("find {}", name));
                Reply::Icon(
                    machine.icons.iter().find(|(n, _)| *n == name).map(|(_, p)| p.to_string()),
                )
            }
            Request::Finish { outcome } => return (outcome, asked),
        };
        request = search.step(reply);
    }
    match request {
        Request::Finish { outcome } => (outcome, asked),
        _ => panic!("the search did not end"),
    }
}

const WEB: &str = "[Desktop Entry]\nType=Application\nIcon=web-browser\n";

#[test]
fn the_icon_of_the_first_desktop_file_is_taken() {
    let machine = Machine {
        files: vec![None, Some(Ok(WEB)), Some(Ok("[Desktop Entry]\nIcon=other\n"))],
        icons: vec![("other", "/t/other.png"), ("web-browser", "/t/web-browser.png")],
    };
    let (outcome, asked) = run("web", &machine);
    assert_eq!(outcome, Ok("/t/web-browser.png".to_string()));
    assert_eq!(asked, vec!["probe 0", "probe 1", "read 1", "find web-browser"]);
}

#[test]
fn an_icon_that_the_theme_lacks_is_replaced_by_the_fixed_icon() {
    let machine = Machine { files: vec![Some(Ok(WEB))], icons: vec![("other", "/t/other.png")] };
    let (outcome, asked) = run("web", &machine);
    assert_eq!(outcome, Ok(DEFAULT_ICON.to_string()));
    assert_eq!(asked, vec!["probe 0", "read 0", "find web-browser"]);
}

#[test]
fn a_desktop_file_that_names_no_icon_gets_the_fixed_icon_without_asking_the_theme() {
    let machine = Machine {
        files: vec![Some(Ok("[Desktop Entry]\nName=Web\n"))],
        icons: vec![("default-application", "/t/default.png")],
    };
    let (outcome, asked) = run("web", &machine);
    assert_eq!(outcome, Ok(DEFAULT_ICON.to_string()));
    assert_eq!(asked, vec!["probe 0", "read 0"]);
}

#[test]
fn an_application_without_desktop_file_gets_the_general_icon() {
    let machine = Machine {
        files: vec![None, None, None, None],
        icons: vec![("default-application", "/t/default.png")],
    };
    let (outcome, asked) = run("web", &machine);
    assert_eq!(outcome, Ok("/t/default.png".to_string()));
    assert_eq!(
        asked,
        vec!["probe 0", "probe 1", "probe 2", "probe 3", "find default-application"]
    );
}

#[test]
fn an_application_without_desktop_file_and_general_icon_gets_the_fixed_icon() {
    let machine = Machine { files: vec![None], icons: vec![] };
    let (outcome, asked) = run("web", &machine);
    assert_eq!(outcome, Ok(DEFAULT_ICON.to_string()));
    assert_eq!(asked, vec!["probe 0", "find default-application"]);
    let machine = Machine { files: vec![], icons: vec![] };
    let (outcome, asked) = run("web", &machine);
    assert_eq!(outcome, Ok(DEFAULT_ICON.to_string()));
    assert_eq!(asked, vec!["find default-application"]);
}

#[test]
fn an_unreadable_first_desktop_file_leaves_the_later_ones_unread() {
    let machine = Machine {
        files: vec![Some(Err(())), Some(Ok(WEB))],
        icons: vec![("web-browser", "/t/web-browser.png")],
    };
    let (outcome, asked) = run("web", &machine);
    assert_eq!(outcome, Err(SearchError::Unreadable));
    assert_eq!(asked, vec!["probe 0", "read 0"]);
}

#[test]
fn a_desktop_file_with_a_line_without_key_gives_no_icon() {
    let machine = Machine {
        files: vec![Some(Ok("[Desktop Entry]\nIcon=web-browser\n=stray\n"))],
        icons: vec![("web-browser", "/t/web-browser.png")],
    };
    let (outcome, asked) = run("web", &machine);
    assert_eq!(outcome, Err(SearchError::Undecodable(EntryError::KeyMissing)));
    assert_eq!(asked, vec!["probe 0", "read 0"]);
}
