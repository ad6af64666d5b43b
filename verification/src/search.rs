//! The search for an application's icon, step by step.
//!
//! The search itself touches nothing: it says what it needs to know next (a
//! [`Request`]), is told the answer (a [`Reply`]), and decides how to go on.
//! The desktop file of the application is looked for in a list of
//! directories, the first that has it is read, and the icon it names is
//! looked up in the icon theme. An application without a desktop file gets
//! the theme's icon for applications in general, and where the theme has no
//! icon to offer, a fixed one stands in.

use crate::desktop::{entry_icon, entry_icon_of, entry_view, EntryError};
use vstd::prelude::*;
use vstd::string::StringExecFns;

verus! {

/// The icon that stands in where the icon theme offers none.
pub const DEFAULT_ICON: &'static str =
    "/usr/share/icons/Adwaita/16x16/apps/help-contents-symbolic.symbolic.png";

/// The name under which icon themes hold the icon for applications in general.
pub const FALLBACK_ICON_NAME: &'static str = "default-application";

/// What is put behind an application identifier to name its desktop file.
pub const DESKTOP_SUFFIX: &'static str = ".desktop";

/// The size, in pixels, at which icons are asked for.
pub const ICON_SIZE: i32 = 128;

/// The scale at which icons are asked for.
pub const ICON_SCALE: i32 = 1;

/// Why a search found no icon.
#[derive(Debug, Clone, Copy, PartialEq, Eq)]
pub enum SearchError {
    /// The desktop file is there but could not be read.
    Unreadable,
    /// The desktop file could not be taken apart.
    Undecodable(EntryError),
    /// A reply came that answers another request than the one that was made.
    UnexpectedReply,
}

/// How far a search has come.
#[derive(Debug, Clone, Copy, PartialEq, Eq)]
pub enum Stage {
    /// It asked whether the directory `dir` holds the desktop file.
    Probing { dir: usize },
    /// It asked for the text of the desktop file in the directory `dir`.
    Reading { dir: usize },
    /// It asked the icon theme for the icon that the desktop file names.
    FindingNamed,
    /// It asked the icon theme for the icon for applications in general.
    FindingFallback,
    /// It is over.
    Finished,
}

/// What a search needs done next.
#[derive(Debug, PartialEq, Eq)]
pub enum Request {
    /// Tell whether the directory `dir` holds the desktop file.
    Probe { dir: usize },
    /// Read the desktop file in the directory `dir`.
    Read { dir: usize },
    /// Look the icon `name` up in the icon theme.
    FindIcon { name: String },
    /// Nothing: the search is over, with the icon's path or the reason why
    /// there is none.
    Finish { outcome: Result<String, SearchError> },
}

/// The mathematical value of a [`Request`].
pub enum RequestView {
    Probe { dir: usize },
    Read { dir: usize },
    FindIcon { name: Seq<char> },
    Finish { outcome: Result<Seq<char>, SearchError> },
}

impl View for Request {
    type V = RequestView;

    open spec fn view(&self) -> RequestView {
        match *self {
            Request::Probe { dir } => RequestView::Probe { dir },
            Request::Read { dir } => RequestView::Read { dir },
            Request::FindIcon { name } => RequestView::FindIcon { name: name@ },
            Request::Finish { outcome } => RequestView::Finish {
                outcome: match outcome {
                    Ok(path) => Ok(path@),
                    Err(e) => Err(e),
                },
            },
        }
    }
}

/// The answer to a request.
#[derive(Debug, PartialEq, Eq)]
pub enum Reply {
    /// To `Probe`: whether the file is there.
    Exists(bool),
    /// To `Read`: the text of the file.
    Content(String),
    /// To `Read`: the file could not be read.
    ReadFailed,
    /// To `FindIcon`: the path of the icon, if the theme has one.
    Icon(Option<String>),
}

/// The mathematical value of a [`Reply`].
pub enum ReplyView {
    Exists(bool),
    Content(Seq<char>),
    ReadFailed,
    Icon(Option<Seq<char>>),
}

impl View for Reply {
    type V = ReplyView;

    open spec fn view(&self) -> ReplyView {
        match *self {
            Reply::Exists(exists) => ReplyView::Exists(exists),
            Reply::Content(text) => ReplyView::Content(text@),
            Reply::ReadFailed => ReplyView::ReadFailed,
            Reply::Icon(path) => ReplyView::Icon(path.deep_view()),
        }
    }
}

/// The name of the desktop file of an application.
pub open spec fn desktop_file_name(app_id: Seq<char>) -> Seq<char> {
    app_id + DESKTOP_SUFFIX@
}

/// The end of a search.
pub open spec fn finish(outcome: Result<Seq<char>, SearchError>) -> (Stage, RequestView) {
    (Stage::Finished, RequestView::Finish { outcome })
}

/// The request for the icon for applications in general.
pub open spec fn ask_fallback() -> (Stage, RequestView) {
    (Stage::FindingFallback, RequestView::FindIcon { name: FALLBACK_ICON_NAME@ })
}

/// How a search over `dirs` directories begins: with the first directory, or
/// with the icon for applications in general if there is no directory.
pub open spec fn first_step(dirs: usize) -> (Stage, RequestView) {
    if dirs == 0 {
        ask_fallback()
    } else {
        (Stage::Probing { dir: 0 }, RequestView::Probe { dir: 0 })
    }
}

/// How a search goes on when it knows whether the directory `dir` holds the
/// desktop file: it reads the file, or tries the next directory, or, after
/// the last, asks for the icon for applications in general.
pub open spec fn after_probe(dir: usize, dirs: usize, exists: bool) -> (Stage, RequestView) {
    if exists {
        (Stage::Reading { dir }, RequestView::Read { dir })
    } else if dir + 1 < dirs {
        (Stage::Probing { dir: (dir + 1) as usize }, RequestView::Probe { dir: (dir + 1) as usize })
    } else {
        ask_fallback()
    }
}

/// How a search goes on when the desktop file was taken apart: it asks for
/// the icon that the file names; a file that names none gets the fixed icon;
/// a file that could not be taken apart ends the search without one.
pub open spec fn after_entry(icon: Result<Option<Seq<char>>, EntryError>) -> (Stage, RequestView) {
    match icon {
        Ok(Some(name)) => (Stage::FindingNamed, RequestView::FindIcon { name }),
        Ok(None) => finish(Ok(DEFAULT_ICON@)),
        Err(e) => finish(Err(SearchError::Undecodable(e))),
    }
}

/// How a search ends when the icon theme has answered: with the icon it
/// found, or with the fixed icon if it found none.
pub open spec fn after_icon(found: Option<Seq<char>>) -> (Stage, RequestView) {
    match found {
        Some(path) => finish(Ok(path)),
        None => finish(Ok(DEFAULT_ICON@)),
    }
}

/// The mathematical value of an [`IconSearch`].
pub struct IconSearchView {
    /// The name of the desktop file that is looked for.
    pub file: Seq<char>,
    /// The number of directories in which it is looked for.
    pub dirs: usize,
    /// How far the search has come.
    pub stage: Stage,
}

impl IconSearchView {
    /// A search that is at a directory is at one of its directories.
    pub open spec fn wf(self) -> bool {
        match self.stage {
            Stage::Probing { dir } => dir < self.dirs,
            Stage::Reading { dir } => dir < self.dirs,
            _ => true,
        }
    }

    /// The stage that a reply leads to, and the request made there.
    pub open spec fn next(self, reply: ReplyView) -> (Stage, RequestView) {
        match (self.stage, reply) {
            (Stage::Probing { dir }, ReplyView::Exists(exists)) => after_probe(
                dir,
                self.dirs,
                exists,
            ),
            (Stage::Reading { dir }, ReplyView::Content(text)) => after_entry(
                entry_icon_of(self.file, text),
            ),
            (Stage::Reading { dir }, ReplyView::ReadFailed) => finish(
                Err(SearchError::Unreadable),
            ),
            (Stage::FindingNamed, ReplyView::Icon(found)) => after_icon(found),
            (Stage::FindingFallback, ReplyView::Icon(found)) => after_icon(found),
            _ => finish(Err(SearchError::UnexpectedReply)),
        }
    }
}

/// What a machine holds, as far as a search can ask for it.
pub struct Machine {
    /// For each directory, whether it holds the desktop file.
    pub present: Seq<bool>,
    /// For each directory, the text of the desktop file there, if there is
    /// one that can be read.
    pub texts: Seq<Option<Seq<char>>>,
    /// The icon theme: the paths of its icons, by their names.
    pub icons: Map<Seq<char>, Seq<char>>,
}

impl Machine {
    /// The machine's answer to a request.
    pub open spec fn reply(self, request: RequestView) -> ReplyView {
        match request {
            RequestView::Probe { dir } => ReplyView::Exists(self.present[dir as int]),
            RequestView::Read { dir } => match self.texts[dir as int] {
                Some(text) => ReplyView::Content(text),
                None => ReplyView::ReadFailed,
            },
            RequestView::FindIcon { name } => ReplyView::Icon(
                if self.icons.contains_key(name) {
                    Some(self.icons[name])
                } else {
                    None
                },
            ),
            RequestView::Finish { .. } => ReplyView::Icon(None),
        }
    }

    /// The icon that the theme has under `name`, or the fixed icon.
    pub open spec fn themed(self, name: Seq<char>) -> Seq<char> {
        if self.icons.contains_key(name) {
            self.icons[name]
        } else {
            DEFAULT_ICON@
        }
    }

    /// The first directory, from `from` on, that holds the desktop file.
    pub open spec fn first_present(self, from: int) -> Option<int>
        decreases self.present.len() - from,
    {
        if from >= self.present.len() {
            None
        } else if self.present[from] {
            Some(from)
        } else {
            self.first_present(from + 1)
        }
    }

    /// What the desktop file named `file` in the directory `dir` gives: the
    /// icon that it names, as the theme has it, or the fixed icon if it names
    /// none; and no icon if the file cannot be read or taken apart.
    pub open spec fn entry_at(self, file: Seq<char>, dir: int) -> Result<Seq<char>, SearchError> {
        match self.texts[dir] {
            None => Err(SearchError::Unreadable),
            Some(text) => match entry_icon_of(file, text) {
                Err(e) => Err(SearchError::Undecodable(e)),
                Ok(None) => Ok(DEFAULT_ICON@),
                Ok(Some(name)) => Ok(self.themed(name)),
            },
        }
    }

    /// The icon of an application: what its desktop file gives, in the first
    /// directory that has one; and where no directory has one, the theme's
    /// icon for applications in general, or the fixed icon.
    pub open spec fn icon_of(self, app_id: Seq<char>) -> Result<Seq<char>, SearchError> {
        match self.first_present(0) {
            None => Ok(self.themed(FALLBACK_ICON_NAME@)),
            Some(dir) => self.entry_at(desktop_file_name(app_id), dir),
        }
    }
}

/// The request that a search has come to when a machine has answered its
/// requests, `steps` of them at most.
pub open spec fn driven(
    search: IconSearchView,
    request: RequestView,
    machine: Machine,
    steps: nat,
) -> RequestView
    decreases steps,
{
    if steps == 0 || request is Finish {
        request
    } else {
        let next = search.next(machine.reply(request));
        driven(IconSearchView { stage: next.0, ..search }, next.1, machine, (steps - 1) as nat)
    }
}

/// A search for the icon of one application.
#[derive(Debug)]
pub struct IconSearch {
    file: String,
    dirs: usize,
    stage: Stage,
}

impl View for IconSearch {
    type V = IconSearchView;

    closed spec fn view(&self) -> IconSearchView {
        IconSearchView { file: self.file@, dirs: self.dirs, stage: self.stage }
    }
}

/// The fixed icon, as the end of a search.
fn finish_with_default() -> (step: (Stage, Request))
    ensures
        (step.0, step.1@) == finish(Ok(DEFAULT_ICON@)),
{
    (Stage::Finished, Request::Finish { outcome: Ok(DEFAULT_ICON.to_owned()) })
}

/// A search's end without an icon.
fn finish_without(error: SearchError) -> (step: (Stage, Request))
    ensures
        (step.0, step.1@) == finish(Err(error)),
{
    (Stage::Finished, Request::Finish { outcome: Err(error) })
}

/// The step that follows the taking apart of the desktop file.
pub fn step_after_entry(icon: Result<Option<String>, EntryError>) -> (step: (Stage, Request))
    ensures
        (step.0, step.1@) == after_entry(entry_view(icon)),
{
    match icon {
        Ok(Some(name)) => (Stage::FindingNamed, Request::FindIcon { name }),
        Ok(None) => finish_with_default(),
        Err(e) => finish_without(SearchError::Undecodable(e)),
    }
}

/// The step that follows the icon theme's answer.
pub fn step_after_icon(found: Option<String>) -> (step: (Stage, Request))
    ensures
        (step.0, step.1@) == after_icon(found.deep_view()),
{
    match found {
        Some(path) => (Stage::Finished, Request::Finish { outcome: Ok(path) }),
        None => finish_with_default(),
    }
}

/// The step that follows the answer to a probe.
pub fn step_after_probe(dir: usize, dirs: usize, exists: bool) -> (step: (Stage, Request))
    ensures
        (step.0, step.1@) == after_probe(dir, dirs, exists),
{
    if exists {
        (Stage::Reading { dir }, Request::Read { dir })
    } else if dir < usize::MAX && dir + 1 < dirs {
        (Stage::Probing { dir: dir + 1 }, Request::Probe { dir: dir + 1 })
    } else {
        (
            Stage::FindingFallback,
            Request::FindIcon { name: FALLBACK_ICON_NAME.to_owned() },
        )
    }
}

impl IconSearch {
    /// Begins the search for the icon of the application `app_id` in `dirs`
    /// directories, and says what it needs first.
    pub fn start(app_id: &str, dirs: usize) -> (begun: (IconSearch, Request))
        ensures
            begun.0@.file == desktop_file_name(app_id@),
            begun.0@.dirs == dirs,
            (begun.0@.stage, begun.1@) == first_step(dirs),
    {
        let mut file = app_id.to_owned();
        file.append(DESKTOP_SUFFIX);
        if dirs == 0 {
            (
                IconSearch { file, dirs, stage: Stage::FindingFallback },
                Request::FindIcon { name: FALLBACK_ICON_NAME.to_owned() },
            )
        } else {
            (IconSearch { file, dirs, stage: Stage::Probing { dir: 0 } }, Request::Probe { dir: 0 })
        }
    }

    /// The name of the desktop file that is looked for.
    pub fn file_name(&self) -> (name: &String)
        ensures
            name@ == self@.file,
    {
        &self.file
    }

    /// Whether the search is over.
    pub fn is_finished(&self) -> (over: bool)
        ensures
            over == (self@.stage is Finished),
    {
        match self.stage {
            Stage::Finished => true,
            _ => false,
        }
    }

    /// Takes the answer to the last request, and says what the search needs
    /// next. An answer of the wrong kind ends the search, and so does any
    /// answer to a search that is over.
    pub fn step(&mut self, reply: Reply) -> (request: Request)
        ensures
            final(self)@.file == old(self)@.file,
            final(self)@.dirs == old(self)@.dirs,
            (final(self)@.stage, request@) == old(self)@.next(reply@),
    {
        let (stage, request) = match reply {
            Reply::Exists(exists) => match self.stage {
                Stage::Probing { dir } => step_after_probe(dir, self.dirs, exists),
                _ => finish_without(SearchError::UnexpectedReply),
            },
            Reply::Content(text) => match self.stage {
                Stage::Reading { .. } => step_after_entry(
                    entry_icon(self.file.as_str(), text.as_str()),
                ),
                _ => finish_without(SearchError::UnexpectedReply),
            },
            Reply::ReadFailed => match self.stage {
                Stage::Reading { .. } => finish_without(SearchError::Unreadable),
                _ => finish_without(SearchError::UnexpectedReply),
            },
            Reply::Icon(found) => match self.stage {
                Stage::FindingNamed => step_after_icon(found),
                Stage::FindingFallback => step_after_icon(found),
                _ => finish_without(SearchError::UnexpectedReply),
            },
        };
        self.stage = stage;
        request
    }
}

} // verus!
