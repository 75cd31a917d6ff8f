//! The requests that a run makes of its driver, and the driver's replies.
//!
//! The run never touches the file system, the environment or the watcher.
//! It asks for one thing at a time with an [`Action`]; the driver does it and
//! answers with a [`Reply`].

use crate::config::{Config, RuleView};
use crate::text::text_of;
use crate::desktop::{ParseError, WriteError};
use crate::watch::{ChangeEvent, ChangeView, PathView, WatchedPath};
use vstd::prelude::*;

verus! {

/// Why a run was given up.
#[derive(Debug, Clone, Copy, PartialEq, Eq)]
pub enum Fatal {
    /// The configuration could not be loaded.
    ConfigLoad,
    /// The watcher could not be set up, or the directory not found or listed.
    WatchSetup,
    /// The service file could not be copied.
    ServiceCopy,
}

/// What the driver is to do next.
#[derive(Debug, PartialEq, Eq)]
pub enum Action {
    /// Load the configuration: from this file, or from the usual places.
    LoadConfig(Option<String>),
    /// Open the channel on which notifications will arrive.
    OpenChannel,
    /// Find the directory that holds the launcher entries.
    LocateDirectory,
    /// List the entries of this directory.
    ListDirectory(String),
    /// Say whether this path is a regular file.
    Probe(String),
    /// Read the whole file at this path.
    Read(String),
    /// Replace the contents of the file at this path with this text.
    Write(String, String),
    /// Watch this directory, and no directory below it.
    Watch(String),
    /// Wait for the next notification.
    Receive,
    /// Copy the service file to its place.
    CopyService,
    /// End the run: all went well.
    Finish,
    /// End the run: it failed.
    Abort(Fatal),
}

/// How the last action went.
#[derive(Debug, PartialEq, Eq)]
pub enum Reply {
    /// It was done, and there is nothing to hand back.
    Done,
    /// It failed.
    Failed,
    /// The configuration that was loaded.
    Config(Config),
    /// The directory that was found.
    Directory(String),
    /// The entries of the directory.
    Listing(Vec<WatchedPath>),
    /// Whether the path is a regular file.
    Probed(bool),
    /// The bytes of the file.
    Contents(Vec<u8>),
    /// A notification arrived.
    Changed(ChangeEvent),
    /// No notification will arrive any more.
    Closed,
}

/// Something worth telling the user.
#[derive(Debug, PartialEq, Eq)]
pub enum Report {
    /// The directory is now watched.
    Watching,
    /// The entry of this name got its icon.
    Updated(String),
    /// The entry at this path could not be read.
    ParseFailed(String, ParseError),
    /// The entry at this path could not be rewritten.
    WriteFailed(String, WriteError),
    /// The channel handed over an error in place of a notification.
    ChannelError,
}

/// One step of a run: the next action, and what there is to tell.
#[derive(Debug, PartialEq, Eq)]
pub struct Step {
    pub action: Action,
    pub report: Option<Report>,
}

/// An action, as the contracts speak of it.
pub enum ActionView {
    LoadConfig(Option<Seq<char>>),
    OpenChannel,
    LocateDirectory,
    ListDirectory(Seq<char>),
    Probe(Seq<char>),
    Read(Seq<char>),
    Write(Seq<char>, Seq<char>),
    Watch(Seq<char>),
    Receive,
    CopyService,
    Finish,
    Abort(Fatal),
}

/// A reply, as the contracts speak of it.
pub enum ReplyView {
    Done,
    Failed,
    Config(Seq<RuleView>),
    Directory(Seq<char>),
    Listing(Seq<PathView>),
    Probed(bool),
    Contents(Seq<u8>),
    Changed(ChangeView),
    Closed,
}

/// A report, as the contracts speak of it.
pub enum ReportView {
    Watching,
    Updated(Seq<char>),
    ParseFailed(Seq<char>, ParseError),
    WriteFailed(Seq<char>, WriteError),
    ChannelError,
}

/// A step, as the contracts speak of it.
pub struct StepView {
    pub action: ActionView,
    pub report: Option<ReportView>,
}

impl View for Action {
    type V = ActionView;

    open spec fn view(&self) -> ActionView {
        match self {
            Action::LoadConfig(path) => ActionView::LoadConfig(text_of(*path)),
            Action::OpenChannel => ActionView::OpenChannel,
            Action::LocateDirectory => ActionView::LocateDirectory,
            Action::ListDirectory(dir) => ActionView::ListDirectory(dir@),
            Action::Probe(path) => ActionView::Probe(path@),
            Action::Read(path) => ActionView::Read(path@),
            Action::Write(path, text) => ActionView::Write(path@, text@),
            Action::Watch(dir) => ActionView::Watch(dir@),
            Action::Receive => ActionView::Receive,
            Action::CopyService => ActionView::CopyService,
            Action::Finish => ActionView::Finish,
            Action::Abort(fatal) => ActionView::Abort(*fatal),
        }
    }
}

impl View for Reply {
    type V = ReplyView;

    open spec fn view(&self) -> ReplyView {
        match self {
            Reply::Done => ReplyView::Done,
            Reply::Failed => ReplyView::Failed,
            Reply::Config(config) => ReplyView::Config(config@),
            Reply::Directory(dir) => ReplyView::Directory(dir@),
            Reply::Listing(paths) => ReplyView::Listing(paths@.map_values(|p: WatchedPath| p@)),
            Reply::Probed(is_file) => ReplyView::Probed(*is_file),
            Reply::Contents(bytes) => ReplyView::Contents(bytes@),
            Reply::Changed(change) => ReplyView::Changed(change@),
            Reply::Closed => ReplyView::Closed,
        }
    }
}

impl View for Report {
    type V = ReportView;

    open spec fn view(&self) -> ReportView {
        match self {
            Report::Watching => ReportView::Watching,
            Report::Updated(name) => ReportView::Updated(name@),
            Report::ParseFailed(path, e) => ReportView::ParseFailed(path@, *e),
            Report::WriteFailed(path, e) => ReportView::WriteFailed(path@, *e),
            Report::ChannelError => ReportView::ChannelError,
        }
    }
}

/// The view of a report, where there is one.
pub open spec fn report_of(report: Option<Report>) -> Option<ReportView> {
    match report {
        Some(report) => Some(report@),
        None => None,
    }
}

impl View for Step {
    type V = StepView;

    open spec fn view(&self) -> StepView {
        StepView { action: self.action@, report: report_of(self.report) }
    }
}

/// The path of the file that an action looks at or changes, if it does.
pub open spec fn touched(action: ActionView) -> Option<Seq<char>> {
    match action {
        ActionView::Probe(path) => Some(path),
        ActionView::Read(path) => Some(path),
        ActionView::Write(path, _) => Some(path),
        _ => None,
    }
}

} // verus!
