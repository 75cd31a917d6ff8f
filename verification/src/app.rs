//! A run of the tool, as a state machine.
//!
//! [`App::run`] takes the driver's reply to the last action and gives the
//! next action. The machine decides; the driver acts. A run that watches
//! loads the configuration, opens the channel, finds and lists the directory,
//! goes over the listed files once, registers the watch, and from then on goes
//! over the files of each notification that it acts on.

use crate::cli::{Cli, Command, CommandView};
use crate::config::{resolve, Config, RuleView};
use crate::desktop::{apply, bytes_of, parse, DesktopEntry, EntryView, Rewrite, WriteError};
use crate::protocol::{
    report_of, Action, ActionView, Fatal, Reply, ReplyView, Report, ReportView, Step, StepView,
};
use crate::watch::{candidates, is_relevant, keep_candidates, PathView, WatchedPath};
use vstd::prelude::*;

verus! {

/// Where a run stands: what it has asked for and waits to hear of.
#[derive(Debug, Clone, Copy, PartialEq, Eq)]
pub enum Stage {
    /// Nothing was asked for yet.
    Created,
    CopyingService,
    LoadingConfig,
    OpeningChannel,
    LocatingDirectory,
    Listing,
    /// Asked whether the current path is a regular file.
    Probing,
    /// Asked for the bytes of the current file, to read its entry.
    Parsing,
    /// Asked for the bytes of the current file again, to rewrite them.
    Rereading,
    Writing,
    Registering,
    Receiving,
    /// The run is over.
    Stopped,
}

/// The three phases of a run.
#[derive(Debug, Clone, Copy, PartialEq, Eq)]
pub enum Phase {
    Initializing,
    Watching,
    Stopped,
}

/// A run of the tool.
#[derive(Debug)]
pub struct App {
    cli: Cli,
    stage: Stage,
    watching: bool,
    config: Config,
    directory: String,
    current: WatchedPath,
    queue: Vec<WatchedPath>,
    next: usize,
    entry: DesktopEntry,
    icon: String,
    failure: Option<Fatal>,
}

/// A run, as the contracts speak of it.
pub struct AppView {
    /// The task of the run.
    pub command: CommandView,
    pub stage: Stage,
    /// Whether the watch is registered.
    pub watching: bool,
    pub rules: Seq<RuleView>,
    pub directory: Seq<char>,
    /// The path that the run is busy with.
    pub current: PathView,
    /// The paths that the run has yet to go over, in order.
    pub pending: Seq<PathView>,
    /// The entry that is being rewritten, and the icon it is to get.
    pub entry: EntryView,
    pub icon: Seq<char>,
    /// Why the run was given up, once it was.
    pub failure: Option<Fatal>,
}

/// The paths of `queue` from `next` on.
pub open spec fn remaining(queue: Seq<WatchedPath>, next: int) -> Seq<PathView> {
    if 0 <= next <= queue.len() {
        queue.skip(next).map_values(|p: WatchedPath| p@)
    } else {
        Seq::empty()
    }
}

impl View for App {
    type V = AppView;

    closed spec fn view(&self) -> AppView {
        AppView {
            command: self.cli@,
            stage: self.stage,
            watching: self.watching,
            rules: self.config@,
            directory: self.directory@,
            current: self.current@,
            pending: remaining(self.queue@, self.next as int),
            entry: self.entry@,
            icon: self.icon@,
            failure: self.failure,
        }
    }
}

/// A run that has not begun.
pub open spec fn initial(command: CommandView) -> AppView {
    AppView {
        command,
        stage: Stage::Created,
        watching: false,
        rules: Seq::empty(),
        directory: Seq::empty(),
        current: PathView { path: Seq::empty(), file_name: None },
        pending: Seq::empty(),
        entry: EntryView { entry_path: Seq::empty(), name: Seq::empty(), icon: None },
        icon: Seq::empty(),
        failure: None,
    }
}

/// The phase of a run.
pub open spec fn phase(s: AppView) -> Phase {
    if s.stage == Stage::Stopped {
        Phase::Stopped
    } else if s.watching {
        Phase::Watching
    } else {
        Phase::Initializing
    }
}

/// The run asks for `action` and waits at `stage`.
pub open spec fn ask(s: AppView, stage: Stage, action: ActionView) -> (AppView, StepView) {
    (AppView { stage, ..s }, StepView { action, report: None })
}

/// The run ends well.
pub open spec fn finish(s: AppView) -> (AppView, StepView) {
    ask(AppView { failure: None, ..s }, Stage::Stopped, ActionView::Finish)
}

/// The run is given up.
pub open spec fn abort(s: AppView, fatal: Fatal) -> (AppView, StepView) {
    ask(AppView { failure: Some(fatal), ..s }, Stage::Stopped, ActionView::Abort(fatal))
}

/// The run is done with the current file and turns to the next pending one.
/// With none left it registers the watch, after the first pass, or waits for
/// the next notification.
pub open spec fn advance(s: AppView, report: Option<ReportView>) -> (AppView, StepView) {
    if s.pending.len() > 0 {
        (
            AppView {
                stage: Stage::Probing,
                current: s.pending.first(),
                pending: s.pending.drop_first(),
                ..s
            },
            StepView { action: ActionView::Probe(s.pending.first().path), report },
        )
    } else if s.watching {
        (AppView { stage: Stage::Receiving, ..s }, StepView { action: ActionView::Receive, report })
    } else {
        (
            AppView { stage: Stage::Registering, ..s },
            StepView { action: ActionView::Watch(s.directory), report },
        )
    }
}

/// The run begins a pass over the files among `paths` that belong to the
/// vendor's tools.
pub open spec fn update_icons(s: AppView, paths: Seq<PathView>) -> (AppView, StepView) {
    advance(AppView { pending: candidates(paths), ..s }, None)
}

/// The first step of a run.
pub open spec fn start(s: AppView) -> (AppView, StepView) {
    match s.command {
        CommandView::CopyService => ask(s, Stage::CopyingService, ActionView::CopyService),
        CommandView::Watch { config } => ask(
            s,
            Stage::LoadingConfig,
            ActionView::LoadConfig(config),
        ),
    }
}

/// The step after the service file was to be copied.
pub open spec fn copy_service(s: AppView, reply: ReplyView) -> (AppView, StepView) {
    match reply {
        ReplyView::Done => finish(s),
        _ => abort(s, Fatal::ServiceCopy),
    }
}

/// A step of the start-up of a run that watches. Whatever fails here ends the run.
pub open spec fn watch(s: AppView, reply: ReplyView) -> (AppView, StepView) {
    match (s.stage, reply) {
        (Stage::LoadingConfig, ReplyView::Config(rules)) => ask(
            AppView { rules, ..s },
            Stage::OpeningChannel,
            ActionView::OpenChannel,
        ),
        (Stage::LoadingConfig, _) => abort(s, Fatal::ConfigLoad),
        (Stage::OpeningChannel, ReplyView::Done) => ask(
            s,
            Stage::LocatingDirectory,
            ActionView::LocateDirectory,
        ),
        (Stage::LocatingDirectory, ReplyView::Directory(directory)) => ask(
            AppView { directory, ..s },
            Stage::Listing,
            ActionView::ListDirectory(directory),
        ),
        (Stage::Listing, ReplyView::Listing(paths)) => update_icons(s, paths),
        (Stage::Registering, ReplyView::Done) => (
            AppView { stage: Stage::Receiving, watching: true, ..s },
            StepView { action: ActionView::Receive, report: Some(ReportView::Watching) },
        ),
        _ => abort(s, Fatal::WatchSetup),
    }
}

/// The bytes that a reply hands over: those of a file that was read, and none
/// where the reply is any other.
pub open spec fn contents_of(reply: ReplyView) -> Option<Seq<u8>> {
    match reply {
        ReplyView::Contents(bytes) => Some(bytes),
        _ => None,
    }
}

/// A step of the work on the current file. Whatever fails here is reported,
/// and the run turns to the next file.
pub open spec fn update(s: AppView, reply: ReplyView) -> (AppView, StepView) {
    let path = s.current.path;
    match (s.stage, reply) {
        (Stage::Probing, ReplyView::Probed(true)) => ask(s, Stage::Parsing, ActionView::Read(path)),
        (Stage::Probing, _) => advance(s, None),
        (Stage::Parsing, _) => match parse(path, contents_of(reply)) {
            Err(e) => advance(s, Some(ReportView::ParseFailed(path, e))),
            Ok(entry) => match resolve(s.rules, entry.name) {
                None => advance(s, None),
                Some(icon) => if entry.icon == Some(icon) {
                    advance(s, None)
                } else {
                    ask(AppView { entry, icon, ..s }, Stage::Rereading, ActionView::Read(path))
                },
            },
        },
        (Stage::Rereading, _) => match apply(s.entry, s.icon, contents_of(reply)) {
            Ok(Some(text)) => ask(s, Stage::Writing, ActionView::Write(path, text)),
            Ok(None) => advance(s, None),
            Err(e) => advance(s, Some(ReportView::WriteFailed(path, e))),
        },
        (Stage::Writing, ReplyView::Done) => advance(s, Some(ReportView::Updated(s.entry.name))),
        _ => advance(s, Some(ReportView::WriteFailed(path, WriteError::WriteFailed))),
    }
}

/// The step after the wait for a notification.
pub open spec fn handle_event(s: AppView, reply: ReplyView) -> (AppView, StepView) {
    match reply {
        ReplyView::Changed(change) => if is_relevant(change) {
            update_icons(s, change.paths)
        } else {
            ask(s, Stage::Receiving, ActionView::Receive)
        },
        ReplyView::Closed => finish(s),
        _ => (s, StepView { action: ActionView::Receive, report: Some(ReportView::ChannelError) }),
    }
}

/// The step that a run takes on the driver's reply to its last action.
pub open spec fn step(s: AppView, reply: ReplyView) -> (AppView, StepView) {
    match s.stage {
        Stage::Created => start(s),
        Stage::CopyingService => copy_service(s, reply),
        Stage::LoadingConfig | Stage::OpeningChannel | Stage::LocatingDirectory | Stage::Listing
        | Stage::Registering => watch(s, reply),
        Stage::Probing | Stage::Parsing | Stage::Rereading | Stage::Writing => update(s, reply),
        Stage::Receiving => handle_event(s, reply),
        Stage::Stopped => (
            s,
            StepView {
                action: match s.failure {
                    None => ActionView::Finish,
                    Some(fatal) => ActionView::Abort(fatal),
                },
                report: None,
            },
        ),
    }
}

/// The bytes that a reply hands over.
fn contents(reply: &Reply) -> (bytes: Option<&[u8]>)
    ensures
        bytes_of(bytes) == contents_of(reply@),
{
    match reply {
        Reply::Contents(bytes) => Some(bytes.as_slice()),
        _ => None,
    }
}

/// A copy of a path.
fn copy_path(path: &WatchedPath) -> (copy: WatchedPath)
    ensures
        copy@ == path@,
{
    WatchedPath {
        path: path.path.clone(),
        file_name: match &path.file_name {
            Some(name) => Some(name.clone()),
            None => None,
        },
    }
}

impl App {
    /// A run for the task that the command line names. Nothing is asked for yet.
    pub fn new(cli: Cli) -> (app: App)
        ensures
            app@ == initial(cli@),
    {
        let app = App {
            cli,
            stage: Stage::Created,
            watching: false,
            config: Config { apps: Vec::new() },
            directory: String::new(),
            current: WatchedPath { path: String::new(), file_name: None },
            queue: Vec::new(),
            next: 0,
            entry: DesktopEntry { entry_path: String::new(), name: String::new(), icon: None },
            icon: String::new(),
            failure: None,
        };
        assert(app.config@ =~= Seq::<RuleView>::empty());
        assert(remaining(app.queue@, 0) =~= Seq::<PathView>::empty());
        app
    }

    /// Where the run stands.
    pub fn stage(&self) -> (stage: Stage)
        ensures
            stage == self@.stage,
    {
        self.stage
    }

    /// The phase of the run.
    pub fn phase(&self) -> (p: Phase)
        ensures
            p == phase(self@),
    {
        match self.stage {
            Stage::Stopped => Phase::Stopped,
            _ => if self.watching {
                Phase::Watching
            } else {
                Phase::Initializing
            },
        }
    }

    fn ask(self, stage: Stage, action: Action) -> (next: (App, Step))
        ensures
            (next.0@, next.1@) == ask(self@, stage, action@),
    {
        let mut app = self;
        app.stage = stage;
        (app, Step { action, report: None })
    }

    fn finish(self) -> (next: (App, Step))
        ensures
            (next.0@, next.1@) == finish(self@),
    {
        let mut app = self;
        app.failure = None;
        app.ask(Stage::Stopped, Action::Finish)
    }

    fn abort(self, fatal: Fatal) -> (next: (App, Step))
        ensures
            (next.0@, next.1@) == abort(self@, fatal),
    {
        let mut app = self;
        app.failure = Some(fatal);
        app.ask(Stage::Stopped, Action::Abort(fatal))
    }

    fn advance(self, report: Option<Report>) -> (next: (App, Step))
        ensures
            (next.0@, next.1@) == advance(self@, report_of(report)),
    {
        let mut app = self;
        if app.next < app.queue.len() {
            let ghost pending = remaining(app.queue@, app.next as int);
            assert(pending.first() == app.queue@[app.next as int]@);
            assert(pending.drop_first() =~= remaining(app.queue@, app.next + 1));
            app.current = copy_path(&app.queue[app.next]);
            app.next = app.next + 1;
            app.stage = Stage::Probing;
            let action = Action::Probe(app.current.path.clone());
            (app, Step { action, report })
        } else if app.watching {
            app.stage = Stage::Receiving;
            (app, Step { action: Action::Receive, report })
        } else {
            app.stage = Stage::Registering;
            let action = Action::Watch(app.directory.clone());
            (app, Step { action, report })
        }
    }

    fn update_icons(self, paths: Vec<WatchedPath>) -> (next: (App, Step))
        ensures
            (next.0@, next.1@) == update_icons(self@, paths@.map_values(|p: WatchedPath| p@)),
    {
        let mut app = self;
        app.queue = keep_candidates(paths);
        app.next = 0;
        assert(app.queue@.skip(0) =~= app.queue@);
        app.advance(None)
    }

    fn start(self) -> (next: (App, Step))
        ensures
            (next.0@, next.1@) == start(self@),
    {
        let action = match &self.cli.command {
            Command::CopyService => {
                return self.ask(Stage::CopyingService, Action::CopyService);
            },
            Command::Watch { config } => Action::LoadConfig(
                match config {
                    Some(path) => Some(path.clone()),
                    None => None,
                },
            ),
        };
        self.ask(Stage::LoadingConfig, action)
    }

    fn copy_service(self, reply: Reply) -> (next: (App, Step))
        ensures
            (next.0@, next.1@) == copy_service(self@, reply@),
    {
        match reply {
            Reply::Done => self.finish(),
            _ => self.abort(Fatal::ServiceCopy),
        }
    }

    fn watch(self, reply: Reply) -> (next: (App, Step))
        ensures
            (next.0@, next.1@) == watch(self@, reply@),
    {
        let mut app = self;
        match app.stage {
            Stage::LoadingConfig => match reply {
                Reply::Config(config) => {
                    app.config = config;
                    app.ask(Stage::OpeningChannel, Action::OpenChannel)
                },
                _ => app.abort(Fatal::ConfigLoad),
            },
            Stage::OpeningChannel => match reply {
                Reply::Done => app.ask(Stage::LocatingDirectory, Action::LocateDirectory),
                _ => app.abort(Fatal::WatchSetup),
            },
            Stage::LocatingDirectory => match reply {
                Reply::Directory(directory) => {
                    let action = Action::ListDirectory(directory.clone());
                    app.directory = directory;
                    app.ask(Stage::Listing, action)
                },
                _ => app.abort(Fatal::WatchSetup),
            },
            Stage::Listing => match reply {
                Reply::Listing(paths) => app.update_icons(paths),
                _ => app.abort(Fatal::WatchSetup),
            },
            Stage::Registering => match reply {
                Reply::Done => {
                    app.stage = Stage::Receiving;
                    app.watching = true;
                    (app, Step { action: Action::Receive, report: Some(Report::Watching) })
                },
                _ => app.abort(Fatal::WatchSetup),
            },
            _ => app.abort(Fatal::WatchSetup),
        }
    }

    fn update(self, reply: Reply) -> (next: (App, Step))
        ensures
            (next.0@, next.1@) == update(self@, reply@),
    {
        let mut app = self;
        let path = app.current.path.clone();
        match app.stage {
            Stage::Probing => match reply {
                Reply::Probed(true) => app.ask(Stage::Parsing, Action::Read(path)),
                _ => app.advance(None),
            },
            Stage::Parsing => match DesktopEntry::from_path(path.as_str(), contents(&reply)) {
                Err(e) => app.advance(Some(Report::ParseFailed(path, e))),
                Ok(entry) => {
                    let icon = match app.config.icon_name_for(entry.name.as_str()) {
                        None => {
                            return app.advance(None);
                        },
                        Some(icon) => {
                            if entry.has_icon(icon) {
                                return app.advance(None);
                            }
                            icon.to_owned()
                        },
                    };
                    app.entry = entry;
                    app.icon = icon;
                    app.ask(Stage::Rereading, Action::Read(path))
                },
            },
            Stage::Rereading => match app.entry.modify_icon(app.icon.as_str(), contents(&reply)) {
                Ok(Rewrite::Changed(text)) => app.ask(Stage::Writing, Action::Write(path, text)),
                Ok(Rewrite::Unchanged) => app.advance(None),
                Err(e) => app.advance(Some(Report::WriteFailed(path, e))),
            },
            Stage::Writing => match reply {
                Reply::Done => {
                    let name = app.entry.name.clone();
                    app.advance(Some(Report::Updated(name)))
                },
                _ => app.advance(Some(Report::WriteFailed(path, WriteError::WriteFailed))),
            },
            _ => app.advance(Some(Report::WriteFailed(path, WriteError::WriteFailed))),
        }
    }

    fn handle_event(self, reply: Reply) -> (next: (App, Step))
        ensures
            (next.0@, next.1@) == handle_event(self@, reply@),
    {
        match reply {
            Reply::Changed(change) => if change.is_relevant() {
                self.update_icons(change.paths)
            } else {
                self.ask(Stage::Receiving, Action::Receive)
            },
            Reply::Closed => self.finish(),
            _ => (self, Step { action: Action::Receive, report: Some(Report::ChannelError) }),
        }
    }

    /// Takes the driver's reply to the last action and gives the next step.
    ///
    /// The first call begins the run, whatever the reply. A reply that does
    /// not answer the action counts as that action having failed. Once the
    /// run is over, every call gives the action that ended it.
    pub fn run(self, reply: Reply) -> (next: (App, Step))
        ensures
            (next.0@, next.1@) == step(self@, reply@),
    {
        match self.stage {
            Stage::Created => self.start(),
            Stage::CopyingService => self.copy_service(reply),
            Stage::LoadingConfig => self.watch(reply),
            Stage::OpeningChannel => self.watch(reply),
            Stage::LocatingDirectory => self.watch(reply),
            Stage::Listing => self.watch(reply),
            Stage::Registering => self.watch(reply),
            Stage::Probing => self.update(reply),
            Stage::Parsing => self.update(reply),
            Stage::Rereading => self.update(reply),
            Stage::Writing => self.update(reply),
            Stage::Receiving => self.handle_event(reply),
            Stage::Stopped => {
                let action = match self.failure {
                    None => Action::Finish,
                    Some(fatal) => Action::Abort(fatal),
                };
                (self, Step { action, report: None })
            },
        }
    }
}

} // verus!
