//! What the user interface shows of a package and of its installation.
use vstd::prelude::*;

use crate::frontend::{
    conversation, ends_once, is_terminal, law_conversation_ends_once, reads_back, EventView,
    OutputView, ProgressEvent,
};
use crate::job::law_report_ends_conversation;
use crate::protocol::{install_command, progress_report, result_report};
use crate::session::{after_line, law_commands_understood, Outcome, SessionState};
use crate::size::{human_bytes, human_bytes_text};
use crate::text::{fill_placeholders, filled};

verus! {

/// What installing the package would do to the system.
#[derive(Debug, Clone, Copy, PartialEq, Eq, Structural)]
pub enum InstallAction {
    Install,
    ReInstall,
    Upgrade,
    Downgrade,
}

/// Whether the package can be installed.
#[derive(Debug, Clone, Copy, PartialEq, Eq, Structural)]
pub enum InstallStatus {
    OkToInstall,
    DependencyIssue,
    DiskSpaceInsufficient,
    Other,
}

/// How far the installation is.
#[derive(Debug, Clone, Copy, PartialEq, Eq, Structural)]
pub enum WorkStatus {
    Idle,
    Working,
    Done,
}

/// The state of the user interface.
#[derive(Debug)]
pub struct DebInstallerRust {
    pub package: String,
    pub pkg_version: String,
    pub pkg_description: String,
    pub pkg_size: String,
    pub path: String,
    pub action: InstallAction,
    pub message: String,
    /// In hundredths.
    pub progress: u32,
    pub status: InstallStatus,
    pub work_status: WorkStatus,
    pub has_error: bool,
}

/// The object of the user interface.
pub type DebInstaller = DebInstallerRust;

/// The state of the user interface, as values.
pub struct InstallerState {
    pub package: Seq<char>,
    pub pkg_version: Seq<char>,
    pub pkg_description: Seq<char>,
    pub pkg_size: Seq<char>,
    pub path: Seq<char>,
    pub action: InstallAction,
    pub message: Seq<char>,
    pub progress: u32,
    pub status: InstallStatus,
    pub work_status: WorkStatus,
    pub has_error: bool,
}

impl View for DebInstallerRust {
    type V = InstallerState;

    open spec fn view(&self) -> InstallerState {
        InstallerState {
            package: self.package@,
            pkg_version: self.pkg_version@,
            pkg_description: self.pkg_description@,
            pkg_size: self.pkg_size@,
            path: self.path@,
            action: self.action,
            message: self.message@,
            progress: self.progress,
            status: self.status,
            work_status: self.work_status,
            has_error: self.has_error,
        }
    }
}

/// The state before anything is known.
pub open spec fn initial_state() -> InstallerState {
    InstallerState {
        package: Seq::empty(),
        pkg_version: Seq::empty(),
        pkg_description: Seq::empty(),
        pkg_size: Seq::empty(),
        path: Seq::empty(),
        action: InstallAction::Install,
        message: Seq::empty(),
        progress: 0,
        status: InstallStatus::OkToInstall,
        work_status: WorkStatus::Idle,
        has_error: false,
    }
}

impl Default for DebInstallerRust {
    fn default() -> (installer: Self)
        ensures
            installer@ == initial_state(),
    {
        DebInstallerRust {
            package: String::new(),
            pkg_version: String::new(),
            pkg_description: String::new(),
            pkg_size: String::new(),
            message: String::new(),
            path: String::new(),
            progress: 0,
            action: InstallAction::Install,
            status: InstallStatus::OkToInstall,
            work_status: WorkStatus::Idle,
            has_error: false,
        }
    }
}

/// How the version in a package file compares to the installed one, by the rules of the package
/// manager.
#[derive(Debug, Clone, Copy, PartialEq, Eq, Structural)]
pub enum VersionOrder {
    Same,
    Newer,
    Older,
}

/// Why the package manager cannot bring in a package.
#[derive(Debug, Clone, Copy, PartialEq, Eq, Structural)]
pub enum ResolveError {
    DependencyIssue,
    DiskSpaceInsufficient,
    Other,
}

/// What the package manager knows of a package file.
#[derive(Debug)]
pub struct PackageInfo {
    pub name: String,
    pub version: String,
    pub summary: Option<String>,
    pub installed_size: u64,
    /// The comparison with the installed version, if the package is installed.
    pub installed: Option<VersionOrder>,
}

/// What came of asking the package manager about a package file.
#[derive(Debug)]
pub enum PackageProbe {
    /// It could not be started; this is its error.
    ManagerFailed(String),
    /// It found no package in the file.
    NotFound,
    /// It found a package, and tried to bring it in.
    Found { package: PackageInfo, resolution: Result<(), ResolveError> },
}

/// What installing a package would do, by how it compares to the installed version.
pub open spec fn action_for(installed: Option<VersionOrder>) -> InstallAction {
    match installed {
        None => InstallAction::Install,
        Some(VersionOrder::Same) => InstallAction::ReInstall,
        Some(VersionOrder::Newer) => InstallAction::Upgrade,
        Some(VersionOrder::Older) => InstallAction::Downgrade,
    }
}

/// Whether a package can be installed, by what came of bringing it in.
pub open spec fn status_for(resolution: Result<(), ResolveError>) -> InstallStatus {
    match resolution {
        Ok(()) => InstallStatus::OkToInstall,
        Err(ResolveError::DependencyIssue) => InstallStatus::DependencyIssue,
        Err(ResolveError::DiskSpaceInsufficient) => InstallStatus::DiskSpaceInsufficient,
        Err(ResolveError::Other) => InstallStatus::Other,
    }
}

/// Decides what installing a package would do.
pub fn choose_action(installed: Option<VersionOrder>) -> (action: InstallAction)
    ensures
        action == action_for(installed),
{
    match installed {
        None => InstallAction::Install,
        Some(VersionOrder::Same) => InstallAction::ReInstall,
        Some(VersionOrder::Newer) => InstallAction::Upgrade,
        Some(VersionOrder::Older) => InstallAction::Downgrade,
    }
}

/// Decides whether a package can be installed.
pub fn choose_status(resolution: Result<(), ResolveError>) -> (status: InstallStatus)
    ensures
        status == status_for(resolution),
{
    match resolution {
        Ok(()) => InstallStatus::OkToInstall,
        Err(ResolveError::DependencyIssue) => InstallStatus::DependencyIssue,
        Err(ResolveError::DiskSpaceInsufficient) => InstallStatus::DiskSpaceInsufficient,
        Err(ResolveError::Other) => InstallStatus::Other,
    }
}

/// A state that shows a package, its size given as text.
pub open spec fn with_package(
    state: InstallerState,
    path: Seq<char>,
    package: PackageInfo,
    size: Seq<char>,
    resolution: Result<(), ResolveError>,
) -> InstallerState {
    InstallerState {
        package: package.name@,
        pkg_version: package.version@,
        pkg_description: match package.summary {
            Some(summary) => summary@,
            None => Seq::empty(),
        },
        pkg_size: size,
        path,
        action: action_for(package.installed),
        status: status_for(resolution),
        ..state
    }
}

/// A state after the package manager was asked about the package file. A file without a package
/// changes nothing.
pub open spec fn loaded(
    state: InstallerState,
    path: Seq<char>,
    probe: PackageProbe,
) -> InstallerState {
    match probe {
        PackageProbe::ManagerFailed(error) => InstallerState {
            message: error@,
            status: InstallStatus::Other,
            ..state
        },
        PackageProbe::NotFound => state,
        PackageProbe::Found { package, resolution } => with_package(
            state,
            path,
            package,
            human_bytes_text(package.installed_size),
            resolution,
        ),
    }
}

/// A state after the user has asked for the installation, and the path to hand to the backend.
/// While an installation is under way, nothing changes and no second one starts.
pub open spec fn started(state: InstallerState) -> (InstallerState, Option<Seq<char>>) {
    if state.work_status == WorkStatus::Working {
        (state, None)
    } else {
        (
            InstallerState {
                work_status: WorkStatus::Working,
                progress: 0,
                message: "Connecting to backend..."@,
                ..state
            },
            Some(state.path),
        )
    }
}

/// A state after a progress event.
pub open spec fn shown(state: InstallerState, event: EventView) -> InstallerState {
    match event {
        EventView::Percent(percent) => InstallerState { progress: percent, ..state },
        EventView::Message(text) => InstallerState { message: text, ..state },
        EventView::Done => InstallerState { work_status: WorkStatus::Done, ..state },
        EventView::Error(_) => InstallerState {
            has_error: true,
            work_status: WorkStatus::Done,
            ..state
        },
    }
}

impl DebInstallerRust {
    /// Takes in what the package manager knows of the package file.
    pub fn load_package_info(&mut self, path: &str, probe: PackageProbe)
        ensures
            final(self)@ == loaded(old(self)@, path@, probe),
    {
        match probe {
            PackageProbe::ManagerFailed(error) => {
                self.message = error;
                self.status = InstallStatus::Other;
            },
            PackageProbe::NotFound => {},
            PackageProbe::Found { package, resolution } => {
                let size: String = human_bytes(package.installed_size);
                self.show_package(path, package, size, resolution);
            },
        }
    }

    /// Shows a package, its size given as text.
    pub fn show_package(
        &mut self,
        path: &str,
        package: PackageInfo,
        size: String,
        resolution: Result<(), ResolveError>,
    )
        ensures
            final(self)@ == with_package(old(self)@, path@, package, size@, resolution),
    {
        self.action = choose_action(package.installed);
        self.status = choose_status(resolution);
        self.package = package.name;
        self.pkg_version = package.version;
        self.pkg_description = match package.summary {
            Some(summary) => summary,
            None => String::new(),
        };
        self.pkg_size = size;
        self.path = path.to_owned();
    }

    /// Takes in that the user asks for the installation. Where one is to start, returns the path
    /// to hand to the backend.
    pub fn install(&mut self) -> (path: Option<String>)
        ensures
            final(self)@ == started(old(self)@).0,
            match path {
                Some(path) => started(old(self)@).1 == Some(path@),
                None => started(old(self)@).1 is None,
            },
    {
        if self.work_status == WorkStatus::Working {
            return None;
        }
        self.work_status = WorkStatus::Working;
        self.progress = 0;
        self.message = "Connecting to backend...".to_owned();
        Some(self.path.clone())
    }

    /// Takes in a progress event.
    pub fn show_event(&mut self, event: ProgressEvent)
        ensures
            final(self)@ == shown(old(self)@, event@),
    {
        match event {
            ProgressEvent::Percent(percent) => {
                self.progress = percent;
            },
            ProgressEvent::Message(text) => {
                self.message = text;
            },
            ProgressEvent::Done => {
                self.work_status = WorkStatus::Done;
            },
            ProgressEvent::Error(_) => {
                self.has_error = true;
                self.work_status = WorkStatus::Done;
            },
        }
    }

    /// A text to show: a translated format with every `{}` replaced.
    pub fn i18n_with_arg(&mut self, format: &str, arg: &str) -> (translation: String)
        ensures
            *final(self) == *old(self),
            translation@ == filled(format@, arg@),
    {
        fill_placeholders(format, arg)
    }
}

/// A state after a row of progress events.
pub open spec fn shown_all(state: InstallerState, events: Seq<EventView>) -> InstallerState
    decreases events.len(),
{
    if events.len() == 0 {
        state
    } else {
        shown(shown_all(state, events.drop_last()), events.last())
    }
}

/// A state with the same package as another: what is known of it, where it lies, and what
/// installing it would do.
pub open spec fn same_package(a: InstallerState, b: InstallerState) -> bool {
    &&& a.package == b.package
    &&& a.pkg_version == b.pkg_version
    &&& a.pkg_description == b.pkg_description
    &&& a.pkg_size == b.pkg_size
    &&& a.path == b.path
    &&& a.action == b.action
    &&& a.status == b.status
}

/// Asking twice for an installation starts one.
pub proof fn law_no_second_install(state: InstallerState)
    ensures
        started(started(state).0) == (started(state).0, None::<Seq<char>>),
{
}

/// An error that has been shown stays: neither a later event, nor a later installation, nor a
/// later look at the package takes it away.
pub proof fn law_error_stays(
    state: InstallerState,
    event: EventView,
    path: Seq<char>,
    probe: PackageProbe,
)
    requires
        state.has_error,
    ensures
        shown(state, event).has_error,
        started(state).0.has_error,
        loaded(state, path, probe).has_error,
{
}

/// What a row of events of which only the last can be terminal does to the state.
proof fn lemma_shown_all(state: InstallerState, events: Seq<EventView>)
    requires
        forall|i: int| 0 <= i < events.len() - 1 ==> !is_terminal(#[trigger] events[i]),
    ensures
        ({
            let end = shown_all(state, events);
            let over = events.len() > 0 && is_terminal(events.last());
            &&& same_package(end, state)
            &&& end.work_status == if over {
                WorkStatus::Done
            } else {
                state.work_status
            }
            &&& end.has_error == (state.has_error || over && events.last() is Error)
        }),
    decreases events.len(),
{
    if events.len() > 0 {
        let before = events.drop_last();
        assert forall|i: int| 0 <= i < before.len() implies !is_terminal(#[trigger] before[i]) by {
            assert(before[i] == events[i]);
        }
        lemma_shown_all(state, before);
    }
}

/// Whatever a backend writes, the user interface shows the installation as under way until the
/// conversation is over and as done from then on, with an error if and only if it ended in one or
/// had been shown before; and it still shows the same package.
pub proof fn law_interface_follows_backend(state: InstallerState, outputs: Seq<OutputView>)
    ensures
        ({
            let talk = conversation(outputs);
            let end = shown_all(started(state).0, talk.events);
            &&& same_package(end, state)
            &&& end.work_status == if talk.finished {
                WorkStatus::Done
            } else {
                WorkStatus::Working
            }
            &&& end.has_error == (state.has_error || talk.finished && talk.events.last() is Error)
        }),
{
    law_conversation_ends_once(outputs);
    assert(ends_once(conversation(outputs)));
    lemma_shown_all(started(state).0, conversation(outputs).events);
}

/// What the report of a finished installation makes the user interface show, where there are no
/// escape sequences to strip off it: everything done, and on failure the error. Left out is the
/// error `ok`, whose report is the one for success.
pub proof fn law_report_shown(state: InstallerState, outcome: Option<Seq<char>>)
    requires
        outcome != Some("ok"@),
    ensures
        reads_back(outcome) ==> shown_all(
            state,
            conversation(
                seq![
                    OutputView::Line(progress_report(100)),
                    OutputView::Line(result_report(outcome)),
                ],
            ).events,
        ) == match outcome {
            None => InstallerState { progress: 100, work_status: WorkStatus::Done, ..state },
            Some(error) => InstallerState {
                progress: 100,
                message: error,
                has_error: true,
                work_status: WorkStatus::Done,
                ..state
            },
        },
{
    law_report_ends_conversation(outcome);
    let events = conversation(
        seq![
            OutputView::Line(progress_report(100)),
            OutputView::Line(result_report(outcome)),
        ],
    ).events;
    reveal_with_fuel(shown_all, 4);
    if reads_back(outcome) {
        match outcome {
            None => {
                assert(events.drop_last() =~= seq![EventView::Percent(100)]);
                assert(events.drop_last().drop_last() =~= Seq::<EventView>::empty());
            },
            Some(error) => {
                let messages = seq![EventView::Percent(100), EventView::Message(error)];
                assert(events.drop_last() =~= messages);
                assert(messages.drop_last() =~= seq![EventView::Percent(100)]);
                assert(messages.drop_last().drop_last() =~= Seq::<EventView>::empty());
            },
        }
    }
}

/// A package that was found is shown as it is, all of it: its name, version and summary, its size
/// and its path. Whether it can be installed follows from how its dependencies resolved, and from
/// nothing else; what installing it would do follows from the installed version, and from nothing
/// else. What is shown of an installation stays.
pub proof fn law_package_shown(
    state: InstallerState,
    path: Seq<char>,
    package: PackageInfo,
    size: Seq<char>,
    resolution: Result<(), ResolveError>,
)
    ensures
        ({
            let end = with_package(state, path, package, size, resolution);
            &&& end.package == package.name@
            &&& end.pkg_version == package.version@
            &&& package.summary matches Some(summary) ==> end.pkg_description == summary@
            &&& package.summary is None ==> end.pkg_description.len() == 0
            &&& end.pkg_size == size
            &&& end.path == path
            &&& end.status == InstallStatus::OkToInstall <==> resolution is Ok
            &&& end.status == InstallStatus::DependencyIssue <==> resolution == Err::<(), _>(
                ResolveError::DependencyIssue,
            )
            &&& end.status == InstallStatus::DiskSpaceInsufficient <==> resolution == Err::<(), _>(
                ResolveError::DiskSpaceInsufficient,
            )
            &&& end.action == InstallAction::Install <==> package.installed is None
            &&& end.action == InstallAction::ReInstall <==> package.installed == Some(
                VersionOrder::Same,
            )
            &&& end.action == InstallAction::Upgrade <==> package.installed == Some(
                VersionOrder::Newer,
            )
            &&& end.message == state.message
            &&& end.progress == state.progress
            &&& end.work_status == state.work_status
            &&& end.has_error == state.has_error
        }),
        loaded(state, path, PackageProbe::Found { package, resolution }) == with_package(
            state,
            path,
            package,
            human_bytes_text(package.installed_size),
            resolution,
        ),
{
}

/// A decision is the same wherever it is shown: by the resolution alone, and by the installed
/// version alone.
pub proof fn law_decisions(installed: Option<VersionOrder>, resolution: Result<(), ResolveError>)
    ensures
        status_for(resolution) == InstallStatus::OkToInstall <==> resolution is Ok,
        status_for(resolution) == InstallStatus::DependencyIssue <==> resolution == Err::<(), _>(
            ResolveError::DependencyIssue,
        ),
        status_for(resolution) == InstallStatus::DiskSpaceInsufficient <==> resolution == Err::<
            (),
            _,
        >(ResolveError::DiskSpaceInsufficient),
        action_for(installed) == InstallAction::Install <==> installed is None,
        action_for(installed) == InstallAction::ReInstall <==> installed == Some(
            VersionOrder::Same,
        ),
        action_for(installed) == InstallAction::Upgrade <==> installed == Some(
            VersionOrder::Newer,
        ),
{
}

/// Where there is no package to show, what was shown of one stays: a package manager that failed
/// shows its whole error and leaves nothing to install, and a file without a package changes
/// nothing.
pub proof fn law_nothing_to_show(state: InstallerState, path: Seq<char>, error: String)
    ensures
        loaded(state, path, PackageProbe::NotFound) == state,
        ({
            let end = loaded(state, path, PackageProbe::ManagerFailed(error));
            &&& end.message == error@
            &&& end.status == InstallStatus::Other
            &&& end == (InstallerState { message: end.message, status: end.status, ..state })
        }),
{
}

/// Unless an installation is under way, one starts, and the path that is shown goes to the backend,
/// character for character; it is the path that the package was loaded from, and the one that a
/// backend which knows the front end asks for when it reads the front end's command. While one is
/// under way, nothing starts and nothing changes.
pub proof fn law_shown_package_is_installed(
    state: InstallerState,
    path: Seq<char>,
    package: PackageInfo,
    resolution: Result<(), ResolveError>,
    token: Seq<char>,
    pid: u32,
)
    requires
        token.len() > 0,
        !token.contains(' '),
    ensures
        state.work_status != WorkStatus::Working ==> {
            let shown = loaded(state, path, PackageProbe::Found { package, resolution });
            let known = SessionState { token, frontend_pid: Some(pid) };
            &&& started(state).1 == Some(state.path)
            &&& started(shown).1 == Some(path)
            &&& after_line(known, install_command(token, started(shown).1->0)).1
                == Outcome::VerifyFrontend(pid, path)
        },
        state.work_status == WorkStatus::Working ==> started(state).1 is None && started(state).0
            == state,
{
    law_commands_understood(token, pid, path);
}

/// An installation that starts is shown as under way and as not advanced, and nothing else of the
/// state changes.
pub proof fn law_start_shown(state: InstallerState)
    ensures
        state.work_status != WorkStatus::Working ==> {
            let end = started(state).0;
            &&& end.work_status == WorkStatus::Working
            &&& end.progress == 0
            &&& end.message == "Connecting to backend..."@
            &&& end.has_error == state.has_error
            &&& same_package(end, state)
        },
{
}

/// Whatever was shown before: after a row of events the progress is that of the last percentage in
/// the row and the message is the last one in the row, each unchanged where the row has none.
pub proof fn law_last_event_shown(
    state: InstallerState,
    before: Seq<EventView>,
    percent: u32,
    text: Seq<char>,
    after: Seq<EventView>,
)
    ensures
        (forall|i: int| 0 <= i < after.len() ==> !((#[trigger] after[i]) is Percent)) ==> {
            &&& shown_all(state, after).progress == state.progress
            &&& shown_all(state, before.push(EventView::Percent(percent)) + after).progress
                == percent
        },
        (forall|i: int| 0 <= i < after.len() ==> !((#[trigger] after[i]) is Message)) ==> {
            &&& shown_all(state, after).message == state.message
            &&& shown_all(state, before.push(EventView::Message(text)) + after).message == text
        },
    decreases after.len(),
{
    let percented = before.push(EventView::Percent(percent));
    let messaged = before.push(EventView::Message(text));
    if after.len() == 0 {
        assert(percented + after =~= percented);
        assert(messaged + after =~= messaged);
        assert(percented.drop_last() =~= before);
        assert(messaged.drop_last() =~= before);
    } else {
        let fewer = after.drop_last();
        law_last_event_shown(state, before, percent, text, fewer);
        assert((percented + after).drop_last() =~= percented + fewer);
        assert((messaged + after).drop_last() =~= messaged + fewer);
        assert((percented + after).last() == after.last());
        assert((messaged + after).last() == after.last());
        assert(after.last() == after[after.len() - 1]);
        assert forall|i: int| 0 <= i < fewer.len() implies fewer[i] == #[trigger] after[i] by {}
        assert((forall|i: int| 0 <= i < after.len() ==> !((#[trigger] after[i]) is Percent)) ==> (
        forall|i: int| 0 <= i < fewer.len() ==> !((#[trigger] fewer[i]) is Percent)));
        assert((forall|i: int| 0 <= i < after.len() ==> !((#[trigger] after[i]) is Message)) ==> (
        forall|i: int| 0 <= i < fewer.len() ==> !((#[trigger] fewer[i]) is Message)));
    }
}

/// One event changes what it is about, to what it says, in every state, and nothing else: a
/// percentage the progress, a message the message, and the end of an installation that it is done,
/// with an error if it failed.
pub proof fn law_event_shown(state: InstallerState, percent: u32, text: Seq<char>)
    ensures
        ({
            let end = shown(state, EventView::Percent(percent));
            end.progress == percent && end == (InstallerState { progress: end.progress, ..state })
        }),
        ({
            let end = shown(state, EventView::Message(text));
            end.message == text && end == (InstallerState { message: end.message, ..state })
        }),
        ({
            let end = shown(state, EventView::Done);
            &&& end.work_status == WorkStatus::Done
            &&& end == (InstallerState { work_status: end.work_status, ..state })
        }),
        ({
            let end = shown(state, EventView::Error(text));
            &&& end.work_status == WorkStatus::Done
            &&& end.has_error
            &&& end == (InstallerState {
                work_status: end.work_status,
                has_error: end.has_error,
                ..state
            })
        }),
{
}

/// The state is shown as it is, with nothing left out.
pub proof fn law_state_shown(installer: DebInstallerRust)
    ensures
        installer@.package == installer.package@,
        installer@.pkg_version == installer.pkg_version@,
        installer@.pkg_description == installer.pkg_description@,
        installer@.pkg_size == installer.pkg_size@,
        installer@.path == installer.path@,
        installer@.action == installer.action,
        installer@.message == installer.message@,
        installer@.progress == installer.progress,
        installer@.status == installer.status,
        installer@.work_status == installer.work_status,
        installer@.has_error == installer.has_error,
{
}

/// Before anything is known, every text is empty, nothing has advanced or failed, and nothing is
/// under way.
pub proof fn law_nothing_known()
    ensures
        ({
            let state = initial_state();
            &&& state.package.len() == 0
            &&& state.pkg_version.len() == 0
            &&& state.pkg_description.len() == 0
            &&& state.pkg_size.len() == 0
            &&& state.path.len() == 0
            &&& state.message.len() == 0
            &&& state.progress == 0
            &&& state.action == InstallAction::Install
            &&& state.status == InstallStatus::OkToInstall
            &&& state.work_status == WorkStatus::Idle
            &&& !state.has_error
        }),
{
}

} // verus!
