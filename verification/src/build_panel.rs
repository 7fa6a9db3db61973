//! The game build panel: target choice, build phases, the build log and the
//! handling of the events that a background build sends.
use vstd::prelude::*;
use std::sync::mpsc::Receiver;
use crate::text::contains_text;
use crate::text::str_contains;

verus! {

#[verifier::external_type_specification]
#[verifier::external_body]
#[verifier::reject_recursive_types(T)]
pub struct ExReceiver<T>(Receiver<T>);

/// The platform a game is built for.
#[derive(Debug, Clone, Copy, PartialEq, Eq, Structural)]
pub enum BuildTarget {
    Windows,
    Android,
}

/// The phase of a build.
#[derive(Debug, Clone, Copy, PartialEq, Eq, Structural)]
pub enum BuildPhase {
    Idle,
    Checking,
    Compiling,
    Packaging,
    Done,
    Failed,
}

impl BuildPhase {
    /// The text shown for the phase.
    pub fn label(&self) -> (r: &str)
        ensures
            r@ == match *self {
                BuildPhase::Idle => "Idle"@,
                BuildPhase::Checking => "Checking toolchain..."@,
                BuildPhase::Compiling => "Compiling..."@,
                BuildPhase::Packaging => "Packaging..."@,
                BuildPhase::Done => "Done"@,
                BuildPhase::Failed => "Failed"@,
            },
    {
        match self {
            BuildPhase::Idle => "Idle",
            BuildPhase::Checking => "Checking toolchain...",
            BuildPhase::Compiling => "Compiling...",
            BuildPhase::Packaging => "Packaging...",
            BuildPhase::Done => "Done",
            BuildPhase::Failed => "Failed",
        }
    }

    /// Whether a build is running in this phase.
    pub fn is_active(&self) -> (r: bool)
        ensures
            r == phase_active(*self),
    {
        match self {
            BuildPhase::Checking | BuildPhase::Compiling | BuildPhase::Packaging => true,
            _ => false,
        }
    }
}

/// The phases of a running build.
pub open spec fn phase_active(p: BuildPhase) -> bool {
    p is Checking || p is Compiling || p is Packaging
}

/// What a background build reports.
#[derive(Debug)]
pub enum BuildEvent {
    PhaseChanged(BuildPhase),
    LogLine(String),
    /// The build ended: the exported path, or the reason of the failure.
    Finished(Result<String, String>),
}

/// The result of asking the channel for the next event.
pub enum ChannelPoll<T> {
    Message(T),
    Empty,
    Disconnected,
}

/// Calls `Receiver::try_recv`. Nothing is claimed of the outcome: it
/// depends on the thread at the other end.
#[verifier::external_body]
fn try_receive<T>(rx: &Receiver<T>) -> ChannelPoll<T> {
    match rx.try_recv() {
        Ok(v) => ChannelPoll::Message(v),
        Err(std::sync::mpsc::TryRecvError::Empty) => ChannelPoll::Empty,
        Err(std::sync::mpsc::TryRecvError::Disconnected) => ChannelPoll::Disconnected,
    }
}

/// The number of log lines the panel keeps.
pub const MAX_LOG_LINES: usize = 200;

/// The last `MAX_LOG_LINES` lines of a log.
pub open spec fn keep_last_lines(log: Seq<Seq<char>>) -> Seq<Seq<char>> {
    if log.len() > MAX_LOG_LINES {
        log.skip(log.len() - MAX_LOG_LINES)
    } else {
        log
    }
}

/// The abstract state of a [`BuildPanel`].
pub struct BuildView {
    pub visible: bool,
    pub target: BuildTarget,
    pub phase: BuildPhase,
    pub log: Seq<Seq<char>>,
    pub status: Option<Seq<char>>,
    pub success: bool,
    /// Whether a build is attached whose events are awaited.
    pub receiving: bool,
}

impl BuildView {
    /// The state after one event of the build.
    pub open spec fn after_event(self, e: BuildEvent) -> BuildView {
        match e {
            BuildEvent::PhaseChanged(p) => BuildView { phase: p, ..self },
            BuildEvent::LogLine(l) => BuildView { log: keep_last_lines(self.log.push(l@)), ..self },
            BuildEvent::Finished(Ok(path)) => BuildView {
                receiving: false,
                phase: BuildPhase::Done,
                status: Some("Export: "@ + path@),
                success: true,
                ..self
            },
            BuildEvent::Finished(Err(err)) => BuildView {
                receiving: false,
                phase: BuildPhase::Failed,
                status: Some(err@),
                success: false,
                ..self
            },
        }
    }

    /// The state after the build's channel closed.
    pub open spec fn after_disconnect(self) -> BuildView {
        if phase_active(self.phase) {
            BuildView {
                receiving: false,
                phase: BuildPhase::Failed,
                status: Some("Build thread terminated unexpectedly."@),
                success: false,
                ..self
            }
        } else {
            BuildView { receiving: false, ..self }
        }
    }
}

/// The state after the events `evs` of the build, in order.
pub open spec fn after_events(v: BuildView, evs: Seq<BuildEvent>) -> BuildView
    decreases evs.len(),
{
    if evs.len() == 0 {
        v
    } else {
        after_events(v, evs.drop_last()).after_event(evs.last())
    }
}

/// Whether `w` is what the panel in state `v` becomes by applying events of
/// the build in the order they were sent, of which only the last may be
/// the end of the build, possibly followed by the closing of its channel.
pub open spec fn reached_by_events(v: BuildView, w: BuildView) -> bool {
    exists|evs: Seq<BuildEvent>|
        (forall|i: int| 0 <= i < evs.len() - 1 ==> !(#[trigger] evs[i] is Finished)) && (w == #[trigger] after_events(
            v,
            evs,
        ) || w == after_events(v, evs).after_disconnect())
}

/// The floating panel that builds the game.
pub struct BuildPanel {
    /// Whether the panel is shown.
    pub visible: bool,
    selected_target: BuildTarget,
    build_phase: BuildPhase,
    log_lines: Vec<String>,
    status_message: Option<String>,
    is_success: bool,
    event_rx: Option<Receiver<BuildEvent>>,
}

/// The text of an optional string.
pub open spec fn opt_text(s: Option<String>) -> Option<Seq<char>> {
    match s {
        Some(t) => Some(t@),
        None => None,
    }
}

impl View for BuildPanel {
    type V = BuildView;

    closed spec fn view(&self) -> BuildView {
        BuildView {
            visible: self.visible,
            target: self.selected_target,
            phase: self.build_phase,
            log: self.log_lines@.map_values(|l: String| l@),
            status: opt_text(self.status_message),
            success: self.is_success,
            receiving: self.event_rx is Some,
        }
    }
}

impl BuildPanel {
    /// A hidden panel for Windows, idle, with an empty log.
    pub fn new() -> (p: Self)
        ensures
            !p@.visible,
            p@.target is Windows,
            p@.phase is Idle,
            p@.log.len() == 0,
            p@.status is None,
            !p@.success,
            !p@.receiving,
    {
        let p = BuildPanel {
            visible: false,
            selected_target: BuildTarget::Windows,
            build_phase: BuildPhase::Idle,
            log_lines: Vec::new(),
            status_message: None,
            is_success: false,
            event_rx: None,
        };
        assert(p@.log =~= Seq::<Seq<char>>::empty());
        p
    }

    /// Chooses the target and shows the panel.
    pub fn open_for_target(&mut self, target: BuildTarget)
        ensures
            final(self)@ == (BuildView { visible: true, target: target, ..old(self)@ }),
    {
        self.selected_target = target;
        self.visible = true;
    }

    /// The chosen target.
    pub fn selected_target(&self) -> (t: BuildTarget)
        ensures
            t == self@.target,
    {
        self.selected_target
    }

    /// Chooses the target.
    pub fn select_target(&mut self, target: BuildTarget)
        ensures
            final(self)@ == (BuildView { target: target, ..old(self)@ }),
    {
        self.selected_target = target;
    }

    /// The current phase.
    pub fn phase(&self) -> (p: BuildPhase)
        ensures
            p == self@.phase,
    {
        self.build_phase
    }

    /// The kept log lines, oldest first.
    pub fn log_lines(&self) -> (r: &[String])
        ensures
            r@.map_values(|l: String| l@) == self@.log,
    {
        self.log_lines.as_slice()
    }

    /// The status message and whether it reports a success.
    pub fn status(&self) -> (r: (Option<&str>, bool))
        ensures
            r.1 == self@.success,
            match self@.status {
                Some(t) => r.0 matches Some(s) && s@ == t,
                None => r.0 is None,
            },
    {
        let msg = match &self.status_message {
            Some(m) => Some(m.as_str()),
            None => None,
        };
        (msg, self.is_success)
    }

    /// Starts following a build that sends its events on `rx`: clears the
    /// log and the status and enters the checking phase.
    pub fn attach_build(&mut self, rx: Receiver<BuildEvent>)
        ensures
            final(self)@ == (BuildView {
                phase: BuildPhase::Checking,
                log: Seq::empty(),
                status: None,
                receiving: true,
                ..old(self)@
            }),
    {
        self.event_rx = Some(rx);
        self.log_lines = Vec::new();
        self.status_message = None;
        self.build_phase = BuildPhase::Checking;
        assert(self@.log =~= Seq::<Seq<char>>::empty());
    }

    /// Stops following the running build and reports the cancellation.
    pub fn cancel_build(&mut self)
        ensures
            final(self)@ == (BuildView {
                phase: BuildPhase::Idle,
                receiving: false,
                status: Some("Build cancelled."@),
                success: false,
                ..old(self)@
            }),
    {
        self.build_phase = BuildPhase::Idle;
        self.event_rx = None;
        self.status_message = Some(String::from_str("Build cancelled."));
        self.is_success = false;
        proof {
            reveal_strlit("Build cancelled.");
        }
    }

    /// Applies one event of the build; returns whether more events may
    /// follow (false once the build finished).
    pub fn handle_event(&mut self, event: BuildEvent) -> (more: bool)
        ensures
            final(self)@ == old(self)@.after_event(event),
            more == !(event is Finished),
    {
        let ghost e = event;
        match event {
            BuildEvent::PhaseChanged(phase) => {
                self.build_phase = phase;
                true
            },
            BuildEvent::LogLine(line) => {
                let ghost before = self@.log;
                self.log_lines.push(line);
                assert(self@.log =~= before.push(e->LogLine_0@));
                let ghost pushed = self@.log;
                if self.log_lines.len() > MAX_LOG_LINES {
                    let excess = self.log_lines.len() - MAX_LOG_LINES;
                    let mut k: usize = 0;
                    while k < excess
                        invariant
                            k <= excess,
                            excess == pushed.len() - MAX_LOG_LINES,
                            self@.log == pushed.skip(k as int),
                            self.log_lines@.len() == pushed.len() - k,
                            self@ == (BuildView { log: self@.log, ..old(self)@ }),
                        decreases excess - k,
                    {
                        let ghost cur = self@.log;
                        self.log_lines.remove(0);
                        assert(self@.log =~= cur.skip(1));
                        assert(pushed.skip(k as int).skip(1) =~= pushed.skip(k + 1));
                        k = k + 1;
                    }
                }
                true
            },
            BuildEvent::Finished(result) => {
                self.event_rx = None;
                match result {
                    Ok(path) => {
                        self.build_phase = BuildPhase::Done;
                        let mut msg = String::from_str("Export: ");
                        msg.append(path.as_str());
                        proof {
                            reveal_strlit("Export: ");
                        }
                        self.status_message = Some(msg);
                        self.is_success = true;
                    },
                    Err(err) => {
                        self.build_phase = BuildPhase::Failed;
                        self.status_message = Some(err);
                        self.is_success = false;
                    },
                }
                false
            },
        }
    }

    /// Handles the closing of the build's channel: a build that was still
    /// running is reported as failed.
    pub fn handle_disconnected(&mut self)
        ensures
            final(self)@ == old(self)@.after_disconnect(),
    {
        self.event_rx = None;
        if self.build_phase.is_active() {
            self.build_phase = BuildPhase::Failed;
            self.status_message = Some(String::from_str("Build thread terminated unexpectedly."));
            self.is_success = false;
            proof {
                reveal_strlit("Build thread terminated unexpectedly.");
            }
        }
    }

    /// Applies the events the build has sent so far (called every frame).
    /// Stops at the first moment no event is waiting, when the build
    /// finished, or when its channel closed.
    pub fn poll(&mut self)
        ensures
            !old(self)@.receiving ==> final(self)@ == old(self)@,
            reached_by_events(old(self)@, final(self)@),
            final(self)@.visible == old(self)@.visible,
            final(self)@.target == old(self)@.target,
            old(self)@.log.len() <= MAX_LOG_LINES ==> final(self)@.log.len() <= MAX_LOG_LINES,
    {
        let ghost mut evs: Seq<BuildEvent> = Seq::empty();
        proof {
            assert(after_events(old(self)@, evs) == old(self)@);
        }
        let mut budget: u64 = u64::MAX;
        while budget > 0
            invariant
                self@ == after_events(old(self)@, evs),
                forall|i: int| 0 <= i < evs.len() ==> !(#[trigger] evs[i] is Finished),
                self@.visible == old(self)@.visible,
                self@.target == old(self)@.target,
                old(self)@.log.len() <= MAX_LOG_LINES ==> self@.log.len() <= MAX_LOG_LINES,
                !old(self)@.receiving ==> self@ == old(self)@,
            decreases budget,
        {
            let polled = match &self.event_rx {
                None => {
                    return;
                },
                Some(rx) => try_receive(rx),
            };
            match polled {
                ChannelPoll::Message(event) => {
                    let ghost before = evs;
                    proof {
                        evs = evs.push(event);
                        assert(evs.drop_last() =~= before);
                    }
                    if !self.handle_event(event) {
                        proof {
                            assert forall|i: int| 0 <= i < evs.len() - 1 implies !(#[trigger] evs[i] is Finished) by {
                                assert(evs[i] == before[i]);
                            }
                        }
                        return;
                    }
                    proof {
                        assert forall|i: int| 0 <= i < evs.len() implies !(#[trigger] evs[i] is Finished) by {
                            if i < before.len() {
                                assert(evs[i] == before[i]);
                            }
                        }
                    }
                },
                ChannelPoll::Empty => {
                    return;
                },
                ChannelPoll::Disconnected => {
                    self.handle_disconnected();
                    return;
                },
            }
            budget = budget - 1;
        }
    }
}

/// Where a build of `project_name` for `target` is exported:
/// `{project_path}/export/{project_name}/{windows|android}`.
pub fn export_dir(project_path: &str, project_name: &str, target: BuildTarget) -> (r: String)
    ensures
        r@ == project_path@ + "/export/"@ + project_name@ + "/"@ + match target {
            BuildTarget::Windows => "windows"@,
            BuildTarget::Android => "android"@,
        },
{
    let mut r = String::from_str(project_path);
    r.append("/export/");
    r.append(project_name);
    r.append("/");
    match target {
        BuildTarget::Windows => r.append("windows"),
        BuildTarget::Android => r.append("android"),
    }
    r
}

/// The build log never holds more than `MAX_LOG_LINES` lines, and a new
/// line is always its last one.
pub proof fn log_stays_bounded(v: BuildView, line: String)
    ensures
        v.after_event(BuildEvent::LogLine(line)).log.len() <= MAX_LOG_LINES,
        v.after_event(BuildEvent::LogLine(line)).log.last() == line@,
{
    let pushed = v.log.push(line@);
    assert(pushed.last() == line@);
}

/// A finished build stops the panel from receiving, whatever its outcome,
/// and a success is reported exactly for an exported path.
pub proof fn finish_ends_the_build(v: BuildView, result: Result<String, String>)
    ensures
        !v.after_event(BuildEvent::Finished(result)).receiving,
        v.after_event(BuildEvent::Finished(result)).success == result is Ok,
        v.after_event(BuildEvent::Finished(result)).phase == if result is Ok {
            BuildPhase::Done
        } else {
            BuildPhase::Failed
        },
{
}

/// The message sent when the engine root does not exist.
pub fn missing_root_message() -> (r: String)
    ensures
        r@ == "Cannot determine engine root (set GEESE_ROOT env var)."@,
{
    String::from_str("Cannot determine engine root (set GEESE_ROOT env var).")
}

/// Whether the Android toolchain can build: `ndk_found` tells whether
/// `cargo ndk --version` could run, `installed_targets` is what
/// `rustup target list --installed` printed (`None` when it could not
/// run, which is not held against the build). Returns the reason to stop,
/// if any.
pub fn android_toolchain_problem(ndk_found: bool, installed_targets: Option<&str>) -> (r: Option<String>)
    ensures
        !ndk_found ==> opt_text(r) == Some(
            "cargo-ndk not installed. Run: cargo install cargo-ndk\nAlso ensure Android NDK is installed and ANDROID_NDK_HOME is set."@,
        ),
        ndk_found ==> match installed_targets {
            Some(t) => if contains_text(t@, "aarch64-linux-android"@) {
                r is None
            } else {
                opt_text(r) == Some("aarch64-linux-android target not installed.\nRun: rustup target add aarch64-linux-android"@)
            },
            None => r is None,
        },
{
    if !ndk_found {
        return Some(
            String::from_str(
                "cargo-ndk not installed. Run: cargo install cargo-ndk\nAlso ensure Android NDK is installed and ANDROID_NDK_HOME is set.",
            ),
        );
    }
    match installed_targets {
        Some(t) => {
            if str_contains(t, "aarch64-linux-android") {
                None
            } else {
                Some(String::from_str("aarch64-linux-android target not installed.\nRun: rustup target add aarch64-linux-android"))
            }
        },
        None => None,
    }
}

/// The first line a build logs for `target`.
pub open spec fn building_line(target: BuildTarget) -> Seq<char> {
    match target {
        BuildTarget::Windows => "Building for Windows..."@,
        BuildTarget::Android => "Building for Android..."@,
    }
}

/// Whether `e` logs the line `line`.
pub open spec fn logs(e: BuildEvent, line: Seq<char>) -> bool {
    e is LogLine && e->LogLine_0@ == line
}

/// Whether `e` ends the build with the failure `reason`.
pub open spec fn fails_with(e: BuildEvent, reason: Seq<char>) -> bool {
    e is Finished && e->Finished_0 is Err && e->Finished_0->Err_0@ == reason
}

/// The events a build for `target` sends first: the line naming the
/// target and, when the engine root does not exist, the failure that ends
/// the build there.
pub fn build_start_events(target: BuildTarget, root_exists: bool) -> (r: Vec<BuildEvent>)
    ensures
        r@.len() == if root_exists { 1int } else { 2int },
        logs(r@[0], building_line(target)),
        !root_exists ==> fails_with(r@[1], "Cannot determine engine root (set GEESE_ROOT env var)."@),
{
    let mut r: Vec<BuildEvent> = Vec::new();
    let line = match target {
        BuildTarget::Windows => String::from_str("Building for Windows..."),
        BuildTarget::Android => String::from_str("Building for Android..."),
    };
    r.push(BuildEvent::LogLine(line));
    if !root_exists {
        r.push(BuildEvent::Finished(Err(missing_root_message())));
    }
    r
}

/// The events of the Android toolchain check, given what it found (see
/// [`android_toolchain_problem`]), and whether the build goes on: the
/// cargo-ndk check is logged, then the target check when cargo-ndk was
/// found, then the failure that ends the build, if there is one.
pub fn android_check_events(ndk_found: bool, installed_targets: Option<&str>) -> (r: (Vec<BuildEvent>, bool))
    ensures
        logs(r.0@[0], "Checking cargo-ndk..."@),
        ndk_found ==> r.0@.len() >= 2 && logs(r.0@[1], "Checking aarch64-linux-android target..."@),
        r.0@.len() == 1 + (if ndk_found { 1int } else { 0int }) + (if r.1 { 0int } else { 1int }),
        !ndk_found ==> !r.1 && fails_with(
            r.0@[1],
            "cargo-ndk not installed. Run: cargo install cargo-ndk\nAlso ensure Android NDK is installed and ANDROID_NDK_HOME is set."@,
        ),
        ndk_found ==> match installed_targets {
            Some(t) => if contains_text(t@, "aarch64-linux-android"@) {
                r.1
            } else {
                !r.1 && fails_with(
                    r.0@[2],
                    "aarch64-linux-android target not installed.\nRun: rustup target add aarch64-linux-android"@,
                )
            },
            None => r.1,
        },
{
    let mut r: Vec<BuildEvent> = Vec::new();
    r.push(BuildEvent::LogLine(String::from_str("Checking cargo-ndk...")));
    if ndk_found {
        r.push(BuildEvent::LogLine(String::from_str("Checking aarch64-linux-android target...")));
    }
    let problem = android_toolchain_problem(ndk_found, installed_targets);
    match problem {
        Some(p) => {
            r.push(BuildEvent::Finished(Err(p)));
            (r, false)
        },
        None => (r, true),
    }
}

/// The events a build sends once the compiler finished: on success it
/// enters packaging; on failure it reports the failure and ends.
pub fn after_compile(success: bool) -> (r: Vec<BuildEvent>)
    ensures
        success ==> r@.len() == 1 && r@[0] == BuildEvent::PhaseChanged(BuildPhase::Packaging),
        !success ==> r@.len() == 2 && r@[0] == BuildEvent::PhaseChanged(BuildPhase::Failed) && (r@[1] is Finished
            && r@[1]->Finished_0 is Err && r@[1]->Finished_0->Err_0@ == "Build failed. Check log above for details."@),
{
    let mut r: Vec<BuildEvent> = Vec::new();
    if success {
        r.push(BuildEvent::PhaseChanged(BuildPhase::Packaging));
    } else {
        r.push(BuildEvent::PhaseChanged(BuildPhase::Failed));
        r.push(BuildEvent::Finished(Err(String::from_str("Build failed. Check log above for details."))));
    }
    r
}

/// The events a build sends once packaging finished: done with the
/// exported path, or failed with the reason.
pub fn after_package(result: Result<String, String>) -> (r: Vec<BuildEvent>)
    ensures
        r@.len() == 2,
        r@[0] == BuildEvent::PhaseChanged(if result is Ok { BuildPhase::Done } else { BuildPhase::Failed }),
        r@[1] == BuildEvent::Finished(result),
{
    let mut r: Vec<BuildEvent> = Vec::new();
    let phase = match &result {
        Ok(_) => BuildPhase::Done,
        Err(_) => BuildPhase::Failed,
    };
    r.push(BuildEvent::PhaseChanged(phase));
    r.push(BuildEvent::Finished(result));
    r
}

} // verus!
