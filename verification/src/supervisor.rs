//! Process supervision: the state machine that watches a running server's
//! console, detects the license-rejection message, and drives the
//! terminate–remediate–rerun cycle.  The machine decides; the surrounding
//! binary spawns the child, reads its lines, performs each action, and
//! feeds the next event back in.

use vstd::prelude::*;

use crate::server::Server;
use crate::text;

verus! {

/// The console line the child emits when its license is not yet accepted.
pub open spec fn spec_rejection_message() -> Seq<char> {
    "You need to agree to the EULA in order to run the server. Go to eula.txt for more info."@
}

/// The license-rejection message.
pub fn license_rejection_message() -> (r: &'static str)
    ensures
        r@ == spec_rejection_message(),
{
    "You need to agree to the EULA in order to run the server. Go to eula.txt for more info."
}

/// A console line reports the rejection when it contains the message.
pub open spec fn spec_is_rejection(line: Seq<char>) -> bool {
    text::contains_seq(line, spec_rejection_message())
}

/// Detects the license-rejection message in a console line.  No other line
/// content affects control flow.
pub fn is_license_rejection(line: &str) -> (r: bool)
    ensures
        r == spec_is_rejection(line@),
{
    text::contains_str(line, license_rejection_message())
}

/// How a supervised run ends.
#[derive(Debug, Clone, Copy, PartialEq, Eq, Structural)]
pub enum RunOutcome {
    /// The child ran through and exited with this code.
    Exited(i32),
    /// The license was rejected and the user declined to accept it: an
    /// expected terminal outcome, not a crash.
    LicenseNotAccepted,
    /// The executable could not be started.
    SpawnFailed,
    /// Reading the child's console failed.
    IoError,
}

/// Where the supervisor stands.
#[derive(Debug, Clone, Copy, PartialEq, Eq, Structural)]
pub enum SupervisorState {
    /// The child is being spawned.
    Launching { auto_accept: bool },
    /// Console lines are being read and echoed.
    Streaming { auto_accept: bool },
    /// The rejection was seen and the user is being asked.
    AwaitingAnswer,
    /// The license is being accepted and an inner run started; the inner
    /// run never remediates again, so one invocation restarts at most once.
    Remediating,
    /// The console closed; the child's exit status is awaited.
    AwaitingExit,
    /// The run is over.
    Terminated { outcome: RunOutcome },
}

/// What the world reports to the supervisor.
#[derive(Debug, Clone, PartialEq, Eq)]
pub enum SupervisorEvent {
    Spawned,
    SpawnFailed,
    Line { text: String },
    OutputClosed,
    ReadFailed,
    AnswerYes,
    AnswerNo,
    InnerDone { outcome: RunOutcome },
    Exited { code: i32 },
}

/// What the supervisor asks the world to do.
#[derive(Debug, Clone, PartialEq, Eq)]
pub enum SupervisorAction {
    /// Forward this console line to the caller's output.
    Echo { text: String },
    /// Ask the controlling terminal for a yes/no decision.
    Prompt,
    /// Terminate the child process.
    Kill,
    /// Flip the license file from rejected to accepted.
    FlipLicense,
    /// Run the server again with automatic acceptance off, and feed the
    /// outcome back as `InnerDone`.
    Rerun,
    /// Wait for the child to exit and feed `Exited` back.
    AwaitExit,
}

/// An event's content.
pub enum EventV {
    Spawned,
    SpawnFailed,
    Line(Seq<char>),
    OutputClosed,
    ReadFailed,
    AnswerYes,
    AnswerNo,
    InnerDone(RunOutcome),
    Exited(i32),
}

/// An action's content.
pub enum ActionV {
    Echo(Seq<char>),
    Prompt,
    Kill,
    FlipLicense,
    Rerun,
    AwaitExit,
}

impl SupervisorEvent {
    /// The event's content.
    pub open spec fn dv(&self) -> EventV {
        match self {
            SupervisorEvent::Spawned => EventV::Spawned,
            SupervisorEvent::SpawnFailed => EventV::SpawnFailed,
            SupervisorEvent::Line { text } => EventV::Line(text@),
            SupervisorEvent::OutputClosed => EventV::OutputClosed,
            SupervisorEvent::ReadFailed => EventV::ReadFailed,
            SupervisorEvent::AnswerYes => EventV::AnswerYes,
            SupervisorEvent::AnswerNo => EventV::AnswerNo,
            SupervisorEvent::InnerDone { outcome } => EventV::InnerDone(*outcome),
            SupervisorEvent::Exited { code } => EventV::Exited(*code),
        }
    }
}

impl SupervisorAction {
    /// The action's content.
    pub open spec fn dv(&self) -> ActionV {
        match self {
            SupervisorAction::Echo { text } => ActionV::Echo(text@),
            SupervisorAction::Prompt => ActionV::Prompt,
            SupervisorAction::Kill => ActionV::Kill,
            SupervisorAction::FlipLicense => ActionV::FlipLicense,
            SupervisorAction::Rerun => ActionV::Rerun,
            SupervisorAction::AwaitExit => ActionV::AwaitExit,
        }
    }
}

/// The transition table.  Launch, then stream: an ordinary line is echoed
/// as it stands; the rejection line kills the child and either remediates
/// at once (`auto_accept`) or asks first; a "no" ends the run with
/// `LicenseNotAccepted`.  Remediation reruns with `auto_accept` off, so the
/// chain restarts at most once, and the inner outcome becomes the run's.
/// An event that does not belong to the state changes nothing.
pub open spec fn spec_step(s: SupervisorState, e: EventV) -> (SupervisorState, Seq<ActionV>) {
    match (s, e) {
        (SupervisorState::Launching { auto_accept }, EventV::Spawned) => (
            SupervisorState::Streaming { auto_accept },
            Seq::empty(),
        ),
        (SupervisorState::Launching { .. }, EventV::SpawnFailed) => (
            SupervisorState::Terminated { outcome: RunOutcome::SpawnFailed },
            Seq::empty(),
        ),
        (SupervisorState::Streaming { auto_accept }, EventV::Line(t)) => {
            if spec_is_rejection(t) {
                if auto_accept {
                    (
                        SupervisorState::Remediating,
                        seq![ActionV::Kill, ActionV::FlipLicense, ActionV::Rerun],
                    )
                } else {
                    (SupervisorState::AwaitingAnswer, seq![ActionV::Prompt])
                }
            } else {
                (SupervisorState::Streaming { auto_accept }, seq![ActionV::Echo(t)])
            }
        },
        (SupervisorState::Streaming { .. }, EventV::OutputClosed) => (
            SupervisorState::AwaitingExit,
            seq![ActionV::AwaitExit],
        ),
        (SupervisorState::Streaming { .. }, EventV::ReadFailed) => (
            SupervisorState::Terminated { outcome: RunOutcome::IoError },
            Seq::empty(),
        ),
        (SupervisorState::AwaitingAnswer, EventV::AnswerYes) => (
            SupervisorState::Remediating,
            seq![ActionV::Kill, ActionV::FlipLicense, ActionV::Rerun],
        ),
        (SupervisorState::AwaitingAnswer, EventV::AnswerNo) => (
            SupervisorState::Terminated { outcome: RunOutcome::LicenseNotAccepted },
            seq![ActionV::Kill],
        ),
        (SupervisorState::Remediating, EventV::InnerDone(o)) => (
            SupervisorState::Terminated { outcome: o },
            Seq::empty(),
        ),
        (SupervisorState::AwaitingExit, EventV::Exited(c)) => (
            SupervisorState::Terminated { outcome: RunOutcome::Exited(c) },
            Seq::empty(),
        ),
        _ => (s, Seq::empty()),
    }
}

/// One step of the supervisor.
pub fn step(state: &SupervisorState, event: &SupervisorEvent) -> (r: (
    SupervisorState,
    Vec<SupervisorAction>,
))
    ensures
        r.0 == spec_step(*state, event.dv()).0,
        Seq::new(r.1@.len(), |i: int| r.1@[i].dv()) == spec_step(*state, event.dv()).1,
{
    let mut actions: Vec<SupervisorAction> = Vec::new();
    let next: SupervisorState;
    match (state, event) {
        (SupervisorState::Launching { auto_accept }, SupervisorEvent::Spawned) => {
            next = SupervisorState::Streaming { auto_accept: *auto_accept };
        },
        (SupervisorState::Launching { .. }, SupervisorEvent::SpawnFailed) => {
            next = SupervisorState::Terminated { outcome: RunOutcome::SpawnFailed };
        },
        (SupervisorState::Streaming { auto_accept }, SupervisorEvent::Line { text }) => {
            if is_license_rejection(text.as_str()) {
                if *auto_accept {
                    next = SupervisorState::Remediating;
                    actions.push(SupervisorAction::Kill);
                    actions.push(SupervisorAction::FlipLicense);
                    actions.push(SupervisorAction::Rerun);
                } else {
                    next = SupervisorState::AwaitingAnswer;
                    actions.push(SupervisorAction::Prompt);
                }
            } else {
                next = SupervisorState::Streaming { auto_accept: *auto_accept };
                actions.push(SupervisorAction::Echo { text: text.clone() });
            }
        },
        (SupervisorState::Streaming { .. }, SupervisorEvent::OutputClosed) => {
            next = SupervisorState::AwaitingExit;
            actions.push(SupervisorAction::AwaitExit);
        },
        (SupervisorState::Streaming { .. }, SupervisorEvent::ReadFailed) => {
            next = SupervisorState::Terminated { outcome: RunOutcome::IoError };
        },
        (SupervisorState::AwaitingAnswer, SupervisorEvent::AnswerYes) => {
            next = SupervisorState::Remediating;
            actions.push(SupervisorAction::Kill);
            actions.push(SupervisorAction::FlipLicense);
            actions.push(SupervisorAction::Rerun);
        },
        (SupervisorState::AwaitingAnswer, SupervisorEvent::AnswerNo) => {
            next = SupervisorState::Terminated { outcome: RunOutcome::LicenseNotAccepted };
            actions.push(SupervisorAction::Kill);
        },
        (SupervisorState::Remediating, SupervisorEvent::InnerDone { outcome }) => {
            next = SupervisorState::Terminated { outcome: *outcome };
        },
        (SupervisorState::AwaitingExit, SupervisorEvent::Exited { code }) => {
            next = SupervisorState::Terminated { outcome: RunOutcome::Exited(*code) };
        },
        _ => {
            next = *state;
        },
    }
    proof {
        assert(Seq::new(actions@.len(), |i: int| actions@[i].dv()) =~= spec_step(
            *state,
            event.dv(),
        ).1);
    }
    (next, actions)
}

/// The index of the first console line that reports the rejection.
pub open spec fn spec_find_rejection(lines: Seq<Seq<char>>, i: int) -> Option<int>
    decreases lines.len() - i when 0 <= i <= lines.len()
{
    if i >= lines.len() {
        None
    } else if spec_is_rejection(lines[i]) {
        Some(i)
    } else {
        spec_find_rejection(lines, i + 1)
    }
}

proof fn lemma_find_rejection_exists(lines: Seq<Seq<char>>, j: int)
    requires
        0 <= j <= lines.len(),
        exists|i: int| j <= i < lines.len() && spec_is_rejection(lines[i]),
    ensures
        spec_find_rejection(lines, j) is Some,
    decreases lines.len() - j,
{
    if !spec_is_rejection(lines[j]) {
        let w = choose|i: int| j <= i < lines.len() && spec_is_rejection(lines[i]);
        assert(w != j);
        assert(j + 1 <= w < lines.len() && spec_is_rejection(lines[w]));
        lemma_find_rejection_exists(lines, j + 1);
    }
}

/// How many times the world is asked to flip the license file.
pub open spec fn spec_count_flips(actions: Seq<ActionV>) -> int
    decreases actions.len(),
{
    if actions.len() == 0 {
        0
    } else {
        spec_count_flips(actions.drop_last()) + if actions.last() is FlipLicense {
            1int
        } else {
            0int
        }
    }
}

/// Counts the license flips among a step's actions.
fn count_flips(actions: &Vec<SupervisorAction>) -> (r: u32)
    requires
        actions@.len() <= u32::MAX,
    ensures
        r as int == spec_count_flips(Seq::new(actions@.len(), |i: int| actions@[i].dv())),
        r as int <= actions@.len(),
{
    let ghost av = Seq::new(actions@.len(), |i: int| actions@[i].dv());
    let mut r: u32 = 0;
    let mut i: usize = 0;
    proof {
        assert(av.subrange(0, 0).len() == 0);
    }
    while i < actions.len()
        invariant
            actions@.len() <= u32::MAX,
            av == Seq::new(actions@.len(), |k: int| actions@[k].dv()),
            i <= actions@.len(),
            r as int == spec_count_flips(av.subrange(0, i as int)),
            r as int <= i,
        decreases actions@.len() - i,
    {
        proof {
            assert(av.subrange(0, i + 1).drop_last() =~= av.subrange(0, i as int));
            assert(av.subrange(0, i + 1).last() == av[i as int]);
        }
        match &actions[i] {
            SupervisorAction::FlipLicense => {
                r = r + 1;
            },
            _ => {},
        }
        i = i + 1;
    }
    proof {
        assert(av.subrange(0, actions@.len() as int) =~= av);
    }
    r
}

proof fn lemma_count_one(a: ActionV)
    ensures
        spec_count_flips(seq![a]) == if a is FlipLicense {
            1int
        } else {
            0int
        },
{
    assert(seq![a].drop_last() =~= Seq::<ActionV>::empty());
    assert(spec_count_flips(Seq::<ActionV>::empty()) == 0);
}

proof fn lemma_count_kfr()
    ensures
        spec_count_flips(seq![ActionV::Kill, ActionV::FlipLicense, ActionV::Rerun]) == 1,
{
    lemma_count_one(ActionV::Kill);
    assert(seq![ActionV::Kill, ActionV::FlipLicense].drop_last() =~= seq![ActionV::Kill]);
    assert(spec_count_flips(seq![ActionV::Kill, ActionV::FlipLicense]) == 1);
    assert(seq![ActionV::Kill, ActionV::FlipLicense, ActionV::Rerun].drop_last() =~= seq![
        ActionV::Kill,
        ActionV::FlipLicense,
    ]);
}

/// What one whole supervised run comes to, given the console lines the
/// child emits, the remediation mode, the answer a prompt would get, the
/// exit code of a child that runs through, and the inner run's outcome:
/// the run's outcome, and how many times the license file is flipped.
pub open spec fn spec_run_model(
    lines: Seq<Seq<char>>,
    auto_accept: bool,
    answer_yes: bool,
    exit_code: i32,
    inner: RunOutcome,
) -> (RunOutcome, int) {
    match spec_find_rejection(lines, 0) {
        None => (RunOutcome::Exited(exit_code), 0),
        Some(_) => if auto_accept || answer_yes {
            (inner, 1)
        } else {
            (RunOutcome::LicenseNotAccepted, 0)
        },
    }
}

/// Finds the first rejection line.
fn find_rejection_exec(lines: &Vec<String>) -> (r: Option<usize>)
    ensures
        match r {
            Some(j) => spec_find_rejection(lines.deep_view(), 0) == Some(j as int) && j
                < lines@.len() && spec_is_rejection(lines.deep_view()[j as int]) && forall|k: int|
                0 <= k < j ==> !spec_is_rejection(lines.deep_view()[k]),
            None => spec_find_rejection(lines.deep_view(), 0) is None && forall|k: int|
                0 <= k < lines@.len() ==> !spec_is_rejection(lines.deep_view()[k]),
        },
{
    let ghost lv = lines.deep_view();
    let n = lines.len();
    let mut i: usize = 0;
    while i < n
        invariant
            lv == lines.deep_view(),
            n == lv.len(),
            n == lines@.len(),
            i <= n,
            spec_find_rejection(lv, 0) == spec_find_rejection(lv, i as int),
            forall|k: int| 0 <= k < i ==> !spec_is_rejection(lv[k]),
        decreases n - i,
    {
        proof {
            assert(lines@[i as int]@ == lv[i as int]);
        }
        if is_license_rejection(lines[i].as_str()) {
            return Some(i);
        }
        i = i + 1;
    }
    None
}

/// Drives the supervision machine through one whole run against a child
/// whose console emits `lines` and whose exit code would be `exit_code`,
/// with `inner` standing for the remediated rerun's outcome.  The machine
/// realizes the run model exactly: this is the loop the binary runs, with
/// the world's answers fixed in advance.
pub fn run_simulation(
    lines: &Vec<String>,
    auto_accept: bool,
    answer_yes: bool,
    exit_code: i32,
    inner: RunOutcome,
) -> (r: (RunOutcome, u32))
    ensures
        r.0 == spec_run_model(lines.deep_view(), auto_accept, answer_yes, exit_code, inner).0,
        r.1 as int == spec_run_model(lines.deep_view(), auto_accept, answer_yes, exit_code, inner).1,
{
    let ghost lv = lines.deep_view();
    let mut state = SupervisorState::Launching { auto_accept };
    let mut flips: u32 = 0;
    let (s, a) = step(&state, &SupervisorEvent::Spawned);
    state = s;
    proof {
        assert(Seq::new(a@.len(), |i: int| a@[i].dv()).len() == 0);
        assert(spec_count_flips(Seq::new(a@.len(), |i: int| a@[i].dv())) == 0);
    }
    flips = flips + count_flips(&a);
    let rej = find_rejection_exec(lines);
    let stop = match rej {
        Some(j) => j,
        None => lines.len(),
    };
    let mut i: usize = 0;
    while i < stop
        invariant
            lv == lines.deep_view(),
            lines@.len() == lv.len(),
            stop <= lv.len(),
            i <= stop,
            forall|k: int| 0 <= k < stop ==> !spec_is_rejection(lv[k]),
            state == (SupervisorState::Streaming { auto_accept }),
            flips == 0,
        decreases stop - i,
    {
        proof {
            assert(lines@[i as int]@ == lv[i as int]);
        }
        let ev = SupervisorEvent::Line { text: lines[i].clone() };
        let (s2, a2) = step(&state, &ev);
        state = s2;
        proof {
            let av = Seq::new(a2@.len(), |k: int| a2@[k].dv());
            assert(av =~= seq![ActionV::Echo(lv[i as int])]);
            lemma_count_one(ActionV::Echo(lv[i as int]));
            assert(spec_count_flips(av) == 0);
        }
        let c = count_flips(&a2);
        flips = flips + c;
        i = i + 1;
    }
    match rej {
        None => {
            let (s3, a3) = step(&state, &SupervisorEvent::OutputClosed);
            state = s3;
            proof {
                let av = Seq::new(a3@.len(), |k: int| a3@[k].dv());
                assert(av =~= seq![ActionV::AwaitExit]);
                lemma_count_one(ActionV::AwaitExit);
                assert(spec_count_flips(av) == 0);
            }
            flips = flips + count_flips(&a3);
            let (s4, a4) = step(&state, &SupervisorEvent::Exited { code: exit_code });
            state = s4;
            proof {
                let av = Seq::new(a4@.len(), |k: int| a4@[k].dv());
                assert(av =~= Seq::<ActionV>::empty());
                assert(spec_count_flips(av) == 0);
            }
            flips = flips + count_flips(&a4);
            match state {
                SupervisorState::Terminated { outcome } => (outcome, flips),
                _ => {
                    proof {
                        assert(false);
                    }
                    (RunOutcome::IoError, flips)
                },
            }
        },
        Some(j) => {
            proof {
                assert(lines@[j as int]@ == lv[j as int]);
            }
            let ev = SupervisorEvent::Line { text: lines[j].clone() };
            let (s2, a2) = step(&state, &ev);
            state = s2;
            proof {
                let av = Seq::new(a2@.len(), |k: int| a2@[k].dv());
                if auto_accept {
                    assert(av =~= seq![ActionV::Kill, ActionV::FlipLicense, ActionV::Rerun]);
                    lemma_count_kfr();
                    assert(spec_count_flips(av) == 1);
                } else {
                    assert(av =~= seq![ActionV::Prompt]);
                    lemma_count_one(ActionV::Prompt);
                    assert(spec_count_flips(av) == 0);
                }
            }
            flips = flips + count_flips(&a2);
            if !auto_accept {
                let answer = if answer_yes {
                    SupervisorEvent::AnswerYes
                } else {
                    SupervisorEvent::AnswerNo
                };
                let (s3, a3) = step(&state, &answer);
                state = s3;
                proof {
                    let av = Seq::new(a3@.len(), |k: int| a3@[k].dv());
                    if answer_yes {
                        assert(av =~= seq![ActionV::Kill, ActionV::FlipLicense, ActionV::Rerun]);
                        lemma_count_kfr();
                        assert(spec_count_flips(av) == 1);
                    } else {
                        assert(av =~= seq![ActionV::Kill]);
                        lemma_count_one(ActionV::Kill);
                        assert(spec_count_flips(av) == 0);
                    }
                }
                flips = flips + count_flips(&a3);
            }
            if auto_accept || answer_yes {
                let (s4, a4) = step(&state, &SupervisorEvent::InnerDone { outcome: inner });
                state = s4;
                proof {
                    let av = Seq::new(a4@.len(), |k: int| a4@[k].dv());
                    assert(av =~= Seq::<ActionV>::empty());
                    assert(spec_count_flips(av) == 0);
                }
                flips = flips + count_flips(&a4);
            }
            match state {
                SupervisorState::Terminated { outcome } => (outcome, flips),
                _ => {
                    proof {
                        assert(false);
                    }
                    (RunOutcome::IoError, flips)
                },
            }
        },
    }
}

/// With a child that emits the license-rejection line and automatic
/// acceptance on, the run flips the license file exactly once and returns
/// the inner run's outcome — never `LicenseNotAccepted` of its own accord.
pub proof fn lemma_auto_remediation(
    lines: Seq<Seq<char>>,
    answer_yes: bool,
    exit_code: i32,
    inner: RunOutcome,
)
    requires
        exists|i: int| 0 <= i < lines.len() && spec_is_rejection(#[trigger] lines[i]),
    ensures
        spec_run_model(lines, true, answer_yes, exit_code, inner).0 == inner,
        spec_run_model(lines, true, answer_yes, exit_code, inner).1 == 1,
        inner matches RunOutcome::Exited { .. } ==> !(spec_run_model(
            lines,
            true,
            answer_yes,
            exit_code,
            inner,
        ).0 is LicenseNotAccepted),
{
    lemma_find_rejection_exists(lines, 0);
}

/// With automatic acceptance off and the prompt declined, the run ends
/// `LicenseNotAccepted` and the license file is never touched.
pub proof fn lemma_declined_remediation(
    lines: Seq<Seq<char>>,
    exit_code: i32,
    inner: RunOutcome,
)
    requires
        exists|i: int| 0 <= i < lines.len() && spec_is_rejection(#[trigger] lines[i]),
    ensures
        spec_run_model(lines, false, false, exit_code, inner).0 == RunOutcome::LicenseNotAccepted,
        spec_run_model(lines, false, false, exit_code, inner).1 == 0,
{
    lemma_find_rejection_exists(lines, 0);
}

/// A child that never rejects the license runs through: no flip, and the
/// run's outcome is the child's own exit.
pub proof fn lemma_clean_run(
    lines: Seq<Seq<char>>,
    auto_accept: bool,
    answer_yes: bool,
    exit_code: i32,
    inner: RunOutcome,
)
    requires
        forall|i: int| 0 <= i < lines.len() ==> !spec_is_rejection(#[trigger] lines[i]),
    ensures
        spec_run_model(lines, auto_accept, answer_yes, exit_code, inner) == (
            RunOutcome::Exited(exit_code),
            0int,
        ),
{
    lemma_find_rejection_none(lines, 0);
}

proof fn lemma_find_rejection_none(lines: Seq<Seq<char>>, j: int)
    requires
        0 <= j <= lines.len(),
        forall|i: int| 0 <= i < lines.len() ==> !spec_is_rejection(#[trigger] lines[i]),
    ensures
        spec_find_rejection(lines, j) is None,
    decreases lines.len() - j,
{
    if j < lines.len() {
        lemma_find_rejection_none(lines, j + 1);
    }
}

/// A heap size as handed to the child: the configured value, or the
/// documented default.
pub open spec fn spec_heap_size(o: Option<Seq<char>>) -> Seq<char> {
    match o {
        Some(x) => x,
        None => "1G"@,
    }
}

/// The child's full argument list: the trimmed name marker, both heap
/// sizes, the fixed garbage-collection tuning flags byte for byte, the jar
/// path under the record's location, and the no-GUI flag when the
/// graphical console is disabled.
pub open spec fn spec_java_args(d: crate::server::SidecarDoc) -> Seq<Seq<char>> {
    seq![
        "-Dname="@ + text::spec_trim(d.server_name),
        "-Xms"@ + spec_heap_size(d.xms),
        "-Xmx"@ + spec_heap_size(d.xmx),
        "-XX:+UseG1GC"@,
        "-XX:+ParallelRefProcEnabled"@,
        "-XX:MaxGCPauseMillis=200"@,
        "-XX:+UnlockExperimentalVMOptions"@,
        "-XX:+DisableExplicitGC"@,
        "-XX:+AlwaysPreTouch"@,
        "-XX:G1NewSizePercent=30"@,
        "-XX:G1MaxNewSizePercent=40"@,
        "-XX:G1HeapRegionSize=8M"@,
        "-XX:G1ReservePercent=20"@,
        "-XX:G1HeapWastePercent=5"@,
        "-XX:G1MixedGCCountTarget=4"@,
        "-XX:InitiatingHeapOccupancyPercent=15"@,
        "-XX:G1MixedGCLiveThresholdPercent=90"@,
        "-XX:G1RSetUpdatingPauseTimePercent=5"@,
        "-XX:SurvivorRatio=32"@,
        "-XX:+PerfDisableSharedMem"@,
        "-XX:MaxTenuringThreshold=1"@,
        "-Dusing.aikars.flags=https://mcflags.emc.gs"@,
        "-Daikars.new.flags=true"@,
        "-jar"@,
        d.location + "/"@ + crate::server::spec_run_jar_name(d.jar_name, d.version),
    ] + if d.gui {
        Seq::<Seq<char>>::empty()
    } else {
        seq!["--nogui"@]
    }
}

/// Builds the argument list the server process is launched with.
pub fn java_args(server: &Server) -> (r: Vec<String>)
    ensures
        r.deep_view() == spec_java_args(server.doc()),
{
    let mut args: Vec<String> = Vec::new();
    let mut name_arg = String::from_str("-Dname=");
    let trimmed = text::trim_str(server.server_name.as_str());
    name_arg.append(trimmed.as_str());
    args.push(name_arg);
    let mut xms_arg = String::from_str("-Xms");
    match &server.xms {
        Some(x) => {
            xms_arg.append(x.as_str());
        },
        None => {
            xms_arg.append("1G");
        },
    }
    args.push(xms_arg);
    let mut xmx_arg = String::from_str("-Xmx");
    match &server.xmx {
        Some(x) => {
            xmx_arg.append(x.as_str());
        },
        None => {
            xmx_arg.append("1G");
        },
    }
    args.push(xmx_arg);
    args.push(String::from_str("-XX:+UseG1GC"));
    args.push(String::from_str("-XX:+ParallelRefProcEnabled"));
    args.push(String::from_str("-XX:MaxGCPauseMillis=200"));
    args.push(String::from_str("-XX:+UnlockExperimentalVMOptions"));
    args.push(String::from_str("-XX:+DisableExplicitGC"));
    args.push(String::from_str("-XX:+AlwaysPreTouch"));
    args.push(String::from_str("-XX:G1NewSizePercent=30"));
    args.push(String::from_str("-XX:G1MaxNewSizePercent=40"));
    args.push(String::from_str("-XX:G1HeapRegionSize=8M"));
    args.push(String::from_str("-XX:G1ReservePercent=20"));
    args.push(String::from_str("-XX:G1HeapWastePercent=5"));
    args.push(String::from_str("-XX:G1MixedGCCountTarget=4"));
    args.push(String::from_str("-XX:InitiatingHeapOccupancyPercent=15"));
    args.push(String::from_str("-XX:G1MixedGCLiveThresholdPercent=90"));
    args.push(String::from_str("-XX:G1RSetUpdatingPauseTimePercent=5"));
    args.push(String::from_str("-XX:SurvivorRatio=32"));
    args.push(String::from_str("-XX:+PerfDisableSharedMem"));
    args.push(String::from_str("-XX:MaxTenuringThreshold=1"));
    args.push(String::from_str("-Dusing.aikars.flags=https://mcflags.emc.gs"));
    args.push(String::from_str("-Daikars.new.flags=true"));
    args.push(String::from_str("-jar"));
    let mut jar_arg = server.location.clone();
    jar_arg.append("/");
    let jar_name = server.run_jar_file_name();
    jar_arg.append(jar_name.as_str());
    args.push(jar_arg);
    if !server.gui {
        args.push(String::from_str("--nogui"));
    }
    proof {
        assert(args.deep_view() =~= spec_java_args(server.doc()));
    }
    args
}

} // verus!
