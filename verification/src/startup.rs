//! The life of the process: what it takes hold of at the start, in which order, and how it
//! gives everything back, whether it runs or gives up.

use vstd::prelude::*;

use crate::cloak::{
    hidden_count, law_recovery_is_complete, orphans, recover_orphans, recovery_text, FoundWindow,
};
use crate::conflicts::{
    conflicting, conflicts_among, detect_running, exe_name, exe_names,
    law_every_process_is_looked_at, warning, warning_text,
};
use crate::protocol::{Failure, FailureView};
use crate::text::numeral;

verus! {

/// A call of the process.
pub enum StartCall {
    /// Try to be the one instance: [`StartReply::Acquired`].
    TakeMutex,
    /// Enter the COM apartment: [`StartReply::Outcome`].
    InitCom,
    /// List the Explorer windows: [`StartReply::Found`].
    FindExplorers,
    /// Show a window again.
    Uncloak(usize),
    /// List the running processes: [`StartReply::Processes`].
    ListProcesses,
    /// Find out where the program lies: [`StartReply::Path`].
    ReadExePath,
    /// Register the program to start at login: [`StartReply::Outcome`].
    Register(String),
    /// Connect to the shell: [`StartReply::Outcome`].
    Connect,
    /// Hook the window events: [`StartReply::Outcome`].
    InstallHook,
    /// Start the watchdog's timer.
    StartTimer,
    /// Handle messages until the loop ends.
    RunLoop,
    /// Stop the watchdog's timer.
    StopTimer,
    /// Show every window that is still hidden.
    UncloakAll,
    /// Remove the hook and give the connection up.
    RemoveHook,
    /// Leave the COM apartment.
    UninitCom,
    /// Make room for another instance.
    ReleaseMutex,
    /// Write a line to the log.
    Log(String),
    /// Put a failure in the system's words: [`StartReply::Text`].
    Describe(Failure),
    /// Put a bare result code in the system's words: [`StartReply::Text`].
    DescribeCode(i32),
}

/// [`StartCall`] as a value.
pub enum StartCallView {
    TakeMutex,
    InitCom,
    FindExplorers,
    Uncloak(usize),
    ListProcesses,
    ReadExePath,
    Register(Seq<char>),
    Connect,
    InstallHook,
    StartTimer,
    RunLoop,
    StopTimer,
    UncloakAll,
    RemoveHook,
    UninitCom,
    ReleaseMutex,
    Log(Seq<char>),
    Describe(FailureView),
    DescribeCode(i32),
}

impl View for StartCall {
    type V = StartCallView;

    open spec fn view(&self) -> StartCallView {
        match self {
            StartCall::TakeMutex => StartCallView::TakeMutex,
            StartCall::InitCom => StartCallView::InitCom,
            StartCall::FindExplorers => StartCallView::FindExplorers,
            StartCall::Uncloak(hwnd) => StartCallView::Uncloak(*hwnd),
            StartCall::ListProcesses => StartCallView::ListProcesses,
            StartCall::ReadExePath => StartCallView::ReadExePath,
            StartCall::Register(path) => StartCallView::Register(path@),
            StartCall::Connect => StartCallView::Connect,
            StartCall::InstallHook => StartCallView::InstallHook,
            StartCall::StartTimer => StartCallView::StartTimer,
            StartCall::RunLoop => StartCallView::RunLoop,
            StartCall::StopTimer => StartCallView::StopTimer,
            StartCall::UncloakAll => StartCallView::UncloakAll,
            StartCall::RemoveHook => StartCallView::RemoveHook,
            StartCall::UninitCom => StartCallView::UninitCom,
            StartCall::ReleaseMutex => StartCallView::ReleaseMutex,
            StartCall::Log(line) => StartCallView::Log(line@),
            StartCall::Describe(e) => StartCallView::Describe(e@),
            StartCall::DescribeCode(code) => StartCallView::DescribeCode(*code),
        }
    }
}

/// What an optional call comes to.
pub open spec fn start_call_view(c: Option<StartCall>) -> Option<StartCallView> {
    match c {
        Some(c) => Some(c@),
        None => None,
    }
}

/// The reply to a call.
pub enum StartReply {
    Done,
    /// Whether this is the one instance.
    Acquired(bool),
    Outcome(Result<(), Failure>),
    /// Explorer windows.
    Found(Vec<FoundWindow>),
    /// The file names of the running processes, if they could be listed.
    Processes(Option<Vec<Vec<u16>>>),
    /// The path of the program, if it can be told.
    Path(Option<String>),
    Text(String),
}

/// Something that may go wrong at the start.
#[derive(PartialEq, Eq, Structural, Clone, Copy)]
pub enum Trouble {
    Com,
    Register,
    Connect,
    Hook,
}

impl Trouble {
    /// The words before those of the system.
    pub open spec fn prefix(self) -> Seq<char> {
        match self {
            Trouble::Com => "CoInitializeEx failed: "@,
            Trouble::Register => "autostart register failed: "@,
            Trouble::Connect => "CoCreateInstance(ShellWindows) failed: "@,
            Trouble::Hook => "SetWinEventHook failed: "@,
        }
    }

    /// How the process goes on: without the registration it can run, without the others it
    /// has to end.
    pub open spec fn onward(self) -> LifeView {
        match self {
            Trouble::Com => LifeView::ReleaseMutex,
            Trouble::Register => LifeView::Connect,
            Trouble::Connect => LifeView::UninitCom,
            Trouble::Hook => LifeView::UninitCom,
        }
    }
}

/// Where the process stands.
pub enum Life {
    TakeMutex,
    InitCom,
    FindExplorers,
    /// Show what an earlier run left hidden, then log it.
    Restore { hwnd: usize, rest: Vec<usize>, line: String },
    LogRestored(String),
    ListProcesses,
    LogConflicts(String),
    ReadExePath,
    Register(String),
    Connect,
    InstallHook,
    StartTimer,
    RunLoop,
    StopTimer,
    UncloakAll,
    RemoveHook,
    UninitCom,
    ReleaseMutex,
    Describe(Trouble, Failure),
    LogTrouble(Trouble, String),
    Finished,
}

/// [`Life`] as a value.
pub enum LifeView {
    TakeMutex,
    InitCom,
    FindExplorers,
    Restore { hwnd: usize, rest: Seq<usize>, line: Seq<char> },
    LogRestored(Seq<char>),
    ListProcesses,
    LogConflicts(Seq<char>),
    ReadExePath,
    Register(Seq<char>),
    Connect,
    InstallHook,
    StartTimer,
    RunLoop,
    StopTimer,
    UncloakAll,
    RemoveHook,
    UninitCom,
    ReleaseMutex,
    Describe(Trouble, FailureView),
    LogTrouble(Trouble, Seq<char>),
    Finished,
}

impl View for Life {
    type V = LifeView;

    open spec fn view(&self) -> LifeView {
        match self {
            Life::TakeMutex => LifeView::TakeMutex,
            Life::InitCom => LifeView::InitCom,
            Life::FindExplorers => LifeView::FindExplorers,
            Life::Restore { hwnd, rest, line } => LifeView::Restore {
                hwnd: *hwnd,
                rest: rest@,
                line: line@,
            },
            Life::LogRestored(line) => LifeView::LogRestored(line@),
            Life::ListProcesses => LifeView::ListProcesses,
            Life::LogConflicts(line) => LifeView::LogConflicts(line@),
            Life::ReadExePath => LifeView::ReadExePath,
            Life::Register(path) => LifeView::Register(path@),
            Life::Connect => LifeView::Connect,
            Life::InstallHook => LifeView::InstallHook,
            Life::StartTimer => LifeView::StartTimer,
            Life::RunLoop => LifeView::RunLoop,
            Life::StopTimer => LifeView::StopTimer,
            Life::UncloakAll => LifeView::UncloakAll,
            Life::RemoveHook => LifeView::RemoveHook,
            Life::UninitCom => LifeView::UninitCom,
            Life::ReleaseMutex => LifeView::ReleaseMutex,
            Life::Describe(trouble, e) => LifeView::Describe(*trouble, e@),
            Life::LogTrouble(trouble, line) => LifeView::LogTrouble(*trouble, line@),
            Life::Finished => LifeView::Finished,
        }
    }
}

/// The known tools among the running processes.
pub open spec fn conflicts_in(snapshot: Option<Vec<Vec<u16>>>) -> Seq<Seq<char>> {
    match snapshot {
        Some(buffers) => conflicts_among(exe_names(buffers@)),
        None => Seq::empty(),
    }
}

impl LifeView {
    /// The call to make next; none once the process is to end.
    pub open spec fn call(self) -> Option<StartCallView> {
        match self {
            LifeView::TakeMutex => Some(StartCallView::TakeMutex),
            LifeView::InitCom => Some(StartCallView::InitCom),
            LifeView::FindExplorers => Some(StartCallView::FindExplorers),
            LifeView::Restore { hwnd, .. } => Some(StartCallView::Uncloak(hwnd)),
            LifeView::LogRestored(line) => Some(StartCallView::Log(line)),
            LifeView::ListProcesses => Some(StartCallView::ListProcesses),
            LifeView::LogConflicts(line) => Some(StartCallView::Log(line)),
            LifeView::ReadExePath => Some(StartCallView::ReadExePath),
            LifeView::Register(path) => Some(StartCallView::Register(path)),
            LifeView::Connect => Some(StartCallView::Connect),
            LifeView::InstallHook => Some(StartCallView::InstallHook),
            LifeView::StartTimer => Some(StartCallView::StartTimer),
            LifeView::RunLoop => Some(StartCallView::RunLoop),
            LifeView::StopTimer => Some(StartCallView::StopTimer),
            LifeView::UncloakAll => Some(StartCallView::UncloakAll),
            LifeView::RemoveHook => Some(StartCallView::RemoveHook),
            LifeView::UninitCom => Some(StartCallView::UninitCom),
            LifeView::ReleaseMutex => Some(StartCallView::ReleaseMutex),
            // Entering the apartment tells a code and nothing else.
            LifeView::Describe(trouble, e) => Some(
                if trouble == Trouble::Com {
                    StartCallView::DescribeCode(e.code)
                } else {
                    StartCallView::Describe(e)
                },
            ),
            LifeView::LogTrouble(_, line) => Some(StartCallView::Log(line)),
            LifeView::Finished => None,
        }
    }

    /// Go on to show windows, or to log that they were shown.
    pub open spec fn restore(windows: Seq<usize>, line: Seq<char>) -> LifeView {
        if windows.len() > 0 {
            LifeView::Restore { hwnd: windows[0], rest: windows.skip(1), line }
        } else {
            LifeView::LogRestored(line)
        }
    }

    /// Where the outcome of a step that may fail leads.
    pub open spec fn outcome(
        trouble: Trouble,
        outcome: Result<(), Failure>,
        onward: LifeView,
    ) -> LifeView {
        match outcome {
            Ok(_) => onward,
            Err(e) => LifeView::Describe(trouble, e@),
        }
    }

    /// Where the reply leads. A reply to some other call leaves the stage as it is.
    pub open spec fn next(self, reply: StartReply) -> LifeView {
        match (self, reply) {
            // Another instance is running: leave it alone.
            (LifeView::TakeMutex, StartReply::Acquired(first)) => if first {
                LifeView::InitCom
            } else {
                LifeView::Finished
            },
            (LifeView::InitCom, StartReply::Outcome(o)) => Self::outcome(
                Trouble::Com,
                o,
                LifeView::FindExplorers,
            ),
            (LifeView::FindExplorers, StartReply::Found(found)) => {
                let hidden = orphans(found@);
                if hidden.len() > 0 {
                    Self::restore(hidden, recovery_text(hidden.len()))
                } else {
                    LifeView::ListProcesses
                }
            },
            (LifeView::Restore { rest, line, .. }, StartReply::Done) => Self::restore(rest, line),
            (LifeView::LogRestored(_), StartReply::Done) => LifeView::ListProcesses,
            (LifeView::ListProcesses, StartReply::Processes(snapshot)) => match warning_text(
                conflicts_in(snapshot),
            ) {
                Some(line) => LifeView::LogConflicts(line),
                None => LifeView::ReadExePath,
            },
            (LifeView::LogConflicts(_), StartReply::Done) => LifeView::ReadExePath,
            (LifeView::ReadExePath, StartReply::Path(path)) => match path {
                Some(path) => LifeView::Register(path@),
                None => LifeView::Connect,
            },
            (LifeView::Register(_), StartReply::Outcome(o)) => Self::outcome(
                Trouble::Register,
                o,
                LifeView::Connect,
            ),
            (LifeView::Connect, StartReply::Outcome(o)) => Self::outcome(
                Trouble::Connect,
                o,
                LifeView::InstallHook,
            ),
            (LifeView::InstallHook, StartReply::Outcome(o)) => Self::outcome(
                Trouble::Hook,
                o,
                LifeView::StartTimer,
            ),
            (LifeView::StartTimer, StartReply::Done) => LifeView::RunLoop,
            (LifeView::RunLoop, StartReply::Done) => LifeView::StopTimer,
            (LifeView::StopTimer, StartReply::Done) => LifeView::UncloakAll,
            (LifeView::UncloakAll, StartReply::Done) => LifeView::RemoveHook,
            (LifeView::RemoveHook, StartReply::Done) => LifeView::UninitCom,
            (LifeView::UninitCom, StartReply::Done) => LifeView::ReleaseMutex,
            (LifeView::ReleaseMutex, StartReply::Done) => LifeView::Finished,
            (LifeView::Describe(trouble, _), StartReply::Text(words)) => LifeView::LogTrouble(
                trouble,
                trouble.prefix() + words@,
            ),
            (LifeView::LogTrouble(trouble, _), StartReply::Done) => trouble.onward(),
            (stage, _) => stage,
        }
    }
}

impl Trouble {
    /// The line to log, with the words of the system.
    fn line(self, words: &str) -> (r: String)
        ensures
            r@ == self.prefix() + words@,
    {
        let mut line = match self {
            Trouble::Com => "CoInitializeEx failed: ".to_owned(),
            Trouble::Register => "autostart register failed: ".to_owned(),
            Trouble::Connect => "CoCreateInstance(ShellWindows) failed: ".to_owned(),
            Trouble::Hook => "SetWinEventHook failed: ".to_owned(),
        };
        line.append(words);
        line
    }

    /// How the process goes on.
    fn resume(self) -> (r: Life)
        ensures
            r@ == self.onward(),
    {
        match self {
            Trouble::Com => Life::ReleaseMutex,
            Trouble::Register => Life::Connect,
            Trouble::Connect => Life::UninitCom,
            Trouble::Hook => Life::UninitCom,
        }
    }
}

/// Go on to show windows, or to log that they were shown.
fn restore_next(windows: Vec<usize>, line: String) -> (r: Life)
    ensures
        r@ == LifeView::restore(windows@, line@),
{
    let mut rest = windows;
    if rest.len() > 0 {
        let hwnd: usize = rest.remove(0);
        assert(rest@ == windows@.skip(1));
        Life::Restore { hwnd, rest, line }
    } else {
        Life::LogRestored(line)
    }
}

/// Take the outcome of a step that may fail.
fn settle(trouble: Trouble, outcome: Result<(), Failure>, onward: Life) -> (r: Life)
    ensures
        r@ == LifeView::outcome(trouble, outcome, onward@),
{
    match outcome {
        Ok(_) => onward,
        Err(e) => Life::Describe(trouble, e),
    }
}

impl Life {
    /// The process has just begun.
    pub fn start() -> (r: Life)
        ensures
            r@ == LifeView::TakeMutex,
    {
        Life::TakeMutex
    }

    /// The call to make next; none once the process is to end.
    pub fn call(&self) -> (r: Option<StartCall>)
        ensures
            start_call_view(r) == self@.call(),
    {
        match self {
            Life::TakeMutex => Some(StartCall::TakeMutex),
            Life::InitCom => Some(StartCall::InitCom),
            Life::FindExplorers => Some(StartCall::FindExplorers),
            Life::Restore { hwnd, .. } => Some(StartCall::Uncloak(*hwnd)),
            Life::LogRestored(line) => Some(StartCall::Log(line.clone())),
            Life::ListProcesses => Some(StartCall::ListProcesses),
            Life::LogConflicts(line) => Some(StartCall::Log(line.clone())),
            Life::ReadExePath => Some(StartCall::ReadExePath),
            Life::Register(path) => Some(StartCall::Register(path.clone())),
            Life::Connect => Some(StartCall::Connect),
            Life::InstallHook => Some(StartCall::InstallHook),
            Life::StartTimer => Some(StartCall::StartTimer),
            Life::RunLoop => Some(StartCall::RunLoop),
            Life::StopTimer => Some(StartCall::StopTimer),
            Life::UncloakAll => Some(StartCall::UncloakAll),
            Life::RemoveHook => Some(StartCall::RemoveHook),
            Life::UninitCom => Some(StartCall::UninitCom),
            Life::ReleaseMutex => Some(StartCall::ReleaseMutex),
            Life::Describe(trouble, e) => Some(
                match trouble {
                    Trouble::Com => StartCall::DescribeCode(e.code),
                    _ => StartCall::Describe(e.copied()),
                },
            ),
            Life::LogTrouble(_, line) => Some(StartCall::Log(line.clone())),
            Life::Finished => None,
        }
    }

    /// Take the reply to the call.
    pub fn on_reply(self, reply: StartReply) -> (r: Life)
        ensures
            r@ == self@.next(reply),
    {
        match (self, reply) {
            (Life::TakeMutex, StartReply::Acquired(first)) => if first {
                Life::InitCom
            } else {
                Life::Finished
            },
            (Life::InitCom, StartReply::Outcome(o)) => settle(
                Trouble::Com,
                o,
                Life::FindExplorers,
            ),
            (Life::FindExplorers, StartReply::Found(found)) => {
                let recovery = recover_orphans(&found);
                match recovery.line {
                    Some(line) => restore_next(recovery.restore, line),
                    None => Life::ListProcesses,
                }
            },
            (Life::Restore { hwnd: _, rest, line }, StartReply::Done) => restore_next(rest, line),
            (Life::LogRestored(_), StartReply::Done) => Life::ListProcesses,
            (Life::ListProcesses, StartReply::Processes(snapshot)) => {
                let found = detect_running(&snapshot);
                match warning(&found) {
                    Some(line) => Life::LogConflicts(line),
                    None => Life::ReadExePath,
                }
            },
            (Life::LogConflicts(_), StartReply::Done) => Life::ReadExePath,
            (Life::ReadExePath, StartReply::Path(path)) => match path {
                Some(path) => Life::Register(path),
                None => Life::Connect,
            },
            (Life::Register(_), StartReply::Outcome(o)) => settle(
                Trouble::Register,
                o,
                Life::Connect,
            ),
            (Life::Connect, StartReply::Outcome(o)) => settle(
                Trouble::Connect,
                o,
                Life::InstallHook,
            ),
            (Life::InstallHook, StartReply::Outcome(o)) => settle(
                Trouble::Hook,
                o,
                Life::StartTimer,
            ),
            (Life::StartTimer, StartReply::Done) => Life::RunLoop,
            (Life::RunLoop, StartReply::Done) => Life::StopTimer,
            (Life::StopTimer, StartReply::Done) => Life::UncloakAll,
            (Life::UncloakAll, StartReply::Done) => Life::RemoveHook,
            (Life::RemoveHook, StartReply::Done) => Life::UninitCom,
            (Life::UninitCom, StartReply::Done) => Life::ReleaseMutex,
            (Life::ReleaseMutex, StartReply::Done) => Life::Finished,
            (Life::Describe(trouble, _), StartReply::Text(words)) => Life::LogTrouble(
                trouble,
                trouble.line(words.as_str()),
            ),
            (Life::LogTrouble(trouble, _), StartReply::Done) => trouble.resume(),
            (stage, _) => stage,
        }
    }
}

/// What a process has taken hold of: one for each thing that it holds.
#[verifier::ext_equal]
pub struct Held {
    pub mutex: int,
    pub com: int,
    pub hook: int,
    pub timer: int,
}

impl Held {
    /// Nothing.
    pub open spec fn nothing() -> Held {
        Held { mutex: 0, com: 0, hook: 0, timer: 0 }
    }

    /// With some more, or less.
    pub open spec fn plus(self, change: Held) -> Held {
        Held {
            mutex: self.mutex + change.mutex,
            com: self.com + change.com,
            hook: self.hook + change.hook,
            timer: self.timer + change.timer,
        }
    }

    /// Nothing is held twice, nor given back without being held.
    pub open spec fn sane(self) -> bool {
        &&& 0 <= self.mutex <= 1
        &&& 0 <= self.com <= 1
        &&& 0 <= self.hook <= 1
        &&& 0 <= self.timer <= 1
    }
}

/// One for `true`.
pub open spec fn one_if(b: bool) -> int {
    if b {
        1
    } else {
        0
    }
}

/// What a call changes in what the process holds.
pub open spec fn held_change(call: StartCallView, reply: StartReply) -> Held {
    let none = Held::nothing();
    match call {
        StartCallView::TakeMutex => Held {
            mutex: one_if(reply == StartReply::Acquired(true)),
            ..none
        },
        StartCallView::InitCom => Held {
            com: one_if(reply matches StartReply::Outcome(Ok(_))),
            ..none
        },
        StartCallView::InstallHook => Held {
            hook: one_if(reply matches StartReply::Outcome(Ok(_))),
            ..none
        },
        StartCallView::StartTimer => Held { timer: one_if(reply is Done), ..none },
        StartCallView::StopTimer => Held { timer: -one_if(reply is Done), ..none },
        StartCallView::RemoveHook => Held { hook: -one_if(reply is Done), ..none },
        StartCallView::UninitCom => Held { com: -one_if(reply is Done), ..none },
        StartCallView::ReleaseMutex => Held { mutex: -one_if(reply is Done), ..none },
        _ => none,
    }
}

impl LifeView {
    /// What the process holds at this stage.
    pub open spec fn held(self) -> Held {
        let no_com = {
            ||| self is TakeMutex
            ||| self is Finished
            ||| self is InitCom
            ||| self is ReleaseMutex
            ||| self matches LifeView::Describe(Trouble::Com, _)
            ||| self matches LifeView::LogTrouble(Trouble::Com, _)
        };
        Held {
            mutex: one_if(self !is TakeMutex && self !is Finished),
            com: one_if(!no_com),
            hook: one_if(
                self is StartTimer || self is RunLoop || self is StopTimer || self is UncloakAll
                    || self is RemoveHook,
            ),
            timer: one_if(self is RunLoop || self is StopTimer),
        }
    }

    /// Where several replies lead.
    pub open spec fn after(self, replies: Seq<StartReply>) -> LifeView
        decreases replies.len(),
    {
        if replies.len() == 0 {
            self
        } else {
            self.next(replies[0]).after(replies.drop_first())
        }
    }

    /// What the process holds after several replies, given what it held before.
    pub open spec fn held_after(self, held: Held, replies: Seq<StartReply>) -> Held
        decreases replies.len(),
    {
        if replies.len() == 0 {
            held
        } else {
            let change = match self.call() {
                Some(call) => held_change(call, replies[0]),
                None => Held::nothing(),
            };
            self.next(replies[0]).held_after(held.plus(change), replies.drop_first())
        }
    }

    /// How many calls are left at most.
    pub open spec fn rank(self) -> nat {
        match self {
            LifeView::TakeMutex => 30,
            LifeView::InitCom => 29,
            LifeView::FindExplorers => 28,
            LifeView::Restore { .. } => 27,
            LifeView::LogRestored(_) => 26,
            LifeView::ListProcesses => 25,
            LifeView::LogConflicts(_) => 24,
            LifeView::ReadExePath => 23,
            LifeView::Register(_) => 22,
            LifeView::Describe(trouble, _) => if trouble == Trouble::Register {
                21
            } else {
                4
            },
            LifeView::LogTrouble(trouble, _) => if trouble == Trouble::Register {
                20
            } else {
                3
            },
            LifeView::Connect => 19,
            LifeView::InstallHook => 18,
            LifeView::StartTimer => 17,
            LifeView::RunLoop => 16,
            LifeView::StopTimer => 15,
            LifeView::UncloakAll => 14,
            LifeView::RemoveHook => 13,
            LifeView::UninitCom => 2,
            LifeView::ReleaseMutex => 1,
            LifeView::Finished => 0,
        }
    }

    /// How many windows are still to be shown at the start.
    pub open spec fn to_restore(self) -> nat {
        match self {
            LifeView::Restore { rest, .. } => rest.len(),
            _ => 0,
        }
    }
}

/// What is held follows from where the process stands.
proof fn lemma_held(life: LifeView, replies: Seq<StartReply>)
    ensures
        life.held_after(life.held(), replies) == life.after(replies).held(),
        life.held().sane(),
    decreases replies.len(),
{
    if replies.len() > 0 {
        let next = life.next(replies[0]);
        let change = match life.call() {
            Some(call) => held_change(call, replies[0]),
            None => Held::nothing(),
        };
        assert(life.held().plus(change) == next.held());
        lemma_held(next, replies.drop_first());
    }
}

/// Whatever goes wrong, the process gives back exactly what it took: at the end it holds
/// nothing, and on the way nothing twice.
pub proof fn law_everything_is_given_back(replies: Seq<StartReply>)
    ensures
        ({
            let held = LifeView::TakeMutex.held_after(Held::nothing(), replies);
            &&& held.sane()
            &&& LifeView::TakeMutex.after(replies) is Finished ==> held == Held::nothing()
        }),
{
    assert(LifeView::TakeMutex.held() == Held::nothing());
    lemma_held(LifeView::TakeMutex, replies);
    lemma_held(LifeView::TakeMutex.after(replies), Seq::empty());
}

/// The message loop runs only in the one instance, inside the apartment, with the hook
/// installed and the timer started.
pub proof fn law_loop_runs_fully_equipped(replies: Seq<StartReply>)
    ensures
        LifeView::TakeMutex.after(replies) is RunLoop ==> LifeView::TakeMutex.held_after(
            Held::nothing(),
            replies,
        ) == (Held { mutex: 1, com: 1, hook: 1, timer: 1 }),
{
    assert(LifeView::TakeMutex.held() == Held::nothing());
    lemma_held(LifeView::TakeMutex, replies);
}

/// When the message loop has ended, the timer is stopped and every window that is still hidden
/// is shown before the hook goes.
pub proof fn law_exit_shows_every_window(life: LifeView, reply: StartReply)
    ensures
        life is RunLoop && life.next(reply) !is RunLoop ==> life.next(reply) is StopTimer,
        life is StopTimer && life.next(reply) !is StopTimer ==> life.next(reply).call() == Some(
            StartCallView::UncloakAll,
        ),
        life.next(reply) is RemoveHook && life !is RemoveHook ==> life is UncloakAll
            && reply is Done,
{
}

/// Where another instance is running, the process ends at once.
pub proof fn law_second_instance_ends()
    ensures
        LifeView::TakeMutex.next(StartReply::Acquired(false)) == LifeView::Finished,
        LifeView::Finished.call() is None,
{
}

/// Known tools that are running are worth a line in the log, and no reason to end: the process
/// goes on as it does without them.
pub proof fn law_conflicts_do_not_stop_it(snapshot: Option<Vec<Vec<u16>>>)
    ensures
        ({
            let next = LifeView::ListProcesses.next(StartReply::Processes(snapshot));
            let found = conflicts_in(snapshot);
            &&& found.len() == 0 ==> next == LifeView::ReadExePath
            &&& found.len() > 0 ==> next.call() == Some(
                StartCallView::Log(warning_text(found)->Some_0),
            ) && next.next(StartReply::Done) == LifeView::ReadExePath
        }),
{
}

/// A start without trouble logs nothing: a line in the log is about a failure, about windows
/// that were left hidden, or about known tools that are running.
pub proof fn law_quiet_start(life: LifeView, reply: StartReply)
    requires
        !(life.call() matches Some(StartCallView::Log(_))),
        life !is Restore,
        life.next(reply).call() matches Some(StartCallView::Log(_)),
    ensures
        life is Describe || (life is ListProcesses && reply is Processes && conflicts_in(
            reply->Processes_0,
        ).len() > 0),
{
}

/// Every reply that fits brings the process closer to its end.
pub proof fn law_life_ends(life: LifeView, reply: StartReply)
    requires
        life.next(reply) != life,
    ensures
        life.next(reply).rank() < life.rank() || (life.next(reply).rank() == life.rank()
            && life.next(reply).to_restore() < life.to_restore()),
{
}

/// So many replies that say that a call was made.
pub open spec fn dones(n: nat) -> Seq<StartReply> {
    Seq::new(n, |i: int| StartReply::Done)
}

proof fn lemma_restore_run(windows: Seq<usize>, line: Seq<char>, k: nat)
    requires
        k <= windows.len(),
    ensures
        LifeView::restore(windows, line).after(dones(k)) == LifeView::restore(
            windows.skip(k as int),
            line,
        ),
    decreases k,
{
    if k == 0 {
        assert(windows.skip(0) == windows);
    } else {
        let next = LifeView::restore(windows.skip(1), line);
        assert(dones(k)[0] is Done);
        assert(LifeView::restore(windows, line).next(dones(k)[0]) == next);
        assert(dones(k).drop_first() == dones((k - 1) as nat));
        lemma_restore_run(windows.skip(1), line, (k - 1) as nat);
        assert(windows.skip(1).skip(k - 1) == windows.skip(k as int));
    }
}

/// At the start every window that an earlier run left hidden is shown, one after the other, and
/// then their number is logged; where there is none, nothing is shown or logged.
pub proof fn law_start_shows_what_was_left_hidden(found: Vec<FoundWindow>, k: nat)
    requires
        k <= hidden_count(found@),
    ensures
        ({
            let n = hidden_count(found@);
            let start = LifeView::FindExplorers.next(StartReply::Found(found));
            let life = start.after(dones(k));
            &&& n == 0 ==> start.call() == Some(StartCallView::ListProcesses)
            &&& k < n ==> life.call() == Some(StartCallView::Uncloak(orphans(found@)[k as int]))
            &&& k == n && n > 0 ==> life.call() == Some(
                StartCallView::Log(
                    "startup recovery: restored "@ + numeral(n, 10)
                        + " off-screen orphan window(s)"@,
                ),
            ) && life.next(StartReply::Done).call() == Some(StartCallView::ListProcesses)
        }),
{
    law_recovery_is_complete(found@, 0);
    let hidden = orphans(found@);
    if hidden.len() > 0 {
        lemma_restore_run(hidden, recovery_text(hidden.len()), k);
        if k < hidden.len() {
            assert(hidden.skip(k as int)[0] == hidden[k as int]);
        }
    }
}

/// A start without trouble makes these calls in this order: it becomes the one instance, enters
/// the apartment, looks for windows left hidden and for known tools, registers the program by
/// the path it was told, connects, hooks the events, starts the timer and runs the loop; then it
/// gives everything back. Without a path nothing is registered.
pub proof fn law_life_without_trouble(path: String)
    ensures
        ({
            let fine = StartReply::Outcome(Ok(()));
            let done = StartReply::Done;
            let registering = LifeView::ReadExePath.next(StartReply::Path(Some(path)));
            &&& LifeView::TakeMutex.call() == Some(StartCallView::TakeMutex)
            &&& LifeView::TakeMutex.next(StartReply::Acquired(true)).call() == Some(
                StartCallView::InitCom,
            )
            &&& LifeView::InitCom.next(fine).call() == Some(StartCallView::FindExplorers)
            &&& LifeView::ListProcesses.call() == Some(StartCallView::ListProcesses)
            &&& LifeView::ReadExePath.call() == Some(StartCallView::ReadExePath)
            &&& registering.call() == Some(StartCallView::Register(path@))
            &&& registering.next(fine).call() == Some(StartCallView::Connect)
            &&& LifeView::ReadExePath.next(StartReply::Path(None)).call() == Some(
                StartCallView::Connect,
            )
            &&& LifeView::Connect.next(fine).call() == Some(StartCallView::InstallHook)
            &&& LifeView::InstallHook.next(fine).call() == Some(StartCallView::StartTimer)
            &&& LifeView::StartTimer.next(done).call() == Some(StartCallView::RunLoop)
            &&& LifeView::RunLoop.next(done).call() == Some(StartCallView::StopTimer)
            &&& LifeView::StopTimer.next(done).call() == Some(StartCallView::UncloakAll)
            &&& LifeView::UncloakAll.next(done).call() == Some(StartCallView::RemoveHook)
            &&& LifeView::RemoveHook.next(done).call() == Some(StartCallView::UninitCom)
            &&& LifeView::UninitCom.next(done).call() == Some(StartCallView::ReleaseMutex)
            &&& LifeView::ReleaseMutex.next(done).call() is None
        }),
{
}

/// Each trouble is put in words and logged under its name; after a failed registration the
/// start goes on, after any other the process gives back what it took and ends.
pub proof fn law_trouble_is_logged(e: Failure, words: String, path: Seq<char>)
    ensures
        ({
            let bad = StartReply::Outcome(Err(e));
            let text = StartReply::Text(words);
            let done = StartReply::Done;
            let com = LifeView::InitCom.next(bad);
            let register = LifeView::Register(path).next(bad);
            let connect = LifeView::Connect.next(bad);
            let hook = LifeView::InstallHook.next(bad);
            &&& com.call() == Some(StartCallView::DescribeCode(e.code))
            &&& com.next(text).call() == Some(
                StartCallView::Log("CoInitializeEx failed: "@ + words@),
            )
            &&& com.next(text).next(done).call() == Some(StartCallView::ReleaseMutex)
            &&& register.call() == Some(StartCallView::Describe(e@))
            &&& register.next(text).call() == Some(
                StartCallView::Log("autostart register failed: "@ + words@),
            )
            &&& register.next(text).next(done).call() == Some(StartCallView::Connect)
            &&& connect.call() == Some(StartCallView::Describe(e@))
            &&& connect.next(text).call() == Some(
                StartCallView::Log("CoCreateInstance(ShellWindows) failed: "@ + words@),
            )
            &&& connect.next(text).next(done).call() == Some(StartCallView::UninitCom)
            &&& hook.call() == Some(StartCallView::Describe(e@))
            &&& hook.next(text).call() == Some(
                StartCallView::Log("SetWinEventHook failed: "@ + words@),
            )
            &&& hook.next(text).next(done).call() == Some(StartCallView::UninitCom)
        }),
{
}

/// What the start looks for among the processes is every known tool in the snapshot; without a
/// snapshot there is none.
pub proof fn law_start_looks_at_every_process(buffers: Vec<Vec<u16>>, name: Seq<char>)
    ensures
        conflicts_in(None).len() == 0,
        conflicts_in(Some(buffers)).contains(name) <==> conflicting(name) && exists|i: int|
            0 <= i < buffers@.len() && exe_name((#[trigger] buffers@[i])@) == name,
{
    law_every_process_is_looked_at(buffers@, name);
}

/// A call seen as a value is the same call on the same window, path or text.
pub proof fn law_start_calls_are_seen_as_they_are(hwnd: usize, s: String, e: Failure, code: i32)
    ensures
        start_call_view(None) is None,
        start_call_view(Some(StartCall::TakeMutex)) == Some(StartCallView::TakeMutex),
        start_call_view(Some(StartCall::InitCom)) == Some(StartCallView::InitCom),
        start_call_view(Some(StartCall::FindExplorers)) == Some(StartCallView::FindExplorers),
        start_call_view(Some(StartCall::Uncloak(hwnd))) == Some(StartCallView::Uncloak(hwnd)),
        start_call_view(Some(StartCall::ListProcesses)) == Some(StartCallView::ListProcesses),
        start_call_view(Some(StartCall::ReadExePath)) == Some(StartCallView::ReadExePath),
        start_call_view(Some(StartCall::Register(s))) == Some(StartCallView::Register(s@)),
        start_call_view(Some(StartCall::Connect)) == Some(StartCallView::Connect),
        start_call_view(Some(StartCall::InstallHook)) == Some(StartCallView::InstallHook),
        start_call_view(Some(StartCall::StartTimer)) == Some(StartCallView::StartTimer),
        start_call_view(Some(StartCall::RunLoop)) == Some(StartCallView::RunLoop),
        start_call_view(Some(StartCall::StopTimer)) == Some(StartCallView::StopTimer),
        start_call_view(Some(StartCall::UncloakAll)) == Some(StartCallView::UncloakAll),
        start_call_view(Some(StartCall::RemoveHook)) == Some(StartCallView::RemoveHook),
        start_call_view(Some(StartCall::UninitCom)) == Some(StartCallView::UninitCom),
        start_call_view(Some(StartCall::ReleaseMutex)) == Some(StartCallView::ReleaseMutex),
        start_call_view(Some(StartCall::Log(s))) == Some(StartCallView::Log(s@)),
        start_call_view(Some(StartCall::Describe(e))) == Some(StartCallView::Describe(e@)),
        start_call_view(Some(StartCall::DescribeCode(code))) == Some(
            StartCallView::DescribeCode(code),
        ),
{
}

} // verus!
