//! The running program: its message loop, and the watchdog that keeps it connected to the
//! shell and gives up windows that were hidden for too long.

use vstd::prelude::*;

use crate::cloak::{sweep_line, sweep_text, tracked_stale, CloakTracker};
use crate::protocol::{Failure, FailureView};
use crate::text::numeral;

verus! {

/// How often the watchdog looks.
pub const WATCHDOG_INTERVAL_MS: u32 = 1_000;

/// The message of a timer.
pub const WM_TIMER: u32 = 0x0113;

/// The failure of a call to a process that is gone.
pub const RPC_E_DISCONNECTED: i32 = -2147417848;

/// The line logged when the shell is gone.
pub const LOST_LINE: &'static str = "ShellWindows disconnected; reconnecting";

/// The line logged when messages cannot be read.
pub const LOOP_FAILED_LINE: &'static str = "GetMessageW returned -1";

/// What the program holds while it runs: the connection to the shell, and the hook for window
/// events.
pub struct App<S, H> {
    pub shell: S,
    pub hook: Option<H>,
}

impl<S, H> App<S, H> {
    /// Connected, and not yet hooked.
    pub fn new(shell: S) -> (r: Self)
        ensures
            r.shell == shell,
            r.hook == None::<H>,
    {
        App { shell, hook: None }
    }

    /// Keep the hook.
    pub fn install_hook(&mut self, hook: H)
        ensures
            final(self).shell == old(self).shell,
            final(self).hook == Some(hook),
    {
        self.hook = Some(hook);
    }

    /// Give the hook up.
    pub fn take_hook(&mut self) -> (r: Option<H>)
        ensures
            r == old(self).hook,
            final(self).shell == old(self).shell,
            final(self).hook == None::<H>,
    {
        self.hook.take()
    }
}

/// Whether the shell still answers, given what a small call to it came to. A call may fail for
/// other reasons than that the shell is gone.
pub open spec fn answers(probe: Result<(), i32>) -> bool {
    probe matches Err(code) ==> code != RPC_E_DISCONNECTED
}

/// Tell whether the shell still answers.
pub fn is_alive(probe: Result<(), i32>) -> (r: bool)
    ensures
        r == answers(probe),
        r == (probe != Err::<(), i32>(RPC_E_DISCONNECTED)),
{
    match probe {
        Ok(_) => true,
        Err(code) => code != RPC_E_DISCONNECTED,
    }
}

/// What to do with a message.
#[derive(PartialEq, Eq, Structural, Clone, Copy)]
pub enum LoopStep {
    /// Leave the loop.
    Quit,
    /// Log [`LOOP_FAILED_LINE`] and leave the loop.
    Fail,
    /// Let the watchdog look.
    Watchdog,
    /// Hand the message on.
    Dispatch,
}

/// What a message asks for. `got` is what fetching it returned; `timer` is the identifier that
/// the system gave to the watchdog's timer.
pub open spec fn step_of(got: i32, message: u32, wparam: usize, timer: usize) -> LoopStep {
    if got == 0 {
        LoopStep::Quit
    } else if got == -1 {
        LoopStep::Fail
    } else if message == WM_TIMER && wparam == timer {
        LoopStep::Watchdog
    } else {
        LoopStep::Dispatch
    }
}

/// Decide what to do with a message.
pub fn run_message_loop(got: i32, message: u32, wparam: usize, timer: usize) -> (r: LoopStep)
    ensures
        r == step_of(got, message, wparam, timer),
        r == LoopStep::Quit <==> got == 0,
        r == LoopStep::Fail <==> got == -1,
        r == LoopStep::Watchdog <==> got != 0 && got != -1 && message == WM_TIMER && wparam
            == timer,
{
    if got == 0 {
        LoopStep::Quit
    } else if got == -1 {
        LoopStep::Fail
    } else if message == WM_TIMER && wparam == timer {
        LoopStep::Watchdog
    } else {
        LoopStep::Dispatch
    }
}

/// A call of the watchdog.
pub enum TickCall {
    /// Write a line to the log.
    Log(String),
    /// Show a window again.
    Uncloak(usize),
    /// Make a small call to the shell: [`TickReply::Probed`].
    Probe,
    /// Connect to the shell: [`TickReply::Connected`].
    Connect,
    /// Put a failure in the system's words: [`TickReply::Text`].
    Describe(Failure),
}

/// [`TickCall`] as a value.
pub enum TickCallView {
    Log(Seq<char>),
    Uncloak(usize),
    Probe,
    Connect,
    Describe(FailureView),
}

/// What an optional call comes to.
pub open spec fn tick_call_view(c: Option<TickCall>) -> Option<TickCallView> {
    match c {
        Some(TickCall::Log(line)) => Some(TickCallView::Log(line@)),
        Some(TickCall::Uncloak(hwnd)) => Some(TickCallView::Uncloak(hwnd)),
        Some(TickCall::Probe) => Some(TickCallView::Probe),
        Some(TickCall::Connect) => Some(TickCallView::Connect),
        Some(TickCall::Describe(e)) => Some(TickCallView::Describe(e@)),
        None => None,
    }
}

/// The reply to a call of the watchdog.
pub enum TickReply<S> {
    Done,
    Probed(Result<(), i32>),
    Connected(Result<S, Failure>),
    Text(String),
}

/// Where the watchdog stands.
pub enum Tick {
    /// Log that a window is shown again.
    LogStale { hwnd: usize, rest: Vec<usize> },
    /// Show it.
    ShowStale { hwnd: usize, rest: Vec<usize> },
    Probe,
    /// The shell is gone: log it.
    LogLost,
    Connect,
    /// It could not be reached again: put the failure in words.
    Describe(Failure),
    /// Log them.
    LogFailed(String),
    Finished,
}

/// [`Tick`] as a value.
pub enum TickView {
    LogStale { hwnd: usize, rest: Seq<usize> },
    ShowStale { hwnd: usize, rest: Seq<usize> },
    Probe,
    LogLost,
    Connect,
    Describe(FailureView),
    LogFailed(Seq<char>),
    Finished,
}

impl View for Tick {
    type V = TickView;

    open spec fn view(&self) -> TickView {
        match self {
            Tick::LogStale { hwnd, rest } => TickView::LogStale { hwnd: *hwnd, rest: rest@ },
            Tick::ShowStale { hwnd, rest } => TickView::ShowStale { hwnd: *hwnd, rest: rest@ },
            Tick::Probe => TickView::Probe,
            Tick::LogLost => TickView::LogLost,
            Tick::Connect => TickView::Connect,
            Tick::Describe(e) => TickView::Describe(e@),
            Tick::LogFailed(line) => TickView::LogFailed(line@),
            Tick::Finished => TickView::Finished,
        }
    }
}

/// The line logged when the shell could not be reached again.
pub open spec fn reconnect_failed_text(words: Seq<char>) -> Seq<char> {
    "reconnect failed: "@ + words
}

impl TickView {
    /// Show these windows again, then look after the shell.
    pub open spec fn begin(stale: Seq<usize>) -> TickView {
        if stale.len() > 0 {
            TickView::LogStale { hwnd: stale[0], rest: stale.skip(1) }
        } else {
            TickView::Probe
        }
    }

    /// The call to make next.
    pub open spec fn call(self) -> Option<TickCallView> {
        match self {
            TickView::LogStale { hwnd, .. } => Some(TickCallView::Log(sweep_text(hwnd))),
            TickView::ShowStale { hwnd, .. } => Some(TickCallView::Uncloak(hwnd)),
            TickView::Probe => Some(TickCallView::Probe),
            TickView::LogLost => Some(TickCallView::Log(LOST_LINE@)),
            TickView::Connect => Some(TickCallView::Connect),
            TickView::Describe(e) => Some(TickCallView::Describe(e)),
            TickView::LogFailed(line) => Some(TickCallView::Log(line)),
            TickView::Finished => None,
        }
    }

    /// Where the reply leads. A reply to some other call leaves the stage as it is.
    pub open spec fn next<S>(self, reply: TickReply<S>) -> TickView {
        match (self, reply) {
            (TickView::LogStale { hwnd, rest }, TickReply::Done) => TickView::ShowStale {
                hwnd,
                rest,
            },
            (TickView::ShowStale { rest, .. }, TickReply::Done) => Self::begin(rest),
            (TickView::Probe, TickReply::Probed(probe)) => if answers(probe) {
                TickView::Finished
            } else {
                TickView::LogLost
            },
            (TickView::LogLost, TickReply::Done) => TickView::Connect,
            (TickView::Connect, TickReply::Connected(Ok(_))) => TickView::Finished,
            (TickView::Connect, TickReply::Connected(Err(e))) => TickView::Describe(e@),
            (TickView::Describe(_), TickReply::Text(words)) => TickView::LogFailed(
                reconnect_failed_text(words@),
            ),
            (TickView::LogFailed(_), TickReply::Done) => TickView::Finished,
            (stage, _) => stage,
        }
    }

    /// The program after a reply: a new connection takes the place of the old one, and the
    /// hook, which does not depend on it, stays.
    pub open spec fn app_after<S, H>(self, app: App<S, H>, reply: TickReply<S>) -> App<S, H> {
        match (self, reply) {
            (TickView::Connect, TickReply::Connected(Ok(shell))) => App { shell, hook: app.hook },
            _ => app,
        }
    }

    /// Where several replies lead.
    pub open spec fn after<S>(self, replies: Seq<TickReply<S>>) -> TickView
        decreases replies.len(),
    {
        if replies.len() == 0 {
            self
        } else {
            self.next(replies[0]).after(replies.drop_first())
        }
    }

    /// The program after several replies.
    pub open spec fn app_after_all<S, H>(
        self,
        app: App<S, H>,
        replies: Seq<TickReply<S>>,
    ) -> App<S, H>
        decreases replies.len(),
    {
        if replies.len() == 0 {
            app
        } else {
            self.next(replies[0]).app_after_all(
                self.app_after(app, replies[0]),
                replies.drop_first(),
            )
        }
    }

    /// The calls made on the way, up to the last reply.
    pub open spec fn calls<S>(self, replies: Seq<TickReply<S>>) -> Seq<TickCallView>
        decreases replies.len(),
    {
        if replies.len() == 0 {
            Seq::empty()
        } else {
            let rest = self.next(replies[0]).calls(replies.drop_first());
            match self.call() {
                Some(call) => seq![call] + rest,
                None => rest,
            }
        }
    }

    /// The windows that are still to be shown.
    pub open spec fn to_show(self) -> Seq<usize> {
        match self {
            TickView::LogStale { hwnd, rest } => seq![hwnd] + rest,
            TickView::ShowStale { hwnd, rest } => seq![hwnd] + rest,
            _ => Seq::empty(),
        }
    }

    /// How many calls are left at most.
    pub open spec fn rank(self) -> nat {
        match self {
            TickView::LogStale { rest, .. } => 2 * rest.len() + 7,
            TickView::ShowStale { rest, .. } => 2 * rest.len() + 6,
            TickView::Probe => 5,
            TickView::LogLost => 4,
            TickView::Connect => 3,
            TickView::Describe(_) => 2,
            TickView::LogFailed(_) => 1,
            TickView::Finished => 0,
        }
    }
}

/// Show these windows again, then look after the shell.
fn begin_tick(stale: Vec<usize>) -> (r: Tick)
    ensures
        r@ == TickView::begin(stale@),
{
    let mut rest = stale;
    if rest.len() > 0 {
        let hwnd: usize = rest.remove(0);
        assert(rest@ == stale@.skip(1));
        Tick::LogStale { hwnd, rest }
    } else {
        Tick::Probe
    }
}

/// The watchdog looks: windows that were hidden for too long are no longer tracked and are
/// shown again, and a shell that is gone is connected to anew.
pub fn watchdog_tick(tracker: &mut CloakTracker, now: u64) -> (r: Tick)
    ensures
        r@ == TickView::begin(r@.to_show()),
        r@.to_show().no_duplicates(),
        forall|k: usize| #[trigger]
            r@.to_show().contains(k) <==> tracked_stale(old(tracker)@, k, now),
        final(tracker)@ == old(tracker)@.remove_keys(r@.to_show().to_set()),
{
    let stale = tracker.sweep_stale(now);
    let ghost windows = stale@;
    let tick = begin_tick(stale);
    assert(tick@.to_show() == windows);
    tick
}

impl Tick {
    /// The call to make next; none once the watchdog is done.
    pub fn call(&self) -> (r: Option<TickCall>)
        ensures
            tick_call_view(r) == self@.call(),
    {
        match self {
            Tick::LogStale { hwnd, .. } => Some(TickCall::Log(sweep_line(*hwnd))),
            Tick::ShowStale { hwnd, .. } => Some(TickCall::Uncloak(*hwnd)),
            Tick::Probe => Some(TickCall::Probe),
            Tick::LogLost => Some(TickCall::Log(LOST_LINE.to_owned())),
            Tick::Connect => Some(TickCall::Connect),
            Tick::Describe(e) => Some(TickCall::Describe(e.copied())),
            Tick::LogFailed(line) => Some(TickCall::Log(line.clone())),
            Tick::Finished => None,
        }
    }

    /// Take the reply to the call.
    pub fn on_reply<S, H>(self, app: &mut App<S, H>, reply: TickReply<S>) -> (r: Tick)
        ensures
            r@ == self@.next(reply),
            *final(app) == self@.app_after(*old(app), reply),
    {
        match (self, reply) {
            (Tick::LogStale { hwnd, rest }, TickReply::Done) => Tick::ShowStale { hwnd, rest },
            (Tick::ShowStale { hwnd: _, rest }, TickReply::Done) => begin_tick(rest),
            (Tick::Probe, TickReply::Probed(probe)) => if is_alive(probe) {
                Tick::Finished
            } else {
                Tick::LogLost
            },
            (Tick::LogLost, TickReply::Done) => Tick::Connect,
            (Tick::Connect, TickReply::Connected(outcome)) => match outcome {
                Ok(shell) => {
                    app.shell = shell;
                    Tick::Finished
                },
                Err(e) => Tick::Describe(e),
            },
            (Tick::Describe(_), TickReply::Text(words)) => {
                let mut line = "reconnect failed: ".to_owned();
                line.append(words.as_str());
                Tick::LogFailed(line)
            },
            (Tick::LogFailed(_), TickReply::Done) => Tick::Finished,
            (stage, _) => stage,
        }
    }
}

/// Whatever the watchdog meets, the hook stays, and the connection is the one it had or one
/// that was made on the way.
pub proof fn law_hook_survives_reconnect<S, H>(
    tick: TickView,
    app: App<S, H>,
    replies: Seq<TickReply<S>>,
)
    ensures
        tick.app_after_all(app, replies).hook == app.hook,
        tick.app_after_all(app, replies).shell == app.shell || exists|i: int|
            0 <= i < replies.len() && #[trigger] replies[i] == TickReply::Connected(
                Ok::<S, Failure>(tick.app_after_all(app, replies).shell),
            ),
    decreases replies.len(),
{
    if replies.len() > 0 {
        let rest = replies.drop_first();
        let next = tick.app_after(app, replies[0]);
        law_hook_survives_reconnect(tick.next(replies[0]), next, rest);
        let shell = tick.app_after_all(app, replies).shell;
        if shell != next.shell {
            let i = choose|i: int|
                0 <= i < rest.len() && #[trigger] rest[i] == TickReply::Connected(
                    Ok::<S, Failure>(shell),
                );
            assert(replies[i + 1] == TickReply::Connected(Ok::<S, Failure>(shell)));
        }
        if next.shell != app.shell {
            assert(replies[0] == TickReply::Connected(Ok::<S, Failure>(next.shell)));
        }
    }
}

/// A watchdog that finds nothing wrong makes one small call and logs nothing.
pub proof fn law_quiet_when_all_is_well<S>(probe: Result<(), i32>)
    requires
        answers(probe),
    ensures
        TickView::begin(Seq::empty()).calls(seq![TickReply::<S>::Probed(probe)]) == seq![
            TickCallView::Probe,
        ],
        TickView::begin(Seq::empty()).after(seq![TickReply::<S>::Probed(probe)])
            == TickView::Finished,
{
    reveal_with_fuel(TickView::calls, 2);
    reveal_with_fuel(TickView::after, 2);
    let replies = seq![TickReply::<S>::Probed(probe)];
    assert(TickView::begin(Seq::empty()) == TickView::Probe);
    assert(TickView::Probe.calls(replies) == seq![TickCallView::Probe]);
}

/// A shell that is gone is connected to anew in one visit of the watchdog.
pub proof fn law_lost_shell_is_replaced<S, H>(app: App<S, H>, shell: S)
    ensures
        ({
            let replies = seq![
                TickReply::Probed(Err(RPC_E_DISCONNECTED)),
                TickReply::Done,
                TickReply::Connected(Ok(shell)),
            ];
            &&& TickView::Probe.after(replies) == TickView::Finished
            &&& TickView::Probe.app_after_all(app, replies) == App { shell, hook: app.hook }
        }),
{
    reveal_with_fuel(TickView::after, 4);
    reveal_with_fuel(TickView::app_after_all, 4);
    let replies = seq![
        TickReply::Probed(Err(RPC_E_DISCONNECTED)),
        TickReply::Done,
        TickReply::Connected(Ok::<S, Failure>(shell)),
    ];
    let r1 = replies.drop_first();
    let r2 = r1.drop_first();
    let r3 = r2.drop_first();
    assert(r1[0] == replies[1] && r2[0] == replies[2] && r3.len() == 0);
}

/// When the watchdog is done, it has shown every window that was hidden for too long, each
/// after a line in the log.
pub proof fn law_stale_windows_are_shown<S>(stale: Seq<usize>, replies: Seq<TickReply<S>>)
    requires
        TickView::begin(stale).after(replies) is Finished,
    ensures
        forall|k: usize| #[trigger]
            stale.contains(k) ==> TickView::begin(stale).calls(replies).contains(
                TickCallView::Uncloak(k),
            ) && TickView::begin(stale).calls(replies).contains(TickCallView::Log(sweep_text(k))),
{
    lemma_shown(TickView::begin(stale), replies);
    assert(TickView::begin(stale).to_show() == stale);
    let calls = TickView::begin(stale).calls(replies);
    assert forall|k: usize| #[trigger] stale.contains(k) implies calls.contains(
        TickCallView::Uncloak(k),
    ) && calls.contains(TickCallView::Log(sweep_text(k))) by {
        if TickView::begin(stale) is LogStale {
            assert(TickView::begin(stale).to_show().contains(k));
        }
    }
}

/// What is still to be shown is shown by the end, and logged but for a line that was written
/// before.
proof fn lemma_shown<S>(tick: TickView, replies: Seq<TickReply<S>>)
    requires
        tick.after(replies) is Finished,
    ensures
        forall|k: usize| #[trigger]
            tick.to_show().contains(k) ==> tick.calls(replies).contains(TickCallView::Uncloak(k)),
        forall|k: usize| #[trigger]
            tick.to_show().contains(k) ==> tick.calls(replies).contains(
                TickCallView::Log(sweep_text(k)),
            ) || (tick is ShowStale && tick->ShowStale_hwnd == k),
    decreases replies.len(),
{
    if replies.len() > 0 {
        let next = tick.next(replies[0]);
        let rest = replies.drop_first();
        lemma_shown(next, rest);
        let calls = tick.calls(replies);
        let later = next.calls(rest);
        assert forall|c: TickCallView| #[trigger] later.contains(c) implies calls.contains(c) by {
            let i = choose|i: int| 0 <= i < later.len() && later[i] == c;
            match tick.call() {
                Some(call) => {
                    assert(calls[i + 1] == c);
                },
                None => {
                    assert(calls[i] == c);
                },
            }
        }
        match tick.call() {
            Some(call) => {
                assert(calls[0] == call);
                assert(calls.contains(call));
            },
            None => {},
        }
        assert forall|k: usize| #[trigger] tick.to_show().contains(k) implies calls.contains(
            TickCallView::Uncloak(k),
        ) && (calls.contains(TickCallView::Log(sweep_text(k))) || (tick is ShowStale
            && tick->ShowStale_hwnd == k)) by {
            match (tick, replies[0]) {
                (TickView::LogStale { hwnd, rest: others }, TickReply::Done) => {
                    assert(next.to_show() == tick.to_show());
                    assert(next.to_show().contains(k));
                },
                (TickView::ShowStale { hwnd, rest: others }, TickReply::Done) => {
                    if k != hwnd {
                        let i = choose|i: int|
                            0 <= i < tick.to_show().len() && tick.to_show()[i] == k;
                        assert(others[i - 1] == k);
                        assert(next.to_show() == others);
                        assert(next.to_show().contains(k));
                        assert(next !is ShowStale);
                    }
                },
                _ => {
                    assert(next == tick);
                    assert(next.to_show().contains(k));
                },
            }
        }
    }
}

/// Every reply that fits brings the watchdog closer to its end.
pub proof fn law_tick_ends<S>(tick: TickView, reply: TickReply<S>)
    requires
        tick.next(reply) != tick,
    ensures
        tick.next(reply).rank() < tick.rank(),
{
}

/// The watchdog shows only windows that were hidden for too long.
pub proof fn law_only_stale_windows_are_shown<S>(
    stale: Seq<usize>,
    replies: Seq<TickReply<S>>,
    k: usize,
)
    requires
        TickView::begin(stale).calls(replies).contains(TickCallView::Uncloak(k)),
    ensures
        stale.contains(k),
{
    assert(TickView::begin(stale).to_show() == stale);
    lemma_only_shown(TickView::begin(stale), replies, k);
}

proof fn lemma_only_shown<S>(tick: TickView, replies: Seq<TickReply<S>>, k: usize)
    requires
        tick.calls(replies).contains(TickCallView::Uncloak(k)),
    ensures
        tick.to_show().contains(k),
    decreases replies.len(),
{
    if replies.len() > 0 {
        let next = tick.next(replies[0]);
        let rest = replies.drop_first();
        let later = next.calls(rest);
        let calls = tick.calls(replies);
        if tick.call() == Some(TickCallView::Uncloak(k)) {
            assert(tick.to_show()[0] == k);
        } else {
            let i = choose|i: int| 0 <= i < calls.len() && calls[i] == TickCallView::Uncloak(k);
            match tick.call() {
                Some(_) => {
                    assert(later[i - 1] == TickCallView::Uncloak(k));
                },
                None => {
                    assert(later[i] == TickCallView::Uncloak(k));
                },
            }
            lemma_only_shown(next, rest, k);
            let p = choose|p: int| 0 <= p < next.to_show().len() && next.to_show()[p] == k;
            match (tick, replies[0]) {
                (TickView::ShowStale { hwnd, rest: others }, TickReply::Done) => {
                    assert(next.to_show() == others);
                    assert(tick.to_show()[p + 1] == k);
                },
                _ => {
                    assert(tick.to_show()[p] == k);
                },
            }
        }
    }
}

/// What the watchdog does about the shell: one small call tells whether it answers, and only
/// the failure that says it is gone counts. A shell that is gone has a line logged and is
/// connected to; a failure to do so is put in words and logged, and the old connection stays.
pub proof fn law_shell_is_looked_after<S, H>(
    app: App<S, H>,
    probe: Result<(), i32>,
    shell: S,
    failure: Failure,
    words: String,
)
    ensures
        ({
            let probed = TickView::Probe.next(TickReply::<S>::Probed(probe));
            let connecting = TickView::LogLost.next(TickReply::<S>::Done);
            let failed = TickReply::<S>::Connected(Err(failure));
            let describing = connecting.next(failed);
            let logging = describing.next(TickReply::<S>::Text(words));
            &&& TickView::begin(Seq::empty()).call() == Some(TickCallView::Probe)
            &&& probe != Err::<(), i32>(RPC_E_DISCONNECTED) ==> probed.call() is None
            &&& probe == Err::<(), i32>(RPC_E_DISCONNECTED) ==> probed.call() == Some(
                TickCallView::Log("ShellWindows disconnected; reconnecting"@),
            ) && probed.next(TickReply::<S>::Done) == connecting
            &&& connecting.call() == Some(TickCallView::Connect)
            &&& connecting.next(TickReply::Connected(Ok(shell))).call() is None
            &&& connecting.app_after(app, TickReply::Connected(Ok(shell))) == App {
                shell,
                hook: app.hook,
            }
            &&& describing.call() == Some(TickCallView::Describe(failure@))
            &&& connecting.app_after(app, failed) == app
            &&& logging.call() == Some(TickCallView::Log("reconnect failed: "@ + words@))
            &&& logging.next(TickReply::<S>::Done).call() is None
        }),
{
}

/// A window that is shown again is named in the log first.
pub proof fn law_stale_window_is_named<S>(stale: Seq<usize>)
    requires
        stale.len() > 0,
    ensures
        TickView::begin(stale).call() == Some(
            TickCallView::Log(
                "safety net: uncloaking stale "@ + ("0x"@ + numeral(stale[0] as nat, 16)),
            ),
        ),
        TickView::begin(stale).next(TickReply::<S>::Done).call() == Some(
            TickCallView::Uncloak(stale[0]),
        ),
        TickView::begin(stale).next(TickReply::<S>::Done).next(TickReply::<S>::Done)
            == TickView::begin(stale.skip(1)),
{
}

/// A call seen as a value is the same call on the same window or text.
pub proof fn law_tick_calls_are_seen_as_they_are(hwnd: usize, line: String, e: Failure)
    ensures
        tick_call_view(None) is None,
        tick_call_view(Some(TickCall::Log(line))) == Some(TickCallView::Log(line@)),
        tick_call_view(Some(TickCall::Uncloak(hwnd))) == Some(TickCallView::Uncloak(hwnd)),
        tick_call_view(Some(TickCall::Probe)) == Some(TickCallView::Probe),
        tick_call_view(Some(TickCall::Connect)) == Some(TickCallView::Connect),
        tick_call_view(Some(TickCall::Describe(e))) == Some(TickCallView::Describe(e@)),
        e@.code == e.code,
        e@.message == e.message@,
{
}

} // verus!
