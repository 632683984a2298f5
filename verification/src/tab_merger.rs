//! What happens when a window appears: hide it before its first paint if it may be merged,
//! and merge it once it is shown.

use vstd::prelude::*;

use crate::cloak::{touched, CloakTracker};
use crate::merge::{Merge, MergeView, Stage, StageView};
use crate::protocol::{call_view, Call, CallView, Failure, FailureView, Reply};
use crate::text::{address, numeral, to_address};
use crate::win_util::{
    best_host, cabinet_class, explorer_handles, find_all_explorer_windows, is_cabinet_class,
    law_best_host, law_explorer_windows_are_found, law_fullest_other_window_is_host, select_host,
    TopWindow, MAX_HOST_TABS,
};

verus! {

/// Where the handling of a window stands.
pub enum FlowStage {
    /// A window was created: read its class.
    CreatedClass,
    /// It is an Explorer window: see whether there are others.
    CreatedList,
    /// There are: hide it.
    CreatedCloak,
    /// A window was shown: read its class.
    ShownClass,
    /// It is an Explorer window: count its tabs.
    ShownTabs,
    /// It has at most one tab: list the windows.
    ShownList,
    /// Count the tabs of each possible host.
    ShownCount { current: usize, rest: Vec<usize>, counted: Vec<(usize, usize)> },
    /// There is a host: merge.
    Merging(Merge),
    /// The merge failed: put the failure in words.
    Describe(Failure),
    /// Log it.
    LogFailure(String),
    /// Give the window back to the user.
    Uncloak,
    /// Nothing is left to do.
    Finished,
}

/// [`FlowStage`] as a value.
pub enum FlowStageView {
    CreatedClass,
    CreatedList,
    CreatedCloak,
    ShownClass,
    ShownTabs,
    ShownList,
    ShownCount { current: usize, rest: Seq<usize>, counted: Seq<(usize, usize)> },
    Merging(MergeView),
    Describe(FailureView),
    LogFailure(Seq<char>),
    Uncloak,
    Finished,
}

impl View for FlowStage {
    type V = FlowStageView;

    open spec fn view(&self) -> FlowStageView {
        match self {
            FlowStage::CreatedClass => FlowStageView::CreatedClass,
            FlowStage::CreatedList => FlowStageView::CreatedList,
            FlowStage::CreatedCloak => FlowStageView::CreatedCloak,
            FlowStage::ShownClass => FlowStageView::ShownClass,
            FlowStage::ShownTabs => FlowStageView::ShownTabs,
            FlowStage::ShownList => FlowStageView::ShownList,
            FlowStage::ShownCount { current, rest, counted } => FlowStageView::ShownCount {
                current: *current,
                rest: rest@,
                counted: counted@,
            },
            FlowStage::Merging(m) => FlowStageView::Merging(m@),
            FlowStage::Describe(e) => FlowStageView::Describe(e@),
            FlowStage::LogFailure(line) => FlowStageView::LogFailure(line@),
            FlowStage::Uncloak => FlowStageView::Uncloak,
            FlowStage::Finished => FlowStageView::Finished,
        }
    }
}

/// The handling of one event of the window `hwnd`.
pub struct WindowFlow {
    pub hwnd: usize,
    pub stage: FlowStage,
}

/// [`WindowFlow`] as a value.
pub struct WindowFlowView {
    pub hwnd: usize,
    pub stage: FlowStageView,
}

impl View for WindowFlow {
    type V = WindowFlowView;

    open spec fn view(&self) -> WindowFlowView {
        WindowFlowView { hwnd: self.hwnd, stage: self.stage@ }
    }
}

/// The line logged for a merge that failed.
pub open spec fn failure_text(hwnd: usize, words: Seq<char>) -> Seq<char> {
    "merge failed for "@ + address(hwnd) + ": "@ + words
}

/// The words of a reply, if it has any.
pub open spec fn words_of(t: Option<String>) -> Seq<char> {
    match t {
        Some(s) => s@,
        None => Seq::empty(),
    }
}

/// A list of handles without one of them.
pub open spec fn leave_out(handles: Seq<usize>, hwnd: usize) -> Seq<usize> {
    handles.filter(|h: usize| h != hwnd)
}

/// The Explorer windows in a list, but for `hwnd`.
pub open spec fn other_explorers(windows: Seq<TopWindow>, hwnd: usize) -> Seq<usize> {
    leave_out(explorer_handles(windows), hwnd)
}

impl WindowFlowView {
    /// The call to make next; none once nothing is left to do.
    pub open spec fn call(self) -> Option<CallView> {
        match self.stage {
            FlowStageView::CreatedClass => Some(CallView::ReadClass(self.hwnd)),
            FlowStageView::CreatedList => Some(CallView::ListWindows),
            FlowStageView::CreatedCloak => Some(CallView::Cloak(self.hwnd)),
            FlowStageView::ShownClass => Some(CallView::ReadClass(self.hwnd)),
            FlowStageView::ShownTabs => Some(CallView::ListTabs(self.hwnd)),
            FlowStageView::ShownList => Some(CallView::ListWindows),
            FlowStageView::ShownCount { current, .. } => Some(CallView::ListTabs(current)),
            FlowStageView::Merging(m) => m.call(),
            FlowStageView::Describe(e) => Some(CallView::Describe(e)),
            FlowStageView::LogFailure(line) => Some(CallView::Log(line)),
            FlowStageView::Uncloak => Some(CallView::Uncloak(self.hwnd)),
            FlowStageView::Finished => None,
        }
    }

    /// Go on with the windows still to be counted, or choose a host.
    pub open spec fn choose_next(
        self,
        now: u64,
        todo: Seq<usize>,
        counted: Seq<(usize, usize)>,
    ) -> FlowStageView {
        if todo.len() > 0 {
            FlowStageView::ShownCount { current: todo[0], rest: todo.skip(1), counted }
        } else {
            match best_host(counted, self.hwnd) {
                Some(host) => FlowStageView::Merging(MergeView::begin(self.hwnd, host, now)),
                None => FlowStageView::Uncloak,
            }
        }
    }

    /// What a merge that has come this far asks of the flow.
    pub open spec fn after_merge(m: MergeView) -> FlowStageView {
        match m.stage {
            StageView::Finished(Ok(_)) => FlowStageView::Finished,
            StageView::Finished(Err(e)) => FlowStageView::Describe(e),
            _ => FlowStageView::Merging(m),
        }
    }

    /// Where the reply to the call leads. A reply that does not fit changes nothing.
    pub open spec fn next_stage(self, now: u64, reply: Reply) -> FlowStageView {
        match (self.stage, reply) {
            (FlowStageView::CreatedClass, Reply::Text(class)) => if cabinet_class(class) {
                FlowStageView::CreatedList
            } else {
                FlowStageView::Finished
            },
            (FlowStageView::CreatedList, Reply::Windows(windows)) => {
                // The window itself is one of them.
                if explorer_handles(windows@).len() > 1 {
                    FlowStageView::CreatedCloak
                } else {
                    FlowStageView::Finished
                }
            },
            (FlowStageView::CreatedCloak, Reply::Done) => FlowStageView::Finished,
            (FlowStageView::ShownClass, Reply::Text(class)) => if cabinet_class(class) {
                FlowStageView::ShownTabs
            } else {
                FlowStageView::Finished
            },
            (FlowStageView::ShownTabs, Reply::Handles(tabs)) => if tabs@.len() > 1 {
                FlowStageView::Uncloak
            } else {
                FlowStageView::ShownList
            },
            (FlowStageView::ShownList, Reply::Windows(windows)) => self.choose_next(
                now,
                other_explorers(windows@, self.hwnd),
                Seq::empty(),
            ),
            (
                FlowStageView::ShownCount { current, rest, counted },
                Reply::Handles(tabs),
            ) => self.choose_next(now, rest, counted.push((current, tabs@.len() as usize))),
            (FlowStageView::Merging(m), _) => Self::after_merge(m.next(now, reply)),
            (FlowStageView::Describe(_), Reply::Text(words)) => FlowStageView::LogFailure(
                failure_text(self.hwnd, words_of(words)),
            ),
            (FlowStageView::LogFailure(_), Reply::Done) => FlowStageView::Uncloak,
            (FlowStageView::Uncloak, Reply::Done) => FlowStageView::Finished,
            (stage, _) => stage,
        }
    }

    /// The flow after a reply.
    pub open spec fn next(self, now: u64, reply: Reply) -> WindowFlowView {
        WindowFlowView { stage: self.next_stage(now, reply), ..self }
    }

    /// The hidden windows after a reply.
    pub open spec fn tracked_after(
        self,
        m: Map<usize, u64>,
        now: u64,
        reply: Reply,
    ) -> Map<usize, u64> {
        let to = self.next_stage(now, reply);
        match self.stage {
            // The window has just been hidden.
            FlowStageView::CreatedCloak => if to is Finished {
                m.insert(self.hwnd, now)
            } else {
                m
            },
            FlowStageView::Merging(merge) => {
                let waited = merge.tracked_after(m, now, reply);
                // The window is gone.
                if to is Finished {
                    waited.remove(self.hwnd)
                } else {
                    waited
                }
            },
            FlowStageView::Uncloak => m,
            // It is about to be shown, or merged.
            _ => match to {
                FlowStageView::Uncloak => m.remove(self.hwnd),
                FlowStageView::Merging(_) => touched(m, self.hwnd, now),
                _ => m,
            },
        }
    }
}

/// Leave one handle out.
fn without(v: &Vec<usize>, hwnd: usize) -> (r: Vec<usize>)
    ensures
        r@ == leave_out(v@, hwnd),
{
    let mut out: Vec<usize> = Vec::new();
    assert(leave_out(v@.take(0), hwnd) == Seq::<usize>::empty()) by {
        reveal(Seq::filter);
    }
    for i in 0..v.len()
        invariant
            out@ == leave_out(v@.take(i as int), hwnd),
    {
        proof {
            reveal(Seq::filter);
            assert(v@.take(i + 1).drop_last() == v@.take(i as int));
        }
        if v[i] != hwnd {
            out.push(v[i]);
        }
    }
    assert(v@.take(v.len() as int) == v@);
    out
}

/// A window was created. Hide it before its first paint if it is an Explorer window and
/// there is another one that it could be merged into.
pub fn on_window_created(hwnd: usize) -> (r: WindowFlow)
    ensures
        r@ == (WindowFlowView { hwnd, stage: FlowStageView::CreatedClass }),
{
    WindowFlow { hwnd, stage: FlowStage::CreatedClass }
}

/// A window was shown. Merge it if it is a new Explorer window and there is a host for it;
/// otherwise give it back to the user.
pub fn on_window_shown(hwnd: usize) -> (r: WindowFlow)
    ensures
        r@ == (WindowFlowView { hwnd, stage: FlowStageView::ShownClass }),
{
    WindowFlow { hwnd, stage: FlowStage::ShownClass }
}

impl WindowFlow {
    /// The call to make next; none once nothing is left to do.
    pub fn call(&self) -> (r: Option<Call>)
        ensures
            call_view(r) == self@.call(),
    {
        match &self.stage {
            FlowStage::CreatedClass => Some(Call::ReadClass(self.hwnd)),
            FlowStage::CreatedList => Some(Call::ListWindows),
            FlowStage::CreatedCloak => Some(Call::Cloak(self.hwnd)),
            FlowStage::ShownClass => Some(Call::ReadClass(self.hwnd)),
            FlowStage::ShownTabs => Some(Call::ListTabs(self.hwnd)),
            FlowStage::ShownList => Some(Call::ListWindows),
            FlowStage::ShownCount { current, .. } => Some(Call::ListTabs(*current)),
            FlowStage::Merging(m) => m.call(),
            FlowStage::Describe(e) => Some(Call::Describe(e.copied())),
            FlowStage::LogFailure(line) => Some(Call::Log(line.clone())),
            FlowStage::Uncloak => Some(Call::Uncloak(self.hwnd)),
            FlowStage::Finished => None,
        }
    }

    /// Count the next window, or choose a host from those counted.
    fn pick_host(
        tracker: &mut CloakTracker,
        hwnd: usize,
        now: u64,
        todo: Vec<usize>,
        counted: Vec<(usize, usize)>,
    ) -> (r: FlowStage)
        ensures
            r@ == (WindowFlowView { hwnd, stage: FlowStageView::ShownList }).choose_next(
                now,
                todo@,
                counted@,
            ),
            final(tracker)@ == (match r@ {
                FlowStageView::Uncloak => old(tracker)@.remove(hwnd),
                FlowStageView::Merging(_) => touched(old(tracker)@, hwnd, now),
                _ => old(tracker)@,
            }),
    {
        let mut rest: Vec<usize> = todo;
        if rest.len() > 0 {
            let current: usize = rest.remove(0);
            assert(rest@ == todo@.skip(1));
            FlowStage::ShownCount { current, rest, counted }
        } else {
            match select_host(&counted, hwnd) {
                Some(host) => FlowStage::Merging(Merge::try_merge(tracker, hwnd, host, now)),
                None => {
                    tracker.uncloak(hwnd);
                    FlowStage::Uncloak
                },
            }
        }
    }

    /// Take the reply to [`WindowFlow::call`], at the time it came.
    pub fn on_reply(self, tracker: &mut CloakTracker, now: u64, reply: Reply) -> (r: WindowFlow)
        ensures
            r@ == self@.next(now, reply),
            final(tracker)@ == self@.tracked_after(old(tracker)@, now, reply),
    {
        let hwnd: usize = self.hwnd;
        let stage = match self.stage {
            FlowStage::CreatedClass => match reply {
                Reply::Text(class) => if is_cabinet_class(&class) {
                    FlowStage::CreatedList
                } else {
                    FlowStage::Finished
                },
                _ => FlowStage::CreatedClass,
            },
            FlowStage::CreatedList => match reply {
                Reply::Windows(windows) => if find_all_explorer_windows(&windows).len() > 1 {
                    FlowStage::CreatedCloak
                } else {
                    FlowStage::Finished
                },
                _ => FlowStage::CreatedList,
            },
            FlowStage::CreatedCloak => match reply {
                Reply::Done => {
                    tracker.cloak(hwnd, now);
                    FlowStage::Finished
                },
                _ => FlowStage::CreatedCloak,
            },
            FlowStage::ShownClass => match reply {
                Reply::Text(class) => if is_cabinet_class(&class) {
                    FlowStage::ShownTabs
                } else {
                    FlowStage::Finished
                },
                _ => FlowStage::ShownClass,
            },
            FlowStage::ShownTabs => match reply {
                Reply::Handles(tabs) => if tabs.len() > 1 {
                    tracker.uncloak(hwnd);
                    FlowStage::Uncloak
                } else {
                    FlowStage::ShownList
                },
                _ => FlowStage::ShownTabs,
            },
            FlowStage::ShownList => match reply {
                Reply::Windows(windows) => {
                    let hosts = without(&find_all_explorer_windows(&windows), hwnd);
                    let counted: Vec<(usize, usize)> = Vec::new();
                    WindowFlow::pick_host(tracker, hwnd, now, hosts, counted)
                },
                _ => FlowStage::ShownList,
            },
            FlowStage::ShownCount { current, rest, counted } => match reply {
                Reply::Handles(tabs) => {
                    let mut counted: Vec<(usize, usize)> = counted;
                    counted.push((current, tabs.len()));
                    WindowFlow::pick_host(tracker, hwnd, now, rest, counted)
                },
                _ => FlowStage::ShownCount { current, rest, counted },
            },
            FlowStage::Merging(merge) => {
                let merge = merge.on_reply(tracker, now, reply);
                match merge.stage {
                    Stage::Finished(Ok(_)) => {
                        tracker.forget(hwnd);
                        FlowStage::Finished
                    },
                    Stage::Finished(Err(e)) => FlowStage::Describe(e),
                    stage => FlowStage::Merging(Merge { top: merge.top, host: merge.host, stage }),
                }
            },
            FlowStage::Describe(failure) => match reply {
                Reply::Text(words) => {
                    let mut line = "merge failed for ".to_owned();
                    line.append(to_address(hwnd).as_str());
                    line.append(": ");
                    match words {
                        Some(w) => {
                            line.append(w.as_str());
                        },
                        None => {
                            assert(line@ + Seq::<char>::empty() == line@);
                        },
                    }
                    FlowStage::LogFailure(line)
                },
                _ => FlowStage::Describe(failure),
            },
            FlowStage::LogFailure(line) => match reply {
                Reply::Done => {
                    tracker.uncloak(hwnd);
                    FlowStage::Uncloak
                },
                _ => FlowStage::LogFailure(line),
            },
            FlowStage::Uncloak => match reply {
                Reply::Done => FlowStage::Finished,
                _ => FlowStage::Uncloak,
            },
            FlowStage::Finished => FlowStage::Finished,
        };
        WindowFlow { hwnd, stage }
    }
}

impl WindowFlowView {
    /// A window that was shown.
    pub open spec fn shown(hwnd: usize) -> WindowFlowView {
        WindowFlowView { hwnd, stage: FlowStageView::ShownClass }
    }

    /// A window that was created.
    pub open spec fn created(hwnd: usize) -> WindowFlowView {
        WindowFlowView { hwnd, stage: FlowStageView::CreatedClass }
    }

    /// The flow after these replies, each with the time it came.
    pub open spec fn run(self, events: Seq<(u64, Reply)>) -> WindowFlowView
        decreases events.len(),
    {
        if events.len() == 0 {
            self
        } else {
            self.run(events.drop_last()).next(events.last().0, events.last().1)
        }
    }

    /// The hidden windows after these replies.
    pub open spec fn run_tracked(
        self,
        m: Map<usize, u64>,
        events: Seq<(u64, Reply)>,
    ) -> Map<usize, u64>
        decreases events.len(),
    {
        if events.len() == 0 {
            m
        } else {
            self.run(events.drop_last()).tracked_after(
                self.run_tracked(m, events.drop_last()),
                events.last().0,
                events.last().1,
            )
        }
    }

    /// The new tab has arrived, so that the window will be closed.
    pub open spec fn closing(self) -> bool {
        self.stage matches FlowStageView::Merging(m) && m.stage.arrived()
    }

    /// The window is given back, or about to be.
    pub open spec fn giving_back(self) -> bool {
        match self.stage {
            FlowStageView::Describe(_) => true,
            FlowStageView::LogFailure(_) => true,
            FlowStageView::Uncloak => true,
            _ => false,
        }
    }
}

/// Whether the first reply says that the window is an Explorer window.
pub open spec fn is_explorer_run(events: Seq<(u64, Reply)>) -> bool {
    events.len() > 0 && (events[0].1 matches Reply::Text(class) && cabinet_class(class))
}

proof fn lemma_flow_step(f: WindowFlowView, events: Seq<(u64, Reply)>, k: int)
    requires
        0 <= k < events.len(),
    ensures
        f.run(events.take(k + 1)) == f.run(events.take(k)).next(events[k].0, events[k].1),
{
    assert(events.take(k + 1).drop_last() == events.take(k));
}

/// What holds of every run of a shown window.
proof fn lemma_shown_run(hwnd: usize, events: Seq<(u64, Reply)>)
    ensures
        ({
            let f = WindowFlowView::shown(hwnd).run(events);
            &&& f.hwnd == hwnd
            &&& f.stage matches FlowStageView::Merging(m) ==> m.top == hwnd && m.host != hwnd
            &&& f.stage !is CreatedClass && f.stage !is CreatedList && f.stage !is CreatedCloak
            &&& f.stage matches FlowStageView::Merging(m) ==> m.stage !is Finished
            &&& is_explorer_run(events) ==> f.stage !is ShownClass
        }),
    decreases events.len(),
{
    if events.len() > 0 {
        let rest = events.drop_last();
        lemma_shown_run(hwnd, rest);
        let f = WindowFlowView::shown(hwnd).run(rest);
        let (now, reply) = events.last();
        match f.stage {
            FlowStageView::ShownCount { current, rest: todo, counted } => {
                if let Reply::Handles(tabs) = reply {
                    law_best_host(counted.push((current, tabs@.len() as usize)), hwnd);
                }
            },
            FlowStageView::ShownList => {
                law_best_host(Seq::empty(), hwnd);
            },
            _ => {},
        }
        if rest.len() == 0 {
            assert(events[0] == events.last());
        }
    }
}

/// A window is never merged into itself.
pub proof fn law_host_is_another_window(hwnd: usize, events: Seq<(u64, Reply)>)
    ensures
        WindowFlowView::shown(hwnd).run(events).stage matches FlowStageView::Merging(m)
            ==> m.top == hwnd && m.host != hwnd,
{
    lemma_shown_run(hwnd, events);
}

/// Where a run stands limits where it can be later.
proof fn lemma_flow_keeps(hwnd: usize, events: Seq<(u64, Reply)>, k: int)
    requires
        0 <= k <= events.len(),
    ensures
        ({
            let a = WindowFlowView::shown(hwnd).run(events.take(k));
            let b = WindowFlowView::shown(hwnd).run(events);
            &&& a.closing() ==> b.closing() || b.stage is Finished
            &&& a.giving_back() ==> b.giving_back() || b.stage is Finished
            &&& a.stage is Finished ==> b.stage is Finished
        }),
    decreases events.len(),
{
    assert(events.take(events.len() as int) == events);
    if k < events.len() {
        let rest = events.drop_last();
        lemma_flow_keeps(hwnd, rest, k);
        assert(rest.take(k) == events.take(k));
        lemma_shown_run(hwnd, rest);
    }
}

/// A window is not both closed and given back: in a run that closes it no call shows it
/// again, before or after.
pub proof fn law_closed_or_given_back(hwnd: usize, events: Seq<(u64, Reply)>, i: int, k: int)
    requires
        0 <= i <= events.len(),
        0 <= k <= events.len(),
        WindowFlowView::shown(hwnd).run(events.take(i)).call() == Some(CallView::QuitSource),
    ensures
        WindowFlowView::shown(hwnd).run(events.take(k)).call() != Some(CallView::Uncloak(hwnd)),
{
    let a = WindowFlowView::shown(hwnd).run(events.take(i));
    let b = WindowFlowView::shown(hwnd).run(events.take(k));
    lemma_shown_run(hwnd, events.take(i));
    lemma_shown_run(hwnd, events.take(k));
    assert(a.closing());
    if i <= k {
        assert(events.take(k).take(i) == events.take(i));
        lemma_flow_keeps(hwnd, events.take(k), i);
    } else {
        assert(events.take(i).take(k) == events.take(k));
        lemma_flow_keeps(hwnd, events.take(i), k);
    }
    lemma_merge_never_uncloaks(b);
}

/// Only the flow itself shows a window again.
proof fn lemma_merge_never_uncloaks(f: WindowFlowView)
    ensures
        f.call() matches Some(CallView::Uncloak(_)) ==> f.stage is Uncloak,
{
}

/// The handling of an Explorer window ends only when the window has been given back or
/// merged: either a call that shows it was made, or the new window was closed.
pub proof fn law_ends_closed_or_given_back(hwnd: usize, events: Seq<(u64, Reply)>)
    requires
        is_explorer_run(events),
        WindowFlowView::shown(hwnd).run(events).stage is Finished,
    ensures
        exists|k: int|
            0 <= k < events.len() && events[k].1 is Done && {
                let c = (#[trigger] WindowFlowView::shown(hwnd).run(events.take(k))).call();
                c == Some(CallView::Uncloak(hwnd)) || c == Some(CallView::QuitSource)
            },
    decreases events.len(),
{
    let start = WindowFlowView::shown(hwnd);
    let n = events.len() - 1;
    let rest = events.drop_last();
    assert(rest == events.take(n));
    assert(events.take(n + 1) == events);
    lemma_flow_step(start, events, n);
    lemma_shown_run(hwnd, rest);
    let f = start.run(rest);
    if rest.len() > 0 {
        assert(rest[0] == events[0]);
    }
    if f.stage is Finished {
        law_ends_closed_or_given_back(hwnd, rest);
        let k = choose|k: int|
            0 <= k < rest.len() && rest[k].1 is Done && {
                let c = (#[trigger] start.run(rest.take(k))).call();
                c == Some(CallView::Uncloak(hwnd)) || c == Some(CallView::QuitSource)
            };
        assert(rest.take(k) == events.take(k));
        let c = start.run(events.take(k)).call();
        assert(c == Some(CallView::Uncloak(hwnd)) || c == Some(CallView::QuitSource));
    } else if f.stage is Merging {
        let k = lemma_quit_before_forward(hwnd, rest);
        assert(rest.take(k) == events.take(k));
        assert(start.run(events.take(k)).call() == Some(CallView::QuitSource));
    } else {
        assert(start.run(events.take(n)).call() == Some(CallView::Uncloak(hwnd)));
    }
}

/// A merge brings the host forward only after it closed the new window.
proof fn lemma_quit_before_forward(hwnd: usize, events: Seq<(u64, Reply)>) -> (k: int)
    requires
        WindowFlowView::shown(hwnd).run(events).stage matches FlowStageView::Merging(m)
            && m.stage is BringForward,
    ensures
        0 <= k < events.len(),
        events[k].1 is Done,
        WindowFlowView::shown(hwnd).run(events.take(k)).call() == Some(CallView::QuitSource),
    decreases events.len(),
{
    let start = WindowFlowView::shown(hwnd);
    assert(events.len() > 0);
    let n = events.len() - 1;
    let rest = events.drop_last();
    assert(rest == events.take(n));
    assert(events.take(n + 1) == events);
    lemma_flow_step(start, events, n);
    lemma_shown_run(hwnd, rest);
    let f = start.run(rest);
    if f.stage matches FlowStageView::Merging(m) && m.stage is BringForward {
        let k = lemma_quit_before_forward(hwnd, rest);
        assert(rest.take(k) == events.take(k));
        k
    } else {
        n
    }
}

/// When the handling of an Explorer window has ended, the window is no longer tracked as
/// hidden; for a window of another class nothing changes; and no other window's state
/// changes in any run.
pub proof fn law_shown_window_is_released(
    hwnd: usize,
    m: Map<usize, u64>,
    events: Seq<(u64, Reply)>,
)
    ensures
        ({
            let f = WindowFlowView::shown(hwnd).run(events);
            let after = WindowFlowView::shown(hwnd).run_tracked(m, events);
            &&& is_explorer_run(events) && (f.stage is Finished || f.stage is Uncloak)
                ==> !after.contains_key(hwnd)
            &&& events.len() > 0 && events[0].1 is Text && !is_explorer_run(events) ==> after == m
            &&& after.remove(hwnd) == m.remove(hwnd)
        }),
    decreases events.len(),
{
    let start = WindowFlowView::shown(hwnd);
    if events.len() > 0 {
        let rest = events.drop_last();
        law_shown_window_is_released(hwnd, m, rest);
        lemma_shown_run(hwnd, rest);
        lemma_shown_run(hwnd, events);
        let before = start.run_tracked(m, rest);
        let after = start.run_tracked(m, events);
        lemma_not_explorer(hwnd, m, events);
        if rest.len() > 0 {
            assert(rest[0] == events[0]);
        } else {
            assert(events[0] == events.last());
        }
        assert(after.remove(hwnd) == before.remove(hwnd));
    }
}

/// A window that is no Explorer window is left alone.
proof fn lemma_not_explorer(hwnd: usize, m: Map<usize, u64>, events: Seq<(u64, Reply)>)
    requires
        events.len() > 0,
    ensures
        ({
            let f = WindowFlowView::shown(hwnd).run(events);
            (events[0].1 is Text && !is_explorer_run(events)) ==> f.stage is Finished
                && WindowFlowView::shown(hwnd).run_tracked(m, events) == m
        }),
    decreases events.len(),
{
    let rest = events.drop_last();
    if rest.len() > 0 {
        assert(rest[0] == events[0]);
        lemma_not_explorer(hwnd, m, rest);
    } else {
        assert(events[0] == events.last());
        reveal_with_fuel(WindowFlowView::run, 2);
        reveal_with_fuel(WindowFlowView::run_tracked, 2);
    }
}

/// A created window is hidden only if it is an Explorer window and not the only one, so
/// that there is a window it could be merged into.
pub proof fn law_hidden_only_with_another_window(hwnd: usize, events: Seq<(u64, Reply)>)
    requires
        WindowFlowView::created(hwnd).run(events).call() == Some(CallView::Cloak(hwnd)),
    ensures
        exists|i: int, k: int|
            #![trigger events[i], events[k]]
            0 <= i < k < events.len() && (events[i].1 matches Reply::Text(class) && cabinet_class(
                class,
            )) && (events[k].1 matches Reply::Windows(windows) && explorer_handles(
                windows@,
            ).len() > 1),
{
    let k = lemma_created_cloak(hwnd, events);
    let i = lemma_created_list(hwnd, events.take(k));
    assert(events.take(k)[i] == events[i]);
}

/// A created Explorer window that is not the only one is hidden at once, and tracked from the
/// time on at which it was.
pub proof fn law_created_window_is_hidden(
    hwnd: usize,
    m: Map<usize, u64>,
    events: Seq<(u64, Reply)>,
)
    requires
        events.len() == 3,
        is_explorer_run(events),
        events[1].1 matches Reply::Windows(windows) && explorer_handles(windows@).len() > 1,
        events[2].1 is Done,
    ensures
        WindowFlowView::created(hwnd).run(events.take(2)).call() == Some(CallView::Cloak(hwnd)),
        WindowFlowView::created(hwnd).run(events).stage is Finished,
        WindowFlowView::created(hwnd).run_tracked(m, events) == m.insert(hwnd, events[2].0),
{
    let start = WindowFlowView::created(hwnd);
    assert(start.run(events.take(0)) == start);
    lemma_flow_step(start, events, 0);
    lemma_flow_step(start, events, 1);
    lemma_flow_step(start, events, 2);
    assert(events.take(3) == events);
    assert(events.drop_last() == events.take(2));
    assert(events.take(2).drop_last() == events.take(1));
    assert(events.take(1).drop_last() == events.take(0));
    reveal_with_fuel(WindowFlowView::run_tracked, 4);
}

/// The stages of a created window.
proof fn lemma_created_run(hwnd: usize, events: Seq<(u64, Reply)>)
    ensures
        ({
            let f = WindowFlowView::created(hwnd).run(events);
            f.hwnd == hwnd && (f.stage is CreatedClass || f.stage is CreatedList
                || f.stage is CreatedCloak || f.stage is Finished)
        }),
    decreases events.len(),
{
    if events.len() > 0 {
        lemma_created_run(hwnd, events.drop_last());
    }
}

proof fn lemma_created_cloak(hwnd: usize, events: Seq<(u64, Reply)>) -> (k: int)
    requires
        WindowFlowView::created(hwnd).run(events).call() == Some(CallView::Cloak(hwnd)),
    ensures
        0 <= k < events.len(),
        events[k].1 matches Reply::Windows(windows) && explorer_handles(windows@).len() > 1,
        WindowFlowView::created(hwnd).run(events.take(k)).stage is CreatedList,
    decreases events.len(),
{
    lemma_created_run(hwnd, events);
    assert(events.len() > 0);
    let rest = events.drop_last();
    let n = events.len() - 1;
    assert(rest == events.take(n));
    lemma_created_run(hwnd, rest);
    if WindowFlowView::created(hwnd).run(rest).stage is CreatedCloak {
        let k = lemma_created_cloak(hwnd, rest);
        assert(rest.take(k) == events.take(k));
        k
    } else {
        n
    }
}

proof fn lemma_created_list(hwnd: usize, events: Seq<(u64, Reply)>) -> (k: int)
    requires
        WindowFlowView::created(hwnd).run(events).stage is CreatedList,
    ensures
        0 <= k < events.len(),
        events[k].1 matches Reply::Text(class) && cabinet_class(class),
    decreases events.len(),
{
    assert(events.len() > 0);
    let rest = events.drop_last();
    lemma_created_run(hwnd, rest);
    if WindowFlowView::created(hwnd).run(rest).stage is CreatedList {
        lemma_created_list(hwnd, rest)
    } else {
        events.len() - 1
    }
}

/// The tabs that a reply lists.
pub open spec fn tabs_of(reply: Reply) -> nat {
    match reply {
        Reply::Handles(tabs) => tabs@.len(),
        _ => 0,
    }
}

/// Windows with the number of tabs that the replies from the fourth on list for them.
pub open spec fn counts(hosts: Seq<usize>, events: Seq<(u64, Reply)>) -> Seq<(usize, usize)> {
    Seq::new(hosts.len(), |i: int| (hosts[i], tabs_of(events[i + 3].1) as usize))
}

/// What is replied up to the choice of a host: the class of an Explorer window, its tabs, at
/// most one, the list of windows, and the tabs of every other Explorer window.
pub open spec fn host_replies(
    hwnd: usize,
    windows: Seq<TopWindow>,
    events: Seq<(u64, Reply)>,
) -> bool {
    &&& events.len() == other_explorers(windows, hwnd).len() + 3
    &&& is_explorer_run(events)
    &&& events[1].1 matches Reply::Handles(tabs) && tabs@.len() <= 1
    &&& events[2].1 matches Reply::Windows(ws) && ws@ == windows
    &&& forall|i: int| 3 <= i < events.len() ==> (#[trigger] events[i]).1 is Handles
}

/// A new Explorer window is merged into the other Explorer window that has the most tabs
/// and fewer than the limit; where there is none it is left as a window of its own.
pub proof fn law_merged_into_fullest_window(
    hwnd: usize,
    windows: Seq<TopWindow>,
    events: Seq<(u64, Reply)>,
)
    requires
        host_replies(hwnd, windows, events),
    ensures
        WindowFlowView::shown(hwnd).run(events).stage == (match best_host(
            counts(other_explorers(windows, hwnd), events),
            hwnd,
        ) {
            Some(host) => FlowStageView::Merging(
                MergeView::begin(hwnd, host, events.last().0),
            ),
            None => FlowStageView::Uncloak,
        }),
{
    lemma_counting(hwnd, windows, events, other_explorers(windows, hwnd).len() as int);
    let hosts = other_explorers(windows, hwnd);
    assert(events.take(events.len() as int) == events);
    assert(hosts.skip(hosts.len() as int).len() == 0);
    assert(counts(hosts, events).take(hosts.len() as int) == counts(hosts, events));
}

/// After `n` of the windows are counted.
proof fn lemma_counting(
    hwnd: usize,
    windows: Seq<TopWindow>,
    events: Seq<(u64, Reply)>,
    n: int,
)
    requires
        host_replies(hwnd, windows, events),
        0 <= n <= other_explorers(windows, hwnd).len(),
    ensures
        ({
            let hosts = other_explorers(windows, hwnd);
            let f = WindowFlowView::shown(hwnd);
            &&& f.run(events.take(n + 3)).hwnd == hwnd
            &&& f.run(events.take(n + 3)).stage == f.choose_next(
                events[n + 2].0,
                hosts.skip(n),
                counts(hosts, events).take(n),
            )
        }),
    decreases n,
{
    let hosts = other_explorers(windows, hwnd);
    let f = WindowFlowView::shown(hwnd);
    lemma_shown_run(hwnd, events.take(n + 3));
    if n == 0 {
        assert(events.take(0).len() == 0);
        lemma_flow_step(f, events, 0);
        lemma_flow_step(f, events, 1);
        lemma_flow_step(f, events, 2);
        assert(hosts.skip(0) == hosts);
        assert(counts(hosts, events).take(0) == Seq::<(usize, usize)>::empty());
    } else {
        lemma_counting(hwnd, windows, events, n - 1);
        lemma_flow_step(f, events, n + 2);
        assert(events[n + 2].1 is Handles);
        assert(hosts.skip(n - 1)[0] == hosts[n - 1]);
        assert(hosts.skip(n - 1).skip(1) == hosts.skip(n));
        assert(counts(hosts, events).take(n) == counts(hosts, events).take(n - 1).push(
            (hosts[n - 1], tabs_of(events[n + 2].1) as usize),
        ));
    }
}

/// The new window's handle is left out of a list and nothing else is: the others stay, in their
/// order.
pub proof fn law_only_the_window_is_left_out(handles: Seq<usize>, h: usize, hwnd: usize)
    ensures
        leave_out(Seq::empty(), hwnd) == Seq::<usize>::empty(),
        h == hwnd ==> leave_out(handles.push(h), hwnd) == leave_out(handles, hwnd),
        h != hwnd ==> leave_out(handles.push(h), hwnd) == leave_out(handles, hwnd).push(h),
{
    reveal(Seq::filter);
    assert(handles.push(h).drop_last() == handles);
}

/// A handle stays in a list without the new window exactly if it was in it and is not the new
/// window's.
proof fn lemma_left_out(handles: Seq<usize>, h: usize, hwnd: usize)
    ensures
        leave_out(handles, hwnd).contains(h) <==> handles.contains(h) && h != hwnd,
    decreases handles.len(),
{
    if handles.len() == 0 {
        law_only_the_window_is_left_out(handles, h, hwnd);
        assert(handles == Seq::<usize>::empty());
    } else {
        let rest = handles.drop_last();
        let last = handles.last();
        lemma_left_out(rest, h, hwnd);
        law_only_the_window_is_left_out(rest, last, hwnd);
        assert(rest.push(last) == handles);
        vstd::seq_lib::lemma_seq_contains_after_push(rest, last, h);
        vstd::seq_lib::lemma_seq_contains_after_push(leave_out(rest, hwnd), last, h);
    }
}

/// Whether a list holds an Explorer window with this handle.
pub open spec fn lists_explorer(windows: Seq<TopWindow>, h: usize) -> bool {
    exists|i: int|
        0 <= i < windows.len() && (#[trigger] windows[i]).hwnd == h && windows[i].class is Some
            && windows[i].class->0@ == "CabinetWClass"@
}

/// The windows whose tabs are counted are exactly the Explorer windows of the list other than
/// the new one, wherever any of them stands in the list.
pub proof fn law_candidates_are_the_other_explorers(
    windows: Seq<TopWindow>,
    hwnd: usize,
    h: usize,
)
    ensures
        other_explorers(windows, hwnd).contains(h) <==> h != hwnd && lists_explorer(windows, h),
{
    law_explorer_windows_are_found(windows, h);
    lemma_left_out(explorer_handles(windows), h, hwnd);
}

/// The window's own class decides first: an Explorer window has its tabs listed when it is
/// shown, and the windows listed when it is created; any other window is left alone.
pub proof fn law_only_explorer_windows_are_handled(
    hwnd: usize,
    now: u64,
    class: Option<String>,
    m: Map<usize, u64>,
)
    ensures
        ({
            let explorer = class is Some && class->0@ == "CabinetWClass"@;
            let shown = WindowFlowView::shown(hwnd);
            let created = WindowFlowView::created(hwnd);
            let reply = Reply::Text(class);
            &&& shown.call() == Some(CallView::ReadClass(hwnd))
            &&& created.call() == Some(CallView::ReadClass(hwnd))
            &&& explorer ==> shown.next(now, reply).call() == Some(CallView::ListTabs(hwnd))
            &&& explorer ==> created.next(now, reply).call() == Some(CallView::ListWindows)
            &&& !explorer ==> shown.next(now, reply).call() is None
            &&& !explorer ==> created.next(now, reply).call() is None
            &&& shown.tracked_after(m, now, reply) == m
            &&& created.tracked_after(m, now, reply) == m
        }),
{
}

/// A created Explorer window is hidden if the list holds more than one Explorer window, and
/// else left alone; the other windows' stamps stay.
pub proof fn law_created_window_needs_another(
    f: WindowFlowView,
    now: u64,
    windows: Vec<TopWindow>,
    m: Map<usize, u64>,
)
    requires
        f.stage is CreatedList,
    ensures
        explorer_handles(windows@).len() > 1 ==> f.next(now, Reply::Windows(windows)).call()
            == Some(CallView::Cloak(f.hwnd)),
        explorer_handles(windows@).len() <= 1 ==> f.next(now, Reply::Windows(windows)).call()
            is None,
        f.tracked_after(m, now, Reply::Windows(windows)) == m,
{
}

impl FlowStageView {
    /// How far the handling of a shown window has come.
    pub open spec fn phase(self) -> int {
        match self {
            FlowStageView::ShownClass => 0,
            FlowStageView::ShownTabs => 1,
            FlowStageView::ShownList => 2,
            FlowStageView::ShownCount { .. } => 3,
            FlowStageView::Merging(_) => 4,
            FlowStageView::Finished => 6,
            _ => 5,
        }
    }
}

proof fn lemma_flow_advances(hwnd: usize, events: Seq<(u64, Reply)>, a: int, b: int)
    requires
        0 <= a <= b <= events.len(),
    ensures
        WindowFlowView::shown(hwnd).run(events.take(a)).stage.phase() <= WindowFlowView::shown(
            hwnd,
        ).run(events.take(b)).stage.phase(),
    decreases b - a,
{
    if a < b {
        lemma_flow_advances(hwnd, events, a, b - 1);
        lemma_flow_step(WindowFlowView::shown(hwnd), events, b - 1);
        lemma_shown_run(hwnd, events.take(b - 1));
    }
}

/// A window that has several tabs is never merged: the reply that lists them, whatever their
/// number, makes the next call the one that shows the window, and no run with such a reply
/// merges, at any point: it never requests a tab and never closes a window.
pub proof fn law_window_with_tabs_is_left_alone(
    hwnd: usize,
    events: Seq<(u64, Reply)>,
    k: int,
    j: int,
)
    requires
        0 <= k < events.len(),
        0 <= j <= events.len(),
        WindowFlowView::shown(hwnd).run(events.take(k)).stage is ShownTabs,
        events[k].1 matches Reply::Handles(tabs) && tabs@.len() > 1,
    ensures
        WindowFlowView::shown(hwnd).run(events.take(k)).call() == Some(CallView::ListTabs(hwnd)),
        WindowFlowView::shown(hwnd).run(events.take(k + 1)).call() == Some(
            CallView::Uncloak(hwnd),
        ),
        ({
            let f = WindowFlowView::shown(hwnd).run(events.take(j));
            &&& f.stage !is Merging
            &&& f.call() != Some(CallView::QuitSource)
            &&& !(f.call() matches Some(CallView::RequestTab(_)))
        }),
{
    lemma_flow_step(WindowFlowView::shown(hwnd), events, k);
    lemma_shown_run(hwnd, events.take(k));
    if j <= k {
        lemma_flow_advances(hwnd, events, j, k);
    } else {
        lemma_flow_advances(hwnd, events, k + 1, j);
    }
}

/// A window is merged only if the listing of its own tabs held at most one.
pub proof fn law_merged_only_with_one_tab(hwnd: usize, events: Seq<(u64, Reply)>)
    requires
        WindowFlowView::shown(hwnd).run(events).stage.phase() >= 2,
        WindowFlowView::shown(hwnd).run(events).stage.phase() <= 4,
    ensures
        exists|k: int|
            0 <= k < events.len() && (#[trigger] WindowFlowView::shown(hwnd).run(
                events.take(k),
            )).stage is ShownTabs && (events[k].1 matches Reply::Handles(tabs) && tabs@.len() <= 1),
    decreases events.len(),
{
    let start = WindowFlowView::shown(hwnd);
    assert(events.len() > 0);
    let n = events.len() - 1;
    let rest = events.drop_last();
    assert(rest == events.take(n));
    assert(events.take(n + 1) == events);
    lemma_flow_step(start, events, n);
    lemma_flow_advances(hwnd, events, n, n + 1);
    lemma_shown_run(hwnd, rest);
    if start.run(rest).stage.phase() >= 2 {
        law_merged_only_with_one_tab(hwnd, rest);
        let k = choose|k: int|
            0 <= k < rest.len() && (#[trigger] start.run(rest.take(k))).stage is ShownTabs && (
            rest[k].1 matches Reply::Handles(tabs) && tabs@.len() <= 1);
        assert(rest.take(k) == events.take(k));
        assert(start.run(events.take(k)).stage is ShownTabs);
    } else {
        assert(start.run(events.take(n)).stage is ShownTabs);
    }
}

/// A window with at most one tab has the windows listed, and the tabs of each other Explorer
/// window counted, the first first.
pub proof fn law_hosts_are_looked_for(
    f: WindowFlowView,
    now: u64,
    tabs: Vec<usize>,
    windows: Vec<TopWindow>,
)
    requires
        f.stage is ShownTabs,
        tabs@.len() <= 1,
    ensures
        ({
            let listing = f.next(now, Reply::Handles(tabs));
            let others = other_explorers(windows@, f.hwnd);
            let next = listing.next(now, Reply::Windows(windows));
            &&& listing.call() == Some(CallView::ListWindows)
            &&& others.len() > 0 ==> next.call() == Some(CallView::ListTabs(others[0]))
            &&& others.len() == 0 ==> next.call() == Some(CallView::Uncloak(f.hwnd))
        }),
{
    law_best_host(Seq::empty(), f.hwnd);
}

/// A window that is given back for lack of a host had no other Explorer window below the limit;
/// one that is merged has for its host another Explorer window of the list, below the limit,
/// and none of them has more tabs. So with an other Explorer window below the limit it is
/// merged.
pub proof fn law_given_back_only_without_a_host(
    hwnd: usize,
    windows: Seq<TopWindow>,
    events: Seq<(u64, Reply)>,
)
    requires
        host_replies(hwnd, windows, events),
    ensures
        ({
            let others = other_explorers(windows, hwnd);
            let f = WindowFlowView::shown(hwnd).run(events);
            let free = |j: int|
                0 <= j < others.len() && tabs_of(events[j + 3].1) < MAX_HOST_TABS;
            &&& (exists|j: int| #[trigger] free(j)) ==> f.stage is Merging
            &&& (forall|j: int| !#[trigger] free(j)) ==> f.stage is Uncloak && f.call() == Some(
                CallView::Uncloak(hwnd),
            )
            &&& f.stage matches FlowStageView::Merging(m) ==> {
                &&& m.top == hwnd
                &&& m.host != hwnd
                &&& lists_explorer(windows, m.host)
                &&& exists|i: int| #[trigger]
                    free(i) && others[i] == m.host && forall|j: int| #[trigger]
                        free(j) ==> tabs_of(events[j + 3].1) <= tabs_of(events[i + 3].1)
            }
        }),
{
    let others = other_explorers(windows, hwnd);
    let all = counts(others, events);
    let f = WindowFlowView::shown(hwnd).run(events);
    let free = |j: int| 0 <= j < others.len() && tabs_of(events[j + 3].1) < MAX_HOST_TABS;
    law_merged_into_fullest_window(hwnd, windows, events);
    law_fullest_other_window_is_host(all, hwnd);
    lemma_shown_run(hwnd, events);
    assert forall|j: int| 0 <= j < others.len() implies all[j].0 == others[j] && others[j] != hwnd
        && all[j].1 == tabs_of(events[j + 3].1) && lists_explorer(
        windows,
        #[trigger] others[j],
    ) by {
        assert(others.contains(others[j]));
        law_candidates_are_the_other_explorers(windows, hwnd, others[j]);
        assert(events[j + 3].1 is Handles);
        let tabs = events[j + 3].1->Handles_0;
        assert(tabs.len() == tabs@.len());
    }
    match best_host(all, hwnd) {
        Some(host) => {
            let i = choose|i: int|
                0 <= i < all.len() && (#[trigger] all[i]).0 == host && host != hwnd && all[i].1
                    < MAX_HOST_TABS && forall|j: int|
                    0 <= j < all.len() && (#[trigger] all[j]).0 != hwnd && all[j].1 < MAX_HOST_TABS
                        ==> all[j].1 <= all[i].1 && (all[j].1 == all[i].1 ==> i <= j);
            assert(free(i) && others[i] == host);
            assert forall|j: int| #[trigger] free(j) implies tabs_of(events[j + 3].1) <= tabs_of(
                events[i + 3].1,
            ) by {
                assert(all[j].0 == others[j]);
            }
        },
        None => {
            assert forall|j: int| !#[trigger] free(j) by {
                if free(j) {
                    assert(all[j].0 == others[j]);
                }
            }
        },
    }
}

/// A merge that failed has its failure put in words, logged with the window's handle, and the
/// window shown again and no longer tracked.
pub proof fn law_failed_merge_gives_the_window_back(
    f: WindowFlowView,
    m: Map<usize, u64>,
    now: u64,
    reply: Reply,
    words: String,
)
    requires
        f.stage matches FlowStageView::Merging(merge) && merge.next(now, reply).stage matches
            StageView::Finished(Err(_)),
    ensures
        ({
            let failure = f.stage->Merging_0.next(now, reply).stage->Finished_0->Err_0;
            let describing = f.next(now, reply);
            let logging = describing.next(now, Reply::Text(Some(words)));
            let showing = logging.next(now, Reply::Done);
            &&& describing.call() == Some(CallView::Describe(failure))
            &&& logging.call() == Some(
                CallView::Log(
                    "merge failed for "@ + ("0x"@ + numeral(f.hwnd as nat, 16)) + ": "@ + words@,
                ),
            )
            &&& showing.call() == Some(CallView::Uncloak(f.hwnd))
            &&& logging.tracked_after(m, now, Reply::Done) == m.remove(f.hwnd)
            &&& showing.next(now, Reply::Done).call() is None
        }),
{
}

/// The reply that is counted for a window is the one to the listing of its own tabs: each other
/// Explorer window of the list is asked for in turn.
pub proof fn law_each_candidate_is_asked_for_its_tabs(
    hwnd: usize,
    windows: Seq<TopWindow>,
    events: Seq<(u64, Reply)>,
    i: int,
)
    requires
        host_replies(hwnd, windows, events),
        0 <= i < other_explorers(windows, hwnd).len(),
    ensures
        WindowFlowView::shown(hwnd).run(events.take(i + 3)).call() == Some(
            CallView::ListTabs(other_explorers(windows, hwnd)[i]),
        ),
{
    lemma_counting(hwnd, windows, events, i);
    assert(other_explorers(windows, hwnd).skip(i)[0] == other_explorers(windows, hwnd)[i]);
}

/// While a window is merged the flow makes the calls of the merge and hands it the replies; when
/// the merge has succeeded the flow is over and the window no longer tracked.
pub proof fn law_flow_carries_the_merge(
    hwnd: usize,
    merge: MergeView,
    m: Map<usize, u64>,
    now: u64,
    reply: Reply,
)
    ensures
        ({
            let f = WindowFlowView { hwnd, stage: FlowStageView::Merging(merge) };
            let after = merge.next(now, reply);
            let kept = f.tracked_after(m, now, reply);
            &&& f.call() == merge.call()
            &&& after.stage !is Finished ==> f.next(now, reply).stage == FlowStageView::Merging(
                after,
            ) && kept == merge.tracked_after(m, now, reply)
            &&& after.stage == StageView::Finished(Ok(())) ==> f.next(now, reply).call() is None
                && !kept.contains_key(hwnd)
        }),
{
}

/// When a merge begins, the stamp of its window is fresh and those of the others stay.
pub proof fn law_merge_begins_with_a_fresh_stamp(
    f: WindowFlowView,
    m: Map<usize, u64>,
    now: u64,
    reply: Reply,
)
    requires
        f.stage is ShownList || f.stage is ShownCount,
        f.next(now, reply).stage is Merging,
    ensures
        f.tracked_after(m, now, reply) == (if m.contains_key(f.hwnd) {
            m.insert(f.hwnd, now)
        } else {
            m
        }),
{
}

} // verus!
