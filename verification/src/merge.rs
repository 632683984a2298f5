//! One merge: the new window's folder becomes a tab of the host, and the new window closes.
//!
//! Find the new window's browser; ask the host for a tab and wait for it; read the new
//! window's location; wait for the entry of the new tab; send the tab to the location and
//! wait until it has arrived; close the new window; bring the host forward. The new window
//! closes only once the tab shows its folder: any failure before, and a tab that does not
//! arrive in time, leaves the new window alone.
//!
//! A merge that goes well writes nothing to the log.

use vstd::prelude::*;

use crate::cloak::{touched, CloakTracker};
use crate::protocol::{
    call_view, ctx, fail, in_step, own_failure, Call, CallView, Failure, FailureView, Reply,
};
use crate::shell_windows::{
    count_entries_for_top, dump_lines, entry_count, find_first_wb_for_top, find_last_wb_for_top,
    first_entry, last_entry, law_entries_are_counted_one_by_one, law_first_entry, law_last_entry,
    log_shell_windows_snapshot, scan_entries, texts,
};
use crate::text::{address, numeral, to_address, to_numeral};

verus! {

/// How long to wait for the new tab's window.
pub const WAIT_NEW_TAB_TIMEOUT_MS: u64 = 2_000;

/// How long to rest between two looks for it.
pub const WAIT_NEW_TAB_POLL_MS: u64 = 5;

/// How long to wait for an entry in the list of shell windows. Under load one may take
/// five to seven seconds to appear.
pub const WAIT_WB_TIMEOUT_MS: u64 = 10_000;

/// How long to rest between two scans of the list.
pub const WAIT_WB_POLL_MS: u64 = 25;

/// How long to wait for the new tab to arrive at its location.
pub const NAV_COMPLETE_TIMEOUT_MS: u64 = 3_000;

/// The longest single wait for messages.
pub const PUMP_SLICE_MS: u64 = 50;

/// What is said of a tab that did not arrive in time.
pub const NEVER_ARRIVED: &'static str =
    "[navigate_complete] timeout waiting for NavigateComplete2";

/// Nanoseconds in a millisecond.
pub const NS_PER_MS: u64 = 1_000_000;

/// The time `ms` milliseconds after `now`.
pub open spec fn time_after(now: u64, ms: u64) -> int {
    now + ms * NS_PER_MS
}

/// Compute a deadline.
fn deadline_after(now: u64, ms: u64) -> (r: u128)
    ensures
        r == time_after(now, ms),
{
    assert(ms * NS_PER_MS <= u64::MAX * NS_PER_MS) by (nonlinear_arith)
        requires
            ms <= u64::MAX,
            NS_PER_MS == 1_000_000,
    ;
    now as u128 + ms as u128 * NS_PER_MS as u128
}

/// Where a merge stands.
pub enum Stage {
    /// Look for the new window's browser.
    FindSource { deadline: u128 },
    /// Rest before the next look.
    RestBeforeSource { deadline: u128 },
    /// Keep the browser that was found.
    AdoptSource { place: usize },
    /// Count the host's entries before a tab is added.
    CountEntries,
    /// List the host's tabs before one is added.
    ListTabs { base: usize },
    /// Ask the host for a new tab.
    RequestTab { base: usize, before: Vec<usize> },
    /// Look for a tab that was not there before.
    FindTab { base: usize, before: Vec<usize>, deadline: u128 },
    /// Rest before the next look.
    RestBeforeTab { base: usize, before: Vec<usize>, deadline: u128 },
    /// Read the new window's location.
    ReadUrl { base: usize },
    /// The location was empty, as a virtual folder's is: resolve its parsing path.
    ReadPath { base: usize },
    /// See whether the host has one more entry; `last` once the time is up.
    FindEntry { base: usize, location: String, deadline: u128, last: bool },
    /// Rest before the next scan.
    RestBeforeEntry { base: usize, location: String, deadline: u128 },
    /// Pick the host's newest entry.
    PickEntry { location: String },
    /// The entry never came: describe the list.
    DumpEntries,
    /// Log the description, from this line on.
    LogDump { lines: Vec<String>, at: usize },
    /// Keep the browser of the new tab.
    AdoptTab { location: String, place: usize },
    /// Subscribe to its navigations, before the first one is issued.
    Watch { location: String },
    /// Send it to the location.
    Navigate { location: String },
    /// It refused: close the blank tab.
    CloseTab { failure: Failure },
    /// The merge has failed: end the subscription.
    UnwatchFailed { failure: Failure },
    /// See whether it has arrived, pumping messages meanwhile.
    AwaitNavigation { deadline: u128, slice: Option<u32> },
    /// It has not arrived in time: log that.
    LogIncomplete,
    /// End the subscription.
    Unwatch,
    /// Close the new window.
    QuitSource,
    /// Bring the host forward.
    BringForward,
    /// The merge is over.
    Finished(Result<(), Failure>),
}

/// [`Stage`] as a value.
pub enum StageView {
    FindSource { deadline: int },
    RestBeforeSource { deadline: int },
    AdoptSource { place: int },
    CountEntries,
    ListTabs { base: nat },
    RequestTab { base: nat, before: Seq<usize> },
    FindTab { base: nat, before: Seq<usize>, deadline: int },
    RestBeforeTab { base: nat, before: Seq<usize>, deadline: int },
    ReadUrl { base: nat },
    ReadPath { base: nat },
    FindEntry { base: nat, location: Seq<char>, deadline: int, last: bool },
    RestBeforeEntry { base: nat, location: Seq<char>, deadline: int },
    PickEntry { location: Seq<char> },
    DumpEntries,
    LogDump { lines: Seq<Seq<char>>, at: int },
    AdoptTab { location: Seq<char>, place: int },
    Watch { location: Seq<char> },
    Navigate { location: Seq<char> },
    CloseTab { failure: FailureView },
    UnwatchFailed { failure: FailureView },
    AwaitNavigation { deadline: int, slice: Option<int> },
    LogIncomplete,
    Unwatch,
    QuitSource,
    BringForward,
    Finished(Result<(), FailureView>),
}

impl View for Stage {
    type V = StageView;

    open spec fn view(&self) -> StageView {
        match self {
            Stage::FindSource { deadline } => StageView::FindSource { deadline: *deadline as int },
            Stage::RestBeforeSource { deadline } => StageView::RestBeforeSource {
                deadline: *deadline as int,
            },
            Stage::AdoptSource { place } => StageView::AdoptSource { place: *place as int },
            Stage::CountEntries => StageView::CountEntries,
            Stage::ListTabs { base } => StageView::ListTabs { base: *base as nat },
            Stage::RequestTab { base, before } => StageView::RequestTab {
                base: *base as nat,
                before: before@,
            },
            Stage::FindTab { base, before, deadline } => StageView::FindTab {
                base: *base as nat,
                before: before@,
                deadline: *deadline as int,
            },
            Stage::RestBeforeTab { base, before, deadline } => StageView::RestBeforeTab {
                base: *base as nat,
                before: before@,
                deadline: *deadline as int,
            },
            Stage::ReadUrl { base } => StageView::ReadUrl { base: *base as nat },
            Stage::ReadPath { base } => StageView::ReadPath { base: *base as nat },
            Stage::FindEntry { base, location, deadline, last } => StageView::FindEntry {
                base: *base as nat,
                location: location@,
                deadline: *deadline as int,
                last: *last,
            },
            Stage::RestBeforeEntry { base, location, deadline } => StageView::RestBeforeEntry {
                base: *base as nat,
                location: location@,
                deadline: *deadline as int,
            },
            Stage::PickEntry { location } => StageView::PickEntry { location: location@ },
            Stage::DumpEntries => StageView::DumpEntries,
            Stage::LogDump { lines, at } => StageView::LogDump {
                lines: texts(lines@),
                at: *at as int,
            },
            Stage::AdoptTab { location, place } => StageView::AdoptTab {
                location: location@,
                place: *place as int,
            },
            Stage::Watch { location } => StageView::Watch { location: location@ },
            Stage::Navigate { location } => StageView::Navigate { location: location@ },
            Stage::CloseTab { failure } => StageView::CloseTab { failure: failure@ },
            Stage::UnwatchFailed { failure } => StageView::UnwatchFailed { failure: failure@ },
            Stage::AwaitNavigation { deadline, slice } => StageView::AwaitNavigation {
                deadline: *deadline as int,
                slice: match slice {
                    Some(ms) => Some(*ms as int),
                    None => None,
                },
            },
            Stage::LogIncomplete => StageView::LogIncomplete,
            Stage::Unwatch => StageView::Unwatch,
            Stage::QuitSource => StageView::QuitSource,
            Stage::BringForward => StageView::BringForward,
            Stage::Finished(r) => StageView::Finished(
                match r {
                    Ok(()) => Ok(()),
                    Err(e) => Err(e@),
                },
            ),
        }
    }
}

/// A merge of the window `top` into the window `host`.
pub struct Merge {
    pub top: usize,
    pub host: usize,
    pub stage: Stage,
}

/// [`Merge`] as a value.
pub struct MergeView {
    pub top: usize,
    pub host: usize,
    pub stage: StageView,
}

impl View for Merge {
    type V = MergeView;

    open spec fn view(&self) -> MergeView {
        MergeView { top: self.top, host: self.host, stage: self.stage@ }
    }
}

/// Whether `now` holds a handle that `before` does not.
pub open spec fn has_new(before: Seq<usize>, now: Seq<usize>) -> bool {
    exists|i: int| 0 <= i < now.len() && !before.contains(#[trigger] now[i])
}

/// How long one wait for messages may last, in milliseconds: what is left until the
/// deadline, and no more than [`PUMP_SLICE_MS`].
pub open spec fn pump_slice(deadline: int, now: u64) -> int {
    let left = (deadline - now) / NS_PER_MS as int;
    if left < PUMP_SLICE_MS {
        left
    } else {
        PUMP_SLICE_MS as int
    }
}

/// The line logged for a navigation that did not complete.
pub open spec fn incomplete_text(top: usize) -> Seq<char> {
    "Navigate2 did NOT complete in "@ + numeral(NAV_COMPLETE_TIMEOUT_MS as nat, 10)
        + " ms (new tab may be left at default page) for "@ + address(top)
}

/// A text that is there and not empty.
pub open spec fn non_empty(t: Option<String>) -> bool {
    t matches Some(s) && s@.len() > 0
}

impl StageView {
    /// A failure of the program's own, as an end.
    pub open spec fn failed(message: Seq<char>) -> StageView {
        StageView::Finished(Err(own_failure(message)))
    }

    /// What to do once it is known whether the tab has arrived.
    pub open spec fn after_pump(deadline: int, now: u64, arrived: bool) -> StageView {
        if arrived {
            StageView::Unwatch
        } else if now >= deadline {
            StageView::LogIncomplete
        } else {
            StageView::AwaitNavigation { deadline, slice: Some(pump_slice(deadline, now)) }
        }
    }
}

impl MergeView {
    /// A merge that begins now.
    pub open spec fn begin(top: usize, host: usize, now: u64) -> MergeView {
        MergeView {
            top,
            host,
            stage: StageView::FindSource { deadline: time_after(now, WAIT_WB_TIMEOUT_MS) },
        }
    }

    /// The call to make next; none once the merge is over.
    pub open spec fn call(self) -> Option<CallView> {
        match self.stage {
            StageView::FindSource { .. } => Some(CallView::ScanEntries),
            StageView::RestBeforeSource { .. } => Some(CallView::Sleep(WAIT_WB_POLL_MS as int)),
            StageView::AdoptSource { place } => Some(CallView::AdoptSource(place)),
            StageView::CountEntries => Some(CallView::ScanEntries),
            StageView::ListTabs { .. } => Some(CallView::ListTabs(self.host)),
            StageView::RequestTab { .. } => Some(CallView::RequestTab(self.host)),
            StageView::FindTab { .. } => Some(CallView::ListTabs(self.host)),
            StageView::RestBeforeTab { .. } => Some(CallView::Sleep(WAIT_NEW_TAB_POLL_MS as int)),
            StageView::ReadUrl { .. } => Some(CallView::ReadUrl),
            StageView::ReadPath { .. } => Some(CallView::ReadPath),
            StageView::FindEntry { .. } => Some(CallView::ScanEntries),
            StageView::RestBeforeEntry { .. } => Some(CallView::Sleep(WAIT_WB_POLL_MS as int)),
            StageView::PickEntry { .. } => Some(CallView::ScanEntries),
            StageView::DumpEntries => Some(CallView::DumpEntries),
            StageView::LogDump { lines, at } => Some(
                CallView::Log(
                    if 0 <= at < lines.len() {
                        lines[at]
                    } else {
                        Seq::empty()
                    },
                ),
            ),
            StageView::AdoptTab { place, .. } => Some(CallView::AdoptTab(place)),
            StageView::Watch { .. } => Some(CallView::Watch),
            StageView::Navigate { location } => Some(CallView::Navigate(location)),
            StageView::CloseTab { .. } => Some(CallView::CloseTab),
            StageView::UnwatchFailed { .. } => Some(CallView::Unwatch),
            StageView::AwaitNavigation { slice, .. } => Some(
                match slice {
                    Some(ms) => CallView::Pump(ms),
                    None => CallView::NavigationDone,
                },
            ),
            StageView::LogIncomplete => Some(CallView::Log(incomplete_text(self.top))),
            StageView::Unwatch => Some(CallView::Unwatch),
            StageView::QuitSource => Some(CallView::QuitSource),
            StageView::BringForward => Some(CallView::BringForward(self.host)),
            StageView::Finished(_) => None,
        }
    }

    /// Where the reply to that call leads. A reply that does not fit the call changes
    /// nothing, so the call is made again.
    pub open spec fn next_stage(self, now: u64, reply: Reply) -> StageView {
        match (self.stage, reply) {
            (StageView::FindSource { deadline }, Reply::Scanned(scan)) => match first_entry(
                scan_entries(scan),
                self.top,
            ) {
                Some(place) => StageView::AdoptSource { place },
                None => StageView::RestBeforeSource { deadline },
            },
            (StageView::RestBeforeSource { deadline }, Reply::Done) => if now < deadline {
                StageView::FindSource { deadline }
            } else {
                StageView::failed("[wait_wb_top] IWebBrowser2 for new top-level not found"@)
            },
            (StageView::AdoptSource { .. }, Reply::Done) => StageView::CountEntries,
            (StageView::CountEntries, Reply::Scanned(scan)) => StageView::ListTabs {
                base: entry_count(scan_entries(scan), self.host),
            },
            (StageView::ListTabs { base }, Reply::Handles(tabs)) => StageView::RequestTab {
                base,
                before: tabs@,
            },
            (StageView::RequestTab { base, before }, Reply::Outcome(r)) => match r {
                Ok(_) => StageView::FindTab {
                    base,
                    before,
                    deadline: time_after(now, WAIT_NEW_TAB_TIMEOUT_MS),
                },
                Err(e) => StageView::Finished(Err(in_step(e@, "request_new_tab"@))),
            },
            (StageView::FindTab { base, before, deadline }, Reply::Handles(tabs)) => if has_new(
                before,
                tabs@,
            ) {
                StageView::ReadUrl { base }
            } else {
                StageView::RestBeforeTab { base, before, deadline }
            },
            (StageView::RestBeforeTab { base, before, deadline }, Reply::Done) => if now
                < deadline {
                StageView::FindTab { base, before, deadline }
            } else {
                StageView::failed(
                    "[wait_new_tab] timeout waiting for new ShellTabWindowClass child"@,
                )
            },
            (StageView::ReadUrl { base }, Reply::Text(t)) => if non_empty(t) {
                StageView::FindEntry {
                    base,
                    location: t->0@,
                    deadline: time_after(now, WAIT_WB_TIMEOUT_MS),
                    last: false,
                }
            } else {
                StageView::ReadPath { base }
            },
            (StageView::ReadPath { base }, Reply::Text(t)) => match t {
                Some(s) => StageView::FindEntry {
                    base,
                    location: s@,
                    deadline: time_after(now, WAIT_WB_TIMEOUT_MS),
                    last: false,
                },
                None => StageView::failed(
                    "[location] empty LocationURL and PIDL fallback failed"@,
                ),
            },
            (StageView::FindEntry { base, location, deadline, last }, Reply::Scanned(scan)) => {
                if entry_count(scan_entries(scan), self.host) > base {
                    StageView::PickEntry { location }
                } else if last {
                    StageView::DumpEntries
                } else {
                    StageView::RestBeforeEntry { base, location, deadline }
                }
            },
            (StageView::RestBeforeEntry { base, location, deadline }, Reply::Done) => {
                StageView::FindEntry { base, location, deadline, last: now >= deadline }
            },
            (StageView::PickEntry { location }, Reply::Scanned(scan)) => match last_entry(
                scan_entries(scan),
                self.host,
            ) {
                Some(place) => StageView::AdoptTab { location, place },
                None => StageView::DumpEntries,
            },
            (StageView::DumpEntries, Reply::Dumped(dump)) => StageView::LogDump {
                lines: dump_lines("wait_for_new_host_entry timeout"@, dump),
                at: 0,
            },
            (StageView::LogDump { lines, at }, Reply::Done) => if at + 1 < lines.len() {
                StageView::LogDump { lines, at: at + 1 }
            } else {
                StageView::failed("[wait_new_entry] timeout waiting for new IShellWindows entry"@)
            },
            (StageView::AdoptTab { location, .. }, Reply::Done) => StageView::Watch { location },
            (StageView::Watch { location }, Reply::Outcome(r)) => match r {
                Ok(_) => StageView::Navigate { location },
                Err(e) => StageView::Finished(Err(in_step(e@, "watch_navigate"@))),
            },
            (StageView::Navigate { .. }, Reply::Outcome(r)) => match r {
                Ok(_) => StageView::AwaitNavigation {
                    deadline: time_after(now, NAV_COMPLETE_TIMEOUT_MS),
                    slice: None,
                },
                Err(e) => StageView::CloseTab { failure: in_step(e@, "Navigate2"@) },
            },
            (StageView::CloseTab { failure }, Reply::Done) => StageView::UnwatchFailed { failure },
            (StageView::UnwatchFailed { failure }, Reply::Done) => StageView::Finished(
                Err(failure),
            ),
            (StageView::AwaitNavigation { deadline, .. }, Reply::Navigated(arrived)) => {
                StageView::after_pump(deadline, now, arrived)
            },
            (StageView::LogIncomplete, Reply::Done) => StageView::UnwatchFailed {
                failure: own_failure(NEVER_ARRIVED@),
            },
            (StageView::Unwatch, Reply::Done) => StageView::QuitSource,
            (StageView::QuitSource, Reply::Done) => StageView::BringForward,
            (StageView::BringForward, Reply::Done) => StageView::Finished(Ok(())),
            (stage, _) => stage,
        }
    }

    /// The merge after a reply.
    pub open spec fn next(self, now: u64, reply: Reply) -> MergeView {
        MergeView { stage: self.next_stage(now, reply), ..self }
    }

    /// Whether a reply shows that the merge waits and makes progress: it was no answer yet,
    /// and a rest or a wait for messages follows.
    pub open spec fn keeps_waiting(self, now: u64, reply: Reply) -> bool {
        match (self.stage, reply) {
            (StageView::FindSource { .. }, Reply::Scanned(_)) => self.next_stage(
                now,
                reply,
            ) is RestBeforeSource,
            (StageView::FindTab { .. }, Reply::Handles(_)) => self.next_stage(
                now,
                reply,
            ) is RestBeforeTab,
            (StageView::FindEntry { .. }, Reply::Scanned(_)) => self.next_stage(
                now,
                reply,
            ) is RestBeforeEntry,
            (StageView::AwaitNavigation { .. }, Reply::Navigated(_)) => self.next_stage(
                now,
                reply,
            ) is AwaitNavigation,
            _ => false,
        }
    }

    /// The tracked windows after a reply: a merge that waits refreshes its window's stamp.
    pub open spec fn tracked_after(
        self,
        m: Map<usize, u64>,
        now: u64,
        reply: Reply,
    ) -> Map<usize, u64> {
        if self.keeps_waiting(now, reply) {
            touched(m, self.top, now)
        } else {
            m
        }
    }
}

/// Look for a handle that was not there before.
fn any_new(before: &Vec<usize>, now: &Vec<usize>) -> (r: bool)
    ensures
        r == has_new(before@, now@),
{
    for i in 0..now.len()
        invariant
            forall|k: int| 0 <= k < i ==> before@.contains(#[trigger] now@[k]),
    {
        let mut known: bool = false;
        for j in 0..before.len()
            invariant
                i < now.len(),
                known == before@.take(j as int).contains(now@[i as int]),
        {
            let ghost head = before@.take(j as int);
            proof {
                assert(before@.take(j + 1) == head.push(before@[j as int]));
                if head.contains(now@[i as int]) {
                    let k = choose|k: int| 0 <= k < head.len() && head[k] == now@[i as int];
                    assert(head.push(before@[j as int])[k] == now@[i as int]);
                }
                if before@[j as int] == now@[i as int] {
                    assert(head.push(before@[j as int])[j as int] == now@[i as int]);
                }
            }
            if before[j] == now[i] {
                known = true;
            }
        }
        assert(before@.take(before.len() as int) == before@);
        if !known {
            return true;
        }
    }
    false
}

/// The line for a navigation that did not complete.
fn incomplete_line(top: usize) -> (r: String)
    ensures
        r@ == incomplete_text(top),
{
    let mut line = "Navigate2 did NOT complete in ".to_owned();
    line.append(to_numeral(NAV_COMPLETE_TIMEOUT_MS, 10).as_str());
    line.append(" ms (new tab may be left at default page) for ");
    line.append(to_address(top).as_str());
    line
}

/// How long to wait for messages.
fn slice_before(deadline: u128, now: u64) -> (r: u32)
    requires
        now < deadline,
    ensures
        r == pump_slice(deadline as int, now),
{
    let left: u128 = (deadline - now as u128) / NS_PER_MS as u128;
    if left < PUMP_SLICE_MS as u128 {
        left as u32
    } else {
        PUMP_SLICE_MS as u32
    }
}

impl Merge {
    /// Begin to merge `top` into `host`.
    pub fn try_merge(tracker: &mut CloakTracker, top: usize, host: usize, now: u64) -> (r: Merge)
        ensures
            r@ == MergeView::begin(top, host, now),
            final(tracker)@ == touched(old(tracker)@, top, now),
    {
        tracker.touch(top, now);
        Merge {
            top,
            host,
            stage: Stage::FindSource { deadline: deadline_after(now, WAIT_WB_TIMEOUT_MS) },
        }
    }

    /// The call to make next; none once the merge is over.
    pub fn call(&self) -> (r: Option<Call>)
        ensures
            call_view(r) == self@.call(),
    {
        let call = match &self.stage {
            Stage::FindSource { .. } => Call::ScanEntries,
            Stage::RestBeforeSource { .. } => Call::Sleep(WAIT_WB_POLL_MS),
            Stage::AdoptSource { place } => Call::AdoptSource(*place),
            Stage::CountEntries => Call::ScanEntries,
            Stage::ListTabs { .. } => Call::ListTabs(self.host),
            Stage::RequestTab { .. } => Call::RequestTab(self.host),
            Stage::FindTab { .. } => Call::ListTabs(self.host),
            Stage::RestBeforeTab { .. } => Call::Sleep(WAIT_NEW_TAB_POLL_MS),
            Stage::ReadUrl { .. } => Call::ReadUrl,
            Stage::ReadPath { .. } => Call::ReadPath,
            Stage::FindEntry { .. } => Call::ScanEntries,
            Stage::RestBeforeEntry { .. } => Call::Sleep(WAIT_WB_POLL_MS),
            Stage::PickEntry { .. } => Call::ScanEntries,
            Stage::DumpEntries => Call::DumpEntries,
            Stage::LogDump { lines, at } => {
                if *at < lines.len() {
                    assert(texts(lines@)[*at as int] == lines@[*at as int]@);
                    Call::Log(lines[*at].clone())
                } else {
                    Call::Log(String::new())
                }
            },
            Stage::AdoptTab { place, .. } => Call::AdoptTab(*place),
            Stage::Watch { .. } => Call::Watch,
            Stage::Navigate { location } => Call::Navigate(location.clone()),
            Stage::CloseTab { .. } => Call::CloseTab,
            Stage::UnwatchFailed { .. } => Call::Unwatch,
            Stage::AwaitNavigation { slice, .. } => match slice {
                Some(ms) => Call::Pump(*ms),
                None => Call::NavigationDone,
            },
            Stage::LogIncomplete => Call::Log(incomplete_line(self.top)),
            Stage::Unwatch => Call::Unwatch,
            Stage::QuitSource => Call::QuitSource,
            Stage::BringForward => Call::BringForward(self.host),
            Stage::Finished(_) => {
                return None;
            },
        };
        Some(call)
    }

    /// Take the reply to [`Merge::call`], at the time it came.
    pub fn on_reply(self, tracker: &mut CloakTracker, now: u64, reply: Reply) -> (r: Merge)
        ensures
            r@ == self@.next(now, reply),
            final(tracker)@ == self@.tracked_after(old(tracker)@, now, reply),
    {
        let top: usize = self.top;
        let host: usize = self.host;
        let stage = match self.stage {
            Stage::FindSource { deadline } => match reply {
                Reply::Scanned(scan) => match find_first_wb_for_top(&scan, top) {
                    Some(place) => Stage::AdoptSource { place },
                    None => {
                        tracker.touch(top, now);
                        Stage::RestBeforeSource { deadline }
                    },
                },
                _ => Stage::FindSource { deadline },
            },
            Stage::RestBeforeSource { deadline } => match reply {
                Reply::Done => if (now as u128) < deadline {
                    Stage::FindSource { deadline }
                } else {
                    Stage::Finished(
                        Err(fail("[wait_wb_top] IWebBrowser2 for new top-level not found")),
                    )
                },
                _ => Stage::RestBeforeSource { deadline },
            },
            Stage::AdoptSource { place } => match reply {
                Reply::Done => Stage::CountEntries,
                _ => Stage::AdoptSource { place },
            },
            Stage::CountEntries => match reply {
                Reply::Scanned(scan) => Stage::ListTabs {
                    base: count_entries_for_top(&scan, host),
                },
                _ => Stage::CountEntries,
            },
            Stage::ListTabs { base } => match reply {
                Reply::Handles(tabs) => Stage::RequestTab { base, before: tabs },
                _ => Stage::ListTabs { base },
            },
            Stage::RequestTab { base, before } => match reply {
                Reply::Outcome(Ok(_)) => Stage::FindTab {
                    base,
                    before,
                    deadline: deadline_after(now, WAIT_NEW_TAB_TIMEOUT_MS),
                },
                Reply::Outcome(Err(e)) => Stage::Finished(Err(ctx(e, "request_new_tab"))),
                _ => Stage::RequestTab { base, before },
            },
            Stage::FindTab { base, before, deadline } => match reply {
                Reply::Handles(tabs) => if any_new(&before, &tabs) {
                    Stage::ReadUrl { base }
                } else {
                    tracker.touch(top, now);
                    Stage::RestBeforeTab { base, before, deadline }
                },
                _ => Stage::FindTab { base, before, deadline },
            },
            Stage::RestBeforeTab { base, before, deadline } => match reply {
                Reply::Done => if (now as u128) < deadline {
                    Stage::FindTab { base, before, deadline }
                } else {
                    Stage::Finished(
                        Err(
                            fail(
                                "[wait_new_tab] timeout waiting for new ShellTabWindowClass child",
                            ),
                        ),
                    )
                },
                _ => Stage::RestBeforeTab { base, before, deadline },
            },
            Stage::ReadUrl { base } => match reply {
                Reply::Text(Some(location)) => if location.as_str().is_empty() {
                    Stage::ReadPath { base }
                } else {
                    Stage::FindEntry {
                        base,
                        location,
                        deadline: deadline_after(now, WAIT_WB_TIMEOUT_MS),
                        last: false,
                    }
                },
                Reply::Text(None) => Stage::ReadPath { base },
                _ => Stage::ReadUrl { base },
            },
            Stage::ReadPath { base } => match reply {
                Reply::Text(Some(location)) => Stage::FindEntry {
                    base,
                    location,
                    deadline: deadline_after(now, WAIT_WB_TIMEOUT_MS),
                    last: false,
                },
                Reply::Text(None) => Stage::Finished(
                    Err(fail("[location] empty LocationURL and PIDL fallback failed")),
                ),
                _ => Stage::ReadPath { base },
            },
            Stage::FindEntry { base, location, deadline, last } => match reply {
                Reply::Scanned(scan) => if count_entries_for_top(&scan, host) > base {
                    Stage::PickEntry { location }
                } else if last {
                    Stage::DumpEntries
                } else {
                    tracker.touch(top, now);
                    Stage::RestBeforeEntry { base, location, deadline }
                },
                _ => Stage::FindEntry { base, location, deadline, last },
            },
            Stage::RestBeforeEntry { base, location, deadline } => match reply {
                Reply::Done => Stage::FindEntry {
                    base,
                    location,
                    deadline,
                    last: now as u128 >= deadline,
                },
                _ => Stage::RestBeforeEntry { base, location, deadline },
            },
            Stage::PickEntry { location } => match reply {
                Reply::Scanned(scan) => match find_last_wb_for_top(&scan, host) {
                    Some(place) => Stage::AdoptTab { location, place },
                    None => Stage::DumpEntries,
                },
                _ => Stage::PickEntry { location },
            },
            Stage::DumpEntries => match reply {
                Reply::Dumped(dump) => Stage::LogDump {
                    lines: log_shell_windows_snapshot("wait_for_new_host_entry timeout", &dump),
                    at: 0,
                },
                _ => Stage::DumpEntries,
            },
            Stage::LogDump { lines, at } => match reply {
                Reply::Done => if at < lines.len() && at + 1 < lines.len() {
                    Stage::LogDump { lines, at: at + 1 }
                } else {
                    Stage::Finished(
                        Err(fail("[wait_new_entry] timeout waiting for new IShellWindows entry")),
                    )
                },
                _ => Stage::LogDump { lines, at },
            },
            Stage::AdoptTab { location, place } => match reply {
                Reply::Done => Stage::Watch { location },
                _ => Stage::AdoptTab { location, place },
            },
            Stage::Watch { location } => match reply {
                Reply::Outcome(Ok(_)) => Stage::Navigate { location },
                Reply::Outcome(Err(e)) => Stage::Finished(Err(ctx(e, "watch_navigate"))),
                _ => Stage::Watch { location },
            },
            Stage::Navigate { location } => match reply {
                Reply::Outcome(Ok(_)) => Stage::AwaitNavigation {
                    deadline: deadline_after(now, NAV_COMPLETE_TIMEOUT_MS),
                    slice: None,
                },
                Reply::Outcome(Err(e)) => Stage::CloseTab { failure: ctx(e, "Navigate2") },
                _ => Stage::Navigate { location },
            },
            Stage::CloseTab { failure } => match reply {
                Reply::Done => Stage::UnwatchFailed { failure },
                _ => Stage::CloseTab { failure },
            },
            Stage::UnwatchFailed { failure } => match reply {
                Reply::Done => Stage::Finished(Err(failure)),
                _ => Stage::UnwatchFailed { failure },
            },
            Stage::AwaitNavigation { deadline, slice } => match reply {
                Reply::Navigated(arrived) => if arrived {
                    Stage::Unwatch
                } else if now as u128 >= deadline {
                    Stage::LogIncomplete
                } else {
                    tracker.touch(top, now);
                    Stage::AwaitNavigation { deadline, slice: Some(slice_before(deadline, now)) }
                },
                _ => Stage::AwaitNavigation { deadline, slice },
            },
            Stage::LogIncomplete => match reply {
                Reply::Done => Stage::UnwatchFailed { failure: fail(NEVER_ARRIVED) },
                _ => Stage::LogIncomplete,
            },
            Stage::Unwatch => match reply {
                Reply::Done => Stage::QuitSource,
                _ => Stage::Unwatch,
            },
            Stage::QuitSource => match reply {
                Reply::Done => Stage::BringForward,
                _ => Stage::QuitSource,
            },
            Stage::BringForward => match reply {
                Reply::Done => Stage::Finished(Ok(())),
                _ => Stage::BringForward,
            },
            Stage::Finished(r) => Stage::Finished(r),
        };
        Merge { top, host, stage }
    }
}

impl StageView {
    /// The new tab has been sent to the location.
    pub open spec fn sent(self) -> bool {
        self is AwaitNavigation || self is LogIncomplete || self.arrived()
    }

    /// The new tab has arrived at the location.
    pub open spec fn arrived(self) -> bool {
        match self {
            StageView::Unwatch => true,
            StageView::QuitSource => true,
            StageView::BringForward => true,
            StageView::Finished(r) => r is Ok,
            _ => false,
        }
    }

    /// The merge has failed, and only says so.
    pub open spec fn given_up(self) -> bool {
        match self {
            StageView::DumpEntries => true,
            StageView::LogDump { .. } => true,
            StageView::LogIncomplete => true,
            StageView::CloseTab { .. } => true,
            StageView::UnwatchFailed { .. } => true,
            StageView::Finished(r) => r is Err,
            _ => false,
        }
    }
}

impl MergeView {
    /// The merge after these replies, each with the time it came.
    pub open spec fn run(self, events: Seq<(u64, Reply)>) -> MergeView
        decreases events.len(),
    {
        if events.len() == 0 {
            self
        } else {
            self.run(events.drop_last()).next(events.last().0, events.last().1)
        }
    }
}

/// One more step of a run.
proof fn lemma_run_step(m: MergeView, events: Seq<(u64, Reply)>, k: int)
    requires
        0 <= k < events.len(),
    ensures
        m.run(events.take(k + 1)) == m.run(events.take(k)).next(events[k].0, events[k].1),
{
    assert(events.take(k + 1).drop_last() == events.take(k));
}

/// A run keeps its two windows, and does not come back from where no stage leads back.
proof fn lemma_run_keeps(m: MergeView, events: Seq<(u64, Reply)>, k: int)
    requires
        0 <= k <= events.len(),
    ensures
        m.run(events).top == m.top,
        m.run(events).host == m.host,
        m.run(events.take(k)).stage.arrived() ==> m.run(events).stage.arrived(),
        m.run(events.take(k)).stage.given_up() ==> m.run(events).stage.given_up(),
    decreases events.len(),
{
    if events.len() > 0 {
        let n = events.len() as int;
        assert(events.take(n) == events);
        if k < n {
            let rest = events.drop_last();
            lemma_run_keeps(m, rest, k);
            assert(rest.take(k) == events.take(k));
        } else {
            lemma_run_keeps(m, events.drop_last(), 0);
        }
    } else {
        assert(events.take(k) == events);
    }
}

/// The new window is never lost to a failure: a merge that fails has not closed it at any
/// point, nor brought the host forward.
pub proof fn law_window_survives_failure(
    top: usize,
    host: usize,
    at: u64,
    events: Seq<(u64, Reply)>,
    k: int,
)
    requires
        MergeView::begin(top, host, at).run(events).stage matches StageView::Finished(Err(_)),
        0 <= k <= events.len(),
    ensures
        MergeView::begin(top, host, at).run(events.take(k)).call() != Some(CallView::QuitSource),
        MergeView::begin(top, host, at).run(events.take(k)).call() != Some(
            CallView::BringForward(host),
        ),
{
    lemma_run_keeps(MergeView::begin(top, host, at), events, k);
}

/// The new window is closed only once the new tab shows its folder: before, a navigation of
/// the tab was reported complete.
pub proof fn law_closed_only_after_navigation(
    top: usize,
    host: usize,
    at: u64,
    events: Seq<(u64, Reply)>,
)
    requires
        MergeView::begin(top, host, at).run(events).stage.arrived(),
    ensures
        exists|k: int|
            0 <= k < events.len() && (#[trigger] MergeView::begin(top, host, at).run(
                events.take(k),
            )).stage is AwaitNavigation && events[k].1 == Reply::Navigated(true),
    decreases events.len(),
{
    let m = MergeView::begin(top, host, at);
    if events.len() > 0 {
        let n = events.len() - 1;
        let rest = events.drop_last();
        assert(rest == events.take(n));
        lemma_run_step(m, events, n);
        assert(events.take(n + 1) == events);
        if m.run(rest).stage.arrived() {
            law_closed_only_after_navigation(top, host, at, rest);
            let k = choose|k: int|
                0 <= k < rest.len() && (#[trigger] m.run(rest.take(k))).stage is AwaitNavigation
                    && rest[k].1 == Reply::Navigated(true);
            assert(rest.take(k) == events.take(k));
            assert(m.run(events.take(k)).stage is AwaitNavigation);
        } else {
            assert(m.run(events.take(n)).stage is AwaitNavigation);
        }
    }
}

/// An arrival is waited for only once the call that sends the new tab to the location was
/// answered with success.
pub proof fn law_awaited_only_after_success(
    top: usize,
    host: usize,
    at: u64,
    events: Seq<(u64, Reply)>,
)
    requires
        MergeView::begin(top, host, at).run(events).stage.sent(),
    ensures
        exists|k: int|
            0 <= k < events.len() && (#[trigger] MergeView::begin(top, host, at).run(
                events.take(k),
            )).stage is Navigate && events[k].1 matches Reply::Outcome(Ok(_)),
    decreases events.len(),
{
    let m = MergeView::begin(top, host, at);
    if events.len() > 0 {
        let n = events.len() - 1;
        let rest = events.drop_last();
        assert(rest == events.take(n));
        lemma_run_step(m, events, n);
        assert(events.take(n + 1) == events);
        if m.run(rest).stage.sent() {
            law_awaited_only_after_success(top, host, at, rest);
            let k = choose|k: int|
                0 <= k < rest.len() && (#[trigger] m.run(rest.take(k))).stage is Navigate
                    && rest[k].1 matches Reply::Outcome(Ok(_));
            assert(rest.take(k) == events.take(k));
            assert(m.run(events.take(k)).stage is Navigate);
        } else {
            assert(m.run(events.take(n)).stage is Navigate);
        }
    }
}

/// A merge whose new tab has not arrived by the deadline is given up: a line is logged and the
/// subscription ended, and the new window stays. So does the tab, which may still get there.
pub proof fn law_late_arrival_is_given_up(m: MergeView, now: u64, deadline: int, later: u64)
    requires
        m.stage matches StageView::AwaitNavigation { deadline: d, .. } && d == deadline,
        now >= deadline,
    ensures
        ({
            let logging = m.next(now, Reply::Navigated(false));
            let leaving = logging.next(later, Reply::Done);
            &&& logging.call() == Some(CallView::Log(incomplete_text(m.top)))
            &&& leaving.call() == Some(CallView::Unwatch)
            &&& leaving.next(later, Reply::Done).stage == StageView::failed(NEVER_ARRIVED@)
        }),
{
}

impl StageView {
    /// Where the new tab is to go, once that is known.
    pub open spec fn destination(self) -> Option<Seq<char>> {
        match self {
            StageView::FindEntry { location, .. } => Some(location),
            StageView::RestBeforeEntry { location, .. } => Some(location),
            StageView::PickEntry { location } => Some(location),
            StageView::AdoptTab { location, .. } => Some(location),
            StageView::Watch { location } => Some(location),
            StageView::Navigate { location } => Some(location),
            _ => None,
        }
    }

    /// How many entries the host had before it was asked for a tab, while that matters.
    pub open spec fn entries_before(self) -> Option<nat> {
        match self {
            StageView::ListTabs { base } => Some(base),
            StageView::RequestTab { base, .. } => Some(base),
            StageView::FindTab { base, .. } => Some(base),
            StageView::RestBeforeTab { base, .. } => Some(base),
            StageView::ReadUrl { base } => Some(base),
            StageView::ReadPath { base } => Some(base),
            StageView::FindEntry { base, .. } => Some(base),
            StageView::RestBeforeEntry { base, .. } => Some(base),
            _ => None,
        }
    }
}

/// Whether a reply gives the location of the new window: its URL, or for a window without one
/// its parsing path.
pub open spec fn gives_location(stage: StageView, reply: Reply, location: Seq<char>) -> bool {
    match reply {
        Reply::Text(t) => t is Some && t->0@ == location && (stage is ReadPath || (stage is ReadUrl
            && location.len() > 0)),
        _ => false,
    }
}

/// The new tab is sent to the location of the new window: what its browser reported as its
/// URL, or the parsing path of its folder where that was empty.
pub proof fn law_tab_goes_where_the_window_was(
    top: usize,
    host: usize,
    at: u64,
    events: Seq<(u64, Reply)>,
    location: Seq<char>,
)
    requires
        MergeView::begin(top, host, at).run(events).stage.destination() == Some(location),
    ensures
        exists|k: int|
            0 <= k < events.len() && gives_location(
                (#[trigger] MergeView::begin(top, host, at).run(events.take(k))).stage,
                events[k].1,
                location,
            ),
    decreases events.len(),
{
    let m = MergeView::begin(top, host, at);
    if events.len() > 0 {
        let n = events.len() - 1;
        let rest = events.drop_last();
        assert(rest == events.take(n));
        lemma_run_step(m, events, n);
        assert(events.take(n + 1) == events);
        if m.run(rest).stage.destination() == Some(location) {
            law_tab_goes_where_the_window_was(top, host, at, rest, location);
            let k = choose|k: int|
                0 <= k < rest.len() && gives_location(
                    (#[trigger] m.run(rest.take(k))).stage,
                    rest[k].1,
                    location,
                );
            assert(rest.take(k) == events.take(k));
            assert(gives_location(m.run(events.take(k)).stage, events[k].1, location));
        } else {
            assert(gives_location(m.run(events.take(n)).stage, events[n].1, location));
        }
    }
}

/// The count that the host's entries are held against is that of a scan made before the host
/// was asked for a tab.
pub proof fn law_entries_are_counted_before(
    top: usize,
    host: usize,
    at: u64,
    events: Seq<(u64, Reply)>,
    base: nat,
)
    requires
        MergeView::begin(top, host, at).run(events).stage.entries_before() == Some(base),
    ensures
        exists|k: int|
            0 <= k < events.len() && (#[trigger] MergeView::begin(top, host, at).run(
                events.take(k),
            )).stage is CountEntries && (events[k].1 matches Reply::Scanned(scan) && entry_count(
                scan_entries(scan),
                host,
            ) == base),
    decreases events.len(),
{
    let m = MergeView::begin(top, host, at);
    if events.len() > 0 {
        let n = events.len() - 1;
        let rest = events.drop_last();
        assert(rest == events.take(n));
        lemma_run_step(m, events, n);
        lemma_run_keeps(m, rest, 0);
        assert(events.take(n + 1) == events);
        if m.run(rest).stage.entries_before() == Some(base) {
            law_entries_are_counted_before(top, host, at, rest, base);
            let k = choose|k: int|
                0 <= k < rest.len() && (#[trigger] m.run(rest.take(k))).stage is CountEntries && (
                rest[k].1 matches Reply::Scanned(scan) && entry_count(scan_entries(scan), host)
                    == base);
            assert(rest.take(k) == events.take(k));
            assert(m.run(events.take(k)).stage is CountEntries);
        } else {
            assert(m.run(events.take(n)).stage is CountEntries);
        }
    }
}

/// The browser that is sent away is that of the host's newest entry, and the entry is looked
/// for only once the host has more entries than before it was asked for a tab.
pub proof fn law_newest_entry_is_adopted(m: MergeView, now: u64, reply: Reply)
    ensures
        m.stage !is AdoptTab ==> (m.next(now, reply).stage matches StageView::AdoptTab {
            place,
            ..
        } ==> m.stage is PickEntry && (reply matches Reply::Scanned(scan) && last_entry(
            scan_entries(scan),
            m.host,
        ) == Some(place))),
        m.next(now, reply).stage is PickEntry && m.stage !is PickEntry ==> (m.stage matches
            StageView::FindEntry { base, .. } && (reply matches Reply::Scanned(scan)
            && entry_count(scan_entries(scan), m.host) > base)),
{
}

/// A merge that succeeds has closed the new window and brought the host forward.
pub proof fn law_success_closes_and_brings_forward(
    top: usize,
    host: usize,
    at: u64,
    events: Seq<(u64, Reply)>,
)
    requires
        MergeView::begin(top, host, at).run(events).stage matches StageView::Finished(Ok(_)),
    ensures
        exists|i: int, k: int|
            0 <= i < k < events.len() && (#[trigger] MergeView::begin(top, host, at).run(
                events.take(i),
            )).call() == Some(CallView::QuitSource) && events[i].1 is Done && (
            #[trigger] MergeView::begin(top, host, at).run(events.take(k))).call() == Some(
                CallView::BringForward(host),
            ) && events[k].1 is Done,
{
    let m = MergeView::begin(top, host, at);
    lemma_run_keeps(m, events, 0);
    let k = lemma_entered(m, events, 0);
    let before = events.take(k);
    assert(before.take(k) == before);
    lemma_run_keeps(m, before, 0);
    let i = lemma_entered(m, before, 1);
    assert(before.take(i) == events.take(i));
    assert(m.run(events.take(i)).call() == Some(CallView::QuitSource));
    assert(m.run(events.take(k)).call() == Some(CallView::BringForward(host)));
}

/// Where the last two stages of a success were entered from: the reply `Done` to the stage
/// before.
proof fn lemma_entered(m: MergeView, events: Seq<(u64, Reply)>, back: nat) -> (k: int)
    requires
        m.stage is FindSource,
        back == 0 ==> (m.run(events).stage matches StageView::Finished(Ok(_))),
        back != 0 ==> m.run(events).stage is BringForward,
    ensures
        0 <= k < events.len(),
        events[k].1 is Done,
        back == 0 ==> m.run(events.take(k)).stage is BringForward,
        back != 0 ==> m.run(events.take(k)).stage is QuitSource,
    decreases events.len(),
{
    let n = events.len() - 1;
    let rest = events.drop_last();
    assert(events.len() > 0);
    assert(rest == events.take(n));
    lemma_run_step(m, events, n);
    assert(events.take(n + 1) == events);
    let same = if back == 0 {
        m.run(rest).stage matches StageView::Finished(Ok(_))
    } else {
        m.run(rest).stage is BringForward
    };
    if same {
        let k = lemma_entered(m, rest, back);
        assert(rest.take(k) == events.take(k));
        k
    } else {
        n
    }
}

impl StageView {
    /// How far the merge has come: the host has been asked for a tab, the tab has been sent to
    /// the location, the new window has been closed; or the merge has failed.
    pub open spec fn phase(self) -> int {
        match self {
            StageView::FindSource { .. } => 0,
            StageView::RestBeforeSource { .. } => 0,
            StageView::AdoptSource { .. } => 0,
            StageView::CountEntries => 0,
            StageView::ListTabs { .. } => 0,
            StageView::RequestTab { .. } => 0,
            StageView::AwaitNavigation { .. } => 2,
            StageView::Unwatch => 2,
            StageView::QuitSource => 2,
            StageView::BringForward => 3,
            StageView::Finished(Ok(_)) => 3,
            _ => if self.given_up() {
                4
            } else {
                1
            },
        }
    }
}

impl MergeView {
    /// Whether the reply at place `k` accepts a request for a tab.
    pub open spec fn request_accepted(self, events: Seq<(u64, Reply)>, k: int) -> bool {
        &&& 0 <= k < events.len()
        &&& self.run(events.take(k)).call() == Some(CallView::RequestTab(self.host))
        &&& events[k].1 matches Reply::Outcome(Ok(_))
    }

    /// Whether the reply at place `k` accepts a navigation.
    pub open spec fn navigation_accepted(self, events: Seq<(u64, Reply)>, k: int) -> bool {
        &&& 0 <= k < events.len()
        &&& self.run(events.take(k)).call() matches Some(CallView::Navigate(_))
        &&& events[k].1 matches Reply::Outcome(Ok(_))
    }

    /// Whether the new window is closed at place `k`.
    pub open spec fn closed_at(self, events: Seq<(u64, Reply)>, k: int) -> bool {
        &&& 0 <= k < events.len()
        &&& self.run(events.take(k)).call() == Some(CallView::QuitSource)
        &&& events[k].1 is Done
    }
}

/// A merge does not go back.
proof fn lemma_phase_grows(m: MergeView, events: Seq<(u64, Reply)>, a: int, b: int)
    requires
        0 <= a <= b <= events.len(),
    ensures
        m.run(events.take(a)).stage.phase() <= m.run(events.take(b)).stage.phase(),
    decreases b - a,
{
    if a < b {
        lemma_phase_grows(m, events, a, b - 1);
        lemma_run_step(m, events, b - 1);
    }
}

/// A merge that has not failed has entered each phase from the one before.
proof fn lemma_phase_entered(m: MergeView, events: Seq<(u64, Reply)>, phase: int) -> (k: int)
    requires
        m.stage.phase() == 0,
        1 <= phase <= m.run(events).stage.phase() <= 3,
    ensures
        0 <= k < events.len(),
        m.run(events.take(k)).stage.phase() == phase - 1,
        m.run(events.take(k + 1)).stage.phase() == phase,
    decreases events.len(),
{
    assert(events.len() > 0);
    let n = events.len() - 1;
    let rest = events.drop_last();
    assert(rest == events.take(n));
    assert(events.take(n + 1) == events);
    lemma_run_step(m, events, n);
    lemma_phase_grows(m, events, n, n + 1);
    if m.run(rest).stage.phase() >= phase {
        let k = lemma_phase_entered(m, rest, phase);
        assert(rest.take(k) == events.take(k));
        assert(rest.take(k + 1) == events.take(k + 1));
        k
    } else {
        n
    }
}

/// A merge that succeeds has had exactly one request for a tab accepted, then exactly one
/// navigation, and closed the new window after both.
pub proof fn law_one_tab_and_one_navigation(
    top: usize,
    host: usize,
    at: u64,
    events: Seq<(u64, Reply)>,
)
    requires
        MergeView::begin(top, host, at).run(events).stage matches StageView::Finished(Ok(_)),
    ensures
        ({
            let m = MergeView::begin(top, host, at);
            exists|i: int, j: int, q: int|
                {
                    &&& i < j < q
                    &&& #[trigger] m.request_accepted(events, i)
                    &&& #[trigger] m.navigation_accepted(events, j)
                    &&& #[trigger] m.closed_at(events, q)
                    &&& forall|k: int| #[trigger] m.request_accepted(events, k) ==> k == i
                    &&& forall|k: int| #[trigger] m.navigation_accepted(events, k) ==> k == j
                    &&& forall|k: int| #[trigger] m.closed_at(events, k) ==> k == q
                }
        }),
{
    let m = MergeView::begin(top, host, at);
    let i = lemma_phase_entered(m, events, 1);
    let j = lemma_phase_entered(m, events, 2);
    let q = lemma_phase_entered(m, events, 3);
    lemma_run_step(m, events, i);
    lemma_run_step(m, events, j);
    lemma_run_step(m, events, q);
    lemma_run_keeps(m, events.take(i), 0);
    if j <= i {
        lemma_phase_grows(m, events, j, i);
    }
    if q <= j {
        lemma_phase_grows(m, events, q, j);
    }
    assert(m.request_accepted(events, i));
    assert(m.navigation_accepted(events, j));
    assert(m.closed_at(events, q));
    assert forall|k: int| #[trigger] m.request_accepted(events, k) implies k == i by {
        lemma_only_step_into(m, events, 1, i, k);
    }
    assert forall|k: int| #[trigger] m.navigation_accepted(events, k) implies k == j by {
        lemma_only_step_into(m, events, 2, j, k);
    }
    assert forall|k: int| #[trigger] m.closed_at(events, k) implies k == q by {
        lemma_only_step_into(m, events, 3, q, k);
    }
}

/// A phase is entered once.
proof fn lemma_only_step_into(
    m: MergeView,
    events: Seq<(u64, Reply)>,
    phase: int,
    a: int,
    b: int,
)
    requires
        0 <= a < events.len(),
        0 <= b < events.len(),
        m.run(events.take(a)).stage.phase() < phase,
        m.run(events.take(a + 1)).stage.phase() >= phase,
        phase == 1 ==> m.request_accepted(events, b),
        phase == 2 ==> m.navigation_accepted(events, b),
        phase == 3 ==> m.closed_at(events, b),
        1 <= phase <= 3,
    ensures
        a == b,
{
    lemma_run_step(m, events, b);
    if a < b {
        lemma_phase_grows(m, events, a + 1, b);
    }
    if b < a {
        lemma_phase_grows(m, events, b + 1, a);
    }
}

/// The replies of a system that goes along with a merge from the first call to the last.
pub open spec fn all_goes_well(top: usize, host: usize, events: Seq<(u64, Reply)>) -> bool {
    &&& events.len() == 16
    // The new window has an entry, and those of the host are counted.
    &&& events[0].1 matches Reply::Scanned(scan) && first_entry(scan_entries(scan), top) is Some
    &&& events[1].1 is Done
    &&& events[2].1 is Scanned
    // A tab appears that was not there before.
    &&& events[3].1 is Handles
    &&& events[4].1 matches Reply::Outcome(Ok(_))
    &&& events[5].1 is Handles
    &&& has_new(events[3].1->Handles_0@, events[5].1->Handles_0@)
    &&& events[6].1 matches Reply::Text(t) && non_empty(t)
    // So does its entry.
    &&& events[7].1 matches Reply::Scanned(scan) && entry_count(scan_entries(scan), host)
        > entry_count(scan_entries(events[2].1->Scanned_0), host)
    &&& events[8].1 matches Reply::Scanned(scan) && last_entry(scan_entries(scan), host) is Some
    &&& events[9].1 is Done
    // It can be watched, takes the location, and arrives.
    &&& events[10].1 matches Reply::Outcome(Ok(_))
    &&& events[11].1 matches Reply::Outcome(Ok(_))
    &&& events[12].1 == Reply::Navigated(true)
    &&& events[13].1 is Done
    &&& events[14].1 is Done
    &&& events[15].1 is Done
}

/// Where the system goes along, the merge succeeds, in sixteen calls.
pub proof fn law_merge_succeeds(top: usize, host: usize, at: u64, events: Seq<(u64, Reply)>)
    requires
        all_goes_well(top, host, events),
    ensures
        MergeView::begin(top, host, at).run(events).stage == StageView::Finished(Ok(())),
        MergeView::begin(top, host, at).run(events.take(11)).call() == Some(
            CallView::Navigate(events[6].1->Text_0->0@),
        ),
{
    let m = MergeView::begin(top, host, at);
    assert(m.run(events.take(0)) == m);
    lemma_run_step(m, events, 0);
    lemma_run_step(m, events, 1);
    lemma_run_step(m, events, 2);
    lemma_run_step(m, events, 3);
    lemma_run_step(m, events, 4);
    lemma_run_step(m, events, 5);
    lemma_run_step(m, events, 6);
    lemma_run_step(m, events, 7);
    lemma_run_step(m, events, 8);
    lemma_run_step(m, events, 9);
    lemma_run_step(m, events, 10);
    lemma_run_step(m, events, 11);
    lemma_run_step(m, events, 12);
    lemma_run_step(m, events, 13);
    lemma_run_step(m, events, 14);
    lemma_run_step(m, events, 15);
    assert(events.take(16) == events);
}

/// A merge that succeeds writes nothing to the log.
pub proof fn law_success_is_silent(
    top: usize,
    host: usize,
    at: u64,
    events: Seq<(u64, Reply)>,
    k: int,
)
    requires
        MergeView::begin(top, host, at).run(events).stage matches StageView::Finished(Ok(_)),
        0 <= k <= events.len(),
    ensures
        !(MergeView::begin(top, host, at).run(events.take(k)).call() matches Some(
            CallView::Log(_),
        )),
{
    lemma_run_keeps(MergeView::begin(top, host, at), events, k);
}

/// The line about a navigation that did not complete is written only where the deadline had passed and the tab had not arrived.
pub proof fn law_incomplete_only_after_deadline(m: MergeView, now: u64, reply: Reply)
    requires
        m.stage !is LogIncomplete,
        m.next(now, reply).stage is LogIncomplete,
    ensures
        m.stage matches StageView::AwaitNavigation { deadline, .. } && now >= deadline,
        reply == Reply::Navigated(false),
{
}

/// A merge that waits keeps its window hidden: whenever a rest or a wait for messages
/// begins, the window's stamp is fresh, the wait lasts at most [`PUMP_SLICE_MS`], and no
/// sweep of the next five seconds gives the window up.
pub proof fn law_waiting_keeps_cloak(
    m: MergeView,
    cloaks: Map<usize, u64>,
    now: u64,
    reply: Reply,
    later: u64,
)
    requires
        m.next(now, reply).stage != m.stage || m.keeps_waiting(now, reply),
        m.next(now, reply).call() matches Some(CallView::Sleep(_)) || m.next(now, reply).call()
            matches Some(CallView::Pump(_)),
        now <= later <= now + crate::cloak::STALE_THRESHOLD_NS,
    ensures
        m.tracked_after(cloaks, now, reply) == touched(cloaks, m.top, now),
        match m.next(now, reply).call() {
            Some(CallView::Sleep(ms)) => ms <= PUMP_SLICE_MS,
            Some(CallView::Pump(ms)) => ms <= PUMP_SLICE_MS,
            _ => false,
        },
        !crate::cloak::tracked_stale(m.tracked_after(cloaks, now, reply), m.top, later),
{
}

/// A wait ends at its deadline: the first reply at or after it is the last of its stage,
/// but for one final scan for the entry of the new tab.
pub proof fn law_waits_end(m: MergeView, now: u64)
    ensures
        m.stage matches StageView::RestBeforeSource { deadline } && now >= deadline ==> m.next(
            now,
            Reply::Done,
        ).stage.given_up(),
        m.stage matches StageView::RestBeforeTab { deadline, .. } && now >= deadline ==> m.next(
            now,
            Reply::Done,
        ).stage.given_up(),
        m.stage matches StageView::RestBeforeEntry { deadline, .. } && now >= deadline ==> m.next(
            now,
            Reply::Done,
        ).stage matches StageView::FindEntry { last: true, .. },
        forall|scan: crate::shell_windows::Scan|
            m.stage matches StageView::FindEntry { last: true, .. } ==> {
                let s = (#[trigger] m.next(now, Reply::Scanned(scan))).stage;
                s is PickEntry || s.given_up()
            },
        m.stage matches StageView::AwaitNavigation { deadline, .. } && now >= deadline ==> m.next(
            now,
            Reply::Navigated(false),
        ).stage is LogIncomplete,
{
}

/// A run of two parts goes on where the first part ended.
proof fn lemma_run_append(m: MergeView, a: Seq<(u64, Reply)>, b: Seq<(u64, Reply)>)
    ensures
        m.run(a + b) == m.run(a).run(b),
    decreases b.len(),
{
    if b.len() == 0 {
        assert(a + b == a);
    } else {
        lemma_run_append(m, a, b.drop_last());
        assert((a + b).drop_last() == a + b.drop_last());
        assert((a + b).last() == b.last());
    }
}

/// Whether a reply is a scan that lists an entry of the window.
pub open spec fn lists(reply: Reply, hwnd: usize) -> bool {
    reply matches Reply::Scanned(Some(v)) && v@.contains(Some(hwnd))
}

/// Whether a reply names a tab that was not there before.
pub open spec fn names_new_tab(reply: Reply, before: Seq<usize>) -> bool {
    reply matches Reply::Handles(tabs) && exists|i: int|
        0 <= i < tabs@.len() && !before.contains(#[trigger] tabs@[i])
}

/// Scans that do not list the window yet, each with a rest behind it that ends in time.
pub open spec fn source_waits(events: Seq<(u64, Reply)>, top: usize, deadline: int) -> bool {
    &&& events.len() % 2 == 0
    &&& forall|i: int|
        0 <= i < events.len() ==> if i % 2 == 0 {
            (#[trigger] events[i]).1 is Scanned && !lists(events[i].1, top)
        } else {
            events[i].1 is Done && events[i].0 < deadline
        }
}

/// Listings without a new tab, each with a rest behind it that ends in time.
pub open spec fn tab_waits(events: Seq<(u64, Reply)>, before: Seq<usize>, deadline: int) -> bool {
    &&& events.len() % 2 == 0
    &&& forall|i: int|
        0 <= i < events.len() ==> if i % 2 == 0 {
            (#[trigger] events[i]).1 is Handles && !names_new_tab(events[i].1, before)
        } else {
            events[i].1 is Done && events[i].0 < deadline
        }
}

/// How many entries of the window a reply lists.
pub open spec fn entries_in(reply: Reply, hwnd: usize) -> nat {
    match reply {
        Reply::Scanned(Some(v)) => entry_count(v@, hwnd),
        _ => 0,
    }
}

/// Scans that list no more entries of the host than before, each with a rest behind it that
/// ends in time.
pub open spec fn entry_waits(
    events: Seq<(u64, Reply)>,
    host: usize,
    base: nat,
    deadline: int,
) -> bool {
    &&& events.len() % 2 == 0
    &&& forall|i: int|
        0 <= i < events.len() ==> if i % 2 == 0 {
            (#[trigger] events[i]).1 is Scanned && entries_in(events[i].1, host) <= base
        } else {
            events[i].1 is Done && events[i].0 < deadline
        }
}

/// Looks at a navigation that has not completed yet, all in time.
pub open spec fn navigation_waits(events: Seq<(u64, Reply)>, deadline: int) -> bool {
    forall|i: int|
        0 <= i < events.len() ==> (#[trigger] events[i]).1 == Reply::Navigated(false)
            && events[i].0 < deadline
}

proof fn lemma_lists(reply: Reply, hwnd: usize)
    requires
        reply is Scanned,
    ensures
        lists(reply, hwnd) <==> first_entry(scan_entries(reply->Scanned_0), hwnd) is Some,
        lists(reply, hwnd) <==> last_entry(scan_entries(reply->Scanned_0), hwnd) is Some,
        entries_in(reply, hwnd) == entry_count(scan_entries(reply->Scanned_0), hwnd),
{
    let entries = scan_entries(reply->Scanned_0);
    law_first_entry(entries, hwnd);
    law_last_entry(entries, hwnd);
    law_entries_are_counted_one_by_one(entries, None, hwnd);
    if entries.contains(Some(hwnd)) {
        let i = choose|i: int| 0 <= i < entries.len() && entries[i] == Some(hwnd);
        assert(entries[i] == Some(hwnd));
    }
}

proof fn lemma_empty_waits(m: MergeView, events: Seq<(u64, Reply)>)
    requires
        events.len() >= 2,
    ensures
        ({
            let n = events.len() as int;
            let rest = events.take(n - 2);
            &&& events.drop_last().drop_last() == rest
            &&& forall|i: int| 0 <= i < n - 2 ==> #[trigger] rest[i] == events[i]
            &&& m.run(events) == m.run(rest).next(events[n - 2].0, events[n - 2].1).next(
                events[n - 1].0,
                events[n - 1].1,
            )
        }),
{
    reveal_with_fuel(MergeView::run, 3);
    let n = events.len() as int;
    assert(events.drop_last().drop_last() == events.take(n - 2));
    assert(events.drop_last().last() == events[n - 2]);
}

proof fn lemma_source_waits(m: MergeView, events: Seq<(u64, Reply)>, deadline: int)
    requires
        m.stage == (StageView::FindSource { deadline }),
        source_waits(events, m.top, deadline),
    ensures
        m.run(events) == m,
    decreases events.len(),
{
    if events.len() > 0 {
        let n = events.len() as int;
        lemma_empty_waits(m, events);
        let rest = events.take(n - 2);
        assert forall|i: int| 0 <= i < rest.len() implies if i % 2 == 0 {
            (#[trigger] rest[i]).1 is Scanned && !lists(rest[i].1, m.top)
        } else {
            rest[i].1 is Done && rest[i].0 < deadline
        } by {
            assert(rest[i] == events[i]);
        }
        lemma_source_waits(m, rest, deadline);
        assert((n - 2) % 2 == 0 && (n - 1) % 2 == 1);
        assert(events[n - 2].1 is Scanned && events[n - 1].1 is Done);
        lemma_lists(events[n - 2].1, m.top);
    }
}

proof fn lemma_tab_waits(
    m: MergeView,
    events: Seq<(u64, Reply)>,
    base: nat,
    before: Seq<usize>,
    deadline: int,
)
    requires
        m.stage == (StageView::FindTab { base, before, deadline }),
        tab_waits(events, before, deadline),
    ensures
        m.run(events) == m,
    decreases events.len(),
{
    if events.len() > 0 {
        let n = events.len() as int;
        lemma_empty_waits(m, events);
        let rest = events.take(n - 2);
        assert forall|i: int| 0 <= i < rest.len() implies if i % 2 == 0 {
            (#[trigger] rest[i]).1 is Handles && !names_new_tab(rest[i].1, before)
        } else {
            rest[i].1 is Done && rest[i].0 < deadline
        } by {
            assert(rest[i] == events[i]);
        }
        lemma_tab_waits(m, rest, base, before, deadline);
        assert((n - 2) % 2 == 0 && (n - 1) % 2 == 1);
        assert(events[n - 2].1 is Handles && events[n - 1].1 is Done);
    }
}

proof fn lemma_entry_waits(
    m: MergeView,
    events: Seq<(u64, Reply)>,
    base: nat,
    location: Seq<char>,
    deadline: int,
)
    requires
        m.stage == (StageView::FindEntry { base, location, deadline, last: false }),
        entry_waits(events, m.host, base, deadline),
    ensures
        m.run(events) == m,
    decreases events.len(),
{
    if events.len() > 0 {
        let n = events.len() as int;
        lemma_empty_waits(m, events);
        let rest = events.take(n - 2);
        assert forall|i: int| 0 <= i < rest.len() implies if i % 2 == 0 {
            (#[trigger] rest[i]).1 is Scanned && entries_in(rest[i].1, m.host) <= base
        } else {
            rest[i].1 is Done && rest[i].0 < deadline
        } by {
            assert(rest[i] == events[i]);
        }
        lemma_entry_waits(m, rest, base, location, deadline);
        assert((n - 2) % 2 == 0 && (n - 1) % 2 == 1);
        assert(events[n - 2].1 is Scanned && events[n - 1].1 is Done);
        lemma_lists(events[n - 2].1, m.host);
    }
}

proof fn lemma_navigation_waits(m: MergeView, events: Seq<(u64, Reply)>, deadline: int)
    requires
        m.stage matches StageView::AwaitNavigation { deadline: d, .. } && d == deadline,
        navigation_waits(events, deadline),
    ensures
        m.run(events).top == m.top,
        m.run(events).host == m.host,
        m.run(events).stage matches StageView::AwaitNavigation { deadline: d, .. } && d == deadline,
    decreases events.len(),
{
    if events.len() > 0 {
        let rest = events.drop_last();
        assert forall|i: int| 0 <= i < rest.len() implies (#[trigger] rest[i]).1
            == Reply::Navigated(false) && rest[i].0 < deadline by {
            assert(rest[i] == events[i]);
        }
        lemma_navigation_waits(m, rest, deadline);
        assert(events.last() == events[events.len() - 1]);
    }
}

/// A wait that has not reached its deadline looks again: the reply to the rest makes the next
/// call the one that was without result before. Only the entry of the new tab is looked for
/// once more after the deadline.
pub proof fn law_waits_look_again(m: MergeView, now: u64)
    ensures
        m.stage matches StageView::RestBeforeSource { deadline } && now < deadline ==> m.next(
            now,
            Reply::Done,
        ).call() == Some(CallView::ScanEntries),
        m.stage matches StageView::RestBeforeTab { deadline, .. } && now < deadline ==> m.next(
            now,
            Reply::Done,
        ).call() == Some(CallView::ListTabs(m.host)),
        m.stage is RestBeforeEntry ==> m.next(now, Reply::Done).call() == Some(
            CallView::ScanEntries,
        ),
        m.stage matches StageView::AwaitNavigation { deadline, .. } && now < deadline ==> m.next(
            now,
            Reply::Navigated(false),
        ).call() matches Some(CallView::Pump(_)),
{
}

/// If a scan before the deadline lists an entry of the new window and the earlier ones did not,
/// the merge adopts the first such entry, however many scans it took.
pub proof fn law_slow_window_is_found(
    top: usize,
    host: usize,
    at: u64,
    waits: Seq<(u64, Reply)>,
    found: (u64, Reply),
)
    requires
        source_waits(waits, top, at + 10_000_000_000),
        lists(found.1, top),
    ensures
        ({
            let entries = found.1->Scanned_0->0@;
            let call = MergeView::begin(top, host, at).run(waits.push(found)).call();
            exists|i: int|
                0 <= i < entries.len() && #[trigger] entries[i] == Some(top) && call == Some(
                    CallView::AdoptSource(i),
                ) && forall|j: int| 0 <= j < i ==> #[trigger] entries[j] != Some(top)
        }),
{
    let m = MergeView::begin(top, host, at);
    lemma_source_waits(m, waits, at + 10_000_000_000);
    assert(waits.push(found).drop_last() == waits);
    lemma_lists(found.1, top);
    let entries = scan_entries(found.1->Scanned_0);
    law_first_entry(entries, top);
    assert(entries[first_entry(entries, top)->0] == Some(top));
}

/// If a listing before the deadline names a tab of the host that was not there before, the
/// merge goes on to read the new window's location; if the time is up it fails.
pub proof fn law_slow_tab_is_found(
    m: MergeView,
    before: Seq<usize>,
    asked: u64,
    waits: Seq<(u64, Reply)>,
    found: (u64, Reply),
)
    requires
        m.stage matches StageView::RequestTab { before: b, .. } && b == before,
        tab_waits(waits, before, asked + 2_000_000_000),
        names_new_tab(found.1, before),
    ensures
        m.next(asked, Reply::Outcome(Ok(()))).call() == Some(CallView::ListTabs(m.host)),
        m.next(asked, Reply::Outcome(Ok(()))).run(waits.push(found)).call() == Some(
            CallView::ReadUrl,
        ),
{
    let next = m.next(asked, Reply::Outcome(Ok(())));
    let base = m.stage->RequestTab_base;
    lemma_tab_waits(next, waits, base, before, asked + 2_000_000_000);
    assert(waits.push(found).drop_last() == waits);
}

/// Once the location of the new window is known, the host's entries are scanned until there are
/// more than before; then the newest is taken, however many scans it took.
pub proof fn law_slow_entry_is_found(
    m: MergeView,
    base: nat,
    at: u64,
    url: Option<String>,
    waits: Seq<(u64, Reply)>,
    found: (u64, Reply),
    picked: (u64, Reply),
)
    requires
        m.stage == (StageView::ReadUrl { base }) && url is Some && url->0@.len() > 0 || m.stage
            == (StageView::ReadPath { base }) && url is Some,
        entry_waits(waits, m.host, base, at + 10_000_000_000),
        found.1 is Scanned && entries_in(found.1, m.host) > base,
        lists(picked.1, m.host),
    ensures
        ({
            let entries = picked.1->Scanned_0->0@;
            let end = m.next(at, Reply::Text(url)).run(waits.push(found).push(picked));
            exists|i: int|
                0 <= i < entries.len() && #[trigger] entries[i] == Some(m.host) && end.call()
                    == Some(CallView::AdoptTab(i)) && end.stage.destination() == Some(url->0@)
                    && forall|j: int| i < j < entries.len() ==> #[trigger] entries[j] != Some(
                    m.host,
                )
        }),
{
    let next = m.next(at, Reply::Text(url));
    lemma_entry_waits(next, waits, base, url->0@, at + 10_000_000_000);
    let all = waits.push(found).push(picked);
    assert(all.drop_last() == waits.push(found));
    assert(waits.push(found).drop_last() == waits);
    reveal_with_fuel(MergeView::run, 3);
    lemma_lists(found.1, m.host);
    lemma_lists(picked.1, m.host);
    let entries = scan_entries(picked.1->Scanned_0);
    law_last_entry(entries, m.host);
    assert(entries[last_entry(entries, m.host)->0] == Some(m.host));
}

/// The replies of a system that goes along with a merge, though it may take its time with
/// each of the four things that are waited for.
pub struct SlowSystem {
    pub source_waits: Seq<(u64, Reply)>,
    /// The new window is listed; its browser is kept; the host's entries; the host's tabs; the
    /// request for a tab.
    pub request: Seq<(u64, Reply)>,
    pub tab_waits: Seq<(u64, Reply)>,
    /// The new tab; the URL; the parsing path, if the URL is empty.
    pub location: Seq<(u64, Reply)>,
    pub entry_waits: Seq<(u64, Reply)>,
    /// The new entry; the host's newest entry; its browser is kept; the subscription; the
    /// navigation.
    pub navigation: Seq<(u64, Reply)>,
    pub navigation_waits: Seq<(u64, Reply)>,
    /// The arrival; the end of the subscription; the new window closes; the host comes forward.
    pub end: Seq<(u64, Reply)>,
}

impl SlowSystem {
    pub open spec fn replies(self) -> Seq<(u64, Reply)> {
        self.source_waits + self.request + self.tab_waits + self.location + self.entry_waits
            + self.navigation + self.navigation_waits + self.end
    }

    /// The location of the new window.
    pub open spec fn folder(self) -> Seq<char> {
        self.location.last().1->Text_0->0@
    }

    /// Whether it goes along, for a merge that begins at this time.
    pub open spec fn goes_along(self, top: usize, host: usize, at: u64) -> bool {
        &&& source_waits(self.source_waits, top, at + 10_000_000_000)
        &&& self.request.len() == 5
        &&& lists(self.request[0].1, top)
        &&& self.request[1].1 is Done
        &&& self.request[2].1 is Scanned
        &&& self.request[3].1 is Handles
        &&& self.request[4].1 matches Reply::Outcome(Ok(_))
        &&& tab_waits(
            self.tab_waits,
            self.request[3].1->Handles_0@,
            self.request[4].0 + 2_000_000_000,
        )
        &&& self.location.len() == 2 || self.location.len() == 3
        &&& names_new_tab(self.location[0].1, self.request[3].1->Handles_0@)
        &&& self.location.last().1 matches Reply::Text(Some(_))
        &&& self.location.len() == 2 ==> self.folder().len() > 0
        &&& self.location.len() == 3 ==> (self.location[1].1 matches Reply::Text(t) && (t is None
            || t->0@.len() == 0))
        &&& entry_waits(
            self.entry_waits,
            host,
            entries_in(self.request[2].1, host),
            self.location.last().0 + 10_000_000_000,
        )
        &&& self.navigation.len() == 5
        &&& self.navigation[0].1 is Scanned
        &&& entries_in(self.navigation[0].1, host) > entries_in(self.request[2].1, host)
        &&& lists(self.navigation[1].1, host)
        &&& self.navigation[2].1 is Done
        &&& self.navigation[3].1 matches Reply::Outcome(Ok(_))
        &&& self.navigation[4].1 matches Reply::Outcome(Ok(_))
        &&& navigation_waits(self.navigation_waits, self.navigation[4].0 + 3_000_000_000)
        &&& self.end.len() == 4
        &&& self.end[0].1 == Reply::Navigated(true)
        &&& self.end[1].1 is Done
        &&& self.end[2].1 is Done
        &&& self.end[3].1 is Done
    }
}

proof fn lemma_run_five(m: MergeView, events: Seq<(u64, Reply)>)
    requires
        events.len() == 5,
    ensures
        m.run(events.take(4)) == m.next(events[0].0, events[0].1).next(
            events[1].0,
            events[1].1,
        ).next(events[2].0, events[2].1).next(events[3].0, events[3].1),
        m.run(events) == m.run(events.take(4)).next(events[4].0, events[4].1),
{
    assert(m.run(events.take(0)) == m);
    lemma_run_step(m, events, 0);
    lemma_run_step(m, events, 1);
    lemma_run_step(m, events, 2);
    lemma_run_step(m, events, 3);
    lemma_run_step(m, events, 4);
    assert(events.take(5) == events);
}

/// The merge succeeds for every system that goes along within the deadlines, however often it
/// has to be asked, and the new tab is sent to the new window's folder.
pub proof fn law_patient_merge_succeeds(top: usize, host: usize, at: u64, s: SlowSystem)
    requires
        s.goes_along(top, host, at),
    ensures
        MergeView::begin(top, host, at).run(s.replies()).stage == StageView::Finished(Ok(())),
        MergeView::begin(top, host, at).run(
            s.source_waits + s.request + s.tab_waits + s.location + s.entry_waits
                + s.navigation.take(4),
        ).call() == Some(CallView::Navigate(s.folder())),
{
    let m0 = MergeView::begin(top, host, at);
    let before = s.request[3].1->Handles_0@;
    let base = entries_in(s.request[2].1, host);
    // Up to the request.
    lemma_source_waits(m0, s.source_waits, at + 10_000_000_000);
    lemma_lists(s.request[0].1, top);
    lemma_lists(s.request[2].1, host);
    lemma_run_five(m0, s.request);
    let m1 = m0.run(s.request);
    let d1 = s.request[4].0 + 2_000_000_000;
    assert(m1.stage == (StageView::FindTab { base, before, deadline: d1 }));
    // Up to the location.
    lemma_tab_waits(m1, s.tab_waits, base, before, d1);
    let m2 = m1.run(s.location);
    assert(m1.run(s.location.take(0)) == m1);
    lemma_run_step(m1, s.location, 0);
    lemma_run_step(m1, s.location, 1);
    if s.location.len() == 3 {
        lemma_run_step(m1, s.location, 2);
    }
    assert(s.location.take(s.location.len() as int) == s.location);
    let d2 = s.location.last().0 + 10_000_000_000;
    assert(m2.stage == (StageView::FindEntry {
        base,
        location: s.folder(),
        deadline: d2,
        last: false,
    }));
    // Up to the navigation.
    lemma_entry_waits(m2, s.entry_waits, base, s.folder(), d2);
    lemma_lists(s.navigation[0].1, host);
    lemma_lists(s.navigation[1].1, host);
    lemma_run_five(m2, s.navigation);
    let m3 = m2.run(s.navigation);
    assert(m2.run(s.navigation.take(4)).stage == (StageView::Navigate { location: s.folder() }));
    // To the end.
    let d3 = s.navigation[4].0 + 3_000_000_000;
    lemma_navigation_waits(m3, s.navigation_waits, d3);
    let m4 = m3.run(s.navigation_waits);
    assert(m4.run(s.end.take(0)) == m4);
    lemma_run_step(m4, s.end, 0);
    lemma_run_step(m4, s.end, 1);
    lemma_run_step(m4, s.end, 2);
    lemma_run_step(m4, s.end, 3);
    assert(s.end.take(4) == s.end);
    assert(m4.run(s.end).stage == StageView::Finished(Ok(())));
    // Together.
    let p1 = s.source_waits + s.request;
    let p2 = p1 + s.tab_waits;
    let p3 = p2 + s.location;
    let p4 = p3 + s.entry_waits;
    let p5 = p4 + s.navigation;
    let p6 = p5 + s.navigation_waits;
    lemma_run_append(m0, s.source_waits, s.request);
    lemma_run_append(m0, p1, s.tab_waits);
    lemma_run_append(m0, p2, s.location);
    lemma_run_append(m0, p3, s.entry_waits);
    lemma_run_append(m0, p4, s.navigation);
    lemma_run_append(m0, p4, s.navigation.take(4));
    lemma_run_append(m0, p5, s.navigation_waits);
    lemma_run_append(m0, p6, s.end);
}

/// What each stage asks for: looks at the host's tabs and the list of shell windows, rests of
/// 25 and of 5 milliseconds, and the steps of the merge on the two windows.
pub proof fn law_stages_ask_for_their_calls(m: MergeView)
    ensures
        m.stage is FindSource || m.stage is CountEntries || m.stage is FindEntry || m.stage
            is PickEntry ==> m.call() == Some(CallView::ScanEntries),
        m.stage is RestBeforeSource || m.stage is RestBeforeEntry ==> m.call() == Some(
            CallView::Sleep(25),
        ),
        m.stage is RestBeforeTab ==> m.call() == Some(CallView::Sleep(5)),
        m.stage is ListTabs || m.stage is FindTab ==> m.call() == Some(CallView::ListTabs(m.host)),
        m.stage is RequestTab ==> m.call() == Some(CallView::RequestTab(m.host)),
        m.stage is ReadUrl ==> m.call() == Some(CallView::ReadUrl),
        m.stage is ReadPath ==> m.call() == Some(CallView::ReadPath),
        m.stage is DumpEntries ==> m.call() == Some(CallView::DumpEntries),
        m.stage is Watch ==> m.call() == Some(CallView::Watch),
        m.stage matches StageView::Navigate { location } ==> m.call() == Some(
            CallView::Navigate(location),
        ),
        m.stage is CloseTab ==> m.call() == Some(CallView::CloseTab),
        m.stage is Unwatch || m.stage is UnwatchFailed ==> m.call() == Some(CallView::Unwatch),
        m.stage is QuitSource ==> m.call() == Some(CallView::QuitSource),
        m.stage is BringForward ==> m.call() == Some(CallView::BringForward(m.host)),
        m.stage is Finished <==> m.call() is None,
        m.stage is LogIncomplete ==> m.call() == Some(
            CallView::Log(
                "Navigate2 did NOT complete in "@ + numeral(3000, 10)
                    + " ms (new tab may be left at default page) for "@ + ("0x"@ + numeral(
                    m.top as nat,
                    16,
                )),
            ),
        ),
{
}

/// How a refusal of the system is named: its code stays, and the step stands in front.
pub open spec fn named_failure(e: Failure, step: Seq<char>, f: FailureView) -> bool {
    f.code == e.code && f.message == "["@ + step + "] "@ + e.message@
}

/// Every refusal ends the merge with a failure that names the step: a refused request, a
/// refused subscription, and a refused navigation after the blank tab is closed and the
/// subscription ended. A wait that is over, a location that cannot be told and an entry that
/// never came end it with failures of the program's own.
pub proof fn law_refusals_are_reported(m: MergeView, now: u64, e: Failure, later: u64)
    ensures
        m.stage is RequestTab ==> (m.next(now, Reply::Outcome(Err(e))).stage matches
            StageView::Finished(Err(f)) && named_failure(e, "request_new_tab"@, f)),
        m.stage is Watch ==> (m.next(now, Reply::Outcome(Err(e))).stage matches
            StageView::Finished(Err(f)) && named_failure(e, "watch_navigate"@, f)),
        m.stage is Navigate ==> {
            let closing = m.next(now, Reply::Outcome(Err(e)));
            let leaving = closing.next(later, Reply::Done);
            &&& closing.call() == Some(CallView::CloseTab)
            &&& leaving.call() == Some(CallView::Unwatch)
            &&& leaving.next(later, Reply::Done).stage matches StageView::Finished(Err(f))
                && named_failure(e, "Navigate2"@, f)
        },
        m.stage matches StageView::RestBeforeSource { deadline } && now >= deadline ==> m.next(
            now,
            Reply::Done,
        ).stage == StageView::Finished(
            Err(
                FailureView {
                    code: crate::protocol::E_FAIL,
                    message: "[wait_wb_top] IWebBrowser2 for new top-level not found"@,
                },
            ),
        ),
        m.stage matches StageView::RestBeforeTab { deadline, .. } && now >= deadline ==> m.next(
            now,
            Reply::Done,
        ).stage == StageView::Finished(
            Err(
                FailureView {
                    code: crate::protocol::E_FAIL,
                    message: "[wait_new_tab] timeout waiting for new ShellTabWindowClass child"@,
                },
            ),
        ),
        m.stage is ReadPath ==> m.next(now, Reply::Text(None)).stage == StageView::Finished(
            Err(
                FailureView {
                    code: crate::protocol::E_FAIL,
                    message: "[location] empty LocationURL and PIDL fallback failed"@,
                },
            ),
        ),
        forall|scan: crate::shell_windows::Scan|
            (m.stage matches StageView::FindEntry { base, last: true, .. } && entries_in(
                Reply::Scanned(scan),
                m.host,
            ) <= base) ==> (#[trigger] m.next(now, Reply::Scanned(scan))).call() == Some(
                CallView::DumpEntries,
            ),
        forall|scan: crate::shell_windows::Scan|
            m.stage is PickEntry && !lists(Reply::Scanned(scan), m.host) ==> (#[trigger] m.next(
                now,
                Reply::Scanned(scan),
            )).call() == Some(CallView::DumpEntries),
{
    assert forall|scan: crate::shell_windows::Scan|
        m.stage is PickEntry && !lists(Reply::Scanned(scan), m.host) implies (#[trigger] m.next(
        now,
        Reply::Scanned(scan),
    )).call() == Some(CallView::DumpEntries) by {
        lemma_lists(Reply::Scanned(scan), m.host);
    }
    assert forall|scan: crate::shell_windows::Scan|
        (m.stage matches StageView::FindEntry { base, last: true, .. } && entries_in(
            Reply::Scanned(scan),
            m.host,
        ) <= base) implies (#[trigger] m.next(now, Reply::Scanned(scan))).call() == Some(
        CallView::DumpEntries,
    ) by {
        lemma_lists(Reply::Scanned(scan), m.host);
    }
}

/// So many replies that say that a call was made.
pub open spec fn dones(n: nat, now: u64) -> Seq<(u64, Reply)> {
    Seq::new(n, |i: int| (now, Reply::Done))
}

/// An entry that never came has the list logged line by line, and then the merge fails.
pub proof fn law_missing_entry_is_dumped(
    m: MergeView,
    now: u64,
    dump: crate::shell_windows::ListDump,
    k: nat,
)
    requires
        m.stage is DumpEntries,
        k <= dump_lines("wait_for_new_host_entry timeout"@, dump).len(),
    ensures
        ({
            let lines = dump_lines("wait_for_new_host_entry timeout"@, dump);
            let after = m.next(now, Reply::Dumped(dump)).run(dones(k, now));
            &&& lines.len() > 0
            &&& k < lines.len() ==> after.call() == Some(CallView::Log(lines[k as int]))
            &&& k == lines.len() ==> after.stage == StageView::Finished(
                Err(
                    FailureView {
                        code: crate::protocol::E_FAIL,
                        message: "[wait_new_entry] timeout waiting for new IShellWindows entry"@,
                    },
                ),
            )
        }),
    decreases k,
{
    let lines = dump_lines("wait_for_new_host_entry timeout"@, dump);
    let start = m.next(now, Reply::Dumped(dump));
    lemma_dump_run(start, now, lines, k);
}

proof fn lemma_dump_run(m: MergeView, now: u64, lines: Seq<Seq<char>>, k: nat)
    requires
        m.stage == (StageView::LogDump { lines, at: 0 }),
        lines.len() > 0,
        k <= lines.len(),
    ensures
        k < lines.len() ==> m.run(dones(k, now)).stage == (StageView::LogDump {
            lines,
            at: k as int,
        }),
        k == lines.len() ==> m.run(dones(k, now)).stage == StageView::failed(
            "[wait_new_entry] timeout waiting for new IShellWindows entry"@,
        ),
    decreases k,
{
    if k > 0 {
        let before = (k - 1) as nat;
        lemma_dump_run(m, now, lines, before);
        assert(dones(k, now).drop_last() == dones(before, now));
    }
}

/// A merge that still waits refreshes the stamp of its own window, and a merge never touches
/// that of another.
pub proof fn law_waits_refresh_the_stamp(
    m: MergeView,
    cloaks: Map<usize, u64>,
    now: u64,
    reply: Reply,
)
    ensures
        ({
            let after = m.tracked_after(cloaks, now, reply);
            let fresh = if cloaks.contains_key(m.top) {
                cloaks.insert(m.top, now)
            } else {
                cloaks
            };
            &&& after == cloaks || after == fresh
            &&& m.stage is FindSource && reply is Scanned && !lists(reply, m.top) ==> after == fresh
            &&& (m.stage matches StageView::FindTab { before, .. } && reply is Handles
                && !names_new_tab(reply, before)) ==> after == fresh
            &&& (m.stage matches StageView::FindEntry { base, last: false, .. } && reply is Scanned
                && entries_in(reply, m.host) <= base) ==> after == fresh
            &&& (m.stage matches StageView::AwaitNavigation { deadline, .. } && now < deadline
                && reply == Reply::Navigated(false)) ==> after == fresh
        }),
{
    if reply is Scanned {
        lemma_lists(reply, m.top);
        lemma_lists(reply, m.host);
    }
}

/// A wait for messages lasts as long as is left until the deadline, in whole milliseconds, but
/// no longer than 50 of them.
pub proof fn law_pump_lasts_until_the_deadline(m: MergeView, now: u64)
    requires
        m.stage matches StageView::AwaitNavigation { deadline, .. } && now < deadline,
    ensures
        m.next(now, Reply::Navigated(false)).call() matches Some(CallView::Pump(ms)) && {
            let left = m.stage->AwaitNavigation_deadline - now;
            &&& 0 <= ms <= 50
            &&& ms * 1_000_000 <= left
            &&& ms == 50 || left < (ms + 1) * 1_000_000
        },
{
}

/// A merge begins with a scan, ten seconds before its first deadline.
pub proof fn law_merge_begins_with_a_scan(top: usize, host: usize, at: u64)
    ensures
        MergeView::begin(top, host, at).call() == Some(CallView::ScanEntries),
        MergeView::begin(top, host, at).stage == (StageView::FindSource {
            deadline: at + 10_000_000_000,
        }),
        MergeView::begin(top, host, at).top == top,
        MergeView::begin(top, host, at).host == host,
{
}

/// After the last rest the entries are looked at once more with what was known before, and one
/// that has come by then is taken as any other; an arrival counts whenever it is noticed, and
/// is first asked for without a wait.
pub proof fn law_last_moment_counts(
    m: MergeView,
    now: u64,
    scan: crate::shell_windows::Scan,
    later: u64,
)
    ensures
        m.stage matches StageView::RestBeforeEntry { base, location, deadline } ==> m.next(
            now,
            Reply::Done,
        ).stage == (StageView::FindEntry { base, location, deadline, last: now >= deadline }),
        (m.stage matches StageView::FindEntry { base, .. } && entries_in(
            Reply::Scanned(scan),
            m.host,
        ) > base) ==> {
            let picking = m.next(now, Reply::Scanned(scan));
            &&& picking.call() == Some(CallView::ScanEntries)
            &&& picking.stage.destination() == m.stage.destination()
            &&& lists(Reply::Scanned(scan), m.host) ==> picking.next(
                later,
                Reply::Scanned(scan),
            ).call() matches Some(CallView::AdoptTab(_))
        },
        m.stage is AwaitNavigation ==> m.next(now, Reply::Navigated(true)).call() == Some(
            CallView::Unwatch,
        ),
        m.stage is Navigate ==> m.next(now, Reply::Outcome(Ok(()))).call() == Some(
            CallView::NavigationDone,
        ),
{
    lemma_lists(Reply::Scanned(scan), m.host);
}

/// The deadlines: two seconds from the request for the new tab, ten from the reading of the
/// location for its entry, three from the navigation for its arrival.
pub proof fn law_deadlines(m: MergeView, now: u64, text: String)
    ensures
        m.stage matches StageView::RequestTab { base, before } ==> m.next(
            now,
            Reply::Outcome(Ok(())),
        ).stage == (StageView::FindTab { base, before, deadline: now + 2_000_000_000 }),
        text@.len() > 0 ==> (m.stage matches StageView::ReadUrl { base } ==> m.next(
            now,
            Reply::Text(Some(text)),
        ).stage == (StageView::FindEntry {
            base,
            location: text@,
            deadline: now + 10_000_000_000,
            last: false,
        })),
        m.stage matches StageView::ReadPath { base } ==> m.next(
            now,
            Reply::Text(Some(text)),
        ).stage == (StageView::FindEntry {
            base,
            location: text@,
            deadline: now + 10_000_000_000,
            last: false,
        }),
        m.stage is Navigate ==> (m.next(now, Reply::Outcome(Ok(()))).stage matches
            StageView::AwaitNavigation { deadline, .. } && deadline == now + 3_000_000_000),
        m.stage is FindSource ==> m.next(now, Reply::Scanned(None)).stage == (
        StageView::RestBeforeSource { deadline: m.stage->FindSource_deadline }),
{
    law_first_entry(Seq::empty(), m.top);
}

} // verus!
