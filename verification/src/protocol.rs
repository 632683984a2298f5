//! The calls that the window flows ask for, and the replies they are given.

use vstd::prelude::*;

use crate::shell_windows::{ListDump, Scan};
use crate::win_util::TopWindow;

verus! {

/// The code of a failure that no system call reported.
pub const E_FAIL: i32 = -2147467259;

/// A failure: the system's code, and a text that says what was being done.
pub struct Failure {
    pub code: i32,
    pub message: String,
}

/// [`Failure`] as a value.
pub struct FailureView {
    pub code: i32,
    pub message: Seq<char>,
}

impl View for Failure {
    type V = FailureView;

    open spec fn view(&self) -> FailureView {
        FailureView { code: self.code, message: self.message@ }
    }
}

impl Failure {
    /// Hand out a second copy.
    pub fn copied(&self) -> (r: Failure)
        ensures
            r@ == self@,
            r.code == self.code,
            r.message@ == self.message@,
    {
        Failure { code: self.code, message: self.message.clone() }
    }
}

/// A failure under the name of the step that met it.
pub open spec fn in_step(e: FailureView, step: Seq<char>) -> FailureView {
    FailureView { code: e.code, message: "["@ + step + "] "@ + e.message }
}

/// Name the step that failed, so that the log tells which call returned a generic code.
pub fn ctx(e: Failure, step: &str) -> (r: Failure)
    ensures
        r@ == in_step(e@, step@),
        r.code == e.code,
        r.message@ == "["@ + step@ + "] "@ + e.message@,
{
    let mut message = "[".to_owned();
    message.append(step);
    message.append("] ");
    message.append(e.message.as_str());
    Failure { code: e.code, message }
}

/// A failure that the program itself found.
pub open spec fn own_failure(message: Seq<char>) -> FailureView {
    FailureView { code: E_FAIL, message }
}

/// Report a failure that the program itself found.
pub fn fail(message: &str) -> (r: Failure)
    ensures
        r@ == own_failure(message@),
        r.code == E_FAIL,
        r.message@ == message@,
{
    Failure { code: E_FAIL, message: message.to_owned() }
}

/// A call to make. Handles are windows; places count the entries of the latest scan.
pub enum Call {
    /// Read the class of a window: [`Reply::Text`].
    ReadClass(usize),
    /// Enumerate the top-level windows: [`Reply::Windows`].
    ListWindows,
    /// List the tab windows of a window: [`Reply::Handles`].
    ListTabs(usize),
    /// Hide a window: [`Reply::Done`].
    Cloak(usize),
    /// Show a window again: [`Reply::Done`].
    Uncloak(usize),
    /// Scan the list of shell windows: [`Reply::Scanned`].
    ScanEntries,
    /// Keep the browser at this place as that of the new window: [`Reply::Done`].
    AdoptSource(usize),
    /// Ask a host for a new tab: [`Reply::Outcome`].
    RequestTab(usize),
    /// Read the new window's location: [`Reply::Text`].
    ReadUrl,
    /// Resolve the new window's folder by its item list: [`Reply::Text`].
    ReadPath,
    /// Keep the browser at this place as that of the new tab: [`Reply::Done`].
    AdoptTab(usize),
    /// Describe every entry of the list of shell windows: [`Reply::Dumped`].
    DumpEntries,
    /// Subscribe to the new tab's completed navigations: [`Reply::Outcome`].
    Watch,
    /// Send the new tab to a location: [`Reply::Outcome`].
    Navigate(String),
    /// Tell whether a navigation has completed: [`Reply::Navigated`].
    NavigationDone,
    /// Wait for messages for at most this many milliseconds, handle them all, and tell
    /// whether a navigation has completed: [`Reply::Navigated`].
    Pump(u32),
    /// Close the new tab: [`Reply::Done`].
    CloseTab,
    /// End the subscription: [`Reply::Done`].
    Unwatch,
    /// Close the new window: [`Reply::Done`].
    QuitSource,
    /// Show a host and make it the foreground window: [`Reply::Done`].
    BringForward(usize),
    /// Sleep for this many milliseconds: [`Reply::Done`].
    Sleep(u64),
    /// Write a line to the log: [`Reply::Done`].
    Log(String),
    /// Put a failure in the system's words: [`Reply::Text`].
    Describe(Failure),
}

/// [`Call`] as a value.
pub enum CallView {
    ReadClass(usize),
    ListWindows,
    ListTabs(usize),
    Cloak(usize),
    Uncloak(usize),
    ScanEntries,
    AdoptSource(int),
    RequestTab(usize),
    ReadUrl,
    ReadPath,
    AdoptTab(int),
    DumpEntries,
    Watch,
    Navigate(Seq<char>),
    NavigationDone,
    Pump(int),
    CloseTab,
    Unwatch,
    QuitSource,
    BringForward(usize),
    Sleep(int),
    Log(Seq<char>),
    Describe(FailureView),
}

impl View for Call {
    type V = CallView;

    open spec fn view(&self) -> CallView {
        match self {
            Call::ReadClass(h) => CallView::ReadClass(*h),
            Call::ListWindows => CallView::ListWindows,
            Call::ListTabs(h) => CallView::ListTabs(*h),
            Call::Cloak(h) => CallView::Cloak(*h),
            Call::Uncloak(h) => CallView::Uncloak(*h),
            Call::ScanEntries => CallView::ScanEntries,
            Call::AdoptSource(i) => CallView::AdoptSource(*i as int),
            Call::RequestTab(h) => CallView::RequestTab(*h),
            Call::ReadUrl => CallView::ReadUrl,
            Call::ReadPath => CallView::ReadPath,
            Call::AdoptTab(i) => CallView::AdoptTab(*i as int),
            Call::DumpEntries => CallView::DumpEntries,
            Call::Watch => CallView::Watch,
            Call::Navigate(s) => CallView::Navigate(s@),
            Call::NavigationDone => CallView::NavigationDone,
            Call::Pump(ms) => CallView::Pump(*ms as int),
            Call::CloseTab => CallView::CloseTab,
            Call::Unwatch => CallView::Unwatch,
            Call::QuitSource => CallView::QuitSource,
            Call::BringForward(h) => CallView::BringForward(*h),
            Call::Sleep(ms) => CallView::Sleep(*ms as int),
            Call::Log(s) => CallView::Log(s@),
            Call::Describe(e) => CallView::Describe(e@),
        }
    }
}

/// What an optional call comes to.
pub open spec fn call_view(c: Option<Call>) -> Option<CallView> {
    match c {
        Some(c) => Some(c@),
        None => None,
    }
}

/// The reply to a call.
pub enum Reply {
    /// The call was made; there is nothing to report.
    Done,
    /// A text, if there is one.
    Text(Option<String>),
    /// Top-level windows.
    Windows(Vec<TopWindow>),
    /// Window handles.
    Handles(Vec<usize>),
    /// The entries of the list of shell windows.
    Scanned(Scan),
    /// The entries of the list of shell windows, described.
    Dumped(ListDump),
    /// Whether the call succeeded.
    Outcome(Result<(), Failure>),
    /// Whether a navigation has completed.
    Navigated(bool),
}

/// A call seen as a value is the same call on the same window, text or place.
pub proof fn law_calls_are_seen_as_they_are(
    h: usize,
    i: usize,
    ms: u32,
    rest: u64,
    s: String,
    e: Failure,
)
    ensures
        call_view(None) is None,
        call_view(Some(Call::ReadClass(h))) == Some(CallView::ReadClass(h)),
        call_view(Some(Call::ListWindows)) == Some(CallView::ListWindows),
        call_view(Some(Call::ListTabs(h))) == Some(CallView::ListTabs(h)),
        call_view(Some(Call::Cloak(h))) == Some(CallView::Cloak(h)),
        call_view(Some(Call::Uncloak(h))) == Some(CallView::Uncloak(h)),
        call_view(Some(Call::ScanEntries)) == Some(CallView::ScanEntries),
        call_view(Some(Call::AdoptSource(i))) == Some(CallView::AdoptSource(i as int)),
        call_view(Some(Call::RequestTab(h))) == Some(CallView::RequestTab(h)),
        call_view(Some(Call::ReadUrl)) == Some(CallView::ReadUrl),
        call_view(Some(Call::ReadPath)) == Some(CallView::ReadPath),
        call_view(Some(Call::AdoptTab(i))) == Some(CallView::AdoptTab(i as int)),
        call_view(Some(Call::DumpEntries)) == Some(CallView::DumpEntries),
        call_view(Some(Call::Watch)) == Some(CallView::Watch),
        call_view(Some(Call::Navigate(s))) == Some(CallView::Navigate(s@)),
        call_view(Some(Call::NavigationDone)) == Some(CallView::NavigationDone),
        call_view(Some(Call::Pump(ms))) == Some(CallView::Pump(ms as int)),
        call_view(Some(Call::CloseTab)) == Some(CallView::CloseTab),
        call_view(Some(Call::Unwatch)) == Some(CallView::Unwatch),
        call_view(Some(Call::QuitSource)) == Some(CallView::QuitSource),
        call_view(Some(Call::BringForward(h))) == Some(CallView::BringForward(h)),
        call_view(Some(Call::Sleep(rest))) == Some(CallView::Sleep(rest as int)),
        call_view(Some(Call::Log(s))) == Some(CallView::Log(s@)),
        call_view(Some(Call::Describe(e))) == Some(
            CallView::Describe(FailureView { code: e.code, message: e.message@ }),
        ),
{
}

} // verus!
