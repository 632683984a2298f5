//! The handling of new windows on a desktop in memory.

use explorer_tab_merger::cloak::CloakTracker;
use explorer_tab_merger::protocol::{Call, Failure, Reply};
use explorer_tab_merger::shell_windows::{EntryDump, ListDump};
use explorer_tab_merger::tab_merger::{on_window_created, on_window_shown, WindowFlow};
use explorer_tab_merger::win_util::TopWindow;

const MS: u64 = 1_000_000;
const E_FAIL: i32 = -2147467259;

struct Tab {
    hwnd: usize,
    url: Option<String>,
    path: Option<String>,
}

struct Explorer {
    hwnd: usize,
    tabs: Vec<Tab>,
}

/// Explorer windows, with their tabs as entries of the list of shell windows.
struct Desktop {
    now: u64,
    windows: Vec<Explorer>,
    others: Vec<usize>,
    /// The list: window and tab of each entry.
    entries: Vec<(usize, usize)>,
    listed: bool,
    source: Option<usize>,
    tab: Option<usize>,
    watching: bool,
    navigated: bool,
    hidden: Vec<usize>,
    front: Option<usize>,
    log: Vec<String>,
    calls: Vec<String>,
    tracker: CloakTracker,
    next: usize,
    /// How long a requested tab takes to appear, to be listed, and to arrive.
    tab_after: Option<u64>,
    entry_after: Option<u64>,
    arrives_after: Option<u64>,
    pending: Vec<(u64, &'static str, usize)>,
    refuse: Option<&'static str>,
}

fn failure(text: &str) -> Failure {
    Failure { code: E_FAIL, message: text.to_string() }
}

impl Desktop {
    fn new() -> Desktop {
        Desktop {
            now: 0,
            windows: Vec::new(),
            others: Vec::new(),
            entries: Vec::new(),
            listed: true,
            source: None,
            tab: None,
            watching: false,
            navigated: false,
            hidden: Vec::new(),
            front: None,
            log: Vec::new(),
            calls: Vec::new(),
            tracker: CloakTracker::new(),
            next: 1000,
            tab_after: Some(0),
            entry_after: Some(0),
            arrives_after: Some(0),
            pending: Vec::new(),
            refuse: None,
        }
    }

    fn open(&mut self, hwnd: usize, urls: &[&str]) {
        let mut tabs = Vec::new();
        for url in urls {
            self.next += 1;
            tabs.push(Tab { hwnd: self.next, url: Some(url.to_string()), path: None });
            self.entries.push((hwnd, self.next));
        }
        self.windows.push(Explorer { hwnd, tabs });
    }

    fn find(&mut self, hwnd: usize) -> Option<&mut Explorer> {
        self.windows.iter_mut().find(|w| w.hwnd == hwnd)
    }

    fn tab_of_entry(&mut self, place: usize) -> usize {
        self.entries[place].1
    }

    fn tab(&mut self, tab: usize) -> Option<&mut Tab> {
        self.windows.iter_mut().flat_map(|w| w.tabs.iter_mut()).find(|t| t.hwnd == tab)
    }

    /// Let time pass, and what was to happen by then happen.
    fn pass(&mut self, ns: u64) {
        self.now += ns;
        let now = self.now;
        let due: Vec<(u64, &'static str, usize)> =
            self.pending.iter().filter(|p| p.0 <= now).copied().collect();
        self.pending.retain(|p| p.0 > now);
        for (_, what, id) in due {
            match what {
                "tab" => {
                    let fresh = self.next + 1;
                    self.next = fresh;
                    let tab = Tab { hwnd: fresh, url: Some("home".to_string()), path: None };
                    self.find(id).unwrap().tabs.push(tab);
                    if let Some(delay) = self.entry_after {
                        self.pending.push((now + delay, "entry", fresh));
                    }
                }
                "entry" => {
                    let owner = self
                        .windows
                        .iter()
                        .find(|w| w.tabs.iter().any(|t| t.hwnd == id))
                        .unwrap()
                        .hwnd;
                    self.entries.push((owner, id));
                }
                "arrive" => {
                    if self.watching {
                        self.navigated = true;
                    }
                }
                _ => unreachable!(),
            }
        }
        if self.pending.iter().any(|p| p.0 <= self.now) {
            self.pass(0);
        }
    }

    fn serve(&mut self, call: Call) -> Reply {
        match call {
            Call::ReadClass(h) => {
                self.calls.push("class".to_string());
                if self.find(h).is_some() {
                    Reply::Text(Some("CabinetWClass".to_string()))
                } else if self.others.contains(&h) {
                    Reply::Text(Some("Notepad".to_string()))
                } else {
                    Reply::Text(None)
                }
            }
            Call::ListWindows => {
                self.calls.push("windows".to_string());
                let mut list = Vec::new();
                for h in &self.others {
                    list.push(TopWindow { hwnd: *h, class: Some("Notepad".to_string()) });
                }
                for w in &self.windows {
                    list.push(TopWindow { hwnd: w.hwnd, class: Some("CabinetWClass".to_string()) });
                }
                Reply::Windows(list)
            }
            Call::ListTabs(h) => {
                self.calls.push(format!("tabs {}", h));
                let tabs = self.find(h).map(|w| w.tabs.iter().map(|t| t.hwnd).collect());
                Reply::Handles(tabs.unwrap_or_default())
            }
            Call::Cloak(h) => {
                self.calls.push(format!("cloak {}", h));
                self.hidden.push(h);
                Reply::Done
            }
            Call::Uncloak(h) => {
                self.calls.push(format!("uncloak {}", h));
                self.hidden.retain(|x| *x != h);
                Reply::Done
            }
            Call::ScanEntries => {
                self.calls.push("scan".to_string());
                if self.listed {
                    Reply::Scanned(Some(self.entries.iter().map(|e| Some(e.0)).collect()))
                } else {
                    Reply::Scanned(None)
                }
            }
            Call::AdoptSource(place) => {
                self.calls.push("adopt source".to_string());
                self.source = Some(self.tab_of_entry(place));
                Reply::Done
            }
            Call::RequestTab(h) => {
                self.calls.push(format!("request {}", h));
                if self.refuse == Some("request") {
                    return Reply::Outcome(Err(failure("no tab child")));
                }
                if let Some(delay) = self.tab_after {
                    self.pending.push((self.now + delay, "tab", h));
                    self.pass(0);
                }
                Reply::Outcome(Ok(()))
            }
            Call::ReadUrl => {
                self.calls.push("url".to_string());
                let source = self.source.unwrap();
                Reply::Text(self.tab(source).unwrap().url.clone())
            }
            Call::ReadPath => {
                self.calls.push("path".to_string());
                let source = self.source.unwrap();
                Reply::Text(self.tab(source).unwrap().path.clone())
            }
            Call::AdoptTab(place) => {
                self.calls.push("adopt tab".to_string());
                self.tab = Some(self.tab_of_entry(place));
                Reply::Done
            }
            Call::DumpEntries => {
                self.calls.push("dump".to_string());
                let entries: Vec<EntryDump> = self
                    .entries
                    .iter()
                    .map(|e| EntryDump::Browser { hwnd: e.1, class: None, top: e.0 })
                    .collect();
                Reply::Dumped(ListDump::Entries(entries.len() as i32, entries))
            }
            Call::Watch => {
                self.calls.push("watch".to_string());
                if self.refuse == Some("watch") {
                    return Reply::Outcome(Err(failure("advise")));
                }
                self.watching = true;
                Reply::Outcome(Ok(()))
            }
            Call::Navigate(location) => {
                self.calls.push(format!("navigate {}", location));
                if self.refuse == Some("navigate") {
                    return Reply::Outcome(Err(failure("denied")));
                }
                let id = self.tab.unwrap();
                self.tab(id).unwrap().url = Some(location);
                if let Some(delay) = self.arrives_after {
                    self.pending.push((self.now + delay, "arrive", 0));
                    self.pass(0);
                }
                Reply::Outcome(Ok(()))
            }
            Call::NavigationDone => {
                self.calls.push("done?".to_string());
                Reply::Navigated(self.navigated)
            }
            Call::Pump(ms) => {
                self.calls.push(format!("pump {}", ms));
                self.pass(ms as u64 * MS + MS / 10);
                Reply::Navigated(self.navigated)
            }
            Call::CloseTab => {
                self.calls.push("close tab".to_string());
                let id = self.tab.unwrap();
                for w in self.windows.iter_mut() {
                    w.tabs.retain(|t| t.hwnd != id);
                }
                self.entries.retain(|e| e.1 != id);
                Reply::Done
            }
            Call::Unwatch => {
                self.calls.push("unwatch".to_string());
                self.watching = false;
                Reply::Done
            }
            Call::QuitSource => {
                self.calls.push("quit".to_string());
                let id = self.source.unwrap();
                self.windows.retain(|w| !w.tabs.iter().any(|t| t.hwnd == id));
                self.entries.retain(|e| e.1 != id);
                Reply::Done
            }
            Call::BringForward(h) => {
                self.calls.push(format!("front {}", h));
                self.front = Some(h);
                Reply::Done
            }
            Call::Sleep(ms) => {
                self.pass(ms * MS);
                Reply::Done
            }
            Call::Log(line) => {
                self.log.push(line);
                Reply::Done
            }
            Call::Describe(e) => Reply::Text(Some(format!("<{} {}>", e.code, e.message))),
        }
    }

    fn drive(&mut self, flow: WindowFlow) {
        let mut flow = flow;
        let mut left = 10_000;
        while let Some(call) = flow.call() {
            let reply = self.serve(call);
            flow = flow.on_reply(&mut self.tracker, self.now, reply);
            left -= 1;
            assert!(left > 0, "the flow does not end");
        }
    }

    fn create(&mut self, hwnd: usize) {
        self.drive(on_window_created(hwnd));
    }

    fn show(&mut self, hwnd: usize) {
        self.drive(on_window_shown(hwnd));
    }

    fn urls(&mut self, hwnd: usize) -> Vec<String> {
        self.find(hwnd).unwrap().tabs.iter().map(|t| t.url.clone().unwrap()).collect()
    }
}

/// A window with two tabs and one with one, and a new window.
fn with_new_window() -> Desktop {
    let mut d = Desktop::new();
    d.others.push(77);
    d.open(0x10, &["a"]);
    d.open(0x20, &["b", "c"]);
    d.open(0x30, &["file:///C:/new"]);
    d
}

#[test]
fn new_window_becomes_a_tab_of_the_fullest_window() {
    let mut d = with_new_window();
    d.create(0x30);
    assert_eq!(d.hidden, vec![0x30]);
    d.show(0x30);
    assert_eq!(d.urls(0x20), vec!["b", "c", "file:///C:/new"]);
    assert_eq!(d.urls(0x10), vec!["a"]);
    assert!(d.find(0x30).is_none());
    assert_eq!(d.front, Some(0x20));
    assert!(d.log.is_empty(), "{:?}", d.log);
    assert!(!d.watching);
    assert_eq!(d.tracker.uncloak_all(), Vec::<usize>::new());
    assert!(!d.calls.contains(&"uncloak 48".to_string()));
}

#[test]
fn calls_come_in_this_order() {
    let mut d = with_new_window();
    d.show(0x30);
    assert_eq!(
        d.calls,
        vec![
            "class",
            "tabs 48",
            "windows",
            "tabs 16",
            "tabs 32",
            "scan",
            "adopt source",
            "scan",
            "tabs 32",
            "request 32",
            "tabs 32",
            "url",
            "scan",
            "scan",
            "adopt tab",
            "watch",
            "navigate file:///C:/new",
            "done?",
            "unwatch",
            "quit",
            "front 32",
        ]
    );
}

#[test]
fn one_tab_is_requested_and_navigated_before_the_window_closes() {
    let mut d = with_new_window();
    d.tab_after = Some(300 * MS);
    d.entry_after = Some(300 * MS);
    d.arrives_after = Some(300 * MS);
    d.show(0x30);
    let places = |d: &Desktop, prefix: &str| -> Vec<usize> {
        (0..d.calls.len()).filter(|i| d.calls[*i].starts_with(prefix)).collect()
    };
    let (requests, navigations) = (places(&d, "request"), places(&d, "navigate"));
    let closings = places(&d, "quit");
    assert_eq!((requests.len(), navigations.len(), closings.len()), (1, 1, 1));
    assert!(requests[0] < navigations[0] && navigations[0] < closings[0]);
}

#[test]
fn first_window_is_left_alone() {
    let mut d = Desktop::new();
    d.others.push(77);
    d.open(0x30, &["x"]);
    d.create(0x30);
    assert!(d.hidden.is_empty());
    assert!(!d.calls.iter().any(|c| c.starts_with("cloak")));
    d.show(0x30);
    assert_eq!(d.urls(0x30), vec!["x"]);
    assert_eq!(d.calls.last().map(|s| s.as_str()), Some("uncloak 48"));
    assert!(d.log.is_empty());
}

#[test]
fn other_windows_are_ignored() {
    let mut d = with_new_window();
    d.create(77);
    d.show(77);
    d.create(5);
    d.show(5);
    assert_eq!(d.calls, vec!["class", "class", "class", "class"]);
}

#[test]
fn window_with_several_tabs_is_not_merged() {
    let mut d = with_new_window();
    d.show(0x20);
    assert_eq!(d.calls, vec!["class", "tabs 32", "uncloak 32"]);
    assert_eq!(d.urls(0x20), vec!["b", "c"]);
}

#[test]
fn windows_at_the_limit_are_no_hosts() {
    let mut d = Desktop::new();
    let many: Vec<&str> = vec!["t"; 15];
    d.open(0x10, &many);
    d.open(0x30, &["x"]);
    d.create(0x30);
    assert_eq!(d.hidden, vec![0x30]);
    d.show(0x30);
    assert!(d.hidden.is_empty());
    assert_eq!(d.urls(0x30), vec!["x"]);
    assert_eq!(d.tracker.uncloak_all(), Vec::<usize>::new());
    // With one tab less it is.
    let mut d = Desktop::new();
    d.open(0x10, &many[..14]);
    d.open(0x30, &["x"]);
    d.show(0x30);
    assert_eq!(d.urls(0x10).len(), 15);
}

#[test]
fn same_folder_twice_gives_two_tabs() {
    let mut d = Desktop::new();
    d.open(0x10, &["same"]);
    d.open(0x30, &["same"]);
    d.show(0x30);
    assert_eq!(d.urls(0x10), vec!["same", "same"]);
}

#[test]
fn virtual_folder_goes_by_its_parsing_path() {
    let mut d = with_new_window();
    let bin = "::{645FF040-5081-101B-9F08-00AA002F954E}";
    for url in [Some(String::new()), None] {
        let mut d = with_new_window();
        let tab = d.find(0x30).unwrap();
        tab.tabs[0].url = url;
        tab.tabs[0].path = Some(bin.to_string());
        d.show(0x30);
        assert_eq!(d.urls(0x20), vec!["b", "c", bin]);
        assert!(d.log.is_empty());
    }
    // Without either there is nowhere to go.
    d.find(0x30).unwrap().tabs[0].url = None;
    d.create(0x30);
    d.show(0x30);
    assert_eq!(
        d.log,
        vec![format!(
            "merge failed for 0x30: <{} [location] empty LocationURL and PIDL fallback failed>",
            E_FAIL
        )]
    );
    assert!(d.hidden.is_empty());
    assert!(d.find(0x30).is_some());
}

#[test]
fn slow_merge_keeps_its_window_hidden() {
    let mut d = with_new_window();
    d.tab_after = Some(1_900 * MS);
    d.entry_after = Some(9_000 * MS);
    d.arrives_after = Some(2_500 * MS);
    d.create(0x30);
    d.show(0x30);
    assert_eq!(d.urls(0x20), vec!["b", "c", "file:///C:/new"]);
    assert!(d.log.is_empty());
    assert!(d.now > 13_000 * MS);
}

#[test]
fn sweep_finds_nothing_while_a_merge_waits() {
    let mut d = with_new_window();
    d.tab_after = Some(1_900 * MS);
    d.entry_after = Some(9_000 * MS);
    d.create(0x30);
    let mut flow = on_window_shown(0x30);
    while let Some(call) = flow.call() {
        let reply = d.serve(call);
        assert_eq!(d.tracker.sweep_stale(d.now), Vec::<usize>::new());
        flow = flow.on_reply(&mut d.tracker, d.now, reply);
    }
    assert!(d.log.is_empty());
}

#[test]
fn entry_that_comes_at_the_last_moment_is_taken() {
    let mut d = with_new_window();
    // The last rest before the deadline ends at ten seconds.
    d.entry_after = Some(10_000 * MS);
    d.show(0x30);
    assert_eq!(d.urls(0x20), vec!["b", "c", "file:///C:/new"]);
    assert!(d.log.is_empty());
}

#[test]
fn window_without_an_entry_is_given_back() {
    let mut d = with_new_window();
    d.listed = false;
    d.create(0x30);
    d.show(0x30);
    assert_eq!(
        d.log,
        vec![format!(
            "merge failed for 0x30: <{} [wait_wb_top] IWebBrowser2 for new top-level not found>",
            E_FAIL
        )]
    );
    assert_eq!(d.now, 10_000 * MS);
    assert!(d.hidden.is_empty());
    assert!(!d.calls.iter().any(|c| c.starts_with("request")));
}

#[test]
fn refused_request_is_named_in_the_log() {
    let mut d = with_new_window();
    d.refuse = Some("request");
    d.create(0x30);
    d.show(0x30);
    let line = format!("merge failed for 0x30: <{} [request_new_tab] no tab child>", E_FAIL);
    assert_eq!(d.log, vec![line]);
    assert!(d.hidden.is_empty());
    assert!(d.find(0x30).is_some());
}

#[test]
fn tab_that_never_comes_leaves_the_window() {
    let mut d = with_new_window();
    d.tab_after = None;
    d.create(0x30);
    d.show(0x30);
    let line = format!(
        "merge failed for 0x30: <{} [wait_new_tab] timeout waiting for new ShellTabWindowClass child>",
        E_FAIL
    );
    assert_eq!(d.log, vec![line]);
    assert_eq!(d.now, 2_000 * MS);
    assert!(!d.calls.contains(&"quit".to_string()));
    assert!(d.hidden.is_empty());
    assert_eq!(d.tracker.uncloak_all(), Vec::<usize>::new());
}

#[test]
fn entry_that_never_comes_is_dumped() {
    let mut d = with_new_window();
    d.entry_after = None;
    d.show(0x30);
    assert_eq!(d.log[0], "snapshot[wait_for_new_host_entry timeout]: count=4");
    assert_eq!(d.log[1], "  [0] hwnd=0x3e9() top=0x10");
    assert_eq!(d.log.len(), 6);
    assert_eq!(
        d.log[5],
        format!(
            "merge failed for 0x30: <{} [wait_new_entry] timeout waiting for new IShellWindows entry>",
            E_FAIL
        )
    );
    assert!(d.find(0x30).is_some());
}

#[test]
fn refused_watch_is_named_in_the_log() {
    let mut d = with_new_window();
    d.refuse = Some("watch");
    d.show(0x30);
    let line = format!("merge failed for 0x30: <{} [watch_navigate] advise>", E_FAIL);
    assert_eq!(d.log, vec![line]);
    assert!(!d.calls.contains(&"unwatch".to_string()));
}

#[test]
fn refused_navigation_closes_the_blank_tab() {
    let mut d = with_new_window();
    d.refuse = Some("navigate");
    d.create(0x30);
    d.show(0x30);
    assert_eq!(d.urls(0x20), vec!["b", "c"]);
    assert_eq!(d.urls(0x30), vec!["file:///C:/new"]);
    assert!(!d.watching);
    assert!(d.hidden.is_empty());
    let line = format!("merge failed for 0x30: <{} [Navigate2] denied>", E_FAIL);
    assert_eq!(d.log, vec![line]);
}

#[test]
fn navigation_that_never_ends_is_logged_and_the_window_given_back() {
    let mut d = with_new_window();
    d.arrives_after = None;
    d.create(0x30);
    d.show(0x30);
    assert_eq!(
        d.log,
        vec![
            "Navigate2 did NOT complete in 3000 ms (new tab may be left at default page) for 0x30"
                .to_string(),
            format!(
                "merge failed for 0x30: <{} [navigate_complete] timeout waiting for NavigateComplete2>",
                E_FAIL
            ),
        ]
    );
    assert_eq!(d.urls(0x30), vec!["file:///C:/new"]);
    // The tab is left as it is.
    assert_eq!(d.urls(0x20), vec!["b", "c", "file:///C:/new"]);
    assert!(!d.calls.contains(&"quit".to_string()));
    assert!(!d.calls.contains(&"close tab".to_string()));
    let end: Vec<&str> = d.calls.iter().rev().take(2).map(|c| c.as_str()).collect();
    assert_eq!(end, vec!["uncloak 48", "unwatch"]);
    assert_eq!(d.front, None);
    assert!(d.hidden.is_empty());
    assert!(!d.watching);
    assert_eq!(d.tracker.uncloak_all(), Vec::<usize>::new());
    assert!(d.calls.contains(&"pump 50".to_string()));
    assert!(d.now >= 3_000 * MS);
}

#[test]
fn navigation_that_ends_just_in_time_is_a_success() {
    let mut d = with_new_window();
    d.arrives_after = Some(2_990 * MS);
    d.show(0x30);
    assert!(d.find(0x30).is_none());
    assert_eq!(d.urls(0x20), vec!["b", "c", "file:///C:/new"]);
    assert!(d.log.is_empty());
}

#[test]
fn reply_that_does_not_fit_is_asked_for_again() {
    let mut tracker = CloakTracker::new();
    let flow = on_window_shown(0x30).on_reply(&mut tracker, 0, Reply::Done);
    assert!(matches!(flow.call(), Some(Call::ReadClass(0x30))));
    let flow = on_window_created(0x30).on_reply(&mut tracker, 0, Reply::Navigated(true));
    assert!(matches!(flow.call(), Some(Call::ReadClass(0x30))));
}
