//! The process around the windows: its start and end, its watchdog, and what it listens to.

use explorer_tab_merger::cloak::{CloakTracker, FoundWindow};
use explorer_tab_merger::conflicts::{detect_running, warning};
use explorer_tab_merger::parsing_path::{
    parsing_path_via_pidl, read_name, PathCall, PathReply, PathStage,
};
use explorer_tab_merger::protocol::Failure;
use explorer_tab_merger::shell_events::{
    subscribe, watch_navigate_complete, win_event_proc, NavigateCompleteSink, WindowEvent,
};
use explorer_tab_merger::single_instance::{acquire, Guard};
use explorer_tab_merger::startup::{Life, StartCall, StartReply};
use explorer_tab_merger::supervisor::{
    is_alive, run_message_loop, watchdog_tick, App, LoopStep, TickCall, TickReply,
};

const SECOND: u64 = 1_000_000_000;
const RPC_E_DISCONNECTED: i32 = 0x8001_0108u32 as i32;

fn wide(s: &str) -> Vec<u16> {
    let mut v: Vec<u16> = s.encode_utf16().collect();
    v.resize(40, 0);
    v
}

fn failure(text: &str) -> Failure {
    Failure { code: -1, message: text.to_string() }
}

#[test]
fn known_tools_are_found_once_in_any_case() {
    let snapshot = Some(vec![
        wide("explorer.exe"),
        wide("FILES.EXE"),
        wide("QTTabBar.exe"),
        wide("Files.exe"),
        wide("FILES.EXE"),
        wide("explorertabutility.exe"),
        wide("MyFiles.exe"),
    ]);
    let found = detect_running(&snapshot);
    assert_eq!(found, vec!["FILES.EXE", "QTTabBar.exe", "Files.exe", "explorertabutility.exe"]);
    assert_eq!(
        warning(&found).as_deref(),
        Some("conflicting tools are running: FILES.EXE, QTTabBar.exe, Files.exe, explorertabutility.exe")
    );
    assert_eq!(detect_running(&None), Vec::<String>::new());
    assert_eq!(detect_running(&Some(Vec::new())), Vec::<String>::new());
    assert_eq!(warning(&Vec::new()), None);
    // A name that fills its buffer.
    let full: Vec<u16> = "Files.exe".encode_utf16().collect();
    assert_eq!(detect_running(&Some(vec![full])), vec!["Files.exe"]);
}

#[test]
fn only_the_first_instance_gets_the_mutex() {
    let first = acquire(Some(8), 0);
    assert!(matches!(first.guard, Some(Guard { handle: 8 })));
    assert_eq!(first.close, None);
    let second = acquire(Some(12), 183);
    assert!(second.guard.is_none());
    assert_eq!(second.close, Some(12));
    let refused = acquire(None, 5);
    assert!(refused.guard.is_none() && refused.close.is_none());
    // A leftover error of another kind does not matter.
    assert!(acquire(Some(8), 5).guard.is_some());
    assert_eq!(first.guard.unwrap().release(), Some(8));
    assert_eq!(Guard { handle: 0 }.release(), None);
    assert_eq!(Guard { handle: usize::MAX }.release(), None);
}

#[test]
fn only_windows_created_and_shown_count() {
    assert!(win_event_proc(0x8000, 0) == Some(WindowEvent::Created));
    assert!(win_event_proc(0x8002, 0) == Some(WindowEvent::Shown));
    assert!(win_event_proc(0x8001, 0) == None);
    assert!(win_event_proc(0x8000, -4) == None);
    assert!(win_event_proc(0x8002, 1) == None);
}

#[test]
fn callback_is_there_while_the_hook_is() {
    let mut slot: Option<&str> = None;
    let hooked = subscribe(&mut slot, "callback", 5, "failed");
    assert_eq!(slot, Some("callback"));
    let subscription = match hooked {
        Ok(s) => s,
        Err(_) => unreachable!(),
    };
    assert_eq!(subscription.release(&mut slot), 5);
    assert_eq!(slot, None);
    slot = Some("old");
    assert!(matches!(subscribe(&mut slot, "new", 0, "failed"), Err("failed")));
    assert_eq!(slot, None);
}

#[test]
fn only_a_completed_navigation_is_noticed() {
    let mut sink = NavigateCompleteSink::new();
    sink.invoke(251);
    assert!(!sink.completed);
    sink.invoke(252);
    assert!(sink.completed);
    sink.invoke(259);
    assert!(sink.completed);
    let watch: Result<_, &str> = watch_navigate_complete(sink, Ok(3));
    match watch {
        Ok(w) => {
            assert!(w.completed.completed);
            assert_eq!(w.release(), 3);
        }
        Err(_) => unreachable!(),
    }
    let watch = watch_navigate_complete(NavigateCompleteSink::new(), Err("no"));
    assert!(matches!(watch, Err("no")));
}

/// Search a path, with the call at this place failing; returns the path and the calls.
fn search(fail_at: usize, name: Vec<u16>) -> (Option<String>, Vec<PathCall>) {
    let mut stage = parsing_path_via_pidl();
    let mut calls = Vec::new();
    while let Some(call) = stage.call() {
        let reply = if calls.len() == fail_at {
            PathReply::Failed
        } else if call == PathCall::ReadName {
            PathReply::Name(name.clone())
        } else {
            PathReply::Done
        };
        calls.push(call);
        stage = stage.on_reply(reply);
    }
    match stage {
        PathStage::Finished(path) => (path, calls),
        _ => unreachable!(),
    }
}

#[test]
fn path_is_found_and_memory_freed() {
    let bin = "::{645FF040-5081-101B-9F08-00AA002F954E}";
    let (path, calls) = search(usize::MAX, bin.encode_utf16().collect());
    assert_eq!(path.as_deref(), Some(bin));
    assert_eq!(calls.len(), 10);
    assert!(calls[6] == PathCall::ParsingName && calls[7] == PathCall::FreeItemList);
    assert!(calls[8] == PathCall::ReadName && calls[9] == PathCall::FreeName);
}

#[test]
fn failed_link_gives_no_path_and_leaks_nothing() {
    for at in 0..7 {
        let (path, calls) = search(at, vec![0x41]);
        assert_eq!(path, None);
        let lists = calls.iter().filter(|c| **c == PathCall::FreeItemList).count();
        let names = calls.iter().filter(|c| **c == PathCall::FreeName).count();
        assert_eq!(lists, if at == 6 { 1 } else { 0 });
        assert_eq!(names, 0);
    }
}

#[test]
fn empty_or_broken_name_is_no_path() {
    assert_eq!(search(usize::MAX, Vec::new()).0, None);
    let (path, calls) = search(usize::MAX, vec![0xD800]);
    assert_eq!(path, None);
    assert!(calls[9] == PathCall::FreeName);
    assert_eq!(read_name(&[0x41]).as_deref(), Some("A"));
}

#[test]
fn messages_are_told_apart() {
    assert!(run_message_loop(0, 0x113, 7, 7) == LoopStep::Quit);
    assert!(run_message_loop(-1, 0x113, 7, 7) == LoopStep::Fail);
    assert!(run_message_loop(1, 0x113, 7, 7) == LoopStep::Watchdog);
    assert!(run_message_loop(1, 0x113, 8, 7) == LoopStep::Dispatch);
    assert!(run_message_loop(1, 0x112, 7, 7) == LoopStep::Dispatch);
}

#[test]
fn only_a_lost_connection_counts_as_dead() {
    assert!(is_alive(Ok(())));
    assert!(is_alive(Err(-2147467259)));
    assert!(!is_alive(Err(RPC_E_DISCONNECTED)));
}

/// Run the watchdog; returns what it did.
fn tick(
    app: &mut App<u32, &'static str>,
    tracker: &mut CloakTracker,
    now: u64,
    probe: Result<(), i32>,
    connect: Result<u32, &'static str>,
) -> Vec<String> {
    let mut done = Vec::new();
    let mut t = watchdog_tick(tracker, now);
    while let Some(call) = t.call() {
        let reply = match call {
            TickCall::Log(line) => {
                done.push(line);
                TickReply::Done
            }
            TickCall::Uncloak(h) => {
                done.push(format!("uncloak {}", h));
                TickReply::Done
            }
            TickCall::Probe => TickReply::Probed(probe),
            TickCall::Connect => TickReply::Connected(match connect {
                Ok(s) => Ok(s),
                Err(e) => Err(failure(e)),
            }),
            TickCall::Describe(e) => TickReply::Text(e.message),
        };
        t = t.on_reply(app, reply);
    }
    done
}

#[test]
fn watchdog_is_quiet_while_all_is_well() {
    let mut app: App<u32, &'static str> = App::new(1);
    let mut tracker = CloakTracker::new();
    tracker.cloak(4, 0);
    let done = tick(&mut app, &mut tracker, 5 * SECOND, Ok(()), Ok(2));
    assert!(done.is_empty());
    assert_eq!(app.shell, 1);
    let done = tick(&mut app, &mut tracker, 5 * SECOND, Err(-1), Ok(2));
    assert!(done.is_empty());
    assert_eq!(app.shell, 1);
}

#[test]
fn watchdog_reconnects_and_keeps_the_hook() {
    let mut app: App<u32, &'static str> = App::new(1);
    assert_eq!(app.hook, None);
    app.install_hook("hook");
    let mut tracker = CloakTracker::new();
    let done = tick(&mut app, &mut tracker, 0, Err(RPC_E_DISCONNECTED), Err("busy"));
    assert_eq!(done, vec!["ShellWindows disconnected; reconnecting", "reconnect failed: busy"]);
    assert_eq!(app.shell, 1);
    let done = tick(&mut app, &mut tracker, 0, Err(RPC_E_DISCONNECTED), Ok(2));
    assert_eq!(done, vec!["ShellWindows disconnected; reconnecting"]);
    assert_eq!(app.shell, 2);
    assert_eq!(app.take_hook(), Some("hook"));
    assert_eq!(app.take_hook(), None);
}

#[test]
fn watchdog_shows_windows_hidden_for_too_long() {
    let mut app: App<u32, &'static str> = App::new(1);
    let mut tracker = CloakTracker::new();
    tracker.cloak(4, 0);
    tracker.cloak(5, 0);
    tracker.cloak(6, SECOND);
    let mut done = tick(&mut app, &mut tracker, 5 * SECOND + 1, Ok(()), Ok(2));
    assert_eq!(done.len(), 4);
    assert!(done[0].starts_with("safety net") && done[1].starts_with("uncloak"));
    done.sort();
    assert_eq!(
        done,
        vec![
            "safety net: uncloaking stale 0x4",
            "safety net: uncloaking stale 0x5",
            "uncloak 4",
            "uncloak 5",
        ]
    );
    assert_eq!(tracker.uncloak_all(), vec![6]);
}

/// What the process meets, and what it did.
struct World {
    first: bool,
    com: Result<(), &'static str>,
    found: Vec<(usize, isize, Option<u8>)>,
    processes: Vec<&'static str>,
    exe: Option<&'static str>,
    register: Result<(), &'static str>,
    connect: Result<(), &'static str>,
    hook: Result<(), &'static str>,
}

impl World {
    fn new() -> World {
        World {
            first: true,
            com: Ok(()),
            found: Vec::new(),
            processes: Vec::new(),
            exe: Some("C:\\m.exe"),
            register: Ok(()),
            connect: Ok(()),
            hook: Ok(()),
        }
    }

    fn outcome(r: Result<(), &'static str>) -> StartReply {
        StartReply::Outcome(r.map_err(failure))
    }

    fn live(&self) -> Vec<String> {
        let mut did: Vec<String> = Vec::new();
        let mut life = Life::start();
        while let Some(call) = life.call() {
            let (name, reply) = match call {
                StartCall::TakeMutex => ("mutex", StartReply::Acquired(self.first)),
                StartCall::InitCom => ("com", World::outcome(self.com)),
                StartCall::FindExplorers => {
                    let found = self.found.iter();
                    let found = found
                        .map(|w| FoundWindow { hwnd: w.0, exstyle: w.1, alpha: w.2 })
                        .collect();
                    ("explorers", StartReply::Found(found))
                }
                StartCall::Uncloak(h) => {
                    did.push(format!("uncloak {}", h));
                    life = life.on_reply(StartReply::Done);
                    continue;
                }
                StartCall::ListProcesses => {
                    let list = self.processes.iter().map(|p| wide(p)).collect();
                    ("processes", StartReply::Processes(Some(list)))
                }
                StartCall::ReadExePath => {
                    ("exe", StartReply::Path(self.exe.map(|s| s.to_string())))
                }
                StartCall::Register(path) => {
                    did.push(format!("register {}", path));
                    life = life.on_reply(World::outcome(self.register));
                    continue;
                }
                StartCall::Connect => ("connect", World::outcome(self.connect)),
                StartCall::InstallHook => ("hook", World::outcome(self.hook)),
                StartCall::StartTimer => ("timer", StartReply::Done),
                StartCall::RunLoop => ("loop", StartReply::Done),
                StartCall::StopTimer => ("stop timer", StartReply::Done),
                StartCall::UncloakAll => ("uncloak all", StartReply::Done),
                StartCall::RemoveHook => ("unhook", StartReply::Done),
                StartCall::UninitCom => ("leave com", StartReply::Done),
                StartCall::ReleaseMutex => ("release mutex", StartReply::Done),
                StartCall::Log(line) => {
                    did.push(format!("log {}", line));
                    life = life.on_reply(StartReply::Done);
                    continue;
                }
                StartCall::Describe(e) => {
                    life = life.on_reply(StartReply::Text(e.message));
                    continue;
                }
                StartCall::DescribeCode(code) => {
                    life = life.on_reply(StartReply::Text(format!("HRESULT({})", code)));
                    continue;
                }
            };
            did.push(name.to_string());
            life = life.on_reply(reply);
        }
        did
    }
}

#[test]
fn ordinary_life_logs_nothing() {
    assert_eq!(
        World::new().live(),
        vec![
            "mutex",
            "com",
            "explorers",
            "processes",
            "exe",
            "register C:\\m.exe",
            "connect",
            "hook",
            "timer",
            "loop",
            "stop timer",
            "uncloak all",
            "unhook",
            "leave com",
            "release mutex",
        ]
    );
}

#[test]
fn second_instance_ends_at_once() {
    let world = World { first: false, ..World::new() };
    assert_eq!(world.live(), vec!["mutex"]);
}

#[test]
fn orphans_and_conflicts_are_dealt_with_at_the_start() {
    let world = World {
        found: vec![(1, 0x80000, Some(0)), (2, 0, None), (3, 0x80000, Some(9))],
        processes: vec!["a.exe", "qttabbar.exe"],
        exe: None,
        ..World::new()
    };
    assert_eq!(
        world.live()[2..9].to_vec(),
        vec![
            "explorers",
            "uncloak 1",
            "uncloak 3",
            "log startup recovery: restored 2 off-screen orphan window(s)",
            "processes",
            "log conflicting tools are running: qttabbar.exe",
            "exe",
        ]
    );
    assert_eq!(world.live()[9], "connect");
}

#[test]
fn trouble_at_the_start_is_logged_and_everything_given_back() {
    let world = World { com: Err("unused"), ..World::new() };
    assert_eq!(
        world.live(),
        vec!["mutex", "com", "log CoInitializeEx failed: HRESULT(-1)", "release mutex"]
    );
    let world = World { connect: Err("E"), ..World::new() };
    let did = world.live();
    assert_eq!(
        did[6..].to_vec(),
        vec![
            "connect",
            "log CoCreateInstance(ShellWindows) failed: E",
            "leave com",
            "release mutex",
        ]
    );
    let world = World { hook: Err("E"), ..World::new() };
    let did = world.live();
    assert_eq!(
        did[7..].to_vec(),
        vec!["hook", "log SetWinEventHook failed: E", "leave com", "release mutex"]
    );
    let world = World { register: Err("E"), ..World::new() };
    let did = world.live();
    assert_eq!(did[6], "log autostart register failed: E");
    assert_eq!(did[7], "connect");
    assert_eq!(did.len(), World::new().live().len() + 1);
}
