use explorer_tab_merger::cloak::{recover_orphans, sweep_line, CloakTracker, FoundWindow};
use explorer_tab_merger::shell_windows::{
    count_entries_for_top, entry_top, find_first_wb_for_top, find_last_wb_for_top,
    log_shell_windows_snapshot, EntryDump, ListDump,
};
use explorer_tab_merger::win_util::{
    bring_to_foreground, clear_layered, cloak, find_all_explorer_windows, find_tab_handles,
    first_tab_handle, get_window_class, is_cloaked, request_new_tab, select_host, set_layered,
    top_level_window, uncloak, Post, TopWindow, WindowOp,
};

const SECOND: u64 = 1_000_000_000;

fn window(hwnd: usize, class: Option<&str>) -> TopWindow {
    TopWindow { hwnd, class: class.map(|c| c.to_string()) }
}

#[test]
fn explorer_windows_are_found_by_class() {
    let list = vec![
        window(1, Some("Shell_TrayWnd")),
        window(2, Some("CabinetWClass")),
        window(3, None),
        window(4, Some("cabinetwclass")),
        window(5, Some("CabinetWClass")),
    ];
    assert_eq!(find_all_explorer_windows(&list), vec![2, 5]);
    assert_eq!(find_all_explorer_windows(&Vec::new()), Vec::<usize>::new());
}

#[test]
fn class_is_read_from_the_buffer() {
    let mut buf = [0u16; 256];
    for (i, u) in "CabinetWClass".encode_utf16().enumerate() {
        buf[i] = u;
    }
    assert_eq!(get_window_class(&buf, 13).as_deref(), Some("CabinetWClass"));
    assert_eq!(get_window_class(&buf, 7).as_deref(), Some("Cabinet"));
    assert_eq!(get_window_class(&buf, 0), None);
    assert_eq!(get_window_class(&buf, -1), None);
}

#[test]
fn root_stands_for_the_window() {
    assert_eq!(top_level_window(7, 3), 3);
    assert_eq!(top_level_window(7, 0), 7);
    assert_eq!(entry_top(Some(7), 3), Some(3));
    assert_eq!(entry_top(Some(7), 0), Some(7));
    assert_eq!(entry_top(None, 3), None);
}

#[test]
fn tab_search_ends_at_the_first_reply_without_a_handle() {
    let mut scan = find_tab_handles();
    assert_eq!(scan.after(), 0);
    scan.on_reply(Some(11));
    assert_eq!(scan.after(), 11);
    scan.on_reply(Some(12));
    assert_eq!(scan.after(), 12);
    assert!(!scan.finished);
    scan.on_reply(None);
    scan.on_reply(Some(13));
    assert!(scan.finished);
    assert_eq!(scan.found, vec![11, 12]);
    let mut scan = find_tab_handles();
    scan.on_reply(Some(0));
    assert!(scan.finished && scan.found.is_empty());
}

#[test]
fn new_tab_is_requested_from_the_first_tab_window() {
    assert_eq!(first_tab_handle(Some(9)), 9);
    assert_eq!(first_tab_handle(None), 0);
    let post = Post { target: 9, message: 0x0111, wparam: 0xA21B, lparam: 0 };
    assert!(request_new_tab(9) == Some(post));
    assert!(request_new_tab(0) == None);
}

#[test]
fn fullest_window_below_the_limit_is_the_host() {
    assert_eq!(select_host(&vec![(1, 2), (2, 5), (3, 4)], 9), Some(2));
    // The window itself does not count.
    assert_eq!(select_host(&vec![(1, 2), (2, 5), (3, 4)], 2), Some(3));
    // At the limit a window takes no more.
    assert_eq!(select_host(&vec![(1, 14), (2, 15), (3, 16)], 9), Some(1));
    assert_eq!(select_host(&vec![(2, 15), (3, 16)], 9), None);
    // The first of several.
    assert_eq!(select_host(&vec![(1, 3), (2, 3)], 9), Some(1));
    assert_eq!(select_host(&vec![(9, 1)], 9), None);
    assert_eq!(select_host(&Vec::new(), 9), None);
    assert_eq!(select_host(&vec![(4, 0)], 9), Some(4));
}

/// A window with the changes applied as the system applies them.
fn perform(ops: Vec<WindowOp>, exstyle: isize, alpha: u8) -> (isize, u8, bool, bool) {
    let (mut exstyle, mut alpha, mut shown, mut front) = (exstyle, alpha, false, false);
    for op in ops {
        match op {
            WindowOp::SetLayered => {
                if let Some(style) = set_layered(exstyle) {
                    exstyle = style;
                    alpha = 255;
                }
            }
            WindowOp::ClearLayered => {
                if let Some(style) = clear_layered(exstyle) {
                    exstyle = style;
                }
            }
            WindowOp::SetAlpha(a) => {
                if exstyle & 0x80000 != 0 {
                    alpha = a;
                }
            }
            WindowOp::FrameChanged => {}
            WindowOp::ShowNormal => shown = true,
            WindowOp::Foreground => front = true,
        }
    }
    (exstyle, alpha, shown, front)
}

#[test]
fn cloak_hides_and_uncloak_shows() {
    for style in [0x100isize, 0x80100] {
        let (exstyle, alpha, _, _) = perform(cloak(), style, 255);
        assert_eq!((exstyle, alpha), (0x80100, 0));
        assert!(is_cloaked(exstyle, Some(alpha)));
        let (exstyle, alpha, shown, _) = perform(uncloak(), exstyle, alpha);
        assert_eq!((exstyle, alpha, shown), (0x100, 255, true));
        assert!(!is_cloaked(exstyle, Some(alpha)));
    }
    assert_eq!(perform(bring_to_foreground(), 0, 255), (0, 255, true, true));
    assert_eq!(set_layered(0x80000), None);
    assert_eq!(set_layered(1), Some(0x80001));
    assert_eq!(clear_layered(1), None);
    assert_eq!(clear_layered(-1), Some(!0x80000));
}

#[test]
fn only_a_layered_window_that_is_not_opaque_was_hidden() {
    assert!(is_cloaked(0x80000, Some(0)));
    assert!(is_cloaked(0x80000, Some(254)));
    assert!(!is_cloaked(0x80000, Some(255)));
    assert!(!is_cloaked(0x80000, None));
    assert!(!is_cloaked(0, Some(0)));
}

#[test]
fn stale_windows_are_given_up() {
    let mut tracker = CloakTracker::new();
    tracker.cloak(1, 0);
    tracker.cloak(2, SECOND);
    tracker.cloak(3, 2 * SECOND);
    // Exactly five seconds are not too long.
    assert_eq!(tracker.sweep_stale(5 * SECOND), Vec::<usize>::new());
    assert_eq!(tracker.sweep_stale(5 * SECOND + 1), vec![1]);
    assert_eq!(tracker.sweep_stale(5 * SECOND + 1), Vec::<usize>::new());
    // A refreshed window is kept, one that is not tracked stays untracked.
    tracker.touch(2, 6 * SECOND);
    tracker.touch(1, 6 * SECOND);
    let mut swept = tracker.sweep_stale(10 * SECOND);
    swept.sort();
    assert_eq!(swept, vec![3]);
    assert_eq!(tracker.uncloak_all(), vec![2]);
    assert_eq!(tracker.uncloak_all(), Vec::<usize>::new());
}

#[test]
fn released_windows_are_not_swept() {
    let mut tracker = CloakTracker::new();
    tracker.cloak(1, 0);
    tracker.cloak(2, 0);
    tracker.uncloak(1);
    tracker.forget(2);
    tracker.uncloak(1);
    tracker.forget(2);
    assert_eq!(tracker.sweep_stale(u64::MAX), Vec::<usize>::new());
    assert_eq!(sweep_line(0x1F), "safety net: uncloaking stale 0x1f");
}

#[test]
fn a_clock_that_stands_still_makes_nothing_stale() {
    let mut tracker = CloakTracker::new();
    tracker.cloak(1, 9 * SECOND);
    assert_eq!(tracker.sweep_stale(0), Vec::<usize>::new());
    let mut all = tracker.uncloak_all();
    all.sort();
    assert_eq!(all, vec![1]);
}

#[test]
fn orphans_are_restored_at_startup() {
    let found = vec![
        FoundWindow { hwnd: 1, exstyle: 0x80000, alpha: Some(0) },
        FoundWindow { hwnd: 2, exstyle: 0, alpha: None },
        FoundWindow { hwnd: 3, exstyle: 0x80100, alpha: Some(128) },
        FoundWindow { hwnd: 4, exstyle: 0x80000, alpha: Some(255) },
    ];
    let recovery = recover_orphans(&found);
    assert_eq!(recovery.restore, vec![1, 3]);
    assert_eq!(
        recovery.line.as_deref(),
        Some("startup recovery: restored 2 off-screen orphan window(s)")
    );
    let recovery = recover_orphans(&Vec::new());
    assert!(recovery.restore.is_empty() && recovery.line.is_none());
}

#[test]
fn second_recovery_finds_nothing() {
    let mut found = vec![
        FoundWindow { hwnd: 1, exstyle: 0x80100, alpha: Some(0) },
        FoundWindow { hwnd: 2, exstyle: 0x80000, alpha: Some(255) },
    ];
    let first = recover_orphans(&found);
    assert_eq!(first.restore, vec![1]);
    for w in found.iter_mut().filter(|w| first.restore.contains(&w.hwnd)) {
        let (exstyle, alpha, shown, _) = perform(uncloak(), w.exstyle, w.alpha.unwrap());
        assert!(shown);
        w.exstyle = exstyle;
        w.alpha = Some(alpha);
    }
    let second = recover_orphans(&found);
    assert!(second.restore.is_empty() && second.line.is_none());
}

#[test]
fn entries_are_counted_and_found_by_window() {
    let scan = Some(vec![Some(5), None, Some(7), Some(5), Some(7), None]);
    assert_eq!(count_entries_for_top(&scan, 5), 2);
    assert_eq!(count_entries_for_top(&scan, 9), 0);
    assert_eq!(find_first_wb_for_top(&scan, 7), Some(2));
    assert_eq!(find_last_wb_for_top(&scan, 7), Some(4));
    assert_eq!(find_last_wb_for_top(&scan, 5), Some(3));
    assert_eq!(find_first_wb_for_top(&scan, 9), None);
    assert_eq!(find_last_wb_for_top(&scan, 9), None);
    assert_eq!(count_entries_for_top(&None, 5), 0);
    assert_eq!(find_first_wb_for_top(&None, 5), None);
    assert_eq!(find_last_wb_for_top(&None, 5), None);
}

#[test]
fn an_appended_entry_is_the_last() {
    let mut entries = vec![Some(5), Some(7)];
    let before = count_entries_for_top(&Some(entries.clone()), 5);
    entries.push(Some(5));
    let scan = Some(entries);
    assert_eq!(count_entries_for_top(&scan, 5), before + 1);
    assert_eq!(find_last_wb_for_top(&scan, 5), Some(2));
}

#[test]
fn dump_describes_every_entry() {
    let entries = vec![
        EntryDump::ItemError("bad".to_string()),
        EntryDump::NotBrowser,
        EntryDump::WindowError("gone".to_string()),
        EntryDump::Browser { hwnd: 0x10, class: Some("CabinetWClass".to_string()), top: 0x20 },
        EntryDump::Browser { hwnd: 0x10, class: None, top: 0 },
    ];
    let lines = log_shell_windows_snapshot("here", &ListDump::Entries(5, entries));
    assert_eq!(
        lines,
        vec![
            "snapshot[here]: count=5",
            "  [0] (Item err bad)",
            "  [1] (not IWebBrowser2)",
            "  [2] (HWND err gone)",
            "  [3] hwnd=0x10(CabinetWClass) top=0x20",
            "  [4] hwnd=0x10() top=0x0",
        ]
    );
    let lines = log_shell_windows_snapshot("l", &ListDump::CountError("E".to_string()));
    assert_eq!(lines, vec!["snapshot[l]: Count err: E"]);
    let lines = log_shell_windows_snapshot("l", &ListDump::Entries(-1, Vec::new()));
    assert_eq!(lines, vec!["snapshot[l]: count=-1"]);
}
