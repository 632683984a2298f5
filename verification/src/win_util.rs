//! What the program knows about Explorer's windows: their classes, how one is hidden and
//! shown again, and which of them is the best host for a new tab.
//!
//! A window is known by its handle, a plain number; zero is no window.

use vstd::prelude::*;

use crate::text::{decode_utf16_lossy, same_text};

verus! {

/// File Explorer's top-level window class.
pub const CABINET_WCLASS: &'static str = "CabinetWClass";

/// The class of the window that hosts one Explorer tab, a child of a [`CABINET_WCLASS`].
pub const SHELL_TAB_WCLASS: &'static str = "ShellTabWindowClass";

/// Explorer's undocumented command for "new tab".
pub const CMD_NEW_TAB: u32 = 0xA21B;

/// The message that carries a command.
pub const WM_COMMAND: u32 = 0x0111;

/// The extended style bit of a window that is drawn with an alpha value.
pub const WS_EX_LAYERED: isize = 0x0008_0000;

/// Alpha of a window that cannot be seen.
pub const TRANSPARENT: u8 = 0;

/// Alpha of a window that is drawn in full.
pub const OPAQUE: u8 = 255;

/// A host with this many tabs takes no more: near seventeen, Explorer starts to drop the
/// new-tab command and becomes unstable.
pub const MAX_HOST_TABS: usize = 15;

/// A top-level window as enumeration finds it.
pub struct TopWindow {
    pub hwnd: usize,
    /// Its class name, if it could be read.
    pub class: Option<String>,
}

/// Whether a class name is that of an Explorer top-level window.
pub open spec fn cabinet_class(class: Option<String>) -> bool {
    class matches Some(c) && c@ == CABINET_WCLASS@
}

/// Test a class name for that of an Explorer top-level window.
pub fn is_cabinet_class(class: &Option<String>) -> (r: bool)
    ensures
        r == cabinet_class(*class),
        r == (*class is Some && (*class)->0@ == CABINET_WCLASS@),
{
    match class {
        Some(c) => same_text(c.as_str(), CABINET_WCLASS),
        None => false,
    }
}

/// The class name in a buffer that the system filled with `len` units; none where it
/// reported no length.
pub fn get_window_class(buf: &[u16], len: i32) -> (r: Option<String>)
    requires
        len <= buf@.len(),
    ensures
        len <= 0 ==> r is None,
        len > 0 ==> (r matches Some(s) && s@ == crate::text::utf16_text(buf@.take(len as int))),
{
    if len <= 0 {
        return None;
    }
    let n: usize = len as usize;
    let used: &[u16] = vstd::slice::slice_subrange(buf, 0, n);
    assert(used@ == buf@.take(len as int));
    Some(decode_utf16_lossy(used))
}

/// The handles of the Explorer windows among `windows`, in the order they are listed.
pub open spec fn explorer_handles(windows: Seq<TopWindow>) -> Seq<usize> {
    windows.filter(|w: TopWindow| cabinet_class(w.class)).map_values(|w: TopWindow| w.hwnd)
}

/// Keep the windows whose class is [`CABINET_WCLASS`].
pub fn find_all_explorer_windows(windows: &Vec<TopWindow>) -> (r: Vec<usize>)
    ensures
        r@ == explorer_handles(windows@),
{
    let mut out: Vec<usize> = Vec::new();
    let ghost keep = |w: TopWindow| cabinet_class(w.class);
    let ghost handle = |w: TopWindow| w.hwnd;
    assert(explorer_handles(windows@.take(0)) == Seq::<usize>::empty()) by {
        reveal(Seq::filter);
    }
    for i in 0..windows.len()
        invariant
            keep == |w: TopWindow| cabinet_class(w.class),
            handle == |w: TopWindow| w.hwnd,
            out@ == explorer_handles(windows@.take(i as int)),
    {
        proof {
            reveal(Seq::filter);
            let next = windows@.take(i + 1);
            assert(next.drop_last() == windows@.take(i as int));
            assert(next.last() == windows@[i as int]);
            assert(explorer_handles(next) == if keep(windows@[i as int]) {
                explorer_handles(windows@.take(i as int)).push(windows@[i as int].hwnd)
            } else {
                explorer_handles(windows@.take(i as int))
            });
        }
        if is_cabinet_class(&windows[i].class) {
            out.push(windows[i].hwnd);
        }
    }
    assert(windows@.take(windows.len() as int) == windows@);
    out
}

/// The top-level window above `hwnd`, given the root that the system reports for it; a
/// window without a root stands for itself.
pub fn top_level_window(hwnd: usize, root: usize) -> (r: usize)
    ensures
        r == (if root == 0 {
            hwnd
        } else {
            root
        }),
{
    if root == 0 {
        hwnd
    } else {
        root
    }
}

/// The handles that come before the first reply without one. A handle of zero is none.
pub open spec fn handles_found(replies: Seq<Option<usize>>) -> Seq<usize>
    decreases replies.len(),
{
    if replies.len() == 0 {
        Seq::empty()
    } else {
        match replies[0] {
            Some(h) => if h == 0 {
                Seq::empty()
            } else {
                seq![h] + handles_found(replies.skip(1))
            },
            None => Seq::empty(),
        }
    }
}

/// The search for the tab windows of a host: ask for the child after [`TabScan::after`]
/// until none is left.
pub struct TabScan {
    pub found: Vec<usize>,
    pub finished: bool,
}

impl TabScan {
    /// The state of a scan that was given these replies.
    pub open spec fn holds(self, replies: Seq<Option<usize>>) -> bool {
        &&& self.found@ == handles_found(replies)
        &&& self.finished == (handles_found(replies).len() < replies.len())
    }

    /// The child to search behind, zero for the first.
    pub open spec fn last_found(self) -> usize {
        if self.found@.len() == 0 {
            0
        } else {
            self.found@.last()
        }
    }

    /// The child to search behind, zero for the first.
    pub fn after(&self) -> (r: usize)
        ensures
            r == self.last_found(),
            self.found@.len() == 0 ==> r == 0,
            self.found@.len() > 0 ==> r == self.found@.last(),
    {
        if self.found.len() == 0 {
            0
        } else {
            self.found[self.found.len() - 1]
        }
    }

    /// Take one reply. After the first one without a handle nothing changes any more.
    pub fn on_reply(&mut self, reply: Option<usize>)
        ensures
            old(self).finished ==> *final(self) == *old(self),
            !old(self).finished ==> (match reply {
                Some(h) => if h == 0 {
                    final(self).finished && final(self).found@ == old(self).found@
                } else {
                    !final(self).finished && final(self).found@ == old(self).found@.push(h)
                },
                None => final(self).finished && final(self).found@ == old(self).found@,
            }),
            forall|replies: Seq<Option<usize>>| #[trigger]
                old(self).holds(replies) ==> final(self).holds(replies.push(reply)),
    {
        if !self.finished {
            match reply {
                Some(h) => {
                    if h == 0 {
                        self.finished = true;
                    } else {
                        self.found.push(h);
                    }
                },
                None => {
                    self.finished = true;
                },
            }
        }
        proof {
            assert forall|replies: Seq<Option<usize>>| #[trigger]
                old(self).holds(replies) implies self.holds(replies.push(reply)) by {
                law_scan_collects(replies, reply);
            }
        }
    }
}

/// Begin to look for the tab windows of a host.
pub fn find_tab_handles() -> (r: TabScan)
    ensures
        r.holds(Seq::empty()),
{
    TabScan { found: Vec::new(), finished: false }
}

/// One more reply keeps the scan at what all the replies so far add up to.
pub proof fn law_scan_collects(replies: Seq<Option<usize>>, reply: Option<usize>)
    ensures
        handles_found(replies.push(reply)) == (if handles_found(replies).len() < replies.len() {
            handles_found(replies)
        } else {
            match reply {
                Some(h) => if h == 0 {
                    handles_found(replies)
                } else {
                    handles_found(replies).push(h)
                },
                None => handles_found(replies),
            }
        }),
        handles_found(replies).len() <= replies.len(),
    decreases replies.len(),
{
    if replies.len() == 0 {
        reveal_with_fuel(handles_found, 2);
        assert(replies.push(reply).skip(1) == Seq::<Option<usize>>::empty());
        assert(handles_found(replies.push(reply)) == match reply {
            Some(h) => if h == 0 {
                Seq::<usize>::empty()
            } else {
                seq![h]
            },
            None => Seq::<usize>::empty(),
        });
    } else {
        law_scan_collects(replies.skip(1), reply);
        assert(replies.push(reply).skip(1) == replies.skip(1).push(reply));
        assert(replies.push(reply)[0] == replies[0]);
    }
}

/// The first tab window of a host, zero where the search found none.
pub fn first_tab_handle(found: Option<usize>) -> (r: usize)
    ensures
        r == (match found {
            Some(h) => h,
            None => 0,
        }),
{
    match found {
        Some(h) => h,
        None => 0,
    }
}

/// A message to post to a window.
#[derive(Clone, Copy, PartialEq, Eq, Structural)]
pub struct Post {
    pub target: usize,
    pub message: u32,
    pub wparam: usize,
    pub lparam: isize,
}

/// The message that asks for a new tab, given the host's first tab window; none where the
/// host has no tab window to send it to.
pub fn request_new_tab(tab: usize) -> (r: Option<Post>)
    ensures
        r == (if tab == 0 {
            None
        } else {
            Some(
                Post {
                    target: tab,
                    message: WM_COMMAND,
                    wparam: CMD_NEW_TAB as usize,
                    lparam: 0,
                },
            )
        }),
{
    if tab == 0 {
        None
    } else {
        Some(Post { target: tab, message: WM_COMMAND, wparam: CMD_NEW_TAB as usize, lparam: 0 })
    }
}

/// One change to a window.
#[derive(Clone, Copy, PartialEq, Eq, Structural)]
pub enum WindowOp {
    /// Read the extended style, and write what [`set_layered`] says, if anything.
    SetLayered,
    /// Read the extended style, and write what [`clear_layered`] says, if anything.
    ClearLayered,
    /// Set the alpha value. The system refuses it for a window that is not layered.
    SetAlpha(u8),
    /// Have the frame computed anew, leaving place, size, order and activation alone.
    FrameChanged,
    /// Show the window in its normal state.
    ShowNormal,
    /// Make it the foreground window.
    Foreground,
}

/// What is visible of a window.
pub struct Look {
    pub exstyle: isize,
    pub alpha: u8,
    pub shown: bool,
    pub foreground: bool,
    /// Whether the frame was computed since the style last changed.
    pub fresh_frame: bool,
}

/// Whether the layered bit is set.
pub open spec fn layered(exstyle: isize) -> bool {
    exstyle & WS_EX_LAYERED != 0
}

/// A window that was hidden: layered, and not drawn in full.
pub open spec fn hidden(exstyle: isize, alpha: Option<u8>) -> bool {
    layered(exstyle) && alpha is Some && alpha->0 < OPAQUE
}

/// The style to write so that the window is layered, if it is not.
pub fn set_layered(exstyle: isize) -> (r: Option<isize>)
    ensures
        r == (if layered(exstyle) {
            None
        } else {
            Some(exstyle | WS_EX_LAYERED)
        }),
        r is None <==> exstyle & WS_EX_LAYERED != 0,
{
    if exstyle & WS_EX_LAYERED == 0 {
        Some(exstyle | WS_EX_LAYERED)
    } else {
        None
    }
}

/// The style to write so that the window is not layered, if it is.
pub fn clear_layered(exstyle: isize) -> (r: Option<isize>)
    ensures
        r == (if layered(exstyle) {
            Some(exstyle & !WS_EX_LAYERED)
        } else {
            None
        }),
        r is None <==> exstyle & WS_EX_LAYERED == 0,
{
    if exstyle & WS_EX_LAYERED != 0 {
        Some(exstyle & !WS_EX_LAYERED)
    } else {
        None
    }
}

/// Whether a window was hidden by an earlier run, given its extended style and, where the
/// system reports one, its alpha value.
pub fn is_cloaked(exstyle: isize, alpha: Option<u8>) -> (r: bool)
    ensures
        r == hidden(exstyle, alpha),
        r == (exstyle & WS_EX_LAYERED != 0 && alpha is Some && alpha->0 < OPAQUE),
{
    match alpha {
        Some(a) => exstyle & WS_EX_LAYERED != 0 && a < OPAQUE,
        None => false,
    }
}

/// The changes that hide a window.
pub open spec fn cloak_ops() -> Seq<WindowOp> {
    seq![WindowOp::SetLayered, WindowOp::SetAlpha(TRANSPARENT)]
}

/// The changes that show it again.
pub open spec fn uncloak_ops() -> Seq<WindowOp> {
    seq![
        WindowOp::SetAlpha(OPAQUE),
        WindowOp::ClearLayered,
        WindowOp::FrameChanged,
        WindowOp::ShowNormal,
    ]
}

/// Hide a window: make it layered, then fully transparent.
pub fn cloak() -> (r: Vec<WindowOp>)
    ensures
        r@ == cloak_ops(),
        r@ == seq![WindowOp::SetLayered, WindowOp::SetAlpha(TRANSPARENT)],
{
    vec![WindowOp::SetLayered, WindowOp::SetAlpha(TRANSPARENT)]
}

/// Show a hidden window: full alpha, then no layered style (a layered window may stay
/// invisible whatever its alpha), then a fresh frame, then show it.
pub fn uncloak() -> (r: Vec<WindowOp>)
    ensures
        r@ == uncloak_ops(),
        r@ == seq![
            WindowOp::SetAlpha(OPAQUE),
            WindowOp::ClearLayered,
            WindowOp::FrameChanged,
            WindowOp::ShowNormal,
        ],
{
    vec![
        WindowOp::SetAlpha(OPAQUE),
        WindowOp::ClearLayered,
        WindowOp::FrameChanged,
        WindowOp::ShowNormal,
    ]
}

/// Show a window and make it the foreground window.
pub fn bring_to_foreground() -> (r: Vec<WindowOp>)
    ensures
        r@ == seq![WindowOp::ShowNormal, WindowOp::Foreground],
{
    vec![WindowOp::ShowNormal, WindowOp::Foreground]
}

/// What one change does to a window.
pub open spec fn apply(op: WindowOp, w: Look) -> Look {
    match op {
        WindowOp::SetLayered => if layered(w.exstyle) {
            w
        } else {
            Look {
                exstyle: w.exstyle | WS_EX_LAYERED,
                alpha: OPAQUE,
                fresh_frame: false,
                ..w
            }
        },
        WindowOp::ClearLayered => if layered(w.exstyle) {
            Look { exstyle: w.exstyle & !WS_EX_LAYERED, fresh_frame: false, ..w }
        } else {
            w
        },
        WindowOp::SetAlpha(a) => if layered(w.exstyle) {
            Look { alpha: a, ..w }
        } else {
            w
        },
        WindowOp::FrameChanged => Look { fresh_frame: true, ..w },
        WindowOp::ShowNormal => Look { shown: true, ..w },
        WindowOp::Foreground => Look { foreground: true, ..w },
    }
}

/// What a list of changes does to a window, first to last.
pub open spec fn apply_all(ops: Seq<WindowOp>, w: Look) -> Look
    decreases ops.len(),
{
    if ops.len() == 0 {
        w
    } else {
        apply(ops.last(), apply_all(ops.drop_last(), w))
    }
}

proof fn lemma_layered_bits(x: isize)
    ensures
        layered(x | WS_EX_LAYERED),
        !layered(x & !WS_EX_LAYERED),
        !layered(x) ==> (x | WS_EX_LAYERED) & !WS_EX_LAYERED == x,
        (x | WS_EX_LAYERED) & !WS_EX_LAYERED == x & !WS_EX_LAYERED,
{
    assert((x | 0x0008_0000isize) & 0x0008_0000isize != 0) by (bit_vector);
    assert((x & !0x0008_0000isize) & 0x0008_0000isize == 0) by (bit_vector);
    assert(x & 0x0008_0000isize == 0 ==> (x | 0x0008_0000isize) & !0x0008_0000isize == x)
        by (bit_vector);
    assert((x | 0x0008_0000isize) & !0x0008_0000isize == x & !0x0008_0000isize) by (bit_vector);
}

/// After [`cloak`] any window is hidden, and fully transparent.
pub proof fn law_cloak_hides(w: Look)
    ensures
        ({
            let c = apply_all(cloak_ops(), w);
            hidden(c.exstyle, Some(c.alpha)) && c.alpha == TRANSPARENT && c.exstyle == w.exstyle
                | WS_EX_LAYERED
        }),
{
    reveal_with_fuel(apply_all, 3);
    lemma_layered_bits(w.exstyle);
    assert(cloak_ops().drop_last().drop_last() == Seq::<WindowOp>::empty());
    assert(layered(w.exstyle) ==> w.exstyle | WS_EX_LAYERED == w.exstyle) by {
        let x = w.exstyle;
        assert(x & 0x0008_0000isize != 0 ==> x | 0x0008_0000isize == x) by (bit_vector);
    }
}

/// After [`uncloak`] any window is shown and not hidden, its frame is fresh, and no style bit
/// but the layered one has changed. A window that was layered is opaque, and none is made the
/// foreground window.
pub proof fn law_uncloak_shows(w: Look)
    ensures
        ({
            let c = apply_all(uncloak_ops(), w);
            &&& !layered(c.exstyle)
            &&& !hidden(c.exstyle, Some(c.alpha))
            &&& c.shown
            &&& c.fresh_frame
            &&& c.foreground == w.foreground
            &&& layered(w.exstyle) ==> c.alpha == OPAQUE
            &&& c.exstyle == w.exstyle & !WS_EX_LAYERED
        }),
{
    reveal_with_fuel(apply_all, 5);
    lemma_layered_bits(w.exstyle);
    assert(uncloak_ops().drop_last().drop_last().drop_last().drop_last() == Seq::<
        WindowOp,
    >::empty());
    assert(!layered(w.exstyle) ==> w.exstyle & !WS_EX_LAYERED == w.exstyle) by {
        let x = w.exstyle;
        assert(x & 0x0008_0000isize == 0 ==> x & !0x0008_0000isize == x) by (bit_vector);
    }
}

/// [`uncloak`] undoes [`cloak`]: a window that was not layered has its old style back.
pub proof fn law_uncloak_undoes_cloak(w: Look)
    requires
        !layered(w.exstyle),
    ensures
        apply_all(uncloak_ops(), apply_all(cloak_ops(), w)).exstyle == w.exstyle,
        apply_all(uncloak_ops(), apply_all(cloak_ops(), w)).shown,
{
    law_cloak_hides(w);
    law_uncloak_shows(apply_all(cloak_ops(), w));
    lemma_layered_bits(w.exstyle);
}

/// Whether a window can take one more tab: it is not the window to be merged, and holds
/// fewer tabs than the limit.
pub open spec fn eligible(candidate: (usize, usize), other_than: usize) -> bool {
    candidate.0 != other_than && candidate.1 < MAX_HOST_TABS
}

/// The place of the eligible window with the most tabs, the first of several.
pub open spec fn best_place(candidates: Seq<(usize, usize)>, other_than: usize) -> Option<int>
    decreases candidates.len(),
{
    if candidates.len() == 0 {
        None
    } else {
        let rest = best_place(candidates.drop_last(), other_than);
        let last = candidates.last();
        if eligible(last, other_than) && (rest is None || candidates[rest->0].1 < last.1) {
            Some(candidates.len() - 1)
        } else {
            rest
        }
    }
}

/// The best host among `candidates`, each a handle and its number of tabs.
pub open spec fn best_host(candidates: Seq<(usize, usize)>, other_than: usize) -> Option<usize> {
    match best_place(candidates, other_than) {
        Some(i) => Some(candidates[i].0),
        None => None,
    }
}

/// The host is an eligible window, no eligible window has more tabs, and none before it has
/// as many; there is none only where no window is eligible.
pub proof fn law_best_host(candidates: Seq<(usize, usize)>, other_than: usize)
    ensures
        match best_place(candidates, other_than) {
            Some(i) => {
                &&& 0 <= i < candidates.len()
                &&& eligible(candidates[i], other_than)
                &&& forall|j: int|
                    0 <= j < candidates.len() && #[trigger] eligible(candidates[j], other_than)
                        ==> candidates[j].1 <= candidates[i].1 && (candidates[j].1
                        == candidates[i].1 ==> i <= j)
            },
            None => forall|j: int|
                0 <= j < candidates.len() ==> !#[trigger] eligible(candidates[j], other_than),
        },
    decreases candidates.len(),
{
    if candidates.len() > 0 {
        let rest = candidates.drop_last();
        law_best_host(rest, other_than);
        assert forall|j: int| 0 <= j < rest.len() implies #[trigger] candidates[j] == rest[j] by {}
        match best_place(candidates, other_than) {
            Some(i) => {
                assert forall|j: int|
                    0 <= j < candidates.len() && #[trigger] eligible(
                        candidates[j],
                        other_than,
                    ) implies candidates[j].1 <= candidates[i].1 && (candidates[j].1
                    == candidates[i].1 ==> i <= j) by {
                    if j < rest.len() {
                        assert(eligible(rest[j], other_than));
                    }
                }
            },
            None => {
                assert forall|j: int| 0 <= j < candidates.len() implies !#[trigger] eligible(
                    candidates[j],
                    other_than,
                ) by {
                    if j < rest.len() {
                        assert(!eligible(rest[j], other_than));
                    }
                }
            },
        }
    }
}

/// Pick the host for a new tab: the window with the most tabs, leaving out `other_than`
/// and every window at the limit.
pub fn select_host(candidates: &Vec<(usize, usize)>, other_than: usize) -> (r: Option<usize>)
    ensures
        r == best_host(candidates@, other_than),
        match r {
            Some(h) => h != other_than && exists|i: int|
                0 <= i < candidates@.len() && (#[trigger] candidates@[i]).0 == h && eligible(
                    candidates@[i],
                    other_than,
                ),
            None => forall|j: int|
                0 <= j < candidates@.len() ==> !#[trigger] eligible(candidates@[j], other_than),
        },
{
    let mut best: Option<usize> = None;
    for i in 0..candidates.len()
        invariant
            match (best, best_place(candidates@.take(i as int), other_than)) {
                (Some(b), Some(p)) => b == p && b < i,
                (None, None) => true,
                _ => false,
            },
    {
        let ghost next = candidates@.take(i + 1);
        assert(next.drop_last() == candidates@.take(i as int));
        let (hwnd, tabs): (usize, usize) = candidates[i];
        if hwnd != other_than && tabs < MAX_HOST_TABS {
            match best {
                None => {
                    best = Some(i);
                },
                Some(b) => {
                    if candidates[b].1 < tabs {
                        best = Some(i);
                    }
                },
            }
        }
    }
    assert(candidates@.take(candidates.len() as int) == candidates@);
    proof {
        law_best_host(candidates@, other_than);
    }
    match best {
        Some(b) => Some(candidates[b].0),
        None => None,
    }
}

/// An Explorer window in a list adds its handle behind those before it, and any other window
/// adds nothing.
pub proof fn law_explorer_windows_one_by_one(windows: Seq<TopWindow>, w: TopWindow)
    ensures
        explorer_handles(Seq::empty()) == Seq::<usize>::empty(),
        w.class is Some && w.class->0@ == CABINET_WCLASS@ ==> explorer_handles(windows.push(w))
            == explorer_handles(windows).push(w.hwnd),
        !(w.class is Some && w.class->0@ == CABINET_WCLASS@) ==> explorer_handles(windows.push(w))
            == explorer_handles(windows),
{
    reveal(Seq::filter);
    assert(windows.push(w).drop_last() == windows);
    assert(explorer_handles(windows.push(w)) == if cabinet_class(w.class) {
        explorer_handles(windows).push(w.hwnd)
    } else {
        explorer_handles(windows)
    });
}

/// A handle is found exactly if some window of the list has it and is of Explorer's class,
/// wherever it stands.
pub proof fn law_explorer_windows_are_found(windows: Seq<TopWindow>, hwnd: usize)
    ensures
        explorer_handles(windows).contains(hwnd) <==> exists|i: int|
            0 <= i < windows.len() && (#[trigger] windows[i]).hwnd == hwnd && windows[i].class
                is Some && windows[i].class->0@ == CABINET_WCLASS@,
    decreases windows.len(),
{
    if windows.len() == 0 {
        law_explorer_windows_one_by_one(windows, arbitrary());
        assert(windows == Seq::<TopWindow>::empty());
    } else {
        let rest = windows.drop_last();
        let last = windows.last();
        law_explorer_windows_are_found(rest, hwnd);
        law_explorer_windows_one_by_one(rest, last);
        assert(rest.push(last) == windows);
        vstd::seq_lib::lemma_seq_contains_after_push(explorer_handles(rest), last.hwnd, hwnd);
        if explorer_handles(rest).contains(hwnd) {
            let i = choose|i: int|
                0 <= i < rest.len() && (#[trigger] rest[i]).hwnd == hwnd && rest[i].class is Some
                    && rest[i].class->0@ == CABINET_WCLASS@;
            assert(windows[i] == rest[i]);
        }
        if exists|i: int|
            0 <= i < windows.len() && (#[trigger] windows[i]).hwnd == hwnd && windows[i].class
                is Some && windows[i].class->0@ == CABINET_WCLASS@ {
            let i = choose|i: int|
                0 <= i < windows.len() && (#[trigger] windows[i]).hwnd == hwnd && windows[i].class
                    is Some && windows[i].class->0@ == CABINET_WCLASS@;
            if i < rest.len() {
                assert(rest[i] == windows[i]);
            } else {
                assert(windows[i] == last);
            }
        }
    }
}

/// The tab windows that a scan finds are the handles of the replies in their order, up to the
/// first reply without one.
pub proof fn law_scan_stops_at_the_first_gap(replies: Seq<Option<usize>>)
    ensures
        ({
            let found = handles_found(replies);
            &&& found.len() <= replies.len()
            &&& forall|i: int|
                0 <= i < found.len() ==> #[trigger] replies[i] == Some(found[i]) && found[i] != 0
            &&& found.len() < replies.len() ==> replies[found.len() as int] is None
                || replies[found.len() as int] == Some(0usize)
        }),
    decreases replies.len(),
{
    if replies.len() > 0 {
        let rest = replies.skip(1);
        law_scan_stops_at_the_first_gap(rest);
        let found = handles_found(replies);
        if replies[0] is Some && replies[0]->0 != 0 {
            assert forall|i: int| 0 <= i < found.len() implies #[trigger] replies[i] == Some(
                found[i],
            ) && found[i] != 0 by {
                if i > 0 {
                    assert(rest[i - 1] == replies[i]);
                    assert(found[i] == handles_found(rest)[i - 1]);
                }
            }
            if found.len() < replies.len() {
                assert(rest[found.len() - 1] == replies[found.len() as int]);
            }
        }
    }
}

/// The host is another window than the new one, below the limit, and no other window below the
/// limit has more tabs; of several with as many it is the first. There is none only where every
/// other window is at the limit.
pub proof fn law_fullest_other_window_is_host(candidates: Seq<(usize, usize)>, other_than: usize)
    ensures
        match best_host(candidates, other_than) {
            Some(host) => exists|i: int|
                0 <= i < candidates.len() && (#[trigger] candidates[i]).0 == host && host
                    != other_than && candidates[i].1 < MAX_HOST_TABS && forall|j: int|
                    0 <= j < candidates.len() && (#[trigger] candidates[j]).0 != other_than
                        && candidates[j].1 < MAX_HOST_TABS ==> candidates[j].1 <= candidates[i].1
                        && (candidates[j].1 == candidates[i].1 ==> i <= j),
            None => forall|j: int|
                0 <= j < candidates.len() && (#[trigger] candidates[j]).0 != other_than
                    ==> candidates[j].1 >= MAX_HOST_TABS,
        },
{
    law_best_host(candidates, other_than);
    match best_place(candidates, other_than) {
        Some(i) => {
            assert forall|j: int|
                0 <= j < candidates.len() && (#[trigger] candidates[j]).0 != other_than
                    && candidates[j].1 < MAX_HOST_TABS implies candidates[j].1 <= candidates[i].1
                && (candidates[j].1 == candidates[i].1 ==> i <= j) by {
                assert(eligible(candidates[j], other_than));
            }
            assert(candidates[i].0 == best_host(candidates, other_than)->0);
        },
        None => {
            assert forall|j: int|
                0 <= j < candidates.len() && (#[trigger] candidates[j]).0 != other_than implies
                candidates[j].1 >= MAX_HOST_TABS by {
                assert(!eligible(candidates[j], other_than));
            }
        },
    }
}

} // verus!
