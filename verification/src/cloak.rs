//! Which windows are hidden, and since when.
//!
//! A window that was hidden for a merge must not stay hidden if the merge never ends. The
//! tracker keeps a time stamp for each hidden window; waits that make progress refresh it
//! ([`CloakTracker::touch`]), and [`CloakTracker::sweep_stale`] gives up those that were not
//! refreshed for too long. [`recover_orphans`] finds what an earlier run left hidden.
//!
//! Times are nanoseconds of a clock that never goes back.

use std::collections::HashMap;

use vstd::prelude::*;

use crate::text::{address, numeral, to_address, to_numeral};
use crate::win_util::{
    apply_all, hidden, is_cloaked, law_uncloak_shows, uncloak_ops, Look, OPAQUE, WS_EX_LAYERED,
};

verus! {

broadcast use vstd::std_specs::hash::group_hash_axioms;

/// A hidden window whose stamp is older than this is shown again: five seconds.
pub const STALE_THRESHOLD_NS: u64 = 5_000_000_000;

/// The hidden windows, each with the time it was last known to make progress.
pub struct CloakTracker {
    cloaked: HashMap<usize, u64>,
}

impl View for CloakTracker {
    type V = Map<usize, u64>;

    closed spec fn view(&self) -> Map<usize, u64> {
        self.cloaked@
    }
}

/// Whether a stamp is older than the threshold.
pub open spec fn stale(stamp: u64, now: u64) -> bool {
    now - stamp > STALE_THRESHOLD_NS
}

/// The tracked windows with a fresh stamp for `hwnd`, if it is one of them.
pub open spec fn touched(m: Map<usize, u64>, hwnd: usize, now: u64) -> Map<usize, u64> {
    if m.contains_key(hwnd) {
        m.insert(hwnd, now)
    } else {
        m
    }
}

/// Whether `hwnd` is tracked with a stale stamp.
pub open spec fn tracked_stale(m: Map<usize, u64>, hwnd: usize, now: u64) -> bool {
    m.contains_key(hwnd) && stale(m[hwnd], now)
}

/// The line logged for a window that a sweep shows again.
pub open spec fn sweep_text(hwnd: usize) -> Seq<char> {
    "safety net: uncloaking stale "@ + address(hwnd)
}

impl CloakTracker {
    /// Nothing is hidden.
    pub fn new() -> (r: Self)
        ensures
            r@ == Map::<usize, u64>::empty(),
    {
        CloakTracker { cloaked: HashMap::new() }
    }

    /// Remember a window that is being hidden.
    pub fn cloak(&mut self, hwnd: usize, now: u64)
        ensures
            final(self)@ == old(self)@.insert(hwnd, now),
    {
        self.cloaked.insert(hwnd, now);
    }

    /// Drop a window that is being shown again; nothing changes for one that is not tracked.
    pub fn uncloak(&mut self, hwnd: usize)
        ensures
            final(self)@ == old(self)@.remove(hwnd),
    {
        self.cloaked.remove(&hwnd);
    }

    /// Drop a window that no longer exists.
    pub fn forget(&mut self, hwnd: usize)
        ensures
            final(self)@ == old(self)@.remove(hwnd),
    {
        self.cloaked.remove(&hwnd);
    }

    /// Refresh the stamp of a window, if it is tracked.
    pub fn touch(&mut self, hwnd: usize, now: u64)
        ensures
            final(self)@ == touched(old(self)@, hwnd, now),
            old(self)@.contains_key(hwnd) ==> final(self)@ == old(self)@.insert(hwnd, now),
            !old(self)@.contains_key(hwnd) ==> final(self)@ == old(self)@,
    {
        if self.cloaked.contains_key(&hwnd) {
            self.cloaked.insert(hwnd, now);
        }
    }

    /// The tracked windows, each once, in no particular order.
    fn windows(&self) -> (r: Vec<usize>)
        ensures
            r@.no_duplicates(),
            forall|k: usize| #[trigger] r@.contains(k) <==> self@.contains_key(k),
    {
        let mut out: Vec<usize> = Vec::new();
        for k in it: self.cloaked.keys()
            invariant
                out@ == it.seq().unref().take(it.index() as int),
                it.seq().no_duplicates(),
                it.seq().unref().to_set() == self.cloaked@.dom(),
                it.index() == it.seq().len() ==> out@ == it.seq().unref(),
        {
            out.push(*k);
            assert(out@ == it.seq().unref().take(it.index() + 1));
        }
        assert forall|k: usize| #[trigger] out@.contains(k) <==> self@.contains_key(k) by {
            assert(out@.to_set().contains(k) <==> out@.contains(k));
        }
        out
    }

    /// Stop tracking every window whose stamp is stale, and return them so that they are
    /// shown again. The order is not fixed.
    pub fn sweep_stale(&mut self, now: u64) -> (r: Vec<usize>)
        ensures
            r@.no_duplicates(),
            forall|k: usize| #[trigger] r@.contains(k) <==> tracked_stale(old(self)@, k, now),
            forall|k: usize| #[trigger]
                r@.contains(k) <==> old(self)@.contains_key(k) && now - old(self)@[k]
                    > STALE_THRESHOLD_NS,
            final(self)@ == old(self)@.remove_keys(r@.to_set()),
    {
        let all = self.windows();
        let mut out: Vec<usize> = Vec::new();
        for i in 0..all.len()
            invariant
                all@.no_duplicates(),
                forall|k: usize| #[trigger] all@.contains(k) <==> old(self)@.contains_key(k),
                out@.no_duplicates(),
                forall|k: usize| #[trigger]
                    out@.contains(k) <==> all@.take(i as int).contains(k) && tracked_stale(
                        old(self)@,
                        k,
                        now,
                    ),
                self@ == old(self)@.remove_keys(out@.to_set()),
        {
            let hwnd: usize = all[i];
            let ghost before = out@;
            proof {
                assert(all@.contains(hwnd));
                assert(!all@.take(i as int).contains(hwnd));
                assert(all@.take(i + 1) == all@.take(i as int).push(hwnd));
                lemma_push_contains(all@.take(i as int), hwnd);
                lemma_push_contains(before, hwnd);
            }
            if let Some(stamp) = self.cloaked.get(&hwnd) {
                if now > *stamp && now - *stamp > STALE_THRESHOLD_NS {
                    self.cloaked.remove(&hwnd);
                    out.push(hwnd);
                    assert(out@.to_set() == before.to_set().insert(hwnd));
                }
            }
            assert(self@ == old(self)@.remove_keys(out@.to_set()));
        }
        assert(all@.take(all.len() as int) == all@);
        out
    }

    /// Stop tracking every window and return them all, so that they are shown again. The
    /// order is not fixed.
    pub fn uncloak_all(&mut self) -> (r: Vec<usize>)
        ensures
            r@.no_duplicates(),
            forall|k: usize| #[trigger] r@.contains(k) <==> old(self)@.contains_key(k),
            final(self)@ == Map::<usize, u64>::empty(),
    {
        let all = self.windows();
        self.cloaked.clear();
        all
    }
}

/// What a sequence contains after one more element.
proof fn lemma_push_contains(s: Seq<usize>, x: usize)
    ensures
        forall|k: usize| #[trigger] s.push(x).contains(k) <==> s.contains(k) || k == x,
{
    assert forall|k: usize| #[trigger] s.push(x).contains(k) <==> s.contains(k) || k == x by {
        if s.contains(k) {
            let i = choose|i: int| 0 <= i < s.len() && s[i] == k;
            assert(s.push(x)[i] == k);
        }
        if k == x {
            assert(s.push(x)[s.len() as int] == x);
        }
        if s.push(x).contains(k) && k != x {
            let i = choose|i: int| 0 <= i < s.push(x).len() && s.push(x)[i] == k;
            assert(s[i] == k);
        }
    }
}

/// The line to log for a window that a sweep shows again.
pub fn sweep_line(hwnd: usize) -> (r: String)
    ensures
        r@ == sweep_text(hwnd),
        r@ == "safety net: uncloaking stale "@ + ("0x"@ + numeral(hwnd as nat, 16)),
{
    let mut line = "safety net: uncloaking stale ".to_owned();
    line.append(to_address(hwnd).as_str());
    line
}

/// A window whose stamp was refreshed is kept by every sweep of the next five seconds, so
/// a merge that keeps polling keeps its window hidden.
pub proof fn law_progress_keeps_cloak(m: Map<usize, u64>, hwnd: usize, at: u64, now: u64)
    requires
        now <= at + STALE_THRESHOLD_NS,
    ensures
        !tracked_stale(touched(m, hwnd, at), hwnd, now),
{
}

/// A window that is hidden and never refreshed is given up by the first sweep after five
/// seconds.
pub proof fn law_stuck_cloak_is_swept(m: Map<usize, u64>, hwnd: usize, at: u64, now: u64)
    requires
        now > at + STALE_THRESHOLD_NS,
    ensures
        tracked_stale(m.insert(hwnd, at), hwnd, now),
{
}

/// After a sweep no tracked window is stale, so a second sweep at that time finds nothing.
pub proof fn law_sweep_leaves_none_stale(m: Map<usize, u64>, swept: Set<usize>, now: u64)
    requires
        forall|k: usize| #[trigger] swept.contains(k) <==> tracked_stale(m, k, now),
    ensures
        forall|k: usize| !#[trigger] tracked_stale(m.remove_keys(swept), k, now),
{
    assert forall|k: usize| !#[trigger] tracked_stale(m.remove_keys(swept), k, now) by {
        assert(swept.contains(k) <==> tracked_stale(m, k, now));
    }
}

/// Hiding a window and showing it again leaves no trace of it, and the other windows as they
/// were; to show or forget it once more changes nothing.
pub proof fn law_uncloak_forgets(m: Map<usize, u64>, hwnd: usize, now: u64)
    ensures
        m.insert(hwnd, now).remove(hwnd) == m.remove(hwnd),
        m.remove(hwnd).remove(hwnd) == m.remove(hwnd),
        !m.remove(hwnd).contains_key(hwnd),
        touched(m.remove(hwnd), hwnd, now) == m.remove(hwnd),
{
    assert(m.insert(hwnd, now).remove(hwnd) == m.remove(hwnd));
    assert(m.remove(hwnd).remove(hwnd) == m.remove(hwnd));
}

/// An Explorer window as it is found at startup.
pub struct FoundWindow {
    pub hwnd: usize,
    pub exstyle: isize,
    /// The alpha value, where the system reports one.
    pub alpha: Option<u8>,
}

/// What to do about windows that an earlier run left hidden.
pub struct Recovery {
    /// The windows to show again.
    pub restore: Vec<usize>,
    /// The line to log, if there is anything to say.
    pub line: Option<String>,
}

/// The handles of the hidden windows among those found, in their order.
pub open spec fn orphans(found: Seq<FoundWindow>) -> Seq<usize> {
    found.filter(|w: FoundWindow| hidden(w.exstyle, w.alpha)).map_values(|w: FoundWindow| w.hwnd)
}

/// The line logged when windows were recovered.
pub open spec fn recovery_text(restored: nat) -> Seq<char> {
    "startup recovery: restored "@ + numeral(restored, 10) + " off-screen orphan window(s)"@
}

/// The line to log after a recovery; none where there was nothing to recover.
pub open spec fn recovery_line(found: Seq<FoundWindow>) -> Option<Seq<char>> {
    if orphans(found).len() > 0 {
        Some(recovery_text(orphans(found).len()))
    } else {
        None
    }
}

/// Startup recovery: every Explorer window that is layered and not fully opaque was left
/// behind by a run that ended in the middle of a merge, and is to be shown again.
pub fn recover_orphans(found: &Vec<FoundWindow>) -> (r: Recovery)
    ensures
        r.restore@ == orphans(found@),
        match r.line {
            Some(line) => recovery_line(found@) == Some(line@),
            None => recovery_line(found@) is None,
        },
{
    let mut restore: Vec<usize> = Vec::new();
    let ghost keep = |w: FoundWindow| hidden(w.exstyle, w.alpha);
    assert(orphans(found@.take(0)) == Seq::<usize>::empty()) by {
        reveal(Seq::filter);
    }
    for i in 0..found.len()
        invariant
            keep == |w: FoundWindow| hidden(w.exstyle, w.alpha),
            restore@ == orphans(found@.take(i as int)),
    {
        proof {
            reveal(Seq::filter);
            let next = found@.take(i + 1);
            assert(next.drop_last() == found@.take(i as int));
            assert(next.last() == found@[i as int]);
            assert(orphans(next) == if keep(found@[i as int]) {
                orphans(found@.take(i as int)).push(found@[i as int].hwnd)
            } else {
                orphans(found@.take(i as int))
            });
        }
        if is_cloaked(found[i].exstyle, found[i].alpha) {
            restore.push(found[i].hwnd);
        }
    }
    assert(found@.take(found.len() as int) == found@);
    let line = if restore.len() > 0 {
        let mut text = "startup recovery: restored ".to_owned();
        text.append(to_numeral(restore.len() as u64, 10).as_str());
        text.append(" off-screen orphan window(s)");
        Some(text)
    } else {
        None
    };
    Recovery { restore, line }
}

/// A look that a window may have, going by what was found of it.
pub open spec fn looks_like(w: FoundWindow, look: Look) -> bool {
    w.exstyle == look.exstyle && w.alpha == Some(look.alpha)
}

/// A window as it is found before and after a recovery: one that was hidden has been shown
/// again, any other is as it was.
pub open spec fn recovered(before: FoundWindow, after: FoundWindow) -> bool {
    if hidden(before.exstyle, before.alpha) {
        exists|look: Look| #[trigger]
            looks_like(before, look) && after.exstyle == apply_all(uncloak_ops(), look).exstyle
    } else {
        after == before
    }
}

/// Where no window is hidden there is nothing to recover.
proof fn lemma_no_orphans(found: Seq<FoundWindow>)
    requires
        forall|i: int|
            0 <= i < found.len() ==> !hidden((#[trigger] found[i]).exstyle, found[i].alpha),
    ensures
        orphans(found).len() == 0,
    decreases found.len(),
{
    reveal(Seq::filter);
    if found.len() > 0 {
        let rest = found.drop_last();
        assert forall|i: int| 0 <= i < rest.len() implies !hidden(
            (#[trigger] rest[i]).exstyle,
            rest[i].alpha,
        ) by {
            assert(rest[i] == found[i]);
        }
        lemma_no_orphans(rest);
        assert(found.last() == found[found.len() - 1]);
    }
}

/// Recovery is needed once: after every window that it finds was shown, a second one restores
/// nothing and logs nothing.
pub proof fn law_second_recovery_finds_nothing(found: Seq<FoundWindow>, again: Seq<FoundWindow>)
    requires
        again.len() == found.len(),
        forall|i: int| 0 <= i < found.len() ==> recovered(#[trigger] found[i], again[i]),
    ensures
        orphans(again) == Seq::<usize>::empty(),
        recovery_line(again) is None,
{
    assert forall|i: int| 0 <= i < again.len() implies !hidden(
        (#[trigger] again[i]).exstyle,
        again[i].alpha,
    ) by {
        let before = found[i];
        assert(recovered(before, again[i]));
        if hidden(before.exstyle, before.alpha) {
            let look = choose|look: Look| #[trigger]
                looks_like(before, look) && again[i].exstyle == apply_all(
                    uncloak_ops(),
                    look,
                ).exstyle;
            law_uncloak_shows(look);
        }
    }
    lemma_no_orphans(again);
}

/// A hidden window in the list adds its handle to those to restore, behind those before it, and
/// any other window adds nothing.
pub proof fn law_orphans_one_by_one(found: Seq<FoundWindow>, w: FoundWindow)
    ensures
        orphans(Seq::empty()) == Seq::<usize>::empty(),
        w.exstyle & WS_EX_LAYERED != 0 && w.alpha is Some && w.alpha->0 < OPAQUE ==> orphans(
            found.push(w),
        ) == orphans(found).push(w.hwnd),
        !(w.exstyle & WS_EX_LAYERED != 0 && w.alpha is Some && w.alpha->0 < OPAQUE) ==> orphans(
            found.push(w),
        ) == orphans(found),
{
    reveal(Seq::filter);
    assert(found.push(w).drop_last() == found);
    assert(orphans(found.push(w)) == if hidden(w.exstyle, w.alpha) {
        orphans(found).push(w.hwnd)
    } else {
        orphans(found)
    });
}

/// Whether the window at a place of the list was left hidden.
pub open spec fn left_hidden(found: Seq<FoundWindow>, i: int) -> bool {
    &&& 0 <= i < found.len()
    &&& found[i].exstyle & WS_EX_LAYERED != 0
    &&& found[i].alpha is Some && found[i].alpha->0 < OPAQUE
}

/// How many windows of the list were left hidden.
pub open spec fn hidden_count(found: Seq<FoundWindow>) -> nat
    decreases found.len(),
{
    if found.len() == 0 {
        0
    } else {
        hidden_count(found.drop_last()) + if left_hidden(found, found.len() - 1) {
            1nat
        } else {
            0
        }
    }
}

/// Recovery is complete: a handle is restored exactly if some window of the list has it and is
/// layered and not fully opaque, whatever the other windows look like. As many are restored as
/// were left hidden, and the line gives their number.
pub proof fn law_recovery_is_complete(found: Seq<FoundWindow>, hwnd: usize)
    ensures
        orphans(found).contains(hwnd) <==> exists|i: int| #[trigger]
            left_hidden(found, i) && found[i].hwnd == hwnd,
        orphans(found).len() == hidden_count(found),
        hidden_count(found) == 0 ==> recovery_line(found) is None,
        hidden_count(found) > 0 ==> recovery_line(found) == Some(
            "startup recovery: restored "@ + numeral(hidden_count(found), 10)
                + " off-screen orphan window(s)"@,
        ),
    decreases found.len(),
{
    if found.len() == 0 {
        law_orphans_one_by_one(found, arbitrary());
        assert(found == Seq::<FoundWindow>::empty());
    } else {
        let rest = found.drop_last();
        let last = found.last();
        law_recovery_is_complete(rest, hwnd);
        law_orphans_one_by_one(rest, last);
        assert(rest.push(last) == found);
        vstd::seq_lib::lemma_seq_contains_after_push(orphans(rest), last.hwnd, hwnd);
        if orphans(rest).contains(hwnd) {
            let i = choose|i: int| #[trigger] left_hidden(rest, i) && rest[i].hwnd == hwnd;
            assert(left_hidden(found, i) && found[i].hwnd == hwnd);
        }
        if left_hidden(found, found.len() - 1) && last.hwnd == hwnd {
            assert(found[found.len() - 1] == last);
        }
        if exists|i: int| #[trigger] left_hidden(found, i) && found[i].hwnd == hwnd {
            let i = choose|i: int| #[trigger] left_hidden(found, i) && found[i].hwnd == hwnd;
            if i < rest.len() {
                assert(left_hidden(rest, i) && rest[i].hwnd == hwnd);
            }
        }
    }
}

} // verus!
