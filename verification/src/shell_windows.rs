//! Explorer's list of shell windows, as a scan of it reports them.
//!
//! Each tab is an entry of its own, but all tabs of a window report the same top-level
//! window. New entries are appended, so the last entry of a host is its newest tab.

use vstd::prelude::*;

use crate::text::{address, numeral, signed_decimal, to_address, to_numeral, to_signed_decimal};
use crate::win_util::top_level_window;

verus! {

/// The result of one scan: for each entry the top-level window it belongs to, if that could
/// be found out; or nothing, where the list did not even report its length.
pub type Scan = Option<Vec<Option<usize>>>;

/// The entries of a scan; a scan that failed has none.
pub open spec fn scan_entries(scan: Scan) -> Seq<Option<usize>> {
    match scan {
        Some(v) => v@,
        None => Seq::empty(),
    }
}

/// The top-level window of an entry, given the window of its browser, if it has one, and
/// the root that the system reports for that window.
pub fn entry_top(hwnd: Option<usize>, root: usize) -> (r: Option<usize>)
    ensures
        r == (match hwnd {
            Some(h) => Some(
                if root == 0 {
                    h
                } else {
                    root
                },
            ),
            None => None,
        }),
{
    match hwnd {
        Some(h) => Some(top_level_window(h, root)),
        None => None,
    }
}

/// How many entries belong to `top`.
pub open spec fn entry_count(entries: Seq<Option<usize>>, top: usize) -> nat {
    entries.filter(|e: Option<usize>| e == Some(top)).len()
}

/// The place of the first entry that belongs to `top`.
pub open spec fn first_entry(entries: Seq<Option<usize>>, top: usize) -> Option<int>
    decreases entries.len(),
{
    if entries.len() == 0 {
        None
    } else {
        match first_entry(entries.drop_last(), top) {
            Some(i) => Some(i),
            None => if entries.last() == Some(top) {
                Some(entries.len() - 1)
            } else {
                None
            },
        }
    }
}

/// The place of the last entry that belongs to `top`.
pub open spec fn last_entry(entries: Seq<Option<usize>>, top: usize) -> Option<int>
    decreases entries.len(),
{
    if entries.len() == 0 {
        None
    } else if entries.last() == Some(top) {
        Some(entries.len() - 1)
    } else {
        last_entry(entries.drop_last(), top)
    }
}

/// The first entry belongs to the window, no entry before it does, and there is none only
/// where no entry belongs to it.
pub proof fn law_first_entry(entries: Seq<Option<usize>>, top: usize)
    ensures
        match first_entry(entries, top) {
            Some(i) => 0 <= i < entries.len() && entries[i] == Some(top) && forall|j: int|
                0 <= j < i ==> #[trigger] entries[j] != Some(top),
            None => forall|j: int| 0 <= j < entries.len() ==> #[trigger] entries[j] != Some(top),
        },
    decreases entries.len(),
{
    if entries.len() > 0 {
        let rest = entries.drop_last();
        law_first_entry(rest, top);
        assert forall|j: int| 0 <= j < rest.len() implies #[trigger] entries[j] == rest[j] by {}
    }
}

/// The last entry belongs to the window, no entry behind it does, and there is none only
/// where no entry belongs to it.
pub proof fn law_last_entry(entries: Seq<Option<usize>>, top: usize)
    ensures
        match last_entry(entries, top) {
            Some(i) => 0 <= i < entries.len() && entries[i] == Some(top) && forall|j: int|
                i < j < entries.len() ==> #[trigger] entries[j] != Some(top),
            None => forall|j: int| 0 <= j < entries.len() ==> #[trigger] entries[j] != Some(top),
        },
    decreases entries.len(),
{
    if entries.len() > 0 {
        let rest = entries.drop_last();
        law_last_entry(rest, top);
        assert forall|j: int| 0 <= j < rest.len() implies #[trigger] entries[j] == rest[j] by {}
    }
}

/// When an entry of a window is appended its count grows by one, and the last entry is the
/// one that was appended: the newest tab of a host is found by its place.
pub proof fn law_new_entry_is_last(entries: Seq<Option<usize>>, top: usize)
    ensures
        entry_count(entries.push(Some(top)), top) == entry_count(entries, top) + 1,
        last_entry(entries.push(Some(top)), top) == Some(entries.len() as int),
{
    reveal(Seq::filter);
    assert(entries.push(Some(top)).drop_last() == entries);
}

/// Count the entries that belong to a window.
pub fn count_entries_for_top(scan: &Scan, top: usize) -> (r: usize)
    ensures
        r == entry_count(scan_entries(*scan), top),
{
    match scan {
        None => {
            assert(entry_count(Seq::empty(), top) == 0) by {
                reveal(Seq::filter);
            }
            0
        },
        Some(v) => {
            let mut n: usize = 0;
            assert(entry_count(v@.take(0), top) == 0) by {
                reveal(Seq::filter);
            }
            for i in 0..v.len()
                invariant
                    n == entry_count(v@.take(i as int), top),
                    n <= i,
            {
                proof {
                    reveal(Seq::filter);
                    assert(v@.take(i + 1).drop_last() == v@.take(i as int));
                }
                if let Some(t) = v[i] {
                    if t == top {
                        n = n + 1;
                    }
                }
            }
            assert(v@.take(v.len() as int) == v@);
            n
        },
    }
}

/// Find the first entry that belongs to a window.
pub fn find_first_wb_for_top(scan: &Scan, top: usize) -> (r: Option<usize>)
    ensures
        match (r, first_entry(scan_entries(*scan), top)) {
            (Some(i), Some(j)) => i == j,
            (None, None) => true,
            _ => false,
        },
        r matches Some(i) ==> scan_entries(*scan)[i as int] == Some(top),
{
    proof {
        law_first_entry(scan_entries(*scan), top);
    }
    match scan {
        None => None,
        Some(v) => {
            for i in 0..v.len()
                invariant
                    forall|j: int| 0 <= j < i ==> #[trigger] v@[j] != Some(top),
                    scan_entries(*scan) == v@,
            {
                if let Some(t) = v[i] {
                    if t == top {
                        proof {
                            law_first_entry(v@, top);
                        }
                        return Some(i);
                    }
                }
            }
            None
        },
    }
}

/// Find the last entry that belongs to a window.
pub fn find_last_wb_for_top(scan: &Scan, top: usize) -> (r: Option<usize>)
    ensures
        match (r, last_entry(scan_entries(*scan), top)) {
            (Some(i), Some(j)) => i == j,
            (None, None) => true,
            _ => false,
        },
        r matches Some(i) ==> scan_entries(*scan)[i as int] == Some(top),
{
    proof {
        law_last_entry(scan_entries(*scan), top);
    }
    match scan {
        None => None,
        Some(v) => {
            let mut i: usize = v.len();
            while i > 0
                invariant
                    i <= v.len(),
                    forall|j: int| i <= j < v.len() ==> #[trigger] v@[j] != Some(top),
                    scan_entries(*scan) == v@,
                decreases i,
            {
                i = i - 1;
                if let Some(t) = v[i] {
                    if t == top {
                        proof {
                            law_last_entry(v@, top);
                        }
                        return Some(i);
                    }
                }
            }
            None
        },
    }
}

/// One entry as the diagnostic dump shows it. Error texts come from the system.
pub enum EntryDump {
    /// The entry could not be fetched.
    ItemError(String),
    /// It is no browser.
    NotBrowser,
    /// It is a browser whose window could not be read.
    WindowError(String),
    /// A browser, with its window, the class of that window and its top-level window.
    Browser { hwnd: usize, class: Option<String>, top: usize },
}

/// The whole list as the diagnostic dump shows it.
pub enum ListDump {
    /// The length of the list could not be read.
    CountError(String),
    /// The length that the list reports, and its entries.
    Entries(i32, Vec<EntryDump>),
}

/// What the dump says of one entry.
pub open spec fn entry_text(e: EntryDump) -> Seq<char> {
    match e {
        EntryDump::ItemError(t) => "(Item err "@ + t@ + ")"@,
        EntryDump::NotBrowser => "(not IWebBrowser2)"@,
        EntryDump::WindowError(t) => "(HWND err "@ + t@ + ")"@,
        EntryDump::Browser { hwnd, class, top } => "hwnd="@ + address(hwnd) + "("@ + (match class {
            Some(c) => c@,
            None => Seq::empty(),
        }) + ") top="@ + address(top),
    }
}

/// The line of the dump for the entry at place `i`.
pub open spec fn entry_line(i: nat, e: EntryDump) -> Seq<char> {
    "  ["@ + numeral(i, 10) + "] "@ + entry_text(e)
}

/// The lines of the dump.
pub open spec fn dump_lines(label: Seq<char>, dump: ListDump) -> Seq<Seq<char>> {
    match dump {
        ListDump::CountError(t) => seq!["snapshot["@ + label + "]: Count err: "@ + t@],
        ListDump::Entries(count, entries) => seq![
            "snapshot["@ + label + "]: count="@ + signed_decimal(count as int),
        ] + Seq::new(entries@.len(), |i: int| entry_line(i as nat, entries@[i])),
    }
}

/// The texts of a list of strings.
pub open spec fn texts(lines: Seq<String>) -> Seq<Seq<char>> {
    lines.map_values(|s: String| s@)
}

/// Write what the dump says of one entry.
fn describe_entry(e: &EntryDump) -> (r: String)
    ensures
        r@ == entry_text(*e),
{
    match e {
        EntryDump::ItemError(t) => {
            let mut s = "(Item err ".to_owned();
            s.append(t.as_str());
            s.append(")");
            s
        },
        EntryDump::NotBrowser => "(not IWebBrowser2)".to_owned(),
        EntryDump::WindowError(t) => {
            let mut s = "(HWND err ".to_owned();
            s.append(t.as_str());
            s.append(")");
            s
        },
        EntryDump::Browser { hwnd, class, top } => {
            let mut s = "hwnd=".to_owned();
            s.append(to_address(*hwnd).as_str());
            s.append("(");
            match class {
                Some(c) => {
                    s.append(c.as_str());
                },
                None => {
                    assert(s@ + Seq::<char>::empty() == s@);
                },
            }
            s.append(") top=");
            s.append(to_address(*top).as_str());
            s
        },
    }
}

/// The lines that dump the list to the log, under a label. Only failures ask for them.
pub fn log_shell_windows_snapshot(label: &str, dump: &ListDump) -> (r: Vec<String>)
    ensures
        texts(r@) == dump_lines(label@, *dump),
{
    let mut head = "snapshot[".to_owned();
    head.append(label);
    let mut out: Vec<String> = Vec::new();
    match dump {
        ListDump::CountError(t) => {
            head.append("]: Count err: ");
            head.append(t.as_str());
            out.push(head);
            assert(texts(out@) == dump_lines(label@, *dump));
        },
        ListDump::Entries(count, entries) => {
            head.append("]: count=");
            head.append(to_signed_decimal(*count).as_str());
            out.push(head);
            let ghost all = dump_lines(label@, *dump);
            assert(texts(out@) == all.take(1));
            for i in 0..entries.len()
                invariant
                    all == dump_lines(label@, *dump),
                    *dump == ListDump::Entries(*count, *entries),
                    texts(out@) == all.take(i + 1),
            {
                let mut line = "  [".to_owned();
                line.append(to_numeral(i as u64, 10).as_str());
                line.append("] ");
                line.append(describe_entry(&entries[i]).as_str());
                let ghost before = out@;
                out.push(line);
                assert(all[i + 1] == line@);
                assert(texts(out@) == texts(before).push(line@));
                assert(texts(out@) == all.take(i + 2));
            }
            assert(all.take(entries.len() + 1) == all);
        },
    }
    out
}

/// The count of a window's entries grows with each entry of its own and with no other.
pub proof fn law_entries_are_counted_one_by_one(
    entries: Seq<Option<usize>>,
    e: Option<usize>,
    top: usize,
)
    ensures
        entry_count(Seq::empty(), top) == 0,
        e == Some(top) ==> entry_count(entries.push(e), top) == entry_count(entries, top) + 1,
        e != Some(top) ==> entry_count(entries.push(e), top) == entry_count(entries, top),
{
    reveal(Seq::filter);
    assert(entries.push(e).drop_last() == entries);
}

/// A scan that failed lists nothing; one that did not lists what it gave.
pub proof fn law_scan_lists_its_entries(v: Vec<Option<usize>>)
    ensures
        scan_entries(None).len() == 0,
        scan_entries(Some(v)) == v@,
{
}

/// The dump has one line for the list, and one for each entry with its place and what is known
/// of it; a list without a length has the one line.
pub proof fn law_dump_describes_every_entry(
    label: Seq<char>,
    error: String,
    count: i32,
    entries: Vec<EntryDump>,
    i: int,
)
    ensures
        dump_lines(label, ListDump::CountError(error)) == seq![
            "snapshot["@ + label + "]: Count err: "@ + error@,
        ],
        ({
            let lines = dump_lines(label, ListDump::Entries(count, entries));
            let place = "  ["@ + numeral(i as nat, 10) + "] "@;
            &&& lines.len() == entries@.len() + 1
            &&& count >= 0 ==> lines[0] == "snapshot["@ + label + "]: count="@ + numeral(
                count as nat,
                10,
            )
            &&& count < 0 ==> lines[0] == "snapshot["@ + label + "]: count="@ + ("-"@ + numeral(
                (-count) as nat,
                10,
            ))
            &&& 0 <= i < entries@.len() ==> lines[i + 1] == place + match entries@[i] {
                EntryDump::ItemError(t) => "(Item err "@ + t@ + ")"@,
                EntryDump::NotBrowser => "(not IWebBrowser2)"@,
                EntryDump::WindowError(t) => "(HWND err "@ + t@ + ")"@,
                EntryDump::Browser { hwnd, class: Some(c), top } => "hwnd="@ + ("0x"@ + numeral(
                    hwnd as nat,
                    16,
                )) + "("@ + c@ + ") top="@ + ("0x"@ + numeral(top as nat, 16)),
                EntryDump::Browser { hwnd, class: None, top } => "hwnd="@ + ("0x"@ + numeral(
                    hwnd as nat,
                    16,
                )) + "("@ + Seq::empty() + ") top="@ + ("0x"@ + numeral(top as nat, 16)),
            }
        }),
{
}

/// A list of lines seen as values is the same list.
pub proof fn law_lines_are_seen_as_they_are(lines: Seq<String>)
    ensures
        texts(lines).len() == lines.len(),
        forall|i: int| 0 <= i < lines.len() ==> texts(lines)[i] == (#[trigger] lines[i])@,
{
}

} // verus!
