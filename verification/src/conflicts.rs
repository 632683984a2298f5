//! Other programs that fold Explorer windows into tabs. If one of them runs, both race for
//! each new window. Which of them the user wants off cannot be told from here, so finding
//! one is no reason to stop: it is worth a warning.

use vstd::prelude::*;

use crate::text::{
    before_nul, decode_utf16_lossy, eq_ignore_ascii_case, law_utf16_round_trip, lemma_before_nul,
    lemma_utf16_no_nul, same_but_for_case, same_text, trim_at_nul, utf16, utf16_text,
};

verus! {

/// <https://github.com/w4po/ExplorerTabUtility>
pub const EXPLORER_TAB_UTILITY: &'static str = "ExplorerTabUtility.exe";

/// <https://github.com/files-community/Files>
pub const FILES: &'static str = "Files.exe";

/// QTTabBar.
pub const QT_TAB_BAR: &'static str = "QTTabBar.exe";

/// Whether a file name is that of a known tool, in upper or lower case.
pub open spec fn conflicting(name: Seq<char>) -> bool {
    ||| same_but_for_case(name, EXPLORER_TAB_UTILITY@)
    ||| same_but_for_case(name, FILES@)
    ||| same_but_for_case(name, QT_TAB_BAR@)
}

/// Tell whether a file name is that of a known tool.
pub fn is_conflicting(name: &str) -> (r: bool)
    ensures
        r == conflicting(name@),
{
    eq_ignore_ascii_case(name, EXPLORER_TAB_UTILITY) || eq_ignore_ascii_case(name, FILES)
        || eq_ignore_ascii_case(name, QT_TAB_BAR)
}

/// The file name in a buffer that may end in zeros.
pub open spec fn exe_name(buffer: Seq<u16>) -> Seq<char> {
    utf16_text(before_nul(buffer))
}

/// Read the file name in a buffer.
pub fn read_exe_name(buffer: &[u16]) -> (r: String)
    ensures
        r@ == exe_name(buffer@),
{
    let used = trim_at_nul(buffer);
    decode_utf16_lossy(used.as_slice())
}

/// The names of known tools among the processes, each once, in the order in which they come.
pub open spec fn conflicts_among(names: Seq<Seq<char>>) -> Seq<Seq<char>>
    decreases names.len(),
{
    if names.len() == 0 {
        Seq::empty()
    } else {
        let found = conflicts_among(names.drop_last());
        if conflicting(names.last()) && !found.contains(names.last()) {
            found.push(names.last())
        } else {
            found
        }
    }
}

/// The file names in the buffers.
pub open spec fn exe_names(buffers: Seq<Vec<u16>>) -> Seq<Seq<char>> {
    Seq::new(buffers.len(), |i: int| exe_name(buffers[i]@))
}

/// What a list of texts says.
pub open spec fn names_of(v: Seq<String>) -> Seq<Seq<char>> {
    Seq::new(v.len(), |i: int| v[i]@)
}

/// Tell whether a list holds a text.
fn holds(list: &Vec<String>, name: &str) -> (r: bool)
    ensures
        r == names_of(list@).contains(name@),
{
    for i in 0..list.len()
        invariant
            forall|k: int| 0 <= k < i ==> names_of(list@)[k] != name@,
    {
        if same_text(list[i].as_str(), name) {
            assert(names_of(list@)[i as int] == name@);
            return true;
        }
    }
    false
}

/// Find known tools among the running processes, given the buffers that hold their file
/// names. There are no processes to look at if no snapshot of them could be taken.
pub fn detect_running(snapshot: &Option<Vec<Vec<u16>>>) -> (r: Vec<String>)
    ensures
        names_of(r@) == (match *snapshot {
            Some(buffers) => conflicts_among(exe_names(buffers@)),
            None => Seq::empty(),
        }),
{
    let mut found: Vec<String> = Vec::new();
    match snapshot {
        Some(buffers) => {
            assert(exe_names(buffers@).take(0) == Seq::<Seq<char>>::empty());
            for i in 0..buffers.len()
                invariant
                    names_of(found@) == conflicts_among(exe_names(buffers@).take(i as int)),
            {
                let ghost names = exe_names(buffers@);
                let ghost before = found@;
                proof {
                    assert(names.take(i + 1).drop_last() == names.take(i as int));
                    assert(names.take(i + 1).last() == exe_name(buffers@[i as int]@));
                }
                let name = read_exe_name(buffers[i].as_slice());
                if is_conflicting(name.as_str()) && !holds(&found, name.as_str()) {
                    let ghost text = name@;
                    found.push(name);
                    assert(names_of(found@) == names_of(before).push(text));
                }
            }
            assert(exe_names(buffers@).take(buffers.len() as int) == exe_names(buffers@));
        },
        None => {},
    }
    found
}

/// Every process with the name of a known tool is found, nothing else is, and no name is
/// found twice.
pub proof fn law_conflicts_are_found_once(names: Seq<Seq<char>>)
    ensures
        forall|name: Seq<char>| #[trigger]
            conflicts_among(names).contains(name) <==> names.contains(name) && conflicting(name),
        conflicts_among(names).no_duplicates(),
    decreases names.len(),
{
    if names.len() > 0 {
        let rest = names.drop_last();
        let last = names.last();
        law_conflicts_are_found_once(rest);
        let found = conflicts_among(rest);
        assert(names == rest.push(last));
        assert forall|name: Seq<char>| #[trigger]
            conflicts_among(names).contains(name) <==> names.contains(name) && conflicting(
                name,
            ) by {
            vstd::seq_lib::lemma_seq_contains_after_push(rest, last, name);
            vstd::seq_lib::lemma_seq_contains_after_push(found, last, name);
            assert(found.contains(name) <==> rest.contains(name) && conflicting(name));
        }
    }
}

/// The texts with a separator between them.
pub open spec fn joined(names: Seq<Seq<char>>) -> Seq<char>
    decreases names.len(),
{
    if names.len() == 0 {
        Seq::empty()
    } else if names.len() == 1 {
        names[0]
    } else {
        joined(names.drop_last()) + ", "@ + names.last()
    }
}

/// The warning about known tools, if there are any.
pub open spec fn warning_text(names: Seq<Seq<char>>) -> Option<Seq<char>> {
    if names.len() == 0 {
        None
    } else {
        Some("conflicting tools are running: "@ + joined(names))
    }
}

/// Put the known tools that were found into a line for the log.
pub fn warning(found: &Vec<String>) -> (r: Option<String>)
    ensures
        match r {
            Some(s) => warning_text(names_of(found@)) == Some(s@),
            None => warning_text(names_of(found@)) is None,
        },
{
    if found.len() == 0 {
        return None;
    }
    let mut list = found[0].clone();
    let ghost names = names_of(found@);
    assert(list@ == joined(names.take(1)));
    for i in 1..found.len()
        invariant
            names == names_of(found@),
            list@ == joined(names.take(i as int)),
    {
        list.append(", ");
        list.append(found[i].as_str());
        proof {
            assert(names.take(i + 1).drop_last() == names.take(i as int));
            assert(names.take(i + 1).last() == found@[i as int]@);
        }
    }
    assert(names.take(names.len() as int) == names);
    let mut line = "conflicting tools are running: ".to_owned();
    line.append(list.as_str());
    Some(line)
}

/// Each known tool counts under its own name, and a name counts exactly if it is one of theirs
/// but for the case of ASCII letters; so two names that differ only in that both count or
/// neither does.
pub proof fn law_known_tools_count_in_any_case(name: Seq<char>, other: Seq<char>)
    ensures
        conflicting("ExplorerTabUtility.exe"@),
        conflicting("Files.exe"@),
        conflicting("QTTabBar.exe"@),
        conflicting(name) <==> same_but_for_case(name, "ExplorerTabUtility.exe"@)
            || same_but_for_case(name, "Files.exe"@) || same_but_for_case(name, "QTTabBar.exe"@),
        same_but_for_case(name, other) ==> conflicting(name) == conflicting(other),
{
}

/// A file name is read up to the zero that ends it, whatever stands behind, or to the end of
/// the buffer.
pub proof fn law_exe_name_reads_back(name: Seq<char>, tail: Seq<u16>)
    requires
        !name.contains('\0'),
    ensures
        exe_name(utf16(name)) == name,
        exe_name(utf16(name).push(0) + tail) == name,
{
    lemma_utf16_no_nul(name);
    law_utf16_round_trip(name);
    lemma_before_nul(utf16(name), Seq::empty());
    assert(utf16(name) + Seq::<u16>::empty() == utf16(name));
    lemma_before_nul(utf16(name), seq![0u16] + tail);
    assert(utf16(name).push(0) + tail == utf16(name) + (seq![0u16] + tail));
}

/// The names come in the order in which they are first met: one more process changes nothing
/// of what was found before, and adds its name behind it exactly if it is that of a known tool
/// and was not found yet.
pub proof fn law_conflicts_keep_their_order(names: Seq<Seq<char>>, name: Seq<char>)
    ensures
        conflicts_among(Seq::empty()) == Seq::<Seq<char>>::empty(),
        conflicting(name) && !names.contains(name) ==> conflicts_among(names.push(name))
            == conflicts_among(names).push(name),
        !conflicting(name) || names.contains(name) ==> conflicts_among(names.push(name))
            == conflicts_among(names),
{
    law_conflicts_are_found_once(names);
    assert(names.push(name).drop_last() == names);
    assert(conflicts_among(names).contains(name) <==> names.contains(name) && conflicting(name));
}

/// The warning lists the names with a comma and a space between two of them; without names
/// there is none.
pub proof fn law_warning_lists_the_names(names: Seq<Seq<char>>, name: Seq<char>)
    ensures
        warning_text(Seq::empty()) is None,
        warning_text(seq![name]) == Some("conflicting tools are running: "@ + name),
        names.len() > 0 ==> warning_text(names) is Some && warning_text(names.push(name)) == Some(
            warning_text(names)->0 + ", "@ + name,
        ),
{
    reveal_with_fuel(joined, 2);
    assert(seq![name][0] == name);
    if names.len() > 0 {
        assert(names.push(name).drop_last() == names);
        let head = "conflicting tools are running: "@;
        assert(head + (joined(names) + ", "@ + name) == (head + joined(names)) + ", "@ + name);
    }
}

/// Every process of a snapshot has its name looked at.
pub proof fn law_every_process_is_looked_at(buffers: Seq<Vec<u16>>, name: Seq<char>)
    ensures
        exe_names(buffers).len() == buffers.len(),
        forall|i: int|
            0 <= i < buffers.len() ==> exe_names(buffers)[i] == exe_name((#[trigger] buffers[i])@),
        conflicts_among(exe_names(buffers)).contains(name) <==> conflicting(name) && exists|i: int|
            0 <= i < buffers.len() && exe_name((#[trigger] buffers[i])@) == name,
{
    let names = exe_names(buffers);
    law_conflicts_are_found_once(names);
    assert(conflicts_among(names).contains(name) <==> names.contains(name) && conflicting(name));
    if names.contains(name) {
        let i = choose|i: int| 0 <= i < names.len() && names[i] == name;
        assert(exe_name(buffers[i]@) == name);
    }
    if exists|i: int| 0 <= i < buffers.len() && exe_name((#[trigger] buffers[i])@) == name {
        let i = choose|i: int| 0 <= i < buffers.len() && exe_name((#[trigger] buffers[i])@) == name;
        assert(names[i] == name);
    }
}

/// A list of texts seen as values is the same list.
pub proof fn law_names_are_seen_as_they_are(v: Seq<String>)
    ensures
        names_of(v).len() == v.len(),
        forall|i: int| 0 <= i < v.len() ==> names_of(v)[i] == (#[trigger] v[i])@,
{
}

} // verus!
