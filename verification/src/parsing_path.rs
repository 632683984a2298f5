//! The parsing path of the folder that a window shows, such as
//! `::{645FF040-5081-101B-9F08-00AA002F954E}` for the Recycle Bin.
//!
//! Virtual folders have no location URL, but a navigation accepts their parsing path. The way
//! to it leads from the window's browser over its services, the shell browser, its view and
//! the folder of the view to an item list, and from there to a name. The item list and the
//! name are memory that the system hands out; both have to be freed.

use vstd::prelude::*;

use crate::text::{
    decode_utf16, is_utf16, law_is_utf16, law_utf16_round_trip, utf16, utf16_text,
};

verus! {

/// A call on the way.
#[derive(PartialEq, Eq, Structural, Clone, Copy)]
pub enum PathCall {
    /// Get the services of the browser.
    ServiceProvider,
    /// Get the top-level shell browser from the services.
    ShellBrowser,
    /// Get the active view of the shell browser.
    ActiveView,
    /// See the view as one of a folder.
    FolderView,
    /// Get the folder of the view.
    Folder,
    /// Get the item list of the folder, to be freed.
    ItemList,
    /// Get the parsing name of the item list, to be freed.
    ParsingName,
    /// Free the item list.
    FreeItemList,
    /// Read the name: [`PathReply::Name`].
    ReadName,
    /// Free the name.
    FreeName,
}

/// The reply to a call.
pub enum PathReply {
    Done,
    Failed,
    /// The code units of the name.
    Name(Vec<u16>),
}

/// Where the search for the path stands.
pub enum PathStage {
    ServiceProvider,
    ShellBrowser,
    ActiveView,
    FolderView,
    Folder,
    ItemList,
    ParsingName,
    /// Free the item list; whether there is a name was found out before.
    FreeItemList(bool),
    ReadName,
    /// Free the name; the path is known.
    FreeName(Option<String>),
    Finished(Option<String>),
}

/// [`PathStage`] as a value.
pub enum PathStageView {
    ServiceProvider,
    ShellBrowser,
    ActiveView,
    FolderView,
    Folder,
    ItemList,
    ParsingName,
    FreeItemList(bool),
    ReadName,
    FreeName(Option<Seq<char>>),
    Finished(Option<Seq<char>>),
}

/// What an optional text says.
pub open spec fn opt_text(t: Option<String>) -> Option<Seq<char>> {
    match t {
        Some(s) => Some(s@),
        None => None,
    }
}

impl View for PathStage {
    type V = PathStageView;

    open spec fn view(&self) -> PathStageView {
        match self {
            PathStage::ServiceProvider => PathStageView::ServiceProvider,
            PathStage::ShellBrowser => PathStageView::ShellBrowser,
            PathStage::ActiveView => PathStageView::ActiveView,
            PathStage::FolderView => PathStageView::FolderView,
            PathStage::Folder => PathStageView::Folder,
            PathStage::ItemList => PathStageView::ItemList,
            PathStage::ParsingName => PathStageView::ParsingName,
            PathStage::FreeItemList(named) => PathStageView::FreeItemList(*named),
            PathStage::ReadName => PathStageView::ReadName,
            PathStage::FreeName(path) => PathStageView::FreeName(opt_text(*path)),
            PathStage::Finished(path) => PathStageView::Finished(opt_text(*path)),
        }
    }
}

/// The path that a name gives: none if it is empty or no text.
pub open spec fn path_of_name(units: Seq<u16>) -> Option<Seq<char>> {
    if is_utf16(units) && utf16_text(units).len() > 0 {
        Some(utf16_text(units))
    } else {
        None
    }
}

/// Read a path out of a name.
pub fn read_name(units: &[u16]) -> (r: Option<String>)
    ensures
        opt_text(r) == path_of_name(units@),
{
    match decode_utf16(units) {
        Some(text) => if text.as_str().unicode_len() > 0 {
            Some(text)
        } else {
            None
        },
        None => None,
    }
}

impl PathStageView {
    /// The call to make next.
    pub open spec fn call(self) -> Option<PathCall> {
        match self {
            PathStageView::ServiceProvider => Some(PathCall::ServiceProvider),
            PathStageView::ShellBrowser => Some(PathCall::ShellBrowser),
            PathStageView::ActiveView => Some(PathCall::ActiveView),
            PathStageView::FolderView => Some(PathCall::FolderView),
            PathStageView::Folder => Some(PathCall::Folder),
            PathStageView::ItemList => Some(PathCall::ItemList),
            PathStageView::ParsingName => Some(PathCall::ParsingName),
            PathStageView::FreeItemList(_) => Some(PathCall::FreeItemList),
            PathStageView::ReadName => Some(PathCall::ReadName),
            PathStageView::FreeName(_) => Some(PathCall::FreeName),
            PathStageView::Finished(_) => None,
        }
    }

    /// Where a link of the chain leads: on, or to the end without a path.
    pub open spec fn link(self, reply: PathReply, onward: PathStageView) -> PathStageView {
        match reply {
            PathReply::Done => onward,
            PathReply::Failed => PathStageView::Finished(None),
            PathReply::Name(_) => self,
        }
    }

    /// Where the reply leads. A reply to some other call leaves the stage as it is.
    pub open spec fn next(self, reply: PathReply) -> PathStageView {
        match self {
            PathStageView::ServiceProvider => self.link(reply, PathStageView::ShellBrowser),
            PathStageView::ShellBrowser => self.link(reply, PathStageView::ActiveView),
            PathStageView::ActiveView => self.link(reply, PathStageView::FolderView),
            PathStageView::FolderView => self.link(reply, PathStageView::Folder),
            PathStageView::Folder => self.link(reply, PathStageView::ItemList),
            PathStageView::ItemList => self.link(reply, PathStageView::ParsingName),
            // The item list is freed with or without a name.
            PathStageView::ParsingName => match reply {
                PathReply::Done => PathStageView::FreeItemList(true),
                PathReply::Failed => PathStageView::FreeItemList(false),
                PathReply::Name(_) => self,
            },
            PathStageView::FreeItemList(named) => if named {
                PathStageView::ReadName
            } else {
                PathStageView::Finished(None)
            },
            PathStageView::ReadName => match reply {
                PathReply::Name(units) => PathStageView::FreeName(path_of_name(units@)),
                _ => self,
            },
            PathStageView::FreeName(path) => PathStageView::Finished(path),
            PathStageView::Finished(_) => self,
        }
    }

    /// Where several replies lead.
    pub open spec fn after(self, replies: Seq<PathReply>) -> PathStageView
        decreases replies.len(),
    {
        if replies.len() == 0 {
            self
        } else {
            self.next(replies[0]).after(replies.drop_first())
        }
    }

    /// How many item lists are to be freed at this stage.
    pub open spec fn item_lists(self) -> int {
        if self is ParsingName || self is FreeItemList {
            1
        } else {
            0
        }
    }

    /// How many names are to be freed at this stage.
    pub open spec fn names(self) -> int {
        if self == PathStageView::FreeItemList(true) || self is ReadName || self is FreeName {
            1
        } else {
            0
        }
    }

    /// How many calls are left at most.
    pub open spec fn rank(self) -> nat {
        match self {
            PathStageView::ServiceProvider => 10,
            PathStageView::ShellBrowser => 9,
            PathStageView::ActiveView => 8,
            PathStageView::FolderView => 7,
            PathStageView::Folder => 6,
            PathStageView::ItemList => 5,
            PathStageView::ParsingName => 4,
            PathStageView::FreeItemList(_) => 3,
            PathStageView::ReadName => 2,
            PathStageView::FreeName(_) => 1,
            PathStageView::Finished(_) => 0,
        }
    }

    /// How many more item lists and names were handed out than freed on the way.
    pub open spec fn held(self, replies: Seq<PathReply>) -> (int, int)
        decreases replies.len(),
    {
        if replies.len() == 0 {
            (0, 0)
        } else {
            let now = match self.call() {
                Some(call) => memory_change(call, replies[0]),
                None => (0, 0),
            };
            let rest = self.next(replies[0]).held(replies.drop_first());
            (now.0 + rest.0, now.1 + rest.1)
        }
    }
}

/// What a call changes in the number of item lists and names to be freed.
pub open spec fn memory_change(call: PathCall, reply: PathReply) -> (int, int) {
    match call {
        PathCall::ItemList => if reply is Done {
            (1, 0)
        } else {
            (0, 0)
        },
        PathCall::ParsingName => if reply is Done {
            (0, 1)
        } else {
            (0, 0)
        },
        PathCall::FreeItemList => (-1, 0),
        PathCall::FreeName => (0, -1),
        _ => (0, 0),
    }
}

/// Resolve the parsing path of the folder that a window shows.
pub fn parsing_path_via_pidl() -> (r: PathStage)
    ensures
        r@ == PathStageView::ServiceProvider,
{
    PathStage::ServiceProvider
}

/// Take a link of the chain.
fn follow(stage: PathStage, reply: PathReply, onward: PathStage) -> (r: PathStage)
    ensures
        r@ == stage@.link(reply, onward@),
{
    match reply {
        PathReply::Done => onward,
        PathReply::Failed => PathStage::Finished(None),
        PathReply::Name(_) => stage,
    }
}

impl PathStage {
    /// The call to make next; none once the search is over.
    pub fn call(&self) -> (r: Option<PathCall>)
        ensures
            r == self@.call(),
    {
        match self {
            PathStage::ServiceProvider => Some(PathCall::ServiceProvider),
            PathStage::ShellBrowser => Some(PathCall::ShellBrowser),
            PathStage::ActiveView => Some(PathCall::ActiveView),
            PathStage::FolderView => Some(PathCall::FolderView),
            PathStage::Folder => Some(PathCall::Folder),
            PathStage::ItemList => Some(PathCall::ItemList),
            PathStage::ParsingName => Some(PathCall::ParsingName),
            PathStage::FreeItemList(_) => Some(PathCall::FreeItemList),
            PathStage::ReadName => Some(PathCall::ReadName),
            PathStage::FreeName(_) => Some(PathCall::FreeName),
            PathStage::Finished(_) => None,
        }
    }

    /// Take the reply to the call.
    pub fn on_reply(self, reply: PathReply) -> (r: PathStage)
        ensures
            r@ == self@.next(reply),
    {
        match self {
            PathStage::ServiceProvider => follow(
                PathStage::ServiceProvider,
                reply,
                PathStage::ShellBrowser,
            ),
            PathStage::ShellBrowser => follow(
                PathStage::ShellBrowser,
                reply,
                PathStage::ActiveView,
            ),
            PathStage::ActiveView => follow(PathStage::ActiveView, reply, PathStage::FolderView),
            PathStage::FolderView => follow(PathStage::FolderView, reply, PathStage::Folder),
            PathStage::Folder => follow(PathStage::Folder, reply, PathStage::ItemList),
            PathStage::ItemList => follow(PathStage::ItemList, reply, PathStage::ParsingName),
            PathStage::ParsingName => match reply {
                PathReply::Done => PathStage::FreeItemList(true),
                PathReply::Failed => PathStage::FreeItemList(false),
                PathReply::Name(_) => PathStage::ParsingName,
            },
            PathStage::FreeItemList(named) => if named {
                PathStage::ReadName
            } else {
                PathStage::Finished(None)
            },
            PathStage::ReadName => match reply {
                PathReply::Name(units) => PathStage::FreeName(read_name(units.as_slice())),
                _ => PathStage::ReadName,
            },
            PathStage::FreeName(path) => PathStage::Finished(path),
            PathStage::Finished(path) => PathStage::Finished(path),
        }
    }
}

/// The number of things held follows from where the search stands.
proof fn lemma_held(stage: PathStageView, replies: Seq<PathReply>)
    ensures
        stage.held(replies).0 == stage.after(replies).item_lists() - stage.item_lists(),
        stage.held(replies).1 == stage.after(replies).names() - stage.names(),
    decreases replies.len(),
{
    if replies.len() > 0 {
        lemma_held(stage.next(replies[0]), replies.drop_first());
    }
}

/// Whatever fails on the way, the item list and the name are freed exactly if they were handed
/// out, and never twice.
pub proof fn law_memory_is_freed(replies: Seq<PathReply>)
    ensures
        ({
            let start = PathStageView::ServiceProvider;
            let (item_lists, names) = start.held(replies);
            &&& 0 <= item_lists <= 1
            &&& 0 <= names <= 1
            &&& start.after(replies) is Finished ==> item_lists == 0 && names == 0
        }),
{
    lemma_held(PathStageView::ServiceProvider, replies);
}

/// Each link that is followed brings the search closer to its end: it takes at most ten calls.
pub proof fn law_search_ends(stage: PathStageView, reply: PathReply)
    requires
        stage.call() is Some,
        stage is ReadName <==> reply is Name,
    ensures
        stage.next(reply).rank() < stage.rank() <= 10,
{
}

/// If every link holds, the path is the name that the last one gives.
pub proof fn law_path_is_the_name(replies: Seq<PathReply>)
    requires
        replies.len() == 10,
        forall|i: int| 0 <= i < 10 && i != 8 ==> #[trigger] replies[i] is Done,
        replies[8] is Name,
    ensures
        PathStageView::ServiceProvider.after(replies) == PathStageView::Finished(
            path_of_name(replies[8]->Name_0@),
        ),
{
    reveal_with_fuel(PathStageView::after, 11);
    let r1 = replies.drop_first();
    let r2 = r1.drop_first();
    let r3 = r2.drop_first();
    let r4 = r3.drop_first();
    let r5 = r4.drop_first();
    let r6 = r5.drop_first();
    let r7 = r6.drop_first();
    let r8 = r7.drop_first();
    let r9 = r8.drop_first();
    assert(r1[0] == replies[1] && r2[0] == replies[2] && r3[0] == replies[3]);
    assert(r4[0] == replies[4] && r5[0] == replies[5] && r6[0] == replies[6]);
    assert(r7[0] == replies[7] && r8[0] == replies[8] && r9[0] == replies[9]);
}

/// There is no path if a link fails.
pub proof fn law_no_path_without_a_link(stage: PathStageView, replies: Seq<PathReply>)
    requires
        stage.rank() >= 4,
    ensures
        stage.next(PathReply::Failed).after(replies) matches PathStageView::Finished(path)
            ==> path is None,
{
    if stage is ParsingName {
        if replies.len() > 0 {
            lemma_over(replies.drop_first());
        }
    } else {
        lemma_over(replies);
    }
}

/// A search that ended without a path stays that way.
proof fn lemma_over(replies: Seq<PathReply>)
    ensures
        PathStageView::Finished(None).after(replies) == PathStageView::Finished(None),
    decreases replies.len(),
{
    if replies.len() > 0 {
        lemma_over(replies.drop_first());
    }
}

/// A name gives a path exactly if it encodes a text that is not empty, and the path is that
/// text.
pub proof fn law_path_is_the_encoded_text(units: Seq<u16>, text: Seq<char>)
    ensures
        text.len() > 0 ==> path_of_name(utf16(text)) == Some(text),
        path_of_name(units) == Some(text) ==> text.len() > 0 && utf16(text) == units,
        path_of_name(units) is None ==> units.len() == 0 || utf16(utf16_text(units)) != units,
{
    law_utf16_round_trip(text);
    law_is_utf16(units);
    if path_of_name(units) is None && units.len() > 0 && utf16(utf16_text(units)) =~= units {
        assert(utf16_text(units).len() == 0);
        assert(utf16(utf16_text(units)) =~= Seq::<u16>::empty());
    }
}

/// The links are followed in this order, each call being made once its predecessor succeeded.
/// The item list is freed right after the name was asked for, with or without one, and the name
/// right after it was read; without a name there is none to read.
pub proof fn law_links_follow_each_other(reply: PathReply, units: Vec<u16>)
    ensures
        PathStageView::ServiceProvider.call() == Some(PathCall::ServiceProvider),
        PathStageView::ServiceProvider.next(PathReply::Done).call() == Some(PathCall::ShellBrowser),
        PathStageView::ShellBrowser.next(PathReply::Done).call() == Some(PathCall::ActiveView),
        PathStageView::ActiveView.next(PathReply::Done).call() == Some(PathCall::FolderView),
        PathStageView::FolderView.next(PathReply::Done).call() == Some(PathCall::Folder),
        PathStageView::Folder.next(PathReply::Done).call() == Some(PathCall::ItemList),
        PathStageView::ItemList.next(PathReply::Done).call() == Some(PathCall::ParsingName),
        reply is Done || reply is Failed ==> {
            let freeing = PathStageView::ParsingName.next(reply);
            &&& freeing.call() == Some(PathCall::FreeItemList)
            &&& reply is Done ==> freeing.next(PathReply::Done).call() == Some(PathCall::ReadName)
            &&& reply is Failed ==> freeing.next(PathReply::Done) == PathStageView::Finished(None)
        },
        ({
            let freeing = PathStageView::ReadName.next(PathReply::Name(units));
            &&& freeing.call() == Some(PathCall::FreeName)
            &&& freeing.next(PathReply::Done) == PathStageView::Finished(path_of_name(units@))
        }),
{
}

/// A path seen as a value is the same path.
pub proof fn law_path_is_seen_as_it_is(path: String)
    ensures
        opt_text(Some(path)) == Some(path@),
        opt_text(None) is None,
        PathStage::Finished(Some(path))@ == PathStageView::Finished(Some(path@)),
        PathStage::Finished(None)@ == PathStageView::Finished(None),
{
}

} // verus!
