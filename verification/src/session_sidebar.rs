//! The bar at the left of a conversation: folders and earlier conversations.

use vstd::prelude::*;
use vstd::string::*;

use crate::lists;
use crate::ranking;
use crate::ranking::{KeyModel, RankKey};
use crate::release_cache;
use crate::text;

verus! {

/// What is known of a conversation.
pub struct ThreadMetadata {
    /// `None` for one that was not sent yet.
    pub session_id: Option<String>,
    pub title: String,
    /// When it was changed last.
    pub updated_at: i128,
    /// When the user did something in it last.
    pub interacted_at: Option<i128>,
}

/// A conversation in the list.
pub struct SessionEntry {
    pub session_id: Option<String>,
    pub title: String,
}

/// The bar: the folders of its window, or `None` where the window is gone.
pub struct VibedevSessionSidebar {
    pub folders: Option<Vec<Folder>>,
}

/// What a conversation is listed by.
pub open spec fn listed_by(m: ThreadMetadata) -> KeyModel {
    KeyModel {
        time: match m.interacted_at {
            Some(t) => t as int,
            None => m.updated_at as int,
        },
        name: Seq::empty(),
    }
}

/// What conversations are listed by.
pub open spec fn keys_of(v: Seq<ThreadMetadata>) -> Seq<KeyModel> {
    Seq::new(v.len(), |i: int| listed_by(v[i]))
}

/// The entry is that of the conversation.
pub open spec fn entry_of(e: SessionEntry, m: ThreadMetadata) -> bool {
    lists::text_of(e.session_id) == lists::text_of(m.session_id) && e.title@ == m.title@
}

/// The entries list the conversations, the one that was used last first; those that
/// were used at one time keep their order.
pub open spec fn lists_threads(entries: Seq<SessionEntry>, v: Seq<ThreadMetadata>) -> bool {
    &&& entries.len() == v.len()
    &&& forall|i: int|
        0 <= i < v.len() ==> entry_of(
            #[trigger] entries[i],
            v[ranking::ranked(keys_of(v))[i]],
        )
}

fn keys(v: &Vec<ThreadMetadata>) -> (r: Vec<RankKey>)
    ensures
        ranking::models(r@) == keys_of(v@),
{
    let mut r: Vec<RankKey> = Vec::new();
    let mut i: usize = 0;
    while i < v.len()
        invariant
            i <= v.len(),
            r.len() == i,
            forall|x: int| 0 <= x < i ==> (#[trigger] r[x])@ == listed_by(v[x]),
        decreases v.len() - i,
    {
        let time: i128 = match v[i].interacted_at {
            Some(t) => t,
            None => v[i].updated_at,
        };
        let key = RankKey { time, name: Vec::new() };
        assert(key.name@ =~= Seq::empty());
        r.push(key);
        i += 1;
    }
    assert(ranking::models(r@) =~= keys_of(v@));
    r
}

/// The conversations of the bar: none where the window is gone; those of its folders
/// where it has any, else all.
pub open spec fn conversations(
    bar: VibedevSessionSidebar,
    for_folders: Seq<ThreadMetadata>,
    every: Seq<ThreadMetadata>,
) -> Seq<ThreadMetadata> {
    match bar.folders {
        None => Seq::empty(),
        Some(folders) => if folders@.len() > 0 {
            for_folders
        } else {
            every
        },
    }
}

fn list_threads(v: &Vec<ThreadMetadata>) -> (r: Vec<SessionEntry>)
    ensures
        lists_threads(r@, v@),
{
    let k = keys(v);
    let order = ranking::rank(&k);
    proof {
        ranking::law_ranking_is_a_sorted_permutation(keys_of(v@));
        assert(ranking::positions(order@).len() == order.len());
    }
    let ghost o = ranking::ranked(keys_of(v@));
    let mut r: Vec<SessionEntry> = Vec::new();
    let mut i: usize = 0;
    while i < order.len()
        invariant
            i <= order.len(),
            order.len() == v.len(),
            o == ranking::positions(order@),
            o.len() == v.len(),
            forall|x: int| 0 <= x < v.len() ==> 0 <= #[trigger] o[x] < v.len(),
            r.len() == i,
            forall|x: int| 0 <= x < i ==> entry_of(#[trigger] r[x], v[o[x]]),
        decreases order.len() - i,
    {
        assert(o[i as int] == order[i as int]);
        let m = &v[order[i]];
        r.push(
            SessionEntry { session_id: lists::copy_text(&m.session_id), title: m.title.clone() },
        );
        i += 1;
    }
    r
}

impl VibedevSessionSidebar {
    /// The bar of a window with these folders; `None` where the window is gone.
    pub fn new(folders: Option<Vec<Folder>>) -> (r: Self)
        ensures
            r.folders == folders,
    {
        VibedevSessionSidebar { folders }
    }

    /// The conversations to list, the one that was used last first.
    pub fn session_entries(
        &self,
        for_folders: &Vec<ThreadMetadata>,
        every: &Vec<ThreadMetadata>,
    ) -> (r: Vec<SessionEntry>)
        ensures
            lists_threads(r@, conversations(*self, for_folders@, every@)),
    {
        match &self.folders {
            None => Vec::new(),
            Some(folders) => if folders.len() > 0 {
                list_threads(for_folders)
            } else {
                list_threads(every)
            },
        }
    }
}

/// A conversation that was used later stands before one that was used earlier.
pub proof fn law_latest_conversation_comes_first(
    entries: Seq<SessionEntry>,
    v: Seq<ThreadMetadata>,
    i: int,
    j: int,
)
    requires
        lists_threads(entries, v),
        0 <= i < j < entries.len(),
    ensures
        listed_by(v[ranking::ranked(keys_of(v))[i]]).time >= listed_by(
            v[ranking::ranked(keys_of(v))[j]],
        ).time,
{
    ranking::law_ranking_is_a_sorted_permutation(keys_of(v));
    let o = ranking::ranked(keys_of(v));
    assert(ranking::ranks_before(keys_of(v), o[i], o[j]));
}

/// A line of the list.
pub struct SessionRow {
    pub element_id: String,
    pub title: String,
    /// The conversation that a click opens; `None` does nothing.
    pub resumes: Option<String>,
}

/// The list.
pub enum SessionList {
    /// There is nothing to list.
    Empty(String),
    Rows(Vec<SessionRow>),
}

/// The id of a line: by the conversation, or by the place where that was not sent
/// yet.
pub open spec fn row_id(session: Option<Seq<char>>, index: nat) -> Seq<char> {
    match session {
        Some(id) => "vibedev-session-"@ + id,
        None => "vibedev-session-draft-"@ + text::decimal_of(index),
    }
}

/// The lines of these entries.
pub open spec fn rows_list(rows: Seq<SessionRow>, entries: Seq<SessionEntry>) -> bool {
    &&& rows.len() == entries.len()
    &&& forall|i: int|
        0 <= i < rows.len() ==> {
            &&& (#[trigger] rows[i]).element_id@ == row_id(
                lists::text_of(entries[i].session_id),
                i as nat,
            )
            &&& rows[i].title@ == entries[i].title@
            &&& lists::text_of(rows[i].resumes) == lists::text_of(entries[i].session_id)
        }
}

/// The list of these conversations.
pub fn render_session_list(entries: &Vec<SessionEntry>) -> (r: SessionList)
    ensures
        match r {
            SessionList::Empty(label) => entries@.len() == 0 && label@
                == "No conversations yet"@,
            SessionList::Rows(rows) => entries@.len() > 0 && rows_list(rows@, entries@),
        },
{
    if entries.len() == 0 {
        return SessionList::Empty("No conversations yet".to_owned());
    }
    let mut rows: Vec<SessionRow> = Vec::new();
    let mut i: usize = 0;
    while i < entries.len()
        invariant
            i <= entries.len(),
            rows.len() == i,
            forall|x: int|
                0 <= x < i ==> {
                    &&& (#[trigger] rows[x]).element_id@ == row_id(
                        lists::text_of(entries[x].session_id),
                        x as nat,
                    )
                    &&& rows[x].title@ == entries[x].title@
                    &&& lists::text_of(rows[x].resumes) == lists::text_of(entries[x].session_id)
                },
        decreases entries.len() - i,
    {
        let e = &entries[i];
        let element_id = match &e.session_id {
            Some(id) => text::join("vibedev-session-", id.as_str()),
            None => text::join("vibedev-session-draft-", text::decimal(i as u64).as_str()),
        };
        rows.push(
            SessionRow {
                element_id,
                title: e.title.clone(),
                resumes: lists::copy_text(&e.session_id),
            },
        );
        i += 1;
    }
    SessionList::Rows(rows)
}

/// A folder of the window.
pub struct Folder {
    pub id: u64,
    pub path: String,
    /// The last part of the path, where it has one.
    pub file_name: Option<String>,
}

/// The line of a folder.
pub struct FolderRow {
    pub element_id: String,
    pub remove_id: String,
    pub name: String,
    pub tooltip: String,
    pub folder: u64,
}

/// The folders.
pub enum FolderList {
    /// There is no folder.
    Empty(String),
    Rows(Vec<FolderRow>),
}

/// The name of a folder: the last part of its path, or all of it.
pub open spec fn folder_name(f: Folder) -> Seq<char> {
    match f.file_name {
        Some(name) => name@,
        None => f.path@,
    }
}

/// The line is that of the folder.
pub open spec fn row_of(r: FolderRow, f: Folder) -> bool {
    &&& r.element_id@ == "vibedev-folder-"@ + text::decimal_of(f.id as nat)
    &&& r.remove_id@ == "vibedev-remove-folder-"@ + text::decimal_of(f.id as nat)
    &&& r.name@ == folder_name(f)
    &&& r.tooltip@ == f.path@
    &&& r.folder == f.id
}

/// The line of a folder.
pub fn folder_row_info(f: &Folder) -> (r: FolderRow)
    ensures
        row_of(r, *f),
{
    FolderRow {
        element_id: text::join("vibedev-folder-", text::decimal(f.id).as_str()),
        remove_id: text::join("vibedev-remove-folder-", text::decimal(f.id).as_str()),
        name: match &f.file_name {
            Some(name) => name.clone(),
            None => f.path.clone(),
        },
        tooltip: f.path.clone(),
        folder: f.id,
    }
}

/// The list shows these folders.
pub open spec fn folders_shown(r: FolderList, folders: Seq<Folder>) -> bool {
    match r {
        FolderList::Empty(label) => folders.len() == 0 && label@ == "No folder — add one"@,
        FolderList::Rows(rows) => folders.len() > 0 && rows@.len() == folders.len() && (forall|
            i: int,
        |
            0 <= i < rows@.len() ==> row_of(#[trigger] rows@[i], folders[i])),
    }
}

impl VibedevSessionSidebar {
    /// The folders of the window.
    pub fn render_folders(&self) -> (r: FolderList)
        ensures
            folders_shown(
                r,
                match self.folders {
                    Some(folders) => folders@,
                    None => Seq::empty(),
                },
            ),
    {
        match &self.folders {
            Some(folders) => list_folders(folders),
            None => FolderList::Empty("No folder — add one".to_owned()),
        }
    }

    /// Whether a conversation can be opened: the window is there, and so is the store of
    /// conversations.
    pub fn can_open_conversation(&self, has_thread_store: bool) -> (r: bool)
        ensures
            r == (has_thread_store && self.folders is Some),
    {
        has_thread_store && self.folders.is_some()
    }
}

fn list_folders(folders: &Vec<Folder>) -> (r: FolderList)
    ensures
        folders_shown(r, folders@),
{
    if folders.len() == 0 {
        return FolderList::Empty("No folder — add one".to_owned());
    }
    let mut rows: Vec<FolderRow> = Vec::new();
    let mut i: usize = 0;
    while i < folders.len()
        invariant
            i <= folders.len(),
            rows.len() == i,
            forall|x: int| 0 <= x < i ==> row_of(#[trigger] rows[x], folders[x]),
        decreases folders.len() - i,
    {
        rows.push(folder_row_info(&folders[i]));
        i += 1;
    }
    FolderList::Rows(rows)
}

/// A change of the project.
#[derive(Clone, Copy, Debug, PartialEq, Eq, Structural)]
pub enum ProjectEvent {
    WorktreeAdded,
    WorktreeRemoved,
    WorktreeOrderChanged,
    /// Anything else.
    Other,
}

/// Whether a change of the project is to be drawn: one of its folders is.
pub fn redraws(event: ProjectEvent) -> (r: bool)
    ensures
        r == (event != ProjectEvent::Other),
{
    match event {
        ProjectEvent::Other => false,
        _ => true,
    }
}

/// The name of the agent that conversations are opened with, and their title.
pub const CONVERSATION_AGENT: &'static str = "VibeDev";

/// The items of the pane that go once a conversation was opened: all but that.
pub fn open_conversation(items: &Vec<u64>, opened: u64) -> (r: Vec<u64>)
    ensures
        r@ == items@.filter(|x: u64| x != opened),
{
    let ghost keep = |x: u64| x != opened;
    let mut r: Vec<u64> = Vec::new();
    let mut i: usize = 0;
    proof {
        reveal(Seq::filter);
        assert(items@.take(0).filter(keep) =~= r@);
    }
    while i < items.len()
        invariant
            i <= items.len(),
            keep == (|x: u64| x != opened),
            r@ == items@.take(i as int).filter(keep),
        decreases items.len() - i,
    {
        proof {
            assert(items@.take(i + 1) =~= items@.take(i as int).push(items[i as int]));
            lists::lemma_filter_push(items@.take(i as int), items[i as int], keep);
        }
        if items[i] != opened {
            r.push(items[i]);
        }
        i += 1;
    }
    assert(items@.take(i as int) =~= items@);
    r
}

/// When a conversation was used last: when the user did something in it, else when it was
/// changed.
pub open spec fn last_use(m: ThreadMetadata) -> int {
    if m.interacted_at is Some {
        m.interacted_at->0 as int
    } else {
        m.updated_at as int
    }
}

/// Every conversation is listed, with its title and its id; and of two lines, the upper one
/// is that of the conversation that was used no earlier.
pub proof fn law_conversations_are_listed_by_last_use(
    entries: Seq<SessionEntry>,
    v: Seq<ThreadMetadata>,
    k: int,
    i: int,
    j: int,
)
    requires
        lists_threads(entries, v),
        0 <= k < v.len(),
        0 <= i < j < entries.len(),
    ensures
        entries.len() == v.len(),
        exists|e: int|
            0 <= e < entries.len() && (#[trigger] entries[e]).title@ == v[k].title@
                && lists::text_of(entries[e].session_id) == lists::text_of(v[k].session_id),
        exists|a: int, b: int|
            0 <= a < v.len() && 0 <= b < v.len() && a != b && entries[i].title@ == (
            #[trigger] v[a]).title@ && entries[j].title@ == (#[trigger] v[b]).title@ && (
            if v[a].interacted_at is Some {
                v[a].interacted_at->0 as int
            } else {
                v[a].updated_at as int
            }) >= (if v[b].interacted_at is Some {
                v[b].interacted_at->0 as int
            } else {
                v[b].updated_at as int
            }),
{
    let keys = keys_of(v);
    ranking::law_ranking_is_a_sorted_permutation(keys);
    let o = ranking::ranked(keys);
    release_cache::lemma_covers(o, v.len(), k);
    let e = choose|e: int| 0 <= e < o.len() && #[trigger] o[e] == k;
    assert(entry_of(entries[e], v[o[e]]));
    law_latest_conversation_comes_first(entries, v, i, j);
    let a = o[i];
    let b = o[j];
    assert(a != b);
    assert(entry_of(entries[i], v[a]));
    assert(entry_of(entries[j], v[b]));
    assert(listed_by(v[a]).time == last_use(v[a]));
    assert(listed_by(v[b]).time == last_use(v[b]));
}

/// A window with folders lists their conversations, one without lists all, and one that is
/// gone lists none.
pub proof fn law_folders_choose_the_conversations(
    bar: VibedevSessionSidebar,
    for_folders: Seq<ThreadMetadata>,
    every: Seq<ThreadMetadata>,
)
    ensures
        bar.folders is None ==> conversations(bar, for_folders, every).len() == 0,
        (bar.folders matches Some(f) && f@.len() > 0) ==> conversations(bar, for_folders, every)
            == for_folders,
        (bar.folders matches Some(f) && f@.len() == 0) ==> conversations(bar, for_folders, every)
            == every,
{
}

/// A line shows the title of its conversation and resumes that; a draft resumes nothing.
pub proof fn law_lines_resume_their_conversation(
    rows: Seq<SessionRow>,
    entries: Seq<SessionEntry>,
    i: int,
)
    requires
        rows_list(rows, entries),
        0 <= i < entries.len(),
    ensures
        rows.len() == entries.len(),
        rows[i].title@ == entries[i].title@,
        entries[i].session_id is Some ==> (rows[i].resumes matches Some(id) && id@
            == (entries[i].session_id->0)@),
        entries[i].session_id is None ==> rows[i].resumes is None,
        entries[i].session_id is Some ==> rows[i].element_id@ == "vibedev-session-"@
            + (entries[i].session_id->0)@,
{
    assert(rows[i].title@ == entries[i].title@);
}

/// A folder goes by the last part of its path, and by all of it where it has none.
pub proof fn law_folders_go_by_their_name(r: FolderRow, f: Folder)
    requires
        row_of(r, f),
    ensures
        f.file_name is Some ==> r.name@ == (f.file_name->0)@,
        f.file_name is None ==> r.name@ == f.path@,
        r.tooltip@ == f.path@,
        r.folder == f.id,
{
}

/// Every folder has its line, in the order of the folders; where there is none, it is said
/// how to add one.
pub proof fn law_every_folder_has_its_line(r: FolderList, folders: Seq<Folder>, i: int)
    requires
        folders_shown(r, folders),
    ensures
        folders.len() == 0 ==> (r matches FolderList::Empty(label) && label@
            == "No folder — add one"@),
        folders.len() > 0 ==> (r matches FolderList::Rows(rows) && rows@.len() == folders.len()),
        0 <= i < folders.len() ==> (r matches FolderList::Rows(rows) && rows@[i].tooltip@
            == folders[i].path@ && rows@[i].folder == folders[i].id),
{
    if 0 <= i < folders.len() {
        if let FolderList::Rows(rows) = r {
            assert(row_of(rows@[i], folders[i]));
        }
    }
}

/// Lines can be told apart: each carries the id of its folder or conversation, a draft its
/// place.
pub proof fn law_lines_are_told_apart(
    r: FolderRow,
    f: Folder,
    rows: Seq<SessionRow>,
    entries: Seq<SessionEntry>,
    i: int,
)
    ensures
        row_of(r, f) ==> r.element_id@ == "vibedev-folder-"@ + text::decimal_of(f.id as nat)
            && r.remove_id@ == "vibedev-remove-folder-"@ + text::decimal_of(f.id as nat),
        rows_list(rows, entries) && 0 <= i < entries.len() && entries[i].session_id is None
            ==> rows[i].element_id@ == "vibedev-session-draft-"@ + text::decimal_of(i as nat),
{
    if rows_list(rows, entries) && 0 <= i < entries.len() {
        assert(rows[i].title@ == entries[i].title@);
    }
}

} // verus!
