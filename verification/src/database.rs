//! The session store: three tables held in memory, with the operations the
//! rest of the program relies on.
//!
//! Every operation is a single step on exclusively borrowed state, so no
//! operation is ever seen half done. What has to be written through to
//! durable storage is handed back to the caller as the row concerned; the
//! store itself never touches a file.

use vstd::prelude::*;
use crate::records::{
    clone_text_option, text_option_view, Label, LabelView, Session, ThumbnailCacheEntry,
};
use crate::session_id::{generate_session_id, session_id_of};
use crate::tables::{
    label_at, label_in, label_is, labels_after_set, labels_with, lemma_clear_then_read,
    lemma_open_keeps_one_row, lemma_position, lemma_position_is, lemma_tag_then_read, position,
    put_row, rejected_in, session_at, session_is, sessions_after_open,
    sessions_after_select, thumbnail_at, thumbnail_is, thumbnails_after_set, unique_labels,
    unique_sessions, unique_thumbnails, StoreView,
};
use crate::text::same_text;

verus! {

broadcast use {
    vstd::seq_lib::group_seq_properties,
    vstd::seq::group_seq_axioms,
};

/// What a `set_label` asks durable storage to do.
#[derive(Debug)]
pub enum LabelWrite {
    /// Insert this row, or replace the row with its key.
    Put(Label),
    /// Delete the row with this key, if there is one.
    Delete { session_id: String, filename: String },
}

/// Mathematical form of a [`LabelWrite`].
pub enum LabelWriteView {
    Put(LabelView),
    Delete { session_id: Seq<char>, filename: Seq<char> },
}

impl View for LabelWrite {
    type V = LabelWriteView;

    open spec fn view(&self) -> LabelWriteView {
        match self {
            LabelWrite::Put(row) => LabelWriteView::Put(row@),
            LabelWrite::Delete { session_id, filename } => LabelWriteView::Delete {
                session_id: session_id@,
                filename: filename@,
            },
        }
    }
}

/// The write that makes durable storage follow a `set_label`.
pub open spec fn label_write_for(
    session_id: Seq<char>,
    filename: Seq<char>,
    label: Option<Seq<char>>,
    now: Seq<char>,
) -> LabelWriteView {
    match label {
        Some(tag) => LabelWriteView::Put(
            LabelView { session_id, filename, label: Some(tag), updated_at: now },
        ),
        None => LabelWriteView::Delete { session_id, filename },
    }
}

/// The store.
#[derive(Debug)]
pub struct Database {
    sessions: Vec<Session>,
    labels: Vec<Label>,
    thumbnails: Vec<ThumbnailCacheEntry>,
}

impl View for Database {
    type V = StoreView;

    closed spec fn view(&self) -> StoreView {
        StoreView {
            sessions: self.sessions.deep_view(),
            labels: self.labels.deep_view(),
            thumbnails: self.thumbnails.deep_view(),
        }
    }
}

fn find_session(rows: &Vec<Session>, id: &str) -> (found: Option<usize>)
    ensures
        match found {
            Some(i) => i < rows.len() && i == position(rows.deep_view(), session_is(id@)),
            None => position(rows.deep_view(), session_is(id@)) == -1,
        },
{
    let ghost all = rows.deep_view();
    let ghost hit = session_is(id@);
    let mut i: usize = 0;
    while i < rows.len()
        invariant
            i <= rows.len(),
            all == rows.deep_view(),
            hit == session_is(id@),
            forall|j: int| 0 <= j < i ==> !hit(#[trigger] all[j]),
        decreases rows.len() - i,
    {
        if same_text(rows[i].id.as_str(), id) {
            proof {
                assert(hit(all[i as int]));
                lemma_position_is(all, hit, i as int);
            }
            return Some(i);
        }
        i += 1;
    }
    proof {
        lemma_position(all, hit);
    }
    None
}

fn find_label(rows: &Vec<Label>, session_id: &str, filename: &str) -> (found: Option<usize>)
    ensures
        match found {
            Some(i) => i < rows.len() && i == position(
                rows.deep_view(),
                label_is(session_id@, filename@),
            ),
            None => position(rows.deep_view(), label_is(session_id@, filename@)) == -1,
        },
{
    let ghost all = rows.deep_view();
    let ghost hit = label_is(session_id@, filename@);
    let mut i: usize = 0;
    while i < rows.len()
        invariant
            i <= rows.len(),
            all == rows.deep_view(),
            hit == label_is(session_id@, filename@),
            forall|j: int| 0 <= j < i ==> !hit(#[trigger] all[j]),
        decreases rows.len() - i,
    {
        if same_text(rows[i].session_id.as_str(), session_id) && same_text(
            rows[i].filename.as_str(),
            filename,
        ) {
            proof {
                assert(hit(all[i as int]));
                lemma_position_is(all, hit, i as int);
            }
            return Some(i);
        }
        i += 1;
    }
    proof {
        lemma_position(all, hit);
    }
    None
}

fn find_thumbnail(rows: &Vec<ThumbnailCacheEntry>, session_id: &str, filename: &str) -> (found:
    Option<usize>)
    ensures
        match found {
            Some(i) => i < rows.len() && i == position(
                rows.deep_view(),
                thumbnail_is(session_id@, filename@),
            ),
            None => position(rows.deep_view(), thumbnail_is(session_id@, filename@)) == -1,
        },
{
    let ghost all = rows.deep_view();
    let ghost hit = thumbnail_is(session_id@, filename@);
    let mut i: usize = 0;
    while i < rows.len()
        invariant
            i <= rows.len(),
            all == rows.deep_view(),
            hit == thumbnail_is(session_id@, filename@),
            forall|j: int| 0 <= j < i ==> !hit(#[trigger] all[j]),
        decreases rows.len() - i,
    {
        if same_text(rows[i].session_id.as_str(), session_id) && same_text(
            rows[i].filename.as_str(),
            filename,
        ) {
            proof {
                assert(hit(all[i as int]));
                lemma_position_is(all, hit, i as int);
            }
            return Some(i);
        }
        i += 1;
    }
    proof {
        lemma_position(all, hit);
    }
    None
}

impl Database {
    /// An empty store.
    pub fn new() -> (db: Self)
        ensures
            db@.sessions.len() == 0,
            db@.labels.len() == 0,
            db@.thumbnails.len() == 0,
            db@.well_formed(),
    {
        Database { sessions: Vec::new(), labels: Vec::new(), thumbnails: Vec::new() }
    }

    /// The identifier of the session for the folder at `folder_path`.
    pub fn generate_session_id(folder_path: &str) -> (id: String)
        ensures
            id@ == session_id_of(folder_path@),
            id@.len() == 32,
    {
        generate_session_id(folder_path)
    }

    /// Records that the folder at `folder_path` was opened at `now` and holds
    /// `total_files` images, and returns its session. A folder opened before
    /// keeps its row: only the time and the count are refreshed.
    pub fn get_or_create_session(&mut self, folder_path: &str, total_files: i32, now: &str) -> (session:
        Session)
        ensures
            final(self)@.sessions == sessions_after_open(
                old(self)@.sessions,
                folder_path@,
                total_files,
                now@,
            ),
            final(self)@.labels == old(self)@.labels,
            final(self)@.thumbnails == old(self)@.thumbnails,
            session_at(final(self)@.sessions, session_id_of(folder_path@)) == Some(session@),
            session@.id == session_id_of(folder_path@),
            old(self)@.well_formed() ==> final(self)@.well_formed(),
    {
        let id = generate_session_id(folder_path);
        let ghost before = self.sessions.deep_view();
        let ghost hit = session_is(id@);
        proof {
            lemma_position(before, hit);
            if unique_sessions(before) {
                lemma_open_keeps_one_row(before, folder_path@, total_files, now@);
            }
        }
        match find_session(&self.sessions, id.as_str()) {
            Some(i) => {
                let row = Session {
                    id: self.sessions[i].id.clone(),
                    folder_path: self.sessions[i].folder_path.clone(),
                    last_opened: Some(String::from_str(now)),
                    last_selected_index: self.sessions[i].last_selected_index,
                    total_files,
                    created_at: self.sessions[i].created_at.clone(),
                };
                let copy = row.clone();
                assert(before[i as int] == self.sessions[i as int]@);
                self.sessions.set(i, row);
                proof {
                    let after = self.sessions.deep_view();
                    assert(after =~= before.update(i as int, copy@));
                    assert forall|j: int| 0 <= j < i implies !hit(#[trigger] after[j]) by {
                        assert(after[j] == before[j]);
                    }
                    lemma_position_is(after, hit, i as int);
                }
                copy
            },
            None => {
                let row = Session {
                    id,
                    folder_path: String::from_str(folder_path),
                    last_opened: Some(String::from_str(now)),
                    last_selected_index: 0,
                    total_files,
                    created_at: String::from_str(now),
                };
                let copy = row.clone();
                self.sessions.push(row);
                proof {
                    let after = self.sessions.deep_view();
                    assert(after =~= before.push(copy@));
                    assert forall|j: int| 0 <= j < before.len() implies !hit(#[trigger] after[j]) by {
                        assert(after[j] == before[j]);
                    }
                    lemma_position_is(after, hit, before.len() as int);
                }
                copy
            },
        }
    }

    /// Moves the position bookmark of a session to `index` and refreshes its
    /// time of last use. Returns the row as it now stands, or `None` for a
    /// session the store does not know, in which case nothing changes.
    pub fn update_last_selected_index(&mut self, session_id: &str, index: i32, now: &str) -> (row:
        Option<Session>)
        ensures
            final(self)@.sessions == sessions_after_select(
                old(self)@.sessions,
                session_id@,
                index,
                now@,
            ),
            final(self)@.labels == old(self)@.labels,
            final(self)@.thumbnails == old(self)@.thumbnails,
            match row {
                Some(s) => session_at(final(self)@.sessions, session_id@) == Some(s@),
                None => session_at(old(self)@.sessions, session_id@) is None,
            },
            old(self)@.well_formed() ==> final(self)@.well_formed(),
    {
        let ghost before = self.sessions.deep_view();
        let ghost hit = session_is(session_id@);
        proof {
            lemma_position(before, hit);
        }
        match find_session(&self.sessions, session_id) {
            Some(i) => {
                let row = Session {
                    id: self.sessions[i].id.clone(),
                    folder_path: self.sessions[i].folder_path.clone(),
                    last_opened: Some(String::from_str(now)),
                    last_selected_index: index,
                    total_files: self.sessions[i].total_files,
                    created_at: self.sessions[i].created_at.clone(),
                };
                let copy = row.clone();
                assert(before[i as int] == self.sessions[i as int]@);
                self.sessions.set(i, row);
                proof {
                    let after = self.sessions.deep_view();
                    assert(after =~= before.update(i as int, copy@));
                    assert forall|j: int| 0 <= j < i implies !hit(#[trigger] after[j]) by {
                        assert(after[j] == before[j]);
                    }
                    lemma_position_is(after, hit, i as int);
                    if unique_sessions(before) {
                        assert forall|a: int, b: int| 0 <= a < b < after.len() implies (
                        #[trigger] after[a]).id != (#[trigger] after[b]).id by {
                            assert(after[a].id == before[a].id && after[b].id == before[b].id);
                        }
                    }
                }
                Some(copy)
            },
            None => None,
        }
    }

    /// Tags a file, or clears its tag. Clearing deletes the row, so that a
    /// cleared file cannot be told from one that was never tagged. Returns
    /// what durable storage has to do to follow.
    pub fn set_label(&mut self, session_id: &str, filename: &str, label: Option<&str>, now: &str) -> (write:
        LabelWrite)
        ensures
            final(self)@.labels == labels_after_set(
                old(self)@.labels,
                session_id@,
                filename@,
                match label {
                    Some(tag) => Some(tag@),
                    None => None,
                },
                now@,
            ),
            final(self)@.sessions == old(self)@.sessions,
            final(self)@.thumbnails == old(self)@.thumbnails,
            write@ == label_write_for(
                session_id@,
                filename@,
                match label {
                    Some(tag) => Some(tag@),
                    None => None,
                },
                now@,
            ),
            old(self)@.well_formed() ==> final(self)@.well_formed(),
    {
        let ghost before = self.labels.deep_view();
        let found = find_label(&self.labels, session_id, filename);
        match label {
            Some(tag) => {
                proof {
                    if unique_labels(before) {
                        lemma_tag_then_read(before, session_id@, filename@, tag@, now@);
                    }
                }
                let row = Label {
                    session_id: String::from_str(session_id),
                    filename: String::from_str(filename),
                    label: Some(String::from_str(tag)),
                    updated_at: String::from_str(now),
                };
                let copy = row.clone();
                match found {
                    Some(i) => {
                        self.labels.set(i, row);
                        assert(self.labels.deep_view() =~= before.update(i as int, copy@));
                    },
                    None => {
                        self.labels.push(row);
                        assert(self.labels.deep_view() =~= before.push(copy@));
                    },
                }
                LabelWrite::Put(copy)
            },
            None => {
                proof {
                    if unique_labels(before) {
                        lemma_clear_then_read(before, session_id@, filename@);
                    }
                }
                match found {
                    Some(i) => {
                        self.labels.remove(i);
                        assert(self.labels.deep_view() =~= before.remove(i as int));
                    },
                    None => {},
                }
                LabelWrite::Delete {
                    session_id: String::from_str(session_id),
                    filename: String::from_str(filename),
                }
            },
        }
    }

    /// The tag of a file, if it has one.
    pub fn get_label(&self, session_id: &str, filename: &str) -> (label: Option<String>)
        ensures
            text_option_view(label) == label_at(self@.labels, session_id@, filename@),
    {
        match find_label(&self.labels, session_id, filename) {
            Some(i) => {
                assert(self.labels.deep_view()[i as int] == self.labels[i as int]@);
                clone_text_option(&self.labels[i].label)
            },
            None => None,
        }
    }

    /// All labels of a session, in the order in which their rows were made.
    pub fn get_all_labels(&self, session_id: &str) -> (labels: Vec<Label>)
        ensures
            labels.deep_view() == self@.labels.filter(label_in(session_id@)),
    {
        let ghost all = self.labels.deep_view();
        let ghost pick = label_in(session_id@);
        let mut out: Vec<Label> = Vec::new();
        let mut i: usize = 0;
        assert(all.take(0).filter(pick) =~= out.deep_view()) by {
            reveal(Seq::filter);
        }
        while i < self.labels.len()
            invariant
                i <= self.labels.len(),
                all == self.labels.deep_view(),
                pick == label_in(session_id@),
                out.deep_view() == all.take(i as int).filter(pick),
            decreases self.labels.len() - i,
        {
            let ghost so_far = out.deep_view();
            proof {
                assert(all.take(i + 1) =~= all.take(i as int).push(all[i as int]));
                all.take(i as int).lemma_filter_push(all[i as int], pick);
            }
            if same_text(self.labels[i].session_id.as_str(), session_id) {
                let copy = self.labels[i].clone();
                out.push(copy);
                assert(out.deep_view() =~= so_far.push(all[i as int]));
            }
            i += 1;
        }
        assert(all.take(self.labels.len() as int) =~= all);
        out
    }

    /// The names of the files of a session that are tagged `rejected`, in the
    /// order in which their rows were made.
    pub fn get_rejected_filenames(&self, session_id: &str) -> (names: Vec<String>)
        ensures
            names.deep_view() == self@.labels.filter(rejected_in(session_id@)).map_values(
                |l: LabelView| l.filename,
            ),
    {
        let ghost all = self.labels.deep_view();
        let ghost pick = rejected_in(session_id@);
        let ghost name = |l: LabelView| l.filename;
        let mut out: Vec<String> = Vec::new();
        let mut i: usize = 0;
        assert(all.take(0).filter(pick).map_values(name) =~= out.deep_view()) by {
            reveal(Seq::filter);
        }
        while i < self.labels.len()
            invariant
                i <= self.labels.len(),
                all == self.labels.deep_view(),
                pick == rejected_in(session_id@),
                name == |l: LabelView| l.filename,
                out.deep_view() == all.take(i as int).filter(pick).map_values(name),
            decreases self.labels.len() - i,
        {
            let ghost so_far = out.deep_view();
            proof {
                assert(all.take(i + 1) =~= all.take(i as int).push(all[i as int]));
                all.take(i as int).lemma_filter_push(all[i as int], pick);
                all.take(i as int).filter(pick).lemma_push_map_commute(name, all[i as int]);
            }
            let row = &self.labels[i];
            let rejected = match &row.label {
                Some(tag) => same_text(tag.as_str(), "rejected"),
                None => false,
            };
            if rejected && same_text(row.session_id.as_str(), session_id) {
                out.push(row.filename.clone());
                assert(out.deep_view() =~= so_far.push(all[i as int].filename));
            }
            i += 1;
        }
        assert(all.take(self.labels.len() as int) =~= all);
        out
    }

    /// Records where the thumbnail of a file was written. A file that already
    /// has an entry keeps it, with the new location and source time. Returns
    /// the row as it now stands.
    pub fn set_thumbnail_cache(
        &mut self,
        session_id: &str,
        filename: &str,
        cache_path: &str,
        original_modified: &str,
        now: &str,
    ) -> (entry: ThumbnailCacheEntry)
        ensures
            final(self)@.thumbnails == thumbnails_after_set(
                old(self)@.thumbnails,
                session_id@,
                filename@,
                cache_path@,
                original_modified@,
                now@,
            ),
            final(self)@.sessions == old(self)@.sessions,
            final(self)@.labels == old(self)@.labels,
            thumbnail_at(final(self)@.thumbnails, session_id@, filename@) == Some(entry@),
            entry@.cache_path == cache_path@,
            entry@.original_modified == original_modified@,
            old(self)@.well_formed() ==> final(self)@.well_formed(),
    {
        let ghost before = self.thumbnails.deep_view();
        let ghost hit = thumbnail_is(session_id@, filename@);
        proof {
            lemma_position(before, hit);
        }
        match find_thumbnail(&self.thumbnails, session_id, filename) {
            Some(i) => {
                let row = ThumbnailCacheEntry {
                    session_id: self.thumbnails[i].session_id.clone(),
                    filename: self.thumbnails[i].filename.clone(),
                    cache_path: String::from_str(cache_path),
                    original_modified: String::from_str(original_modified),
                    created_at: self.thumbnails[i].created_at.clone(),
                };
                let copy = row.clone();
                assert(before[i as int] == self.thumbnails[i as int]@);
                self.thumbnails.set(i, row);
                proof {
                    let after = self.thumbnails.deep_view();
                    assert(after =~= before.update(i as int, copy@));
                    assert forall|j: int| 0 <= j < i implies !hit(#[trigger] after[j]) by {
                        assert(after[j] == before[j]);
                    }
                    lemma_position_is(after, hit, i as int);
                    if unique_thumbnails(before) {
                        assert forall|a: int, b: int| 0 <= a < b < after.len() implies !((
                        #[trigger] after[a]).session_id == (#[trigger] after[b]).session_id
                            && after[a].filename == after[b].filename) by {
                            assert(after[a].session_id == before[a].session_id && after[a].filename
                                == before[a].filename);
                            assert(after[b].session_id == before[b].session_id && after[b].filename
                                == before[b].filename);
                        }
                    }
                }
                copy
            },
            None => {
                let row = ThumbnailCacheEntry {
                    session_id: String::from_str(session_id),
                    filename: String::from_str(filename),
                    cache_path: String::from_str(cache_path),
                    original_modified: String::from_str(original_modified),
                    created_at: String::from_str(now),
                };
                let copy = row.clone();
                self.thumbnails.push(row);
                proof {
                    let after = self.thumbnails.deep_view();
                    assert(after =~= before.push(copy@));
                    assert forall|j: int| 0 <= j < before.len() implies !hit(#[trigger] after[j]) by {
                        assert(after[j] == before[j]);
                    }
                    lemma_position_is(after, hit, before.len() as int);
                    if unique_thumbnails(before) {
                        assert forall|a: int, b: int| 0 <= a < b < after.len() implies !((
                        #[trigger] after[a]).session_id == (#[trigger] after[b]).session_id
                            && after[a].filename == after[b].filename) by {
                            if b == before.len() {
                                assert(after[a] == before[a]);
                                assert(!hit(before[a]));
                            } else {
                                assert(after[a] == before[a] && after[b] == before[b]);
                            }
                        }
                    }
                }
                copy
            },
        }
    }

    /// The cache entry of a file, if it has one.
    pub fn get_thumbnail_cache(&self, session_id: &str, filename: &str) -> (entry: Option<
        ThumbnailCacheEntry,
    >)
        ensures
            match entry {
                Some(e) => thumbnail_at(self@.thumbnails, session_id@, filename@) == Some(e@),
                None => thumbnail_at(self@.thumbnails, session_id@, filename@) is None,
            },
    {
        match find_thumbnail(&self.thumbnails, session_id, filename) {
            Some(i) => {
                assert(self.thumbnails.deep_view()[i as int] == self.thumbnails[i as int]@);
                Some(self.thumbnails[i].clone())
            },
            None => None,
        }
    }

    /// The session called `session_id`, if the store knows it.
    pub fn get_session(&self, session_id: &str) -> (session: Option<Session>)
        ensures
            match session {
                Some(s) => session_at(self@.sessions, session_id@) == Some(s@),
                None => session_at(self@.sessions, session_id@) is None,
            },
    {
        match find_session(&self.sessions, session_id) {
            Some(i) => {
                assert(self.sessions.deep_view()[i as int] == self.sessions[i as int]@);
                Some(self.sessions[i].clone())
            },
            None => None,
        }
    }

    /// Puts a session row back into the store, as it was read from durable
    /// storage. A row with the same identifier is replaced.
    pub fn restore_session(&mut self, row: Session)
        ensures
            final(self)@.sessions == put_row(old(self)@.sessions, session_is(row@.id), row@),
            final(self)@.labels == old(self)@.labels,
            final(self)@.thumbnails == old(self)@.thumbnails,
            old(self)@.well_formed() ==> final(self)@.well_formed(),
    {
        let ghost before = self.sessions.deep_view();
        let ghost hit = session_is(row@.id);
        let ghost new_row = row@;
        proof {
            lemma_position(before, hit);
        }
        match find_session(&self.sessions, row.id.as_str()) {
            Some(i) => {
                self.sessions.set(i, row);
                proof {
                    let after = self.sessions.deep_view();
                    assert(after =~= before.update(i as int, new_row));
                    if unique_sessions(before) {
                        assert forall|a: int, b: int| 0 <= a < b < after.len() implies (
                        #[trigger] after[a]).id != (#[trigger] after[b]).id by {
                            assert(after[a].id == before[a].id && after[b].id == before[b].id);
                        }
                    }
                }
            },
            None => {
                self.sessions.push(row);
                proof {
                    let after = self.sessions.deep_view();
                    assert(after =~= before.push(new_row));
                    if unique_sessions(before) {
                        assert forall|a: int, b: int| 0 <= a < b < after.len() implies (
                        #[trigger] after[a]).id != (#[trigger] after[b]).id by {
                            if b == before.len() {
                                assert(after[a] == before[a]);
                                assert(!hit(before[a]));
                            } else {
                                assert(after[a] == before[a] && after[b] == before[b]);
                            }
                        }
                    }
                }
            },
        }
    }

    /// Puts a label row back into the store, as it was read from durable
    /// storage. A row with the same key is replaced; a row without a tag
    /// stands for no label and is dropped.
    pub fn restore_label(&mut self, row: Label)
        ensures
            final(self)@.labels == labels_with(old(self)@.labels, row@),
            final(self)@.sessions == old(self)@.sessions,
            final(self)@.thumbnails == old(self)@.thumbnails,
            old(self)@.well_formed() ==> final(self)@.well_formed(),
    {
        if row.label.is_none() {
            return ;
        }
        let ghost before = self.labels.deep_view();
        let ghost new_row = row@;
        proof {
            if unique_labels(before) {
                lemma_tag_then_read(
                    before,
                    new_row.session_id,
                    new_row.filename,
                    new_row.label->0,
                    new_row.updated_at,
                );
            }
        }
        match find_label(&self.labels, row.session_id.as_str(), row.filename.as_str()) {
            Some(i) => {
                self.labels.set(i, row);
                assert(self.labels.deep_view() =~= before.update(i as int, new_row));
            },
            None => {
                self.labels.push(row);
                assert(self.labels.deep_view() =~= before.push(new_row));
            },
        }
    }

    /// Puts a cache entry back into the store, as it was read from durable
    /// storage. An entry with the same key is replaced.
    pub fn restore_thumbnail(&mut self, row: ThumbnailCacheEntry)
        ensures
            final(self)@.thumbnails == put_row(
                old(self)@.thumbnails,
                thumbnail_is(row@.session_id, row@.filename),
                row@,
            ),
            final(self)@.sessions == old(self)@.sessions,
            final(self)@.labels == old(self)@.labels,
            old(self)@.well_formed() ==> final(self)@.well_formed(),
    {
        let ghost before = self.thumbnails.deep_view();
        let ghost hit = thumbnail_is(row@.session_id, row@.filename);
        let ghost new_row = row@;
        proof {
            lemma_position(before, hit);
        }
        match find_thumbnail(&self.thumbnails, row.session_id.as_str(), row.filename.as_str()) {
            Some(i) => {
                self.thumbnails.set(i, row);
                proof {
                    let after = self.thumbnails.deep_view();
                    assert(after =~= before.update(i as int, new_row));
                    if unique_thumbnails(before) {
                        assert forall|a: int, b: int| 0 <= a < b < after.len() implies !((
                        #[trigger] after[a]).session_id == (#[trigger] after[b]).session_id
                            && after[a].filename == after[b].filename) by {
                            assert(after[a].session_id == before[a].session_id && after[a].filename
                                == before[a].filename);
                            assert(after[b].session_id == before[b].session_id && after[b].filename
                                == before[b].filename);
                        }
                    }
                }
            },
            None => {
                self.thumbnails.push(row);
                proof {
                    let after = self.thumbnails.deep_view();
                    assert(after =~= before.push(new_row));
                    if unique_thumbnails(before) {
                        assert forall|a: int, b: int| 0 <= a < b < after.len() implies !((
                        #[trigger] after[a]).session_id == (#[trigger] after[b]).session_id
                            && after[a].filename == after[b].filename) by {
                            if b == before.len() {
                                assert(after[a] == before[a]);
                                assert(!hit(before[a]));
                            } else {
                                assert(after[a] == before[a] && after[b] == before[b]);
                            }
                        }
                    }
                }
            },
        }
    }

    /// Number of sessions in the store.
    pub fn get_session_count(&self) -> (count: usize)
        ensures
            count == self@.sessions.len(),
    {
        self.sessions.len()
    }

    /// Number of labels in the store.
    pub fn get_label_count(&self) -> (count: usize)
        ensures
            count == self@.labels.len(),
    {
        self.labels.len()
    }

    /// Deletes every label and returns how many there were.
    pub fn clear_all_labels(&mut self) -> (removed: usize)
        ensures
            removed == old(self)@.labels.len(),
            final(self)@.labels.len() == 0,
            final(self)@.sessions == old(self)@.sessions,
            final(self)@.thumbnails == old(self)@.thumbnails,
            old(self)@.well_formed() ==> final(self)@.well_formed(),
    {
        let removed = self.labels.len();
        self.labels.clear();
        removed
    }

    /// Forgets every session together with its cache entries, so that no
    /// entry is left pointing into a cache directory that is being removed.
    /// Labels are kept.
    pub fn clear_all_sessions(&mut self)
        ensures
            final(self)@.sessions.len() == 0,
            final(self)@.thumbnails.len() == 0,
            final(self)@.labels == old(self)@.labels,
            old(self)@.well_formed() ==> final(self)@.well_formed(),
    {
        self.sessions.clear();
        self.thumbnails.clear();
    }
}

} // verus!
