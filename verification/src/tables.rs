//! The tables of the session store as mathematics: what a lookup finds, what
//! each operation does to a table, and the laws that follow.
//!
//! A table is the sequence of its rows. A key is looked up by its first
//! occurrence; in a well-formed table that is its only one.

use vstd::prelude::*;
use crate::records::{LabelView, SessionView, ThumbnailCacheEntryView};
use crate::sequences::lemma_filter_one;
use crate::session_id::session_id_of;

verus! {

broadcast use {
    vstd::seq_lib::group_seq_properties,
    vstd::seq::group_seq_axioms,
};

/// The tag that keeps a file out of an export.
pub open spec fn rejected_tag() -> Seq<char> {
    "rejected"@
}

// ---------------------------------------------------------------------------
// Looking rows up
// ---------------------------------------------------------------------------

/// Index of the first row that `hit` accepts, or `-1` when it accepts none.
pub open spec fn position<T>(rows: Seq<T>, hit: spec_fn(T) -> bool) -> int
    decreases rows.len(),
{
    if rows.len() == 0 {
        -1
    } else {
        let earlier = position(rows.drop_last(), hit);
        if earlier >= 0 {
            earlier
        } else if hit(rows.last()) {
            rows.len() - 1
        } else {
            -1
        }
    }
}

/// `position` finds the first accepted row, and only reports none when there
/// is none.
pub proof fn lemma_position<T>(rows: Seq<T>, hit: spec_fn(T) -> bool)
    ensures
        -1 <= position(rows, hit) < rows.len(),
        position(rows, hit) >= 0 ==> hit(rows[position(rows, hit)]),
        forall|j: int|
            0 <= j < rows.len() && (j < position(rows, hit) || position(rows, hit) < 0) ==> !hit(
                #[trigger] rows[j],
            ),
    decreases rows.len(),
{
    if rows.len() > 0 {
        lemma_position(rows.drop_last(), hit);
        assert forall|j: int|
            0 <= j < rows.len() && (j < position(rows, hit) || position(rows, hit) < 0) implies !hit(
            #[trigger] rows[j],
        ) by {
            if j < rows.len() - 1 {
                assert(rows.drop_last()[j] == rows[j]);
            }
        }
    }
}

/// A row that is accepted and has no accepted row before it is the one found.
pub proof fn lemma_position_is<T>(rows: Seq<T>, hit: spec_fn(T) -> bool, i: int)
    requires
        0 <= i < rows.len(),
        hit(rows[i]),
        forall|j: int| 0 <= j < i ==> !hit(#[trigger] rows[j]),
    ensures
        position(rows, hit) == i,
{
    lemma_position(rows, hit);
}

/// Accepts the session called `id`.
pub open spec fn session_is(id: Seq<char>) -> spec_fn(SessionView) -> bool {
    |s: SessionView| s.id == id
}

/// Accepts the label of `filename` in session `session_id`.
pub open spec fn label_is(session_id: Seq<char>, filename: Seq<char>) -> spec_fn(LabelView) -> bool {
    |l: LabelView| l.session_id == session_id && l.filename == filename
}

/// Accepts every label of session `session_id`.
pub open spec fn label_in(session_id: Seq<char>) -> spec_fn(LabelView) -> bool {
    |l: LabelView| l.session_id == session_id
}

/// Accepts the labels of session `session_id` that reject their file.
pub open spec fn rejected_in(session_id: Seq<char>) -> spec_fn(LabelView) -> bool {
    |l: LabelView| l.session_id == session_id && l.label == Some(rejected_tag())
}

/// Accepts the cache entry of `filename` in session `session_id`.
pub open spec fn thumbnail_is(session_id: Seq<char>, filename: Seq<char>) -> spec_fn(
    ThumbnailCacheEntryView,
) -> bool {
    |t: ThumbnailCacheEntryView| t.session_id == session_id && t.filename == filename
}

/// The session called `id`, if the table has one.
pub open spec fn session_at(rows: Seq<SessionView>, id: Seq<char>) -> Option<SessionView> {
    let i = position(rows, session_is(id));
    if i < 0 {
        None
    } else {
        Some(rows[i])
    }
}

/// The tag of a file, if it has one.
pub open spec fn label_at(rows: Seq<LabelView>, session_id: Seq<char>, filename: Seq<char>) -> Option<
    Seq<char>,
> {
    let i = position(rows, label_is(session_id, filename));
    if i < 0 {
        None
    } else {
        rows[i].label
    }
}

/// The cache entry of a file, if it has one.
pub open spec fn thumbnail_at(
    rows: Seq<ThumbnailCacheEntryView>,
    session_id: Seq<char>,
    filename: Seq<char>,
) -> Option<ThumbnailCacheEntryView> {
    let i = position(rows, thumbnail_is(session_id, filename));
    if i < 0 {
        None
    } else {
        Some(rows[i])
    }
}

/// A table with `row` put under the key that `hit` accepts: in place of the
/// row found there, or at the end when there is none.
pub open spec fn put_row<T>(rows: Seq<T>, hit: spec_fn(T) -> bool, row: T) -> Seq<T> {
    let i = position(rows, hit);
    if i < 0 {
        rows.push(row)
    } else {
        rows.update(i, row)
    }
}

/// The label table with a stored row put back. A row without a tag stands
/// for no label and is left out.
pub open spec fn labels_with(rows: Seq<LabelView>, row: LabelView) -> Seq<LabelView> {
    if row.label is Some {
        put_row(rows, label_is(row.session_id, row.filename), row)
    } else {
        rows
    }
}

// ---------------------------------------------------------------------------
// What each operation does to a table
// ---------------------------------------------------------------------------

/// The session table after the folder at `folder_path` was opened at `now`
/// with `total_files` images in it. A folder seen before keeps its row, its
/// position bookmark and its creation time; a new folder gets a row with the
/// bookmark at zero.
pub open spec fn sessions_after_open(
    rows: Seq<SessionView>,
    folder_path: Seq<char>,
    total_files: i32,
    now: Seq<char>,
) -> Seq<SessionView> {
    let id = session_id_of(folder_path);
    let i = position(rows, session_is(id));
    if i < 0 {
        rows.push(
            SessionView {
                id,
                folder_path,
                last_opened: Some(now),
                last_selected_index: 0,
                total_files,
                created_at: now,
            },
        )
    } else {
        rows.update(i, SessionView { last_opened: Some(now), total_files, ..rows[i] })
    }
}

/// The session table after the bookmark of session `id` was moved to `index`
/// at `now`. An unknown session changes nothing.
pub open spec fn sessions_after_select(
    rows: Seq<SessionView>,
    id: Seq<char>,
    index: i32,
    now: Seq<char>,
) -> Seq<SessionView> {
    let i = position(rows, session_is(id));
    if i < 0 {
        rows
    } else {
        rows.update(i, SessionView { last_selected_index: index, last_opened: Some(now), ..rows[i] })
    }
}

/// The label table after a file was tagged `label` at `now`.
pub open spec fn labels_after_tag(
    rows: Seq<LabelView>,
    session_id: Seq<char>,
    filename: Seq<char>,
    label: Seq<char>,
    now: Seq<char>,
) -> Seq<LabelView> {
    let i = position(rows, label_is(session_id, filename));
    let row = LabelView { session_id, filename, label: Some(label), updated_at: now };
    if i < 0 {
        rows.push(row)
    } else {
        rows.update(i, row)
    }
}

/// The label table after the tag of a file was cleared: its row is gone.
pub open spec fn labels_after_clear(
    rows: Seq<LabelView>,
    session_id: Seq<char>,
    filename: Seq<char>,
) -> Seq<LabelView> {
    let i = position(rows, label_is(session_id, filename));
    if i < 0 {
        rows
    } else {
        rows.remove(i)
    }
}

/// The label table after `set_label`.
pub open spec fn labels_after_set(
    rows: Seq<LabelView>,
    session_id: Seq<char>,
    filename: Seq<char>,
    label: Option<Seq<char>>,
    now: Seq<char>,
) -> Seq<LabelView> {
    match label {
        Some(tag) => labels_after_tag(rows, session_id, filename, tag, now),
        None => labels_after_clear(rows, session_id, filename),
    }
}

/// The cache table after the thumbnail of a file was recorded at `now`. An
/// entry that is replaced keeps its creation time.
pub open spec fn thumbnails_after_set(
    rows: Seq<ThumbnailCacheEntryView>,
    session_id: Seq<char>,
    filename: Seq<char>,
    cache_path: Seq<char>,
    original_modified: Seq<char>,
    now: Seq<char>,
) -> Seq<ThumbnailCacheEntryView> {
    let i = position(rows, thumbnail_is(session_id, filename));
    if i < 0 {
        rows.push(
            ThumbnailCacheEntryView {
                session_id,
                filename,
                cache_path,
                original_modified,
                created_at: now,
            },
        )
    } else {
        rows.update(i, ThumbnailCacheEntryView { cache_path, original_modified, ..rows[i] })
    }
}

// ---------------------------------------------------------------------------
// Well-formedness
// ---------------------------------------------------------------------------

/// No two sessions share an identifier.
pub open spec fn unique_sessions(rows: Seq<SessionView>) -> bool {
    forall|i: int, j: int|
        0 <= i < j < rows.len() ==> (#[trigger] rows[i]).id != (#[trigger] rows[j]).id
}

/// No file has two labels, and every row carries a tag.
pub open spec fn unique_labels(rows: Seq<LabelView>) -> bool {
    &&& forall|i: int, j: int|
        0 <= i < j < rows.len() ==> !((#[trigger] rows[i]).session_id == (#[trigger] rows[j]).session_id
            && rows[i].filename == rows[j].filename)
    &&& forall|i: int| 0 <= i < rows.len() ==> (#[trigger] rows[i]).label is Some
}

/// No file has two cache entries.
pub open spec fn unique_thumbnails(rows: Seq<ThumbnailCacheEntryView>) -> bool {
    forall|i: int, j: int|
        0 <= i < j < rows.len() ==> !((#[trigger] rows[i]).session_id == (#[trigger] rows[j]).session_id
            && rows[i].filename == rows[j].filename)
}

/// The three tables of a store.
pub struct StoreView {
    pub sessions: Seq<SessionView>,
    pub labels: Seq<LabelView>,
    pub thumbnails: Seq<ThumbnailCacheEntryView>,
}

impl StoreView {
    /// Every key occurs at most once in its table.
    pub open spec fn well_formed(self) -> bool {
        &&& unique_sessions(self.sessions)
        &&& unique_labels(self.labels)
        &&& unique_thumbnails(self.thumbnails)
    }
}

// ---------------------------------------------------------------------------
// Laws
// ---------------------------------------------------------------------------

/// Opening a folder never makes a second row for it: the table stays free of
/// duplicates, grows by at most one row, and afterwards holds the folder's
/// session with the time and file count just given.
pub proof fn lemma_open_keeps_one_row(
    rows: Seq<SessionView>,
    folder_path: Seq<char>,
    total_files: i32,
    now: Seq<char>,
)
    requires
        unique_sessions(rows),
    ensures
        unique_sessions(sessions_after_open(rows, folder_path, total_files, now)),
        rows.len() <= sessions_after_open(rows, folder_path, total_files, now).len() <= rows.len()
            + 1,
        session_at(
            sessions_after_open(rows, folder_path, total_files, now),
            session_id_of(folder_path),
        ) matches Some(s) && s.last_opened == Some(now) && s.total_files == total_files && s.id
            == session_id_of(folder_path),
        session_at(rows, session_id_of(folder_path)) matches Some(before) ==> session_at(
            sessions_after_open(rows, folder_path, total_files, now),
            session_id_of(folder_path),
        ) == Some(SessionView { last_opened: Some(now), total_files, ..before }),
{
    let id = session_id_of(folder_path);
    let hit = session_is(id);
    let after = sessions_after_open(rows, folder_path, total_files, now);
    lemma_position(rows, hit);
    let i = position(rows, hit);
    if i < 0 {
        assert(hit(after[rows.len() as int]));
        assert forall|j: int| 0 <= j < rows.len() implies !hit(#[trigger] after[j]) by {
            assert(after[j] == rows[j]);
        }
        lemma_position_is(after, hit, rows.len() as int);
        assert forall|a: int, b: int| 0 <= a < b < after.len() implies (#[trigger] after[a]).id != (
        #[trigger] after[b]).id by {
            if b == rows.len() {
                assert(after[a] == rows[a]);
                assert(!hit(rows[a]));
            } else {
                assert(after[a] == rows[a] && after[b] == rows[b]);
            }
        }
    } else {
        assert(hit(after[i]));
        assert forall|j: int| 0 <= j < i implies !hit(#[trigger] after[j]) by {
            assert(after[j] == rows[j]);
        }
        lemma_position_is(after, hit, i);
        assert forall|a: int, b: int| 0 <= a < b < after.len() implies (#[trigger] after[a]).id != (
        #[trigger] after[b]).id by {
            assert(after[a].id == rows[a].id && after[b].id == rows[b].id);
        }
    }
}

/// A tag that was set is read back, alone under its key, and no other file's
/// tag is touched.
pub proof fn lemma_tag_then_read(
    rows: Seq<LabelView>,
    session_id: Seq<char>,
    filename: Seq<char>,
    label: Seq<char>,
    now: Seq<char>,
)
    requires
        unique_labels(rows),
    ensures
        unique_labels(labels_after_tag(rows, session_id, filename, label, now)),
        label_at(labels_after_tag(rows, session_id, filename, label, now), session_id, filename)
            == Some(label),
        labels_after_tag(rows, session_id, filename, label, now).filter(label_in(session_id)).contains(
            LabelView { session_id, filename, label: Some(label), updated_at: now },
        ),
        forall|s: Seq<char>, f: Seq<char>|
            !(s == session_id && f == filename) ==> #[trigger] label_at(
                labels_after_tag(rows, session_id, filename, label, now),
                s,
                f,
            ) == label_at(rows, s, f),
{
    let hit = label_is(session_id, filename);
    let row = LabelView { session_id, filename, label: Some(label), updated_at: now };
    let after = labels_after_tag(rows, session_id, filename, label, now);
    lemma_position(rows, hit);
    let i = position(rows, hit);
    let at = if i < 0 {
        rows.len() as int
    } else {
        i
    };
    assert(after[at] == row);
    assert(hit(row));
    assert forall|j: int| 0 <= j < after.len() && j != at implies #[trigger] after[j] == rows[j]
        && !hit(rows[j]) by {
        if i >= 0 && j > i {
            assert(!(rows[i].session_id == rows[j].session_id && rows[i].filename
                == rows[j].filename));
        }
    }
    lemma_position_is(after, hit, at);
    assert(label_in(session_id)(after[at]));
    after.lemma_filter_contains(label_in(session_id), at);
    assert forall|s: Seq<char>, f: Seq<char>| !(s == session_id && f == filename) implies #[trigger]
        label_at(after, s, f) == label_at(rows, s, f) by {
        let other = label_is(s, f);
        lemma_position(rows, other);
        lemma_position(after, other);
        let p = position(rows, other);
        let q = position(after, other);
        assert(!other(row));
        if p >= 0 {
            assert(after[p] == rows[p]);
            if q < 0 || q > p {
                assert(!other(after[p]));
            }
            if q >= 0 && q < p {
                assert(after[q] == rows[q]);
            }
        } else if q >= 0 {
            assert(after[q] == rows[q]);
        }
    }
}

/// A tag that was cleared is gone for good: no row of the file is left, the
/// file reads as never labelled, and no other file's tag is touched.
pub proof fn lemma_clear_then_read(rows: Seq<LabelView>, session_id: Seq<char>, filename: Seq<char>)
    requires
        unique_labels(rows),
    ensures
        unique_labels(labels_after_clear(rows, session_id, filename)),
        label_at(labels_after_clear(rows, session_id, filename), session_id, filename) is None,
        forall|k: int|
            0 <= k < labels_after_clear(rows, session_id, filename).len() ==> !label_is(
                session_id,
                filename,
            )(#[trigger] labels_after_clear(rows, session_id, filename)[k]),
        forall|s: Seq<char>, f: Seq<char>|
            !(s == session_id && f == filename) ==> #[trigger] label_at(
                labels_after_clear(rows, session_id, filename),
                s,
                f,
            ) == label_at(rows, s, f),
{
    let hit = label_is(session_id, filename);
    let after = labels_after_clear(rows, session_id, filename);
    lemma_position(rows, hit);
    lemma_position(after, hit);
    let i = position(rows, hit);
    if i >= 0 {
        assert forall|k: int| 0 <= k < after.len() implies !hit(#[trigger] after[k]) by {
            if k < i {
                assert(after[k] == rows[k]);
            } else {
                assert(after[k] == rows[k + 1]);
                assert(!(rows[i].session_id == rows[k + 1].session_id && rows[i].filename == rows[k
                    + 1].filename));
            }
        }
        assert forall|a: int, b: int| 0 <= a < b < after.len() implies !((
        #[trigger] after[a]).session_id == (#[trigger] after[b]).session_id && after[a].filename
            == after[b].filename) by {
            let a0 = if a < i {
                a
            } else {
                a + 1
            };
            let b0 = if b < i {
                b
            } else {
                b + 1
            };
            assert(after[a] == rows[a0] && after[b] == rows[b0]);
        }
        assert forall|k: int| 0 <= k < after.len() implies (#[trigger] after[k]).label is Some by {
            let k0 = if k < i {
                k
            } else {
                k + 1
            };
            assert(after[k] == rows[k0]);
        }
    }
    assert forall|s: Seq<char>, f: Seq<char>| !(s == session_id && f == filename) implies #[trigger]
        label_at(after, s, f) == label_at(rows, s, f) by {
        if i >= 0 {
            let other = label_is(s, f);
            lemma_position(rows, other);
            lemma_position(after, other);
            let p = position(rows, other);
            let q = position(after, other);
            assert(!other(rows[i]));
            if p >= 0 {
                let p1 = if p < i {
                    p
                } else {
                    p - 1
                };
                assert(after[p1] == rows[p]);
                if q >= 0 && q != p1 {
                    let q0 = if q < i {
                        q
                    } else {
                        q + 1
                    };
                    assert(after[q] == rows[q0]);
                }
            } else if q >= 0 {
                let q0 = if q < i {
                    q
                } else {
                    q + 1
                };
                assert(after[q] == rows[q0]);
            }
        }
    }
}

/// The label table after a series of tags was written to one file, one after
/// the other.
pub open spec fn labels_after_tags(
    rows: Seq<LabelView>,
    session_id: Seq<char>,
    filename: Seq<char>,
    writes: Seq<(Seq<char>, Seq<char>)>,
) -> Seq<LabelView>
    decreases writes.len(),
{
    if writes.len() == 0 {
        rows
    } else {
        labels_after_tag(
            labels_after_tags(rows, session_id, filename, writes.drop_last()),
            session_id,
            filename,
            writes.last().0,
            writes.last().1,
        )
    }
}

/// Writers that race for one file are served one at a time, in some order.
/// Whatever that order is, the file ends up with exactly one row, and the row
/// holds, whole, what the writer served last wrote.
pub proof fn lemma_last_writer_wins(
    rows: Seq<LabelView>,
    session_id: Seq<char>,
    filename: Seq<char>,
    writes: Seq<(Seq<char>, Seq<char>)>,
)
    requires
        unique_labels(rows),
        writes.len() > 0,
    ensures
        unique_labels(labels_after_tags(rows, session_id, filename, writes)),
        labels_after_tags(rows, session_id, filename, writes).filter(label_is(session_id, filename))
            == seq![
            LabelView {
                session_id,
                filename,
                label: Some(writes.last().0),
                updated_at: writes.last().1,
            },
        ],
        label_at(labels_after_tags(rows, session_id, filename, writes), session_id, filename)
            == Some(writes.last().0),
{
    lemma_tags_keep_unique(rows, session_id, filename, writes.drop_last());
    let before = labels_after_tags(rows, session_id, filename, writes.drop_last());
    let after = labels_after_tags(rows, session_id, filename, writes);
    lemma_tag_then_read(before, session_id, filename, writes.last().0, writes.last().1);
    let hit = label_is(session_id, filename);
    let row = LabelView {
        session_id,
        filename,
        label: Some(writes.last().0),
        updated_at: writes.last().1,
    };
    lemma_position(before, hit);
    lemma_position(after, hit);
    let at = position(after, hit);
    let i = position(before, hit);
    assert(at == (if i < 0 {
        before.len() as int
    } else {
        i
    })) by {
        let want = if i < 0 {
            before.len() as int
        } else {
            i
        };
        assert(after[want] == row);
        assert(hit(row));
        assert forall|j: int| 0 <= j < want implies !hit(#[trigger] after[j]) by {
            assert(after[j] == before[j]);
        }
        lemma_position_is(after, hit, want);
    }
    assert(after[at] == row);
    lemma_filter_one(after, hit, at);
}

proof fn lemma_tags_keep_unique(
    rows: Seq<LabelView>,
    session_id: Seq<char>,
    filename: Seq<char>,
    writes: Seq<(Seq<char>, Seq<char>)>,
)
    requires
        unique_labels(rows),
    ensures
        unique_labels(labels_after_tags(rows, session_id, filename, writes)),
    decreases writes.len(),
{
    if writes.len() > 0 {
        lemma_tags_keep_unique(rows, session_id, filename, writes.drop_last());
        lemma_tag_then_read(
            labels_after_tags(rows, session_id, filename, writes.drop_last()),
            session_id,
            filename,
            writes.last().0,
            writes.last().1,
        );
    }
}

} // verus!
