//! The scanner: turns the raw listing of one directory into the sorted list of
//! images shown to the user.
//!
//! Reading the directory is the caller's business. The scanner receives what
//! was read, one [`DirEntry`] per direct child, and decides which entries are
//! images, what is reported about each, and in which order. That order is the
//! canonical index that "last selected position" refers to, so it has to be
//! the same for every scan of the same folder.

use vstd::prelude::*;
use crate::error::GlimpseError;
use crate::formats::{classify_file, kind_of_file};
use crate::numbers::{padded, zero_padded};
use crate::sequences::{lemma_filter_none, lemma_filter_one};
use crate::text::{extension_of, normalize_path, normalized, precedes, text_le};

verus! {

broadcast use {
    vstd::seq_lib::group_seq_properties,
    vstd::seq::group_seq_axioms,
};

/// Text shown in place of a modification time that could not be read.
pub open spec fn unknown_time() -> Seq<char> {
    "-"@
}

// ---------------------------------------------------------------------------
// Modification times
// ---------------------------------------------------------------------------

/// A point in time on the user's calendar and clock, to the minute.
#[derive(Clone, Copy, Debug, PartialEq, Eq, Structural)]
pub struct LocalTime {
    pub year: i32,
    pub month: u32,
    pub day: u32,
    pub hour: u32,
    pub minute: u32,
}

/// A year in at least four digits. Years before 0 and after 9999 carry a sign.
pub open spec fn year_text(year: int) -> Seq<char> {
    if 0 <= year < 10000 {
        zero_padded(year as nat, 4)
    } else if year < 0 {
        seq!['-'] + zero_padded((-year) as nat, 4)
    } else {
        seq!['+'] + zero_padded(year as nat, 4)
    }
}

/// A time in the form `2024/03/09 07:05`.
pub open spec fn time_text(t: LocalTime) -> Seq<char> {
    year_text(t.year as int) + seq!['/'] + zero_padded(t.month as nat, 2) + seq!['/'] + zero_padded(
        t.day as nat,
        2,
    ) + seq![' '] + zero_padded(t.hour as nat, 2) + seq![':'] + zero_padded(t.minute as nat, 2)
}

/// What is shown as the modification time of a file: the time itself, or a
/// dash when it could not be read.
pub open spec fn modified_text(modified: Option<LocalTime>) -> Seq<char> {
    match modified {
        Some(t) => time_text(t),
        None => unknown_time(),
    }
}

/// Formats the modification time of a file for display. A time that could
/// not be read does not fail anything: it is shown as a dash.
pub fn format_modified(modified: Option<LocalTime>) -> (text: String)
    ensures
        text@ == modified_text(modified),
{
    match modified {
        None => String::from_str("-"),
        Some(t) => {
            let mut text = String::new();
            if t.year < 0 {
                text.push('-');
                let magnitude: u64 = (-(t.year as i64)) as u64;
                text.append(padded(magnitude, 4).as_str());
                assert(text@ =~= year_text(t.year as int));
            } else {
                if t.year >= 10000 {
                    text.push('+');
                }
                text.append(padded(t.year as u64, 4).as_str());
                assert(text@ =~= year_text(t.year as int));
            }
            text.push('/');
            text.append(padded(t.month as u64, 2).as_str());
            text.push('/');
            text.append(padded(t.day as u64, 2).as_str());
            text.push(' ');
            text.append(padded(t.hour as u64, 2).as_str());
            text.push(':');
            text.append(padded(t.minute as u64, 2).as_str());
            assert(text@ =~= time_text(t));
            text
        },
    }
}

// ---------------------------------------------------------------------------
// Data
// ---------------------------------------------------------------------------

/// One image of a scanned folder. Produced fresh by every scan, never stored.
#[derive(Debug)]
pub struct ImageInfo {
    /// Name of the file inside its folder.
    pub filename: String,
    /// Full path with forward slashes.
    pub path: String,
    /// Size in bytes.
    pub size: u64,
    /// Formatted modification time, or `-` when it is unknown.
    pub modified_at: String,
}

/// Mathematical form of an [`ImageInfo`].
pub struct ImageInfoView {
    pub filename: Seq<char>,
    pub path: Seq<char>,
    pub size: u64,
    pub modified_at: Seq<char>,
}

impl View for ImageInfo {
    type V = ImageInfoView;

    open spec fn view(&self) -> ImageInfoView {
        ImageInfoView {
            filename: self.filename@,
            path: self.path@,
            size: self.size,
            modified_at: self.modified_at@,
        }
    }
}

impl DeepView for ImageInfo {
    type V = ImageInfoView;

    open spec fn deep_view(&self) -> ImageInfoView {
        self@
    }
}

impl Clone for ImageInfo {
    fn clone(&self) -> (copy: Self)
        ensures
            copy@ == self@,
    {
        ImageInfo {
            filename: self.filename.clone(),
            path: self.path.clone(),
            size: self.size,
            modified_at: self.modified_at.clone(),
        }
    }
}

/// What could be read about a file: its size and its formatted modification time.
#[derive(Debug)]
pub struct FileMetadata {
    pub size: u64,
    pub modified_at: String,
}

/// One direct child of the scanned directory, as the caller read it.
#[derive(Debug)]
pub struct DirEntry {
    /// Name of the entry inside the directory.
    pub file_name: String,
    /// Path of the entry, in the platform's own spelling.
    pub path: String,
    /// Whether the entry is a regular file.
    pub is_file: bool,
    /// The file's metadata, or the reason it could not be read. A file
    /// without metadata is still listed.
    pub metadata: Result<FileMetadata, String>,
}

/// Mathematical form of a [`DirEntry`].
pub struct DirEntryView {
    pub file_name: Seq<char>,
    pub path: Seq<char>,
    pub is_file: bool,
    pub size: u64,
    pub modified_at: Seq<char>,
    /// `Some` with the reason when the metadata could not be read.
    pub failure: Option<Seq<char>>,
}

impl View for DirEntry {
    type V = DirEntryView;

    open spec fn view(&self) -> DirEntryView {
        DirEntryView {
            file_name: self.file_name@,
            path: self.path@,
            is_file: self.is_file,
            size: match self.metadata {
                Ok(m) => m.size,
                Err(_) => 0,
            },
            modified_at: match self.metadata {
                Ok(m) => m.modified_at@,
                Err(_) => Seq::empty(),
            },
            failure: match self.metadata {
                Ok(_) => None,
                Err(reason) => Some(reason@),
            },
        }
    }
}

impl DeepView for DirEntry {
    type V = DirEntryView;

    open spec fn deep_view(&self) -> DirEntryView {
        self@
    }
}

// ---------------------------------------------------------------------------
// What a scan yields
// ---------------------------------------------------------------------------

/// An entry is an image when it is a regular file whose name carries one of
/// the known extensions.
pub open spec fn is_image(e: DirEntryView) -> bool {
    e.is_file && kind_of_file(extension_of(e.file_name)) is Some
}

/// What is reported about an image. An image whose metadata could not be
/// read is reported all the same, with no size and with the placeholder in
/// place of its modification time.
pub open spec fn info_of(e: DirEntryView) -> ImageInfoView {
    ImageInfoView {
        filename: e.file_name,
        path: normalized(e.path),
        size: e.size,
        modified_at: if e.failure is Some {
            unknown_time()
        } else {
            e.modified_at
        },
    }
}

/// The images of a listing, in the order in which they were listed.
pub open spec fn images_in(entries: Seq<DirEntryView>) -> Seq<ImageInfoView> {
    entries.filter(|e: DirEntryView| is_image(e)).map_values(|e: DirEntryView| info_of(e))
}

/// Ascending by file name.
pub open spec fn sorted_by_name(images: Seq<ImageInfoView>) -> bool {
    forall|i: int, j: int|
        0 <= i <= j < images.len() ==> text_le(
            #[trigger] images[i].filename,
            #[trigger] images[j].filename,
        )
}

/// Selects the images called `name`.
pub open spec fn named(name: Seq<char>) -> spec_fn(ImageInfoView) -> bool {
    |i: ImageInfoView| i.filename == name
}

/// `a` holds exactly the images of `b`, and images that share a name come in
/// the same order in both.
pub open spec fn same_images(a: Seq<ImageInfoView>, b: Seq<ImageInfoView>) -> bool {
    forall|name: Seq<char>| #[trigger] a.filter(named(name)) == b.filter(named(name))
}

/// `sorted` is `images` put in order: ascending by name, nothing added or
/// lost, and images of one name in the order they had.
pub open spec fn is_sorted_form_of(
    sorted: Seq<ImageInfoView>,
    images: Seq<ImageInfoView>,
) -> bool {
    &&& sorted_by_name(sorted)
    &&& same_images(sorted, images)
    &&& sorted.len() == images.len()
}

// ---------------------------------------------------------------------------
// Laws
// ---------------------------------------------------------------------------

/// A name that occurs in a sequence of images has a non-empty selection.
proof fn lemma_named_member(s: Seq<ImageInfoView>, i: int)
    requires
        0 <= i < s.len(),
    ensures
        s.filter(named(s[i].filename)).len() > 0,
        s.filter(named(s[i].filename)).contains(s[i]),
{
    let p = named(s[i].filename);
    assert(p(s[i]));
    s.lemma_filter_contains(p, i);
}

/// Every selected image is one of the sequence and has the selected name.
proof fn lemma_named_origin(s: Seq<ImageInfoView>, name: Seq<char>, k: int) -> (i: int)
    requires
        0 <= k < s.filter(named(name)).len(),
    ensures
        0 <= i < s.len(),
        s[i] == s.filter(named(name))[k],
        s[i].filename == name,
{
    let p = named(name);
    let f = s.filter(p);
    s.lemma_filter_pred(p, k);
    assert(p(f[k]));
    assert(f.contains(f[k]));
    s.lemma_filter_contains_rev(p, f[k]);
    let i = choose|i: int| 0 <= i < s.len() && s[i] == f[k];
    i
}

/// The first image of a sequence leads the selection of its own name.
proof fn lemma_named_first(s: Seq<ImageInfoView>)
    requires
        s.len() > 0,
    ensures
        s.filter(named(s[0].filename)).len() > 0,
        s.filter(named(s[0].filename))[0] == s[0],
        forall|name: Seq<char>|
            #[trigger] s.skip(1).filter(named(name)) == (if s[0].filename == name {
                s.filter(named(name)).skip(1)
            } else {
                s.filter(named(name))
            }),
{
    assert(s =~= seq![s[0]] + s.skip(1));
    assert forall|name: Seq<char>|
        #[trigger] s.skip(1).filter(named(name)) == (if s[0].filename == name {
            s.filter(named(name)).skip(1)
        } else {
            s.filter(named(name))
        }) by {
        let p = named(name);
        s.skip(1).lemma_filter_prepend(s[0], p);
        if p(s[0]) {
            assert((seq![s[0]] + s.skip(1).filter(p)).skip(1) =~= s.skip(1).filter(p));
        } else {
            assert(Seq::<ImageInfoView>::empty() + s.skip(1).filter(p) =~= s.skip(1).filter(p));
        }
    }
    let p0 = named(s[0].filename);
    s.skip(1).lemma_filter_prepend(s[0], p0);
    assert(p0(s[0]));
}

/// The sorted form of a list of images is unique: whatever puts the same
/// images in ascending order, keeping images of one name in their order,
/// arrives at the same sequence. Two scans of an unchanged folder therefore
/// agree in order and in every reported field.
pub proof fn lemma_sorted_form_unique(
    a: Seq<ImageInfoView>,
    b: Seq<ImageInfoView>,
    images: Seq<ImageInfoView>,
)
    requires
        is_sorted_form_of(a, images),
        is_sorted_form_of(b, images),
    ensures
        a == b,
{
    assert forall|name: Seq<char>| #[trigger] a.filter(named(name)) == b.filter(named(name)) by {
        assert(a.filter(named(name)) == images.filter(named(name)));
        assert(b.filter(named(name)) == images.filter(named(name)));
    }
    lemma_sorted_equal(a, b);
}

/// Two sequences in ascending order that select the same images under every
/// name are the same sequence.
proof fn lemma_sorted_equal(a: Seq<ImageInfoView>, b: Seq<ImageInfoView>)
    requires
        sorted_by_name(a),
        sorted_by_name(b),
        same_images(a, b),
    ensures
        a == b,
    decreases a.len(),
{
    if a.len() == 0 {
        if b.len() > 0 {
            lemma_named_member(b, 0);
            assert(a.filter(named(b[0].filename)) == b.filter(named(b[0].filename)));
            a.lemma_filter_len(named(b[0].filename));
        }
        assert(a =~= b);
    } else {
        let n = a[0].filename;
        lemma_named_first(a);
        assert(a.filter(named(n)) == b.filter(named(n)));
        let ib = lemma_named_origin(b, n, 0);
        // `b` is not empty and holds an image called `n`, at `ib`.
        let m = b[0].filename;
        lemma_named_first(b);
        assert(a.filter(named(m)) == b.filter(named(m)));
        let ia = lemma_named_origin(a, m, 0);
        // Each head sorts at or before the other's, so the two share a name.
        assert(text_le(a[0].filename, a[ia].filename));
        assert(text_le(b[0].filename, b[ib].filename));
        crate::text::lemma_text_le_total_order(n, m, n);
        assert(n == m);
        assert(a[0] == b[0]);
        assert forall|name: Seq<char>|
            #[trigger] a.skip(1).filter(named(name)) == b.skip(1).filter(named(name)) by {
            assert(a.filter(named(name)) == b.filter(named(name)));
        }
        assert(sorted_by_name(a.skip(1))) by {
            assert forall|i: int, j: int| 0 <= i <= j < a.skip(1).len() implies text_le(
                #[trigger] a.skip(1)[i].filename,
                #[trigger] a.skip(1)[j].filename,
            ) by {
                assert(text_le(a[i + 1].filename, a[j + 1].filename));
            }
        }
        assert(sorted_by_name(b.skip(1))) by {
            assert forall|i: int, j: int| 0 <= i <= j < b.skip(1).len() implies text_le(
                #[trigger] b.skip(1)[i].filename,
                #[trigger] b.skip(1)[j].filename,
            ) by {
                assert(text_le(b[i + 1].filename, b[j + 1].filename));
            }
        }
        lemma_sorted_equal(a.skip(1), b.skip(1));
        assert(a =~= seq![a[0]] + a.skip(1));
        assert(b =~= seq![b[0]] + b.skip(1));
    }
}

/// No two entries share a name, as in any directory.
pub open spec fn distinct_entries(entries: Seq<DirEntryView>) -> bool {
    forall|i: int, j: int|
        0 <= i < j < entries.len() ==> (#[trigger] entries[i]).file_name != (
        #[trigger] entries[j]).file_name
}

/// Accepts the image entry called `name`.
spec fn image_named(name: Seq<char>) -> spec_fn(DirEntryView) -> bool {
    |e: DirEntryView| is_image(e) && e.file_name == name
}

/// The images called `name` are the reports on the image entries called so.
proof fn lemma_images_named(entries: Seq<DirEntryView>, name: Seq<char>)
    ensures
        images_in(entries).filter(named(name)) == entries.filter(image_named(name)).map_values(
            |e: DirEntryView| info_of(e),
        ),
    decreases entries.len(),
{
    let keep = |e: DirEntryView| is_image(e);
    let info = |e: DirEntryView| info_of(e);
    if entries.len() == 0 {
        reveal(Seq::filter);
        assert(images_in(entries).filter(named(name)) =~= Seq::<ImageInfoView>::empty());
        assert(entries.filter(image_named(name)).map_values(info) =~= Seq::<
            ImageInfoView,
        >::empty());
    } else {
        let rest = entries.drop_last();
        let e = entries.last();
        lemma_images_named(rest, name);
        assert(entries =~= rest.push(e));
        rest.lemma_filter_push(e, keep);
        rest.lemma_filter_push(e, image_named(name));
        rest.filter(keep).lemma_push_map_commute(info, e);
        rest.filter(image_named(name)).lemma_push_map_commute(info, e);
        images_in(rest).lemma_filter_push(info_of(e), named(name));
    }
}

/// In a listing without repeated names, the selection of one name is the
/// entry that bears it, if it is an image, and empty otherwise.
proof fn lemma_one_entry_per_name(entries: Seq<DirEntryView>, name: Seq<char>)
    requires
        distinct_entries(entries),
    ensures
        forall|i: int|
            0 <= i < entries.len() && image_named(name)(#[trigger] entries[i]) ==> entries.filter(
                image_named(name),
            ) == seq![entries[i]],
        (forall|i: int| 0 <= i < entries.len() ==> !image_named(name)(#[trigger] entries[i]))
            ==> entries.filter(image_named(name)) == Seq::<DirEntryView>::empty(),
{
    let pick = image_named(name);
    assert forall|i: int| 0 <= i < entries.len() && pick(#[trigger] entries[i]) implies entries.filter(
        pick,
    ) == seq![entries[i]] by {
        assert forall|j: int| 0 <= j < entries.len() && j != i implies !pick(
            #[trigger] entries[j],
        ) by {
            if j < i {
                assert(entries[j].file_name != entries[i].file_name);
            } else {
                assert(entries[i].file_name != entries[j].file_name);
            }
        }
        lemma_filter_one(entries, pick, i);
    }
    if forall|i: int| 0 <= i < entries.len() ==> !pick(#[trigger] entries[i]) {
        lemma_filter_none(entries, pick);
    }
}

/// The order in which a directory lists its entries does not matter: two
/// listings of the same entries, in whatever order, scan to the same images
/// in the same order.
pub proof fn lemma_listing_order_is_irrelevant(
    first: Seq<DirEntryView>,
    second: Seq<DirEntryView>,
    scan_of_first: Seq<ImageInfoView>,
    scan_of_second: Seq<ImageInfoView>,
)
    requires
        first.to_multiset() == second.to_multiset(),
        distinct_entries(first),
        is_sorted_form_of(scan_of_first, images_in(first)),
        is_sorted_form_of(scan_of_second, images_in(second)),
    ensures
        scan_of_first == scan_of_second,
{
    first.to_multiset_ensures();
    second.to_multiset_ensures();
    // The second listing repeats no entry, and so no name, either.
    assert(first.no_duplicates()) by {
        assert forall|i: int, j: int|
            0 <= i < first.len() && 0 <= j < first.len() && i != j implies first[i] != first[j] by {
            if i < j {
                assert(first[i].file_name != first[j].file_name);
            } else {
                assert(first[j].file_name != first[i].file_name);
            }
        }
    }
    first.lemma_multiset_has_no_duplicates();
    second.lemma_multiset_has_no_duplicates_conv();
    assert(distinct_entries(second)) by {
        assert forall|i: int, j: int| 0 <= i < j < second.len() implies (
        #[trigger] second[i]).file_name != (#[trigger] second[j]).file_name by {
            assert(second.contains(second[i]) && second.contains(second[j]));
            assert(second.to_multiset().count(second[i]) > 0);
            assert(second.to_multiset().count(second[j]) > 0);
            assert(first.to_multiset().count(second[i]) > 0);
            assert(first.to_multiset().count(second[j]) > 0);
            assert(first.contains(second[i]) && first.contains(second[j]));
            let a = choose|a: int| 0 <= a < first.len() && first[a] == second[i];
            let b = choose|b: int| 0 <= b < first.len() && first[b] == second[j];
            assert(second[i] != second[j]);
            if a < b {
                assert(first[a].file_name != first[b].file_name);
            } else {
                assert(first[b].file_name != first[a].file_name);
            }
        }
    }
    assert forall|name: Seq<char>| #[trigger]
        scan_of_first.filter(named(name)) == scan_of_second.filter(named(name)) by {
        let pick = image_named(name);
        assert(scan_of_first.filter(named(name)) == images_in(first).filter(named(name)));
        assert(scan_of_second.filter(named(name)) == images_in(second).filter(named(name)));
        lemma_images_named(first, name);
        lemma_images_named(second, name);
        lemma_one_entry_per_name(first, name);
        lemma_one_entry_per_name(second, name);
        if exists|i: int| 0 <= i < first.len() && pick(first[i]) {
            let i = choose|i: int| 0 <= i < first.len() && pick(first[i]);
            assert(first.contains(first[i]));
            assert(first.to_multiset().count(first[i]) > 0);
            assert(second.to_multiset().count(first[i]) > 0);
            assert(second.contains(first[i]));
            let k = choose|k: int| 0 <= k < second.len() && second[k] == first[i];
            assert(pick(second[k]));
            assert(first.filter(pick) == seq![first[i]]);
            assert(second.filter(pick) == seq![second[k]]);
        } else {
            assert forall|k: int| 0 <= k < second.len() implies !pick(#[trigger] second[k]) by {
                if pick(second[k]) {
                    assert(second.contains(second[k]));
                    assert(second.to_multiset().count(second[k]) > 0);
                    assert(first.to_multiset().count(second[k]) > 0);
                    assert(first.contains(second[k]));
                    let a = choose|a: int| 0 <= a < first.len() && first[a] == second[k];
                    assert(pick(first[a]));
                }
            }
        }
    }
    lemma_sorted_equal(scan_of_first, scan_of_second);
}

// ---------------------------------------------------------------------------
// Scanning
// ---------------------------------------------------------------------------

/// Whether an entry is an image file.
pub fn entry_is_image(entry: &DirEntry) -> (r: bool)
    ensures
        r == is_image(entry@),
{
    entry.is_file && classify_file(entry.file_name.as_str()).is_some()
}

/// The images of a listing, in listing order. Every image is reported: one
/// whose metadata could not be read does not stop the scan.
pub fn collect_images(entries: &Vec<DirEntry>) -> (images: Vec<ImageInfo>)
    ensures
        images.deep_view() == images_in(entries.deep_view()),
{
    let ghost all = entries.deep_view();
    let mut images: Vec<ImageInfo> = Vec::new();
    let mut i: usize = 0;
    assert(all.take(0) =~= Seq::empty());
    assert(images.deep_view() =~= images_in(all.take(0))) by {
        reveal(Seq::filter);
    }
    while i < entries.len()
        invariant
            i <= entries.len(),
            all == entries.deep_view(),
            all.len() == entries.len(),
            images.deep_view() == images_in(all.take(i as int)),
        decreases entries.len() - i,
    {
        let entry = &entries[i];
        assert(all[i as int] == entry@);
        proof {
            let keep = |e: DirEntryView| is_image(e);
            let info = |e: DirEntryView| info_of(e);
            let before = all.take(i as int);
            assert(all.take(i + 1) =~= before.push(entry@));
            before.lemma_filter_push(entry@, keep);
            before.filter(keep).lemma_push_map_commute(info, entry@);
        }
        if entry_is_image(entry) {
            let ghost old_images = images.deep_view();
            let item = match &entry.metadata {
                Ok(meta) => ImageInfo {
                    filename: entry.file_name.clone(),
                    path: normalize_path(entry.path.as_str()),
                    size: meta.size,
                    modified_at: meta.modified_at.clone(),
                },
                Err(_) => ImageInfo {
                    filename: entry.file_name.clone(),
                    path: normalize_path(entry.path.as_str()),
                    size: 0,
                    modified_at: String::from_str("-"),
                },
            };
            assert(item@ == info_of(entry@));
            images.push(item);
            assert(images.deep_view() =~= old_images.push(info_of(entry@)));
        }
        i += 1;
    }
    assert(all.take(entries.len() as int) =~= all);
    images
}

/// Puts images in ascending order of file name. Images of the same name keep
/// the order they came in.
pub fn sort_by_filename(images: &Vec<ImageInfo>) -> (sorted: Vec<ImageInfo>)
    ensures
        is_sorted_form_of(sorted.deep_view(), images.deep_view()),
{
    let ghost all = images.deep_view();
    let mut out: Vec<ImageInfo> = Vec::new();
    let mut i: usize = 0;
    assert(all.take(0) =~= out.deep_view());
    while i < images.len()
        invariant
            i <= images.len(),
            all == images.deep_view(),
            all.len() == images.len(),
            is_sorted_form_of(out.deep_view(), all.take(i as int)),
            out.len() == i,
        decreases images.len() - i,
    {
        let item = images[i].clone();
        let ghost x = item@;
        assert(x == all[i as int]);
        let ghost before = out.deep_view();
        // Walk back from the end to the last image that does not sort after `item`.
        let mut p: usize = out.len();
        while p > 0 && !precedes(out[p - 1].filename.as_str(), item.filename.as_str())
            invariant
                p <= out.len(),
                before == out.deep_view(),
                x == item@,
                forall|j: int|
                    p <= j < before.len() ==> !text_le(#[trigger] before[j].filename, x.filename),
            decreases p,
        {
            assert(before[p - 1] == out[p - 1]@);
            p -= 1;
        }
        proof {
            if p > 0 {
                assert(before[p - 1] == out[p - 1]@);
                assert(text_le(before[p - 1].filename, x.filename));
            }
        }
        out.insert(p, item);
        proof {
            let after = out.deep_view();
            let head = before.take(p as int);
            let tail = before.skip(p as int);
            assert(after =~= head.push(x) + tail);
            assert(before =~= head + tail);
            assert(all.take(i + 1) =~= all.take(i as int).push(x));
            assert(sorted_by_name(after)) by {
                assert forall|a: int, b: int| 0 <= a <= b < after.len() implies text_le(
                    #[trigger] after[a].filename,
                    #[trigger] after[b].filename,
                ) by {
                    let na = after[a].filename;
                    let nb = after[b].filename;
                    if a == b {
                        crate::text::lemma_text_le_total_order(na, na, na);
                    } else if b < p {
                        assert(after[a] == before[a] && after[b] == before[b]);
                    } else if b == p {
                        // a < p: before[a] <= before[p - 1] <= x
                        assert(after[a] == before[a]);
                        assert(text_le(before[a].filename, before[p - 1].filename));
                        crate::text::lemma_text_le_total_order(
                            before[a].filename,
                            before[p - 1].filename,
                            x.filename,
                        );
                    } else if a == p {
                        // x against a later image, which does not precede x
                        assert(after[b] == before[b - 1]);
                        crate::text::lemma_text_le_total_order(x.filename, nb, nb);
                    } else if a < p {
                        assert(after[a] == before[a] && after[b] == before[b - 1]);
                    } else {
                        assert(after[a] == before[a - 1] && after[b] == before[b - 1]);
                    }
                }
            }
            assert forall|name: Seq<char>| #[trigger]
                after.filter(named(name)) == all.take(i + 1).filter(named(name)) by {
                let pick = named(name);
                assert(before.filter(pick) == all.take(i as int).filter(pick));
                Seq::filter_distributes_over_add(head, tail, pick);
                Seq::filter_distributes_over_add(head.push(x), tail, pick);
                head.lemma_filter_push(x, pick);
                all.take(i as int).lemma_filter_push(x, pick);
                if pick(x) {
                    // No later image is called `name`: each of them sorts after `x`.
                    if tail.filter(pick).len() > 0 {
                        let k = lemma_named_origin(tail, name, 0);
                        assert(tail[k] == before[p + k]);
                        crate::text::lemma_text_le_total_order(name, name, name);
                    }
                    assert(tail.filter(pick) =~= Seq::empty());
                    assert(head.filter(pick).push(x) + tail.filter(pick) =~= (head.filter(pick)
                        + tail.filter(pick)).push(x));
                }
            }
        }
        i += 1;
    }
    assert(all.take(images.len() as int) =~= all);
    out
}

/// The images of a listing in their canonical order: ascending by file name.
pub fn list_images(entries: &Vec<DirEntry>) -> (images: Vec<ImageInfo>)
    ensures
        is_sorted_form_of(images.deep_view(), images_in(entries.deep_view())),
{
    let images = collect_images(entries);
    sort_by_filename(&images)
}

/// Scans one directory listing: keeps the image files, reports name, display
/// path, size and modification time of each, and orders them by file name.
///
/// The result does not depend on anything but the listing, and the scan of a
/// listing never fails: an image whose metadata could not be read is listed
/// with the placeholder for its time.
pub fn scan_folder(entries: &Vec<DirEntry>) -> (res: Result<Vec<ImageInfo>, GlimpseError>)
    ensures
        res matches Ok(images) && is_sorted_form_of(
            images.deep_view(),
            images_in(entries.deep_view()),
        ),
{
    Ok(list_images(entries))
}

} // verus!
