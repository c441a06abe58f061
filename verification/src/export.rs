//! The export stage: which files of a folder are handed on, where they go,
//! and how the outcome is counted.
//!
//! A file is exported unless it is tagged `rejected`. Copying and moving are
//! done by the caller, one [`ExportJob`] at a time; a job that fails is
//! counted and does not stop the export.

use vstd::prelude::*;
use crate::scanner::{ImageInfo, ImageInfoView};
use crate::text::{join_path, joined, same_text};

verus! {

broadcast use {
    vstd::seq_lib::group_seq_properties,
    vstd::seq::group_seq_axioms,
    vstd::set::group_set_axioms,
};

/// The export in numbers.
#[derive(Clone, Copy, Debug, PartialEq, Eq, Structural)]
pub struct ExportResult {
    /// Images in the source folder.
    pub total: usize,
    /// Files that arrived at the destination.
    pub copied: usize,
    /// Files held back because they are rejected.
    pub skipped: usize,
    /// Files that could not be copied or moved.
    pub failed: usize,
}

/// One file to copy or move.
#[derive(Debug)]
pub struct ExportJob {
    /// Path of the file to export.
    pub source: String,
    /// Path the file is exported to.
    pub destination: String,
    /// Whether the source is deleted once it has been copied.
    pub remove_source: bool,
}

/// Mathematical form of an [`ExportJob`].
pub struct ExportJobView {
    pub source: Seq<char>,
    pub destination: Seq<char>,
    pub remove_source: bool,
}

impl View for ExportJob {
    type V = ExportJobView;

    open spec fn view(&self) -> ExportJobView {
        ExportJobView {
            source: self.source@,
            destination: self.destination@,
            remove_source: self.remove_source,
        }
    }
}

impl DeepView for ExportJob {
    type V = ExportJobView;

    open spec fn deep_view(&self) -> ExportJobView {
        self@
    }
}

/// Whether `mode` asks for files to be moved. Every other mode copies.
pub open spec fn is_move(mode: Seq<char>) -> bool {
    mode == "move"@
}

/// The job that exports `image` into `destination_folder`: the file keeps
/// its name.
pub open spec fn job_for(image: ImageInfoView, destination_folder: Seq<char>, mode: Seq<char>) -> ExportJobView {
    ExportJobView {
        source: image.path,
        destination: joined(destination_folder, image.filename),
        remove_source: is_move(mode),
    }
}

/// Accepts the images that are not among the rejected names.
pub open spec fn adopted(rejected: Seq<Seq<char>>) -> spec_fn(ImageInfoView) -> bool {
    |i: ImageInfoView| !rejected.contains(i.filename)
}

/// Accepts the images that are among the rejected names.
pub open spec fn held_back(rejected: Seq<Seq<char>>) -> spec_fn(ImageInfoView) -> bool {
    |i: ImageInfoView| rejected.contains(i.filename)
}

/// The jobs of an export: one for every image that is not rejected, in the
/// order of the images.
pub open spec fn jobs_for(
    images: Seq<ImageInfoView>,
    rejected: Seq<Seq<char>>,
    destination_folder: Seq<char>,
    mode: Seq<char>,
) -> Seq<ExportJobView> {
    images.filter(adopted(rejected)).map_values(
        |i: ImageInfoView| job_for(i, destination_folder, mode),
    )
}

/// Number of `true` among the outcomes.
pub open spec fn successes(outcomes: Seq<bool>) -> nat
    decreases outcomes.len(),
{
    if outcomes.len() == 0 {
        0
    } else {
        successes(outcomes.drop_last()) + if outcomes.last() {
            1nat
        } else {
            0nat
        }
    }
}

/// Whether `name` is one of `names`.
pub fn contains_name(names: &Vec<String>, name: &str) -> (found: bool)
    ensures
        found == names.deep_view().contains(name@),
{
    let ghost all = names.deep_view();
    let mut i: usize = 0;
    while i < names.len()
        invariant
            i <= names.len(),
            all == names.deep_view(),
            forall|j: int| 0 <= j < i ==> all[j] != name@,
        decreases names.len() - i,
    {
        if same_text(names[i].as_str(), name) {
            assert(all[i as int] == name@);
            return true;
        }
        i += 1;
    }
    false
}

/// Plans an export: one job for every image whose name is not in `rejected`.
/// With mode `move` the sources are deleted after copying; any other mode
/// leaves them in place.
pub fn plan_export(
    images: &Vec<ImageInfo>,
    rejected: &Vec<String>,
    destination_folder: &str,
    mode: &str,
) -> (jobs: Vec<ExportJob>)
    ensures
        jobs.deep_view() == jobs_for(
            images.deep_view(),
            rejected.deep_view(),
            destination_folder@,
            mode@,
        ),
{
    let ghost all = images.deep_view();
    let ghost keep = adopted(rejected.deep_view());
    let ghost job = |i: ImageInfoView| job_for(i, destination_folder@, mode@);
    let remove_source = same_text(mode, "move");
    let mut jobs: Vec<ExportJob> = Vec::new();
    let mut i: usize = 0;
    assert(all.take(0).filter(keep).map_values(job) =~= jobs.deep_view()) by {
        reveal(Seq::filter);
    }
    while i < images.len()
        invariant
            i <= images.len(),
            all == images.deep_view(),
            keep == adopted(rejected.deep_view()),
            job == |i: ImageInfoView| job_for(i, destination_folder@, mode@),
            remove_source == is_move(mode@),
            jobs.deep_view() == all.take(i as int).filter(keep).map_values(job),
        decreases images.len() - i,
    {
        let ghost so_far = jobs.deep_view();
        let image = &images[i];
        proof {
            assert(all[i as int] == image@);
            assert(all.take(i + 1) =~= all.take(i as int).push(image@));
            all.take(i as int).lemma_filter_push(image@, keep);
            all.take(i as int).filter(keep).lemma_push_map_commute(job, image@);
        }
        if !contains_name(rejected, image.filename.as_str()) {
            let next = ExportJob {
                source: image.path.clone(),
                destination: join_path(destination_folder, image.filename.as_str()),
                remove_source,
            };
            assert(next@ == job_for(image@, destination_folder@, mode@));
            jobs.push(next);
            assert(jobs.deep_view() =~= so_far.push(job(image@)));
        }
        i += 1;
    }
    assert(all.take(images.len() as int) =~= all);
    jobs
}

/// Number of different names in a list.
pub fn count_distinct(names: &Vec<String>) -> (count: usize)
    ensures
        count == names.deep_view().to_set().len(),
{
    let ghost all = names.deep_view();
    let mut count: usize = 0;
    let mut i: usize = 0;
    assert(all.take(0).to_set() =~= Set::<Seq<char>>::empty());
    while i < names.len()
        invariant
            i <= names.len(),
            all == names.deep_view(),
            count == all.take(i as int).to_set().len(),
            count <= i,
        decreases names.len() - i,
    {
        let ghost seen = all.take(i as int);
        let mut repeated = false;
        let mut j: usize = 0;
        while j < i
            invariant
                j <= i,
                i < names.len(),
                all == names.deep_view(),
                seen == all.take(i as int),
                repeated == exists|k: int| 0 <= k < j && seen[k] == all[i as int],
            decreases i - j,
        {
            if same_text(names[j].as_str(), names[i].as_str()) {
                assert(seen[j as int] == all[i as int]);
                repeated = true;
            }
            j += 1;
        }
        proof {
            assert(all.take(i + 1) =~= seen.push(all[i as int]));
            seen.lemma_push_to_set_commute(all[i as int]);
            vstd::seq_lib::seq_to_set_is_finite(seen);
            assert(repeated == seen.to_set().contains(all[i as int])) by {
                if repeated {
                    let k = choose|k: int| 0 <= k < i && seen[k] == all[i as int];
                    assert(seen.contains(all[i as int]));
                }
            }
        }
        if !repeated {
            count += 1;
        }
        i += 1;
    }
    assert(all.take(names.len() as int) =~= all);
    count
}

/// Counts the outcome of an export. `total` is the number of images in the
/// source folder, `rejected` names the files that are held back, and
/// `outcomes` tells for every job whether it succeeded.
pub fn finish_export(total: usize, rejected: &Vec<String>, outcomes: &Vec<bool>) -> (result:
    ExportResult)
    ensures
        result.total == total,
        result.skipped == rejected.deep_view().to_set().len(),
        result.copied == successes(outcomes@),
        result.copied + result.failed == outcomes.len(),
{
    let mut copied: usize = 0;
    let mut i: usize = 0;
    while i < outcomes.len()
        invariant
            i <= outcomes.len(),
            copied == successes(outcomes@.take(i as int)),
            copied <= i,
        decreases outcomes.len() - i,
    {
        proof {
            assert(outcomes@.take(i + 1).drop_last() =~= outcomes@.take(i as int));
        }
        if outcomes[i] {
            copied += 1;
        }
        i += 1;
    }
    assert(outcomes@.take(outcomes.len() as int) =~= outcomes@);
    ExportResult {
        total,
        copied,
        skipped: count_distinct(rejected),
        failed: outcomes.len() - copied,
    }
}

/// Every image of the folder is either given a job or held back: none is
/// lost and none is exported twice.
pub proof fn lemma_export_partitions(
    images: Seq<ImageInfoView>,
    rejected: Seq<Seq<char>>,
    destination_folder: Seq<char>,
    mode: Seq<char>,
)
    ensures
        jobs_for(images, rejected, destination_folder, mode).len() + images.filter(
            held_back(rejected),
        ).len() == images.len(),
    decreases images.len(),
{
    reveal(Seq::filter);
    if images.len() > 0 {
        lemma_export_partitions(images.drop_last(), rejected, destination_folder, mode);
    }
}

/// No two images have the same name.
pub open spec fn distinct_names(images: Seq<ImageInfoView>) -> bool {
    forall|i: int, j: int|
        0 <= i < j < images.len() ==> (#[trigger] images[i]).filename != (
        #[trigger] images[j]).filename
}

/// The names of the images.
pub open spec fn names_of(images: Seq<ImageInfoView>) -> Set<Seq<char>> {
    images.map_values(|i: ImageInfoView| i.filename).to_set()
}

/// In a folder, where every file has a name of its own, as many images are
/// held back as there are rejected names among them.
proof fn lemma_held_back_count(images: Seq<ImageInfoView>, rejected: Seq<Seq<char>>)
    requires
        distinct_names(images),
    ensures
        images.filter(held_back(rejected)).len() == rejected.to_set().intersect(
            names_of(images),
        ).len(),
    decreases images.len(),
{
    let name = |i: ImageInfoView| i.filename;
    let r = rejected.to_set();
    vstd::seq_lib::seq_to_set_is_finite(rejected);
    if images.len() == 0 {
        reveal(Seq::filter);
        assert(images.map_values(name) =~= Seq::<Seq<char>>::empty());
        assert(r.intersect(names_of(images)) =~= Set::<Seq<char>>::empty());
    } else {
        let rest = images.drop_last();
        let x = images.last();
        assert(distinct_names(rest)) by {
            assert forall|i: int, j: int| 0 <= i < j < rest.len() implies (
            #[trigger] rest[i]).filename != (#[trigger] rest[j]).filename by {
                assert(rest[i] == images[i] && rest[j] == images[j]);
            }
        }
        lemma_held_back_count(rest, rejected);
        assert(images =~= rest.push(x));
        rest.lemma_filter_push(x, held_back(rejected));
        rest.lemma_push_map_commute(name, x);
        rest.map_values(name).lemma_push_to_set_commute(x.filename);
        assert(names_of(images) =~= names_of(rest).insert(x.filename));
        assert(!names_of(rest).contains(x.filename)) by {
            if names_of(rest).contains(x.filename) {
                let k = choose|k: int|
                    0 <= k < rest.map_values(name).len() && rest.map_values(name)[k] == x.filename;
                assert(images[k].filename == images[images.len() - 1].filename);
            }
        }
        let before = r.intersect(names_of(rest));
        if rejected.contains(x.filename) {
            assert(r.intersect(names_of(images)) =~= before.insert(x.filename));
        } else {
            assert(r.intersect(names_of(images)) =~= before);
        }
    }
}

/// An export accounts for every image. In a folder, where every file has a
/// name of its own, and with every rejected file still in it, the number of
/// jobs and the number reported as skipped add up to the number of images.
/// When no job fails, `copied + skipped == total`.
pub proof fn lemma_export_accounts_for_every_image(
    images: Seq<ImageInfoView>,
    rejected: Seq<Seq<char>>,
    destination_folder: Seq<char>,
    mode: Seq<char>,
)
    requires
        distinct_names(images),
        forall|k: int| 0 <= k < rejected.len() ==> names_of(images).contains(#[trigger] rejected[k]),
    ensures
        jobs_for(images, rejected, destination_folder, mode).len() + rejected.to_set().len()
            == images.len(),
{
    lemma_export_partitions(images, rejected, destination_folder, mode);
    lemma_held_back_count(images, rejected);
    assert(rejected.to_set().intersect(names_of(images)) =~= rejected.to_set());
}

} // verus!
