//! The on-disk model cache, as far as it is a matter of decisions: how a path becomes
//! a directory, whether a copy is complete, which files to fetch and from where, and
//! when to report progress. Looking at the disk and moving bytes is left to the
//! caller, who reports what it found.

use crate::error::TranscribeError;
use crate::registry::{catalog_entry, resolve, ModelDescriptor};
use vstd::math::min;
use vstd::prelude::*;
use vstd::string::*;

verus! {

/// Name of the cache root inside the application's private directory.
pub fn cache_dir_name() -> (name: &'static str)
    ensures
        name@ == "whisper_models"@,
{
    "whisper_models"
}

/// What is found at a path where a directory is wanted.
#[derive(Clone, Copy, Debug, PartialEq, Eq)]
pub enum PathKind {
    /// Nothing is there.
    Missing,
    /// A plain file is there.
    File,
    /// A directory is there.
    Directory,
    /// Something else is there.
    Other,
}

/// What to do so that a directory stands at a path.
#[derive(Clone, Copy, Debug, PartialEq, Eq)]
pub enum DirectoryFix {
    /// The directory is there; leave it.
    Keep,
    /// Create the directory and what is missing above it.
    Create,
    /// Delete the file that is in the way, then create the directory.
    ReplaceFile,
}

/// Decides how a path becomes a directory. A plain file in the way is left over from
/// an earlier failure and gives way; anything else that is not a directory is left
/// for the creation to report.
pub fn plan_directory(found: PathKind) -> (fix: DirectoryFix)
    ensures
        fix == match found {
            PathKind::Directory => DirectoryFix::Keep,
            PathKind::File => DirectoryFix::ReplaceFile,
            PathKind::Missing => DirectoryFix::Create,
            PathKind::Other => DirectoryFix::Create,
        },
{
    match found {
        PathKind::Directory => DirectoryFix::Keep,
        PathKind::File => DirectoryFix::ReplaceFile,
        PathKind::Missing => DirectoryFix::Create,
        PathKind::Other => DirectoryFix::Create,
    }
}

/// What a look at a model's directory found: whether the directory is there, and for
/// each required file, in the descriptor's order, its size if it exists.
#[derive(Clone, Debug, PartialEq, Eq)]
pub struct ModelSnapshot {
    pub directory_present: bool,
    pub sizes: Vec<Option<u64>>,
}

/// Smallest plausible size of a model's weights.
pub const MIN_WEIGHTS_BYTES: u64 = 10_000_000;

/// Name of the file that holds a model's weights.
pub open spec fn weights_file() -> Seq<char> {
    "model.safetensors"@
}

/// A required file is usable: it exists, is not empty, and, if it holds the weights,
/// is not implausibly small.
pub open spec fn file_ready(name: Seq<char>, size: Option<u64>) -> bool {
    match size {
        None => false,
        Some(n) => n > 0 && (name == weights_file() ==> n >= MIN_WEIGHTS_BYTES),
    }
}

/// A copy is complete: its directory exists and every required file is usable.
pub open spec fn complete(files: Seq<Seq<char>>, present: bool, sizes: Seq<Option<u64>>) -> bool {
    &&& present
    &&& sizes.len() == files.len()
    &&& forall|i: int| 0 <= i < files.len() ==> file_ready(#[trigger] files[i], sizes[i])
}

/// Decides whether the copy that a snapshot shows can be loaded.
pub fn is_complete(descriptor: &ModelDescriptor, snapshot: &ModelSnapshot) -> (r: bool)
    ensures
        r == complete(descriptor@.required_files, snapshot.directory_present, snapshot.sizes@),
{
    if !snapshot.directory_present {
        return false;
    }
    let count: usize = descriptor.required_files.len();
    if snapshot.sizes.len() != count {
        return false;
    }
    let weights: String = String::from_str("model.safetensors");
    let ghost files = descriptor@.required_files;
    let mut i: usize = 0;
    while i < count
        invariant
            i <= count,
            count == descriptor.required_files.len(),
            snapshot.sizes.len() == count,
            files == descriptor.required_files.deep_view(),
            weights@ == weights_file(),
            forall|j: int| 0 <= j < i ==> file_ready(#[trigger] files[j], snapshot.sizes[j]),
        decreases count - i,
    {
        assert(files[i as int] == descriptor.required_files[i as int]@);
        let ready: bool = match snapshot.sizes[i] {
            None => false,
            Some(n) => n > 0 && (descriptor.required_files[i] != weights || n
                >= MIN_WEIGHTS_BYTES),
        };
        if !ready {
            return false;
        }
        i += 1;
    }
    true
}

/// Which copy to look at for the question whether a model is downloaded. Without a
/// directory of that name there is none, and the answer is no, whatever the name;
/// with one, the name has to be in the catalog, which says what files to look for.
pub fn copy_to_inspect(identifier: &str, directory_present: bool) -> (res: Result<
    Option<ModelDescriptor>,
    TranscribeError,
>)
    ensures
        !directory_present ==> res matches Ok(None),
        directory_present ==> match catalog_entry(identifier@) {
            Some(entry) => res matches Ok(Some(d)) && d@ == entry,
            None => res matches Err(TranscribeError::UnknownModel { identifier: id }) && id@
                == identifier@,
        },
{
    if !directory_present {
        return Ok(None);
    }
    match resolve(identifier) {
        Ok(descriptor) => Ok(Some(descriptor)),
        Err(e) => Err(e),
    }
}

/// A copy with a required file of zero bytes is not complete, whatever else is there.
pub proof fn lemma_empty_file_is_incomplete(
    files: Seq<Seq<char>>,
    present: bool,
    sizes: Seq<Option<u64>>,
    i: int,
)
    requires
        0 <= i < files.len(),
        i < sizes.len(),
        sizes[i] == Some(0u64),
    ensures
        !complete(files, present, sizes),
{
    if present && sizes.len() == files.len() {
        assert(!file_ready(files[i], sizes[i]));
    }
}

/// A required file has to be fetched: it does not exist or is empty.
pub open spec fn needs_fetch(size: Option<u64>) -> bool {
    match size {
        None => true,
        Some(n) => n == 0,
    }
}

/// The files to fetch, by index and in order: those that do not exist or are empty.
/// Files that exist with content are passed over, so that a repeated run fetches
/// only what is still missing.
pub open spec fn fetch_plan(sizes: Seq<Option<u64>>) -> Seq<int>
    decreases sizes.len(),
{
    if sizes.len() == 0 {
        Seq::empty()
    } else if needs_fetch(sizes.last()) {
        fetch_plan(sizes.drop_last()).push(sizes.len() - 1)
    } else {
        fetch_plan(sizes.drop_last())
    }
}

/// Lists the files that a run has to fetch.
pub fn download_plan(sizes: &Vec<Option<u64>>) -> (plan: Vec<usize>)
    ensures
        plan@.len() == fetch_plan(sizes@).len(),
        forall|k: int| 0 <= k < plan@.len() ==> #[trigger] plan@[k] == fetch_plan(sizes@)[k],
{
    let mut plan: Vec<usize> = Vec::new();
    let mut i: usize = 0;
    assert(sizes@.take(0) =~= Seq::<Option<u64>>::empty());
    while i < sizes.len()
        invariant
            i <= sizes.len(),
            plan@.len() == fetch_plan(sizes@.take(i as int)).len(),
            forall|k: int|
                0 <= k < plan@.len() ==> #[trigger] plan@[k] == fetch_plan(sizes@.take(i as int))[k],
        decreases sizes.len() - i,
    {
        proof {
            let run = sizes@.take(i + 1);
            assert(run.drop_last() =~= sizes@.take(i as int));
            assert(run.last() == sizes@[i as int]);
        }
        let missing: bool = match sizes[i] {
            None => true,
            Some(n) => n == 0,
        };
        if missing {
            plan.push(i);
        }
        i += 1;
    }
    assert(sizes@.take(sizes.len() as int) =~= sizes@);
    plan
}

/// The plan holds exactly the files that have to be fetched, each once and in
/// ascending order.
pub proof fn lemma_fetch_plan(sizes: Seq<Option<u64>>)
    ensures
        forall|k: int|
            0 <= k < fetch_plan(sizes).len() ==> 0 <= #[trigger] fetch_plan(sizes)[k] < sizes.len()
                && needs_fetch(sizes[fetch_plan(sizes)[k]]),
        forall|j: int, k: int|
            0 <= j < k < fetch_plan(sizes).len() ==> fetch_plan(sizes)[j] < fetch_plan(sizes)[k],
        forall|i: int|
            0 <= i < sizes.len() && needs_fetch(#[trigger] sizes[i]) ==> fetch_plan(sizes).contains(
                i,
            ),
    decreases sizes.len(),
{
    if sizes.len() > 0 {
        let rest = sizes.drop_last();
        let last = sizes.len() - 1;
        lemma_fetch_plan(rest);
        let plan = fetch_plan(sizes);
        let before = fetch_plan(rest);
        assert forall|i: int| 0 <= i < sizes.len() && needs_fetch(
            #[trigger] sizes[i],
        ) implies plan.contains(i) by {
            if i < last {
                assert(rest[i] == sizes[i]);
                let k = choose|k: int| 0 <= k < before.len() && before[k] == i;
                assert(plan[k] == i);
            } else {
                assert(plan[plan.len() - 1] == i);
            }
        }
        assert forall|k: int| 0 <= k < plan.len() implies 0 <= #[trigger] plan[k] < sizes.len()
            && needs_fetch(sizes[plan[k]]) by {
            if k < before.len() {
                assert(plan[k] == before[k]);
                assert(rest[before[k]] == sizes[before[k]]);
            }
        }
        assert forall|j: int, k: int| 0 <= j < k < plan.len() implies plan[j] < plan[k] by {
            assert(plan[j] == before[j]);
            if k < before.len() {
                assert(plan[k] == before[k]);
            }
        }
    }
}

/// What a finished run leaves on disk: each file that had to be fetched now has the
/// size that was stored for it, and every other file is as it was.
pub open spec fn after_run(sizes: Seq<Option<u64>>, stored: Seq<u64>) -> Seq<Option<u64>> {
    Seq::new(
        sizes.len(),
        |i: int|
            if needs_fetch(sizes[i]) {
                Some(stored[i])
            } else {
                sizes[i]
            },
    )
}

/// A second run, right after a run that stored content for every file it fetched,
/// fetches nothing; and no run touches a file that already has content.
pub proof fn lemma_second_run_fetches_nothing(sizes: Seq<Option<u64>>, stored: Seq<u64>)
    requires
        stored.len() == sizes.len(),
        forall|i: int| 0 <= i < stored.len() ==> #[trigger] stored[i] > 0,
    ensures
        fetch_plan(after_run(sizes, stored)) == Seq::<int>::empty(),
        forall|i: int|
            0 <= i < sizes.len() && !needs_fetch(sizes[i]) ==> !fetch_plan(sizes).contains(i)
                && #[trigger] after_run(sizes, stored)[i] == sizes[i],
{
    let after = after_run(sizes, stored);
    lemma_fetch_plan(after);
    lemma_fetch_plan(sizes);
    if fetch_plan(after).len() > 0 {
        let i = fetch_plan(after)[0];
        assert(needs_fetch(after[i]));
        assert(stored[i] > 0);
    }
    assert(fetch_plan(after) =~= Seq::<int>::empty());
    assert forall|i: int| 0 <= i < sizes.len() && !needs_fetch(sizes[i]) implies !fetch_plan(
        sizes,
    ).contains(i) by {
        if fetch_plan(sizes).contains(i) {
            let k = choose|k: int| 0 <= k < fetch_plan(sizes).len() && fetch_plan(sizes)[k] == i;
            assert(needs_fetch(sizes[fetch_plan(sizes)[k]]));
        }
    }
}

/// Takes note of how the fetch of file `index` ended: a failure ends the run with an
/// error that names the file and the cause. The caller deletes the partial file
/// before it returns the error.
pub fn after_fetch(descriptor: &ModelDescriptor, index: usize, outcome: Result<(), String>) -> (res:
    Result<(), TranscribeError>)
    requires
        index < descriptor.required_files.len(),
    ensures
        match outcome {
            Ok(_) => res is Ok,
            Err(cause) => res matches Err(TranscribeError::DownloadFailed { file, cause: c })
                && file@ == descriptor@.required_files[index as int] && c == cause,
        },
{
    match outcome {
        Ok(_) => Ok(()),
        Err(cause) => {
            let file: String = descriptor.required_files[index].clone();
            assert(descriptor@.required_files[index as int]
                == descriptor.required_files[index as int]@);
            Err(TranscribeError::DownloadFailed { file, cause })
        },
    }
}

/// The error for a run that the disk ended before any file was fetched: the model's
/// directory could not be made. It names the directory in place of a file.
pub fn storage_failed(descriptor: &ModelDescriptor, cause: String) -> (e: TranscribeError)
    ensures
        e matches TranscribeError::DownloadFailed { file, cause: c } && file@
            == descriptor@.identifier && c == cause,
{
    TranscribeError::DownloadFailed { file: descriptor.identifier.clone(), cause }
}

/// Address of a file on the host: host, repository, `resolve/main`, file name.
pub open spec fn remote_address(repository: Seq<char>, file: Seq<char>) -> Seq<char> {
    "https://huggingface.co/"@ + repository + "/resolve/main/"@ + file
}

/// The address from which required file `index` of a model is fetched.
pub fn remote_url(descriptor: &ModelDescriptor, index: usize) -> (url: String)
    requires
        index < descriptor.required_files.len(),
    ensures
        url@ == remote_address(
            descriptor@.remote_location,
            descriptor@.required_files[index as int],
        ),
{
    assert(descriptor@.required_files[index as int] == descriptor.required_files[index as int]@);
    String::from_str("https://huggingface.co/").concat(descriptor.remote_location.as_str()).concat(
        "/resolve/main/",
    ).concat(descriptor.required_files[index].as_str())
}

/// Distance between two progress reports of one transfer, in bytes.
pub const REPORT_STEP_BYTES: u64 = 1_048_576;

/// One progress report: how far the transfer of one file of one model has come.
#[derive(Clone, Debug, PartialEq, Eq)]
pub struct DownloadProgress {
    pub model: String,
    pub file: String,
    pub bytes_done: u64,
    pub bytes_total: u64,
}

/// Share of the transfer that is done, in whole percent; 0 where the total is unknown.
pub open spec fn percent_of(done: int, total: int) -> int {
    if total <= 0 {
        0
    } else if done >= total {
        100
    } else {
        (done * 100) / total
    }
}

impl DownloadProgress {
    /// The share that is done, in whole percent.
    pub fn percent(&self) -> (p: u64)
        ensures
            p == percent_of(self.bytes_done as int, self.bytes_total as int),
            p <= 100,
    {
        if self.bytes_total == 0 {
            0
        } else if self.bytes_done >= self.bytes_total {
            100
        } else {
            let scaled: u128 = (self.bytes_done as u128) * 100;
            let share: u128 = scaled / (self.bytes_total as u128);
            assert(share <= 100) by (nonlinear_arith)
                requires
                    share == scaled / (self.bytes_total as u128),
                    scaled <= 100 * self.bytes_total,
                    self.bytes_total > 0,
            ;
            share as u64
        }
    }
}

/// A report is due after a chunk: the transfer has moved on by a step since the
/// last report, whatever its announced size, or it has moved on at all and has
/// reached an announced size. `last` is 0 while nothing has been reported.
pub open spec fn report_due(total: int, last: int, done: int) -> bool {
    ||| done - last >= REPORT_STEP_BYTES
    ||| total > 0 && done >= total && done > last
}

/// Counts the bytes of one transfer and says when to report.
#[derive(Clone, Copy, Debug)]
pub struct ProgressMeter {
    done: u64,
    total: u64,
    reported: u64,
    any_report: bool,
}

impl ProgressMeter {
    #[verifier::type_invariant]
    spec fn ordered(&self) -> bool {
        self.reported <= self.done && (!self.any_report ==> self.reported == 0)
    }

    /// Bytes received so far.
    pub closed spec fn bytes_done(&self) -> int {
        self.done as int
    }

    /// Announced size of the transfer; 0 where the host announced none.
    pub closed spec fn bytes_total(&self) -> int {
        self.total as int
    }

    /// Bytes that had been received at the last report; 0 while there has been none.
    pub closed spec fn last_reported(&self) -> int {
        self.reported as int
    }

    /// Whether anything has been reported yet.
    pub closed spec fn has_reported(&self) -> bool {
        self.any_report
    }

    /// A report has carried the present byte count.
    pub open spec fn up_to_date(&self) -> bool {
        self.has_reported() && self.last_reported() == self.bytes_done()
    }

    /// What holds of every meter, and what each call says of the meter it is given
    /// and of the meter it leaves: no report has carried more bytes than have come,
    /// and while nothing has been reported the last report counts as one of 0 bytes.
    pub open spec fn consistent(&self) -> bool {
        &&& 0 <= self.last_reported() <= self.bytes_done() <= u64::MAX
        &&& 0 <= self.bytes_total() <= u64::MAX
        &&& !self.has_reported() ==> self.last_reported() == 0
    }

    /// A meter for a transfer of `total` bytes that has not begun.
    pub fn new(total: u64) -> (meter: ProgressMeter)
        ensures
            meter.bytes_done() == 0,
            meter.bytes_total() == total,
            meter.last_reported() == 0,
            !meter.has_reported(),
            meter.consistent(),
    {
        ProgressMeter { done: 0, total, reported: 0, any_report: false }
    }

    /// Counts a chunk of `chunk` bytes and returns whether a report is due now. The
    /// count stops at the largest number it can hold.
    pub fn advance(&mut self, chunk: u64) -> (due: bool)
        ensures
            final(self).bytes_total() == old(self).bytes_total(),
            final(self).bytes_done() == min(old(self).bytes_done() + chunk, u64::MAX as int),
            due == report_due(
                old(self).bytes_total(),
                old(self).last_reported(),
                final(self).bytes_done(),
            ),
            old(self).consistent(),
            final(self).consistent(),
            due ==> final(self).up_to_date(),
            due ==> final(self).last_reported() > old(self).last_reported(),
            !due ==> final(self).last_reported() == old(self).last_reported(),
            !due ==> final(self).has_reported() == old(self).has_reported(),
    {
        proof {
            use_type_invariant(&*self);
        }
        let done: u64 = if chunk > u64::MAX - self.done {
            u64::MAX
        } else {
            self.done + chunk
        };
        let due: bool = done - self.reported >= REPORT_STEP_BYTES || (self.total > 0 && done
            >= self.total && done > self.reported);
        self.done = done;
        if due {
            self.any_report = true;
            self.reported = done;
        }
        due
    }

    /// Ends the transfer and returns whether a last report is due: it is, unless a
    /// report has already carried the final byte count. A transfer that ends below
    /// its announced size, or whose size was never announced, or that brought no
    /// byte at all, gets its last report here.
    pub fn finish(&mut self) -> (due: bool)
        ensures
            due == !old(self).up_to_date(),
            final(self).bytes_total() == old(self).bytes_total(),
            final(self).bytes_done() == old(self).bytes_done(),
            final(self).up_to_date(),
            old(self).consistent(),
            final(self).consistent(),
    {
        proof {
            use_type_invariant(&*self);
        }
        let due: bool = !(self.any_report && self.reported == self.done);
        self.any_report = true;
        self.reported = self.done;
        due
    }

    /// The report for the present state of the transfer.
    pub fn report(&self, model: &str, file: &str) -> (progress: DownloadProgress)
        ensures
            progress.model@ == model@,
            progress.file@ == file@,
            progress.bytes_done == self.bytes_done(),
            progress.bytes_total == self.bytes_total(),
            self.consistent(),
    {
        proof {
            use_type_invariant(self);
        }
        DownloadProgress {
            model: String::from_str(model),
            file: String::from_str(file),
            bytes_done: self.done,
            bytes_total: self.total,
        }
    }
}

/// A chunk that brings a transfer to its announced size, or beyond it, is reported,
/// whatever the meter has counted and reported before.
pub proof fn lemma_reaching_the_total_is_reported(meter: ProgressMeter, chunk: u64)
    requires
        meter.consistent(),
        chunk > 0,
        meter.bytes_done() < meter.bytes_total() <= meter.bytes_done() + chunk,
    ensures
        report_due(
            meter.bytes_total(),
            meter.last_reported(),
            min(meter.bytes_done() + chunk, u64::MAX as int),
        ),
{
}

/// A transfer is reported at the latest one step after the last report, whether its
/// size was announced or not, and at the moment it reaches an announced size.
pub proof fn lemma_steps_and_completion_are_reported(total: int, last: int, done: int)
    requires
        0 <= last <= done,
    ensures
        done - last >= REPORT_STEP_BYTES ==> report_due(total, last, done),
        0 < total <= done && last < done ==> report_due(total, last, done),
        report_due(total, last, done) ==> last < done,
{
}

/// The share that a report shows lies between 0 and 100, is 100 exactly from the
/// announced size on, and below that is the whole percent of the bytes done.
pub proof fn lemma_percent_is_a_share(done: int, total: int)
    requires
        0 <= done,
        0 < total,
    ensures
        0 <= percent_of(done, total) <= 100,
        done >= total ==> percent_of(done, total) == 100,
        done < total ==> percent_of(done, total) == (done * 100) / total && percent_of(
            done,
            total,
        ) < 100,
{
    if done < total {
        assert(0 <= (done * 100) / total < 100) by (nonlinear_arith)
            requires
                0 <= done < total,
        ;
    }
}

/// One subdirectory of the cache root: its name and what was found in it.
#[derive(Clone, Debug, PartialEq, Eq)]
pub struct CachedModel {
    pub identifier: String,
    pub snapshot: ModelSnapshot,
}

/// A subdirectory counts as a downloaded model: its name is in the catalog and it
/// holds a complete copy.
pub open spec fn is_listed(entry: CachedModel) -> bool {
    catalog_entry(entry.identifier@) matches Some(d) && complete(
        d.required_files,
        entry.snapshot.directory_present,
        entry.snapshot.sizes@,
    )
}

/// The names of the subdirectories that count as downloaded models, in their order.
pub open spec fn listed(entries: Seq<CachedModel>) -> Seq<Seq<char>>
    decreases entries.len(),
{
    if entries.len() == 0 {
        Seq::empty()
    } else if is_listed(entries.last()) {
        listed(entries.drop_last()).push(entries.last().identifier@)
    } else {
        listed(entries.drop_last())
    }
}

/// Filters the subdirectories of the cache root down to the downloaded models.
pub fn list_downloaded(entries: &Vec<CachedModel>) -> (names: Vec<String>)
    ensures
        names.deep_view() == listed(entries@),
{
    let mut names: Vec<String> = Vec::new();
    let mut i: usize = 0;
    assert(entries@.take(0) =~= Seq::<CachedModel>::empty());
    assert(names.deep_view() =~= Seq::<Seq<char>>::empty());
    while i < entries.len()
        invariant
            i <= entries.len(),
            names.deep_view() == listed(entries@.take(i as int)),
        decreases entries.len() - i,
    {
        let ghost before = names.deep_view();
        proof {
            let run = entries@.take(i + 1);
            assert(run.drop_last() =~= entries@.take(i as int));
            assert(run.last() == entries[i as int]);
        }
        let kept: bool = match resolve(entries[i].identifier.as_str()) {
            Ok(descriptor) => is_complete(&descriptor, &entries[i].snapshot),
            Err(_) => false,
        };
        if kept {
            names.push(entries[i].identifier.clone());
            assert(names.deep_view() =~= before.push(entries[i as int].identifier@));
        }
        i += 1;
    }
    assert(entries@.take(entries.len() as int) =~= entries@);
    names
}

} // verus!
