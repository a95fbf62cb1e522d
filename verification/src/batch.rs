//! Batch planning and progress policy.
//!
//! A batch starts from an ordered list of candidate paths (however the
//! caller walked its directories), keeps the ones with a supported
//! raster-image extension, and numbers them.  An empty result is a
//! terminal error: the batch never starts.  While a batch runs, one
//! worker per file asks [`progress_event_for`] whether its index is
//! one of the throttled reporting points; [`completion_event`] words
//! the guaranteed final pair of the hundred-percent mark and the
//! summary line.

use vstd::prelude::*;
use vstd::arithmetic::div_mod::lemma_multiply_divide_lt;
use crate::messages::{spec_status, spec_summary, status_message, summary_message};
use crate::text::{
    ends_with_lowered, file_name_of, spec_file_name, spec_has_suffix, spec_lower_seq,
};

verus! {

/// Why a whole batch fails before any file is processed.  Per-file
/// decode or write failures are not errors of the batch: they skip the
/// one file and leave the rest running.
#[derive(Clone, Copy, Debug, PartialEq, Eq, Structural)]
pub enum ErrorKind {
    /// The scan matched no file with a supported extension.
    NoInputFound,
    /// The output directory could not be created.
    DirectoryCreationFailure,
}

impl ErrorKind {
    /// The sentence reported for this failure.
    pub fn message(&self) -> (s: String)
        ensures
            self is NoInputFound ==> s@ == "No images found"@,
            self is DirectoryCreationFailure ==> s@ == "Failed to create output directory"@,
    {
        match self {
            ErrorKind::NoInputFound => String::from_str("No images found"),
            ErrorKind::DirectoryCreationFailure => String::from_str(
                "Failed to create output directory",
            ),
        }
    }
}

/// A path ends (ASCII-case-insensitively) in one of the supported
/// raster-image extensions.
pub open spec fn spec_supported(path: Seq<char>) -> bool {
    ||| spec_has_suffix(spec_lower_seq(path), ".png"@)
    ||| spec_has_suffix(spec_lower_seq(path), ".jpg"@)
    ||| spec_has_suffix(spec_lower_seq(path), ".jpeg"@)
    ||| spec_has_suffix(spec_lower_seq(path), ".bmp"@)
}

/// Does this path name a supported raster image?
pub fn is_supported_image(path: &str) -> (r: bool)
    ensures
        r == spec_supported(path@),
{
    ends_with_lowered(path, ".png") || ends_with_lowered(path, ".jpg") || ends_with_lowered(
        path,
        ".jpeg",
    ) || ends_with_lowered(path, ".bmp")
}

/// One file of a batch: its source path, its position in the batch
/// (which drives progress throttling) and the bare file name that the
/// output file will carry under the output directory.
#[derive(Clone, Debug)]
pub struct WorkItem {
    pub index: usize,
    pub source: String,
    pub file_name: String,
}

/// The sources of a sequence of work items.
pub open spec fn spec_sources(items: Seq<WorkItem>) -> Seq<Seq<char>> {
    items.map_values(|it: WorkItem| it.source@)
}

/// The views of a sequence of paths.
pub open spec fn spec_views(paths: Seq<String>) -> Seq<Seq<char>> {
    paths.map_values(|p: String| p@)
}

/// The supported paths among `paths`, kept in their original order.
pub open spec fn spec_selected(paths: Seq<Seq<char>>) -> Seq<Seq<char>>
    decreases paths.len(),
{
    if paths.len() == 0 {
        Seq::empty()
    } else {
        let rest = spec_selected(paths.drop_last());
        if spec_supported(paths.last()) {
            rest.push(paths.last())
        } else {
            rest
        }
    }
}

/// A selection with no path at all has passed over only unsupported
/// ones.
proof fn lemma_selected_empty(paths: Seq<Seq<char>>)
    requires
        spec_selected(paths).len() == 0,
    ensures
        forall|i: int| 0 <= i < paths.len() ==> !spec_supported(paths[i]),
    decreases paths.len(),
{
    if paths.len() > 0 {
        assert(!spec_supported(paths.last()));
        lemma_selected_empty(paths.drop_last());
        assert forall|i: int| 0 <= i < paths.len() implies !spec_supported(paths[i]) by {
            if i < paths.len() - 1 {
                assert(paths.drop_last()[i] == paths[i]);
            }
        }
    }
}

/// Keep the supported paths of `paths`, in order, and number them.
/// The batch is the selected list; an empty one is the terminal
/// `NoInputFound` error and no batch starts.
pub fn plan_batch(paths: &Vec<String>) -> (r: Result<Vec<WorkItem>, ErrorKind>)
    ensures
        match r {
            Ok(items) => {
                &&& items@.len() > 0
                &&& spec_sources(items@) == spec_selected(spec_views(paths@))
                &&& forall|k: int|
                    0 <= k < items@.len() ==> {
                        &&& (#[trigger] items@[k]).index == k
                        &&& items@[k].file_name@ == spec_file_name(items@[k].source@)
                        &&& spec_supported(items@[k].source@)
                    }
            },
            Err(e) => {
                &&& e is NoInputFound
                &&& spec_selected(spec_views(paths@)).len() == 0
                &&& forall|i: int|
                    0 <= i < paths@.len() ==> !spec_supported((#[trigger] paths@[i])@)
            },
        },
{
    let mut items: Vec<WorkItem> = Vec::new();
    let n = paths.len();
    let mut i: usize = 0;
    while i < n
        invariant
            i <= n == paths@.len(),
            items@.len() <= i,
            spec_sources(items@) == spec_selected(spec_views(paths@).take(i as int)),
            forall|k: int|
                0 <= k < items@.len() ==> {
                    &&& (#[trigger] items@[k]).index == k
                    &&& items@[k].file_name@ == spec_file_name(items@[k].source@)
                    &&& spec_supported(items@[k].source@)
                },
        decreases n - i,
    {
        let ghost prefix = spec_views(paths@).take(i as int);
        let ghost next = spec_views(paths@).take(i + 1);
        proof {
            assert(next.drop_last() =~= prefix);
            assert(next.last() == paths@[i as int]@);
        }
        let p = &paths[i];
        if is_supported_image(p.as_str()) {
            let item = WorkItem {
                index: items.len(),
                source: p.clone(),
                file_name: file_name_of(p.as_str()),
            };
            items.push(item);
            proof {
                assert(spec_sources(items@) =~= spec_selected(prefix).push(paths@[i as int]@));
                assert(spec_selected(next) == spec_selected(prefix).push(next.last()));
            }
        } else {
            proof {
                assert(spec_selected(next) == spec_selected(prefix));
            }
        }
        i += 1;
    }
    proof {
        assert(spec_views(paths@).take(n as int) =~= spec_views(paths@));
    }
    if items.len() == 0 {
        proof {
            lemma_selected_empty(spec_views(paths@));
            assert forall|i: int| 0 <= i < paths@.len() implies !spec_supported(
                (#[trigger] paths@[i])@,
            ) by {
                assert(spec_views(paths@)[i] == paths@[i]@);
            }
        }
        Err(ErrorKind::NoInputFound)
    } else {
        Ok(items)
    }
}

/// A progress notification addressed to the observer: an integer
/// percentage in `0..=100` and a status sentence.
#[derive(Clone, Debug)]
pub struct ProgressEvent {
    pub percent: u32,
    pub status: String,
}

/// The throttling rule: a worker reports when its index is a multiple
/// of five or the last of the batch, so large batches cannot flood the
/// event channel while a final report is always guaranteed.
pub open spec fn spec_should_report(index: int, total: int) -> bool {
    index % 5 == 0 || index == total - 1
}

/// Percentage of the batch that lies before `index`.
pub open spec fn spec_percent(index: int, total: int) -> int {
    index * 100 / total
}

/// The event the worker for `item` emits, if its index is one of the
/// reporting points: the percentage reached so far and the status line
/// naming the file.  Off the reporting points there is no event.
pub fn progress_event_for(item: &WorkItem, total: usize) -> (r: Option<ProgressEvent>)
    requires
        item.index < total,
    ensures
        match r {
            Some(ev) => {
                &&& spec_should_report(item.index as int, total as int)
                &&& ev.percent == spec_percent(item.index as int, total as int)
                &&& ev.percent < 100
                &&& ev.status@ == spec_status(item.file_name@)
            },
            None => !spec_should_report(item.index as int, total as int),
        },
{
    if item.index % 5 == 0 || item.index == total - 1 {
        proof {
            assert((item.index as int) * 100 < (total as int) * 100);
            lemma_multiply_divide_lt((item.index as int) * 100, total as int, 100);
        }
        let percent: u32 = ((item.index as u128 * 100) / (total as u128)) as u32;
        Some(ProgressEvent { percent, status: status_message(item.file_name.as_str()) })
    } else {
        None
    }
}

/// The guaranteed final pair of every completed batch: the
/// hundred-percent mark and the summary line, which is also the value
/// the whole operation returns.
pub fn completion_event(total: u64, elapsed_hundredths: u64) -> (ev: ProgressEvent)
    ensures
        ev.percent == 100,
        ev.status@ == spec_summary(total as nat, elapsed_hundredths as nat),
{
    ProgressEvent { percent: 100, status: summary_message(total, elapsed_hundredths) }
}

} // verus!
