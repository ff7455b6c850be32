//! Progress events: what an observer is told while a synchronisation runs.

use vstd::prelude::*;
use vstd::string::StringExecFns;

verus! {

/// The kind of work a progress event reports.
#[derive(Clone, Copy, Debug, PartialEq, Eq, Structural)]
pub enum Phase {
    Preparing,
    Removing,
    Downloading,
    Installing,
    UpToDate,
    Complete,
}

/// One progress report.
#[derive(Debug, PartialEq, Eq)]
pub struct ProgressEvent {
    /// Text for the observer.
    pub message: String,
    /// Whole percent of the work done, from 0 to 100; `None` when it is not
    /// known.
    pub percentage: Option<u8>,
    pub phase: Phase,
    /// Entries dealt with so far.
    pub current: u64,
    /// Entries in all.
    pub total: u64,
}

/// What a `ProgressEvent` means.
pub struct ProgressView {
    pub message: Seq<char>,
    pub percentage: Option<u8>,
    pub phase: Phase,
    pub current: u64,
    pub total: u64,
}

impl View for ProgressEvent {
    type V = ProgressView;

    open spec fn view(&self) -> ProgressView {
        ProgressView {
            message: self.message@,
            percentage: self.percentage,
            phase: self.phase,
            current: self.current,
            total: self.total,
        }
    }
}

impl Clone for ProgressEvent {
    fn clone(&self) -> (copy: Self)
        ensures
            copy == *self,
    {
        ProgressEvent {
            message: self.message.clone(),
            percentage: self.percentage,
            phase: self.phase,
            current: self.current,
            total: self.total,
        }
    }
}

/// `current` out of `total` in whole percent, rounded down and held within
/// 0 to 100. Nothing out of nothing is 0.
pub open spec fn percent(current: int, total: int) -> int {
    if total <= 0 || current <= 0 {
        0
    } else if current >= total {
        100
    } else {
        current * 100 / total
    }
}

/// The percentage never leaves the range from 0 to 100.
pub proof fn lemma_percent_bounds(current: int, total: int)
    ensures
        0 <= percent(current, total) <= 100,
{
    if total > 0 && 0 < current < total {
        assert(0 <= current * 100 / total <= 100) by (nonlinear_arith)
            requires
                0 < current < total,
        ;
    }
}

/// A larger count never gives a smaller percentage.
pub proof fn lemma_percent_monotone(earlier: int, later: int, total: int)
    requires
        earlier <= later,
    ensures
        percent(earlier, total) <= percent(later, total),
{
    lemma_percent_bounds(earlier, total);
    lemma_percent_bounds(later, total);
    if total > 0 && 0 < earlier && later < total {
        assert(earlier * 100 / total <= later * 100 / total) by (nonlinear_arith)
            requires
                0 < earlier <= later,
                total > 0,
        ;
    }
}

/// Computes `percent(current, total)`.
pub fn percent_of(current: u64, total: u64) -> (value: u8)
    ensures
        value == percent(current as int, total as int),
        value <= 100,
{
    proof {
        lemma_percent_bounds(current as int, total as int);
    }
    if total == 0 || current == 0 {
        0
    } else if current >= total {
        100
    } else {
        let scaled: u128 = current as u128 * 100;
        let whole: u128 = scaled / (total as u128);
        whole as u8
    }
}

/// The event that opens a run: nothing done yet of `total` entries.
pub open spec fn preparing_event(total: u64) -> ProgressView {
    ProgressView {
        message: "Preparing modpack update..."@,
        percentage: Some(0u8),
        phase: Phase::Preparing,
        current: 0,
        total,
    }
}

/// The event that announces the deletion of the stale file at `path`.
pub open spec fn removing_event(path: Seq<char>, total: u64) -> ProgressView {
    ProgressView {
        message: "Removing "@ + path,
        percentage: Some(0u8),
        phase: Phase::Removing,
        current: 0,
        total,
    }
}

/// The event that announces the download of the entry at `path`, with
/// `current` entries dealt with before it.
pub open spec fn downloading_event(path: Seq<char>, current: u64, total: u64) -> ProgressView {
    ProgressView {
        message: "Downloading "@ + path,
        percentage: Some(percent(current as int, total as int) as u8),
        phase: Phase::Downloading,
        current,
        total,
    }
}

/// The event that reports the entry at `path` as written. The count moves on
/// only with the next entry.
pub open spec fn installed_event(path: Seq<char>, current: u64, total: u64) -> ProgressView {
    ProgressView {
        message: "Installed "@ + path,
        percentage: Some(percent(current as int, total as int) as u8),
        phase: Phase::Installing,
        current,
        total,
    }
}

/// The event that reports the entry at `path` as already matching.
pub open spec fn up_to_date_event(path: Seq<char>, current: u64, total: u64) -> ProgressView {
    ProgressView {
        message: "Up-to-date: "@ + path,
        percentage: Some(percent(current as int, total as int) as u8),
        phase: Phase::UpToDate,
        current,
        total,
    }
}

/// The event that closes a run: all `total` entries dealt with, at 100
/// percent whatever the total.
pub open spec fn complete_event(total: u64) -> ProgressView {
    ProgressView {
        message: "Download complete"@,
        percentage: Some(100u8),
        phase: Phase::Complete,
        current: total,
        total,
    }
}

fn labelled(label: &str, subject: &String) -> (message: String)
    ensures
        message@ == label@ + subject@,
{
    let mut message = String::from_str(label);
    message.append(subject.as_str());
    message
}

impl Phase {
    /// The name under which the observer knows this phase.
    pub fn name(&self) -> (name: String)
        ensures
            name@ == match *self {
                Phase::Preparing => "preparing"@,
                Phase::Removing => "removing"@,
                Phase::Downloading => "downloading"@,
                Phase::Installing => "installing"@,
                Phase::UpToDate => "up_to_date"@,
                Phase::Complete => "complete"@,
            },
    {
        match self {
            Phase::Preparing => String::from_str("preparing"),
            Phase::Removing => String::from_str("removing"),
            Phase::Downloading => String::from_str("downloading"),
            Phase::Installing => String::from_str("installing"),
            Phase::UpToDate => String::from_str("up_to_date"),
            Phase::Complete => String::from_str("complete"),
        }
    }
}

impl ProgressEvent {
    /// The report that opens a run, before anything is changed.
    pub fn preparing(total: u64) -> (event: ProgressEvent)
        ensures
            event@ == preparing_event(total),
    {
        ProgressEvent {
            message: String::from_str("Preparing modpack update..."),
            percentage: Some(0),
            phase: Phase::Preparing,
            current: 0,
            total,
        }
    }

    /// The report that a file no longer wanted is about to be deleted.
    pub fn removing(path: &String, total: u64) -> (event: ProgressEvent)
        ensures
            event@ == removing_event(path@, total),
    {
        ProgressEvent {
            message: labelled("Removing ", path),
            percentage: Some(0),
            phase: Phase::Removing,
            current: 0,
            total,
        }
    }

    /// The report that a file is about to be fetched.
    pub fn downloading(path: &String, current: u64, total: u64) -> (event: ProgressEvent)
        ensures
            event@ == downloading_event(path@, current, total),
    {
        ProgressEvent {
            message: labelled("Downloading ", path),
            percentage: Some(percent_of(current, total)),
            phase: Phase::Downloading,
            current,
            total,
        }
    }

    /// The report that a fetched file has been written.
    pub fn installed(path: &String, current: u64, total: u64) -> (event: ProgressEvent)
        ensures
            event@ == installed_event(path@, current, total),
    {
        ProgressEvent {
            message: labelled("Installed ", path),
            percentage: Some(percent_of(current, total)),
            phase: Phase::Installing,
            current,
            total,
        }
    }

    /// The report that a file on disk already matches.
    pub fn up_to_date(path: &String, current: u64, total: u64) -> (event: ProgressEvent)
        ensures
            event@ == up_to_date_event(path@, current, total),
    {
        ProgressEvent {
            message: labelled("Up-to-date: ", path),
            percentage: Some(percent_of(current, total)),
            phase: Phase::UpToDate,
            current,
            total,
        }
    }

    /// The report that closes a successful run.
    pub fn complete(total: u64) -> (event: ProgressEvent)
        ensures
            event@ == complete_event(total),
    {
        ProgressEvent {
            message: String::from_str("Download complete"),
            percentage: Some(100),
            phase: Phase::Complete,
            current: total,
            total,
        }
    }
}

} // verus!
