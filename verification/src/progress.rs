//! Progress of a transfer, as counts of objects.

use vstd::prelude::*;

verus! {

/// The share of `total` that `received` makes up, in whole percent, rounded
/// down.
pub open spec fn percent_of(received: nat, total: nat) -> nat
    recommends
        total > 0,
{
    100 * received / total
}

/// What is shown of a transfer at one moment.
#[derive(Clone, Copy, Debug, PartialEq, Eq, Structural)]
pub struct ProgressLine {
    /// Whether this is the first report of a transfer: its line has yet to
    /// be opened, later reports overwrite it.
    pub opens: bool,
    pub received: usize,
    pub total: usize,
    /// `None` where there is no percentage to show.
    pub percent: Option<usize>,
}

/// The percentage that is shown: none where nothing is to be transferred,
/// and none where the figure does not fit the machine word.
pub open spec fn shown_percent(received: usize, total: usize) -> Option<usize> {
    if total > 0 && percent_of(received as nat, total as nat) <= usize::MAX {
        Some(percent_of(received as nat, total as nat) as usize)
    } else {
        None
    }
}

/// Whole percent of the transfer that is done.
pub fn percentage(received: usize, total: usize) -> (percent: Option<usize>)
    ensures
        percent == shown_percent(received, total),
{
    if total == 0 {
        return None;
    }
    let wide: u128 = 100u128 * (received as u128) / (total as u128);
    if wide <= usize::MAX as u128 {
        Some(wide as usize)
    } else {
        None
    }
}

/// Turns the counts that a transfer reports into what is shown of it.
///
/// The first report of a transfer is the one that has received nothing yet.
pub fn handle_progress(received: usize, total: usize) -> (line: ProgressLine)
    ensures
        line == (ProgressLine {
            opens: received == 0,
            received,
            total,
            percent: shown_percent(received, total),
        }),
{
    ProgressLine { opens: received == 0, received, total, percent: percentage(received, total) }
}

} // verus!
