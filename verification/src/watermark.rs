//! Finding the index of a freshly created proposal or referendum from the
//! counter that the chain keeps of them.

use vstd::prelude::*;
use crate::error::{Violation, WorkflowError};
use crate::protocol::Counter;

verus! {

/// The failure reported when a counter shows that nothing was created.
pub open spec fn not_registered(counter: Counter) -> WorkflowError {
    WorkflowError::InvariantViolation(Violation::ProposalNotRegistered(counter))
}

/// The failure reported when a counter moved by anything but one.
pub open spec fn mismatch() -> WorkflowError {
    WorkflowError::InvariantViolation(Violation::WatermarkMismatch)
}

/// How many items a counter reading stands for: an absent counter has
/// counted none.
pub open spec fn count_of(reading: Option<u32>) -> int {
    match reading {
        Some(n) => n as int,
        None => 0,
    }
}

/// The index of the item created between two readings of its counter.
/// The counter must be present afterwards, not zero, and exactly one
/// above what it stood for before.
pub open spec fn discovered(counter: Counter, before: Option<u32>, after: Option<u32>) -> Result<
    u32,
    WorkflowError,
> {
    match after {
        None => Err(not_registered(counter)),
        Some(t) => if t == 0 {
            Err(not_registered(counter))
        } else if t == count_of(before) + 1 {
            Ok((t - 1) as u32)
        } else {
            Err(mismatch())
        },
    }
}

/// The index of the newest item by a single reading taken after its
/// creation: one below the counter, which must be present and not zero.
pub open spec fn newest(counter: Counter, reading: Option<u32>) -> Result<u32, WorkflowError> {
    match reading {
        Some(t) => if t == 0 {
            Err(not_registered(counter))
        } else {
            Ok((t - 1) as u32)
        },
        None => Err(not_registered(counter)),
    }
}

/// As [`newest`], but an absent counter stands for index zero.
pub open spec fn newest_or_first(counter: Counter, reading: Option<u32>) -> Result<
    u32,
    WorkflowError,
> {
    match reading {
        Some(t) => if t == 0 {
            Err(not_registered(counter))
        } else {
            Ok((t - 1) as u32)
        },
        None => Ok(0u32),
    }
}

/// Discovers the index of the item created between two readings of its
/// counter.
pub fn discover_index(counter: Counter, before: Option<u32>, after: Option<u32>) -> (r: Result<
    u32,
    WorkflowError,
>)
    ensures
        r == discovered(counter, before, after),
{
    let missing: WorkflowError = WorkflowError::InvariantViolation(
        Violation::ProposalNotRegistered(counter),
    );
    match after {
        None => Err(missing),
        Some(t) => {
            if t == 0 {
                return Err(missing);
            }
            let earlier: u32 = match before {
                Some(n) => n,
                None => 0,
            };
            if t - 1 == earlier {
                Ok(t - 1)
            } else {
                Err(WorkflowError::InvariantViolation(Violation::WatermarkMismatch))
            }
        },
    }
}

/// Discovers the index of the newest referendum from a fresh reading of
/// the referendum counter.
pub fn referendum_index(reading: Option<u32>) -> (r: Result<u32, WorkflowError>)
    ensures
        r == newest(Counter::Referenda, reading),
{
    let missing: WorkflowError = WorkflowError::InvariantViolation(
        Violation::ProposalNotRegistered(Counter::Referenda),
    );
    match reading {
        Some(t) => {
            if t == 0 {
                Err(missing)
            } else {
                Ok(t - 1)
            }
        },
        None => Err(missing),
    }
}

/// Discovers the index of the newest council motion from a fresh reading
/// of the council's proposal counter.
pub fn motion_index(reading: Option<u32>) -> (r: Result<u32, WorkflowError>)
    ensures
        r == newest_or_first(Counter::CouncilProposals, reading),
{
    match reading {
        Some(t) => {
            if t == 0 {
                Err(
                    WorkflowError::InvariantViolation(
                        Violation::ProposalNotRegistered(Counter::CouncilProposals),
                    ),
                )
            } else {
                Ok(t - 1)
            }
        },
        None => Ok(0),
    }
}

/// Watermark discovery. A counter that went from `n` to `n + 1` gives
/// index `n`; one that was absent and now reads one gives index zero; one
/// that reads zero afterwards is a violation whatever it read before.
pub proof fn lemma_watermark_discovery(counter: Counter, n: u32, before: Option<u32>)
    requires
        n < u32::MAX,
    ensures
        discovered(counter, Some(n), Some((n + 1) as u32)) == Ok::<u32, WorkflowError>(n),
        discovered(counter, None, Some(1u32)) == Ok::<u32, WorkflowError>(0u32),
        discovered(counter, before, Some(0u32)) == Err::<u32, WorkflowError>(
            not_registered(counter),
        ),
        newest(counter, Some(0u32)) == Err::<u32, WorkflowError>(not_registered(counter)),
        newest_or_first(counter, Some(0u32)) == Err::<u32, WorkflowError>(
            not_registered(counter),
        ),
{
}

/// An index is discovered only when the counter stands exactly one above
/// what it stood for before, and it is then the earlier count.
pub proof fn lemma_discovered_index_is_earlier_count(
    counter: Counter,
    before: Option<u32>,
    after: Option<u32>,
)
    ensures
        discovered(counter, before, after) matches Ok(index) ==> index == count_of(before)
            && count_of(after) == count_of(before) + 1,
        discovered(counter, before, after) is Err <==> count_of(after) != count_of(before) + 1
            || after is None,
{
}

} // verus!
