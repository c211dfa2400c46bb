use vstd::prelude::*;

verus! {

/// Where the median of `count` sorted values is read: the two middle
/// positions for an even count (the median is their mean), the one middle
/// position twice for an odd count, and nothing for no values.
pub open spec fn median_positions_of(count: nat) -> Option<(usize, usize)> {
    if count == 0 {
        None
    } else if count % 2 == 0 {
        Some(((count / 2 - 1) as usize, (count / 2) as usize))
    } else {
        Some(((count / 2) as usize, (count / 2) as usize))
    }
}

/// The positions in a sorted dataset of `count` values whose mean is the
/// median, or `None` when the dataset is empty.
pub fn median_positions(count: usize) -> (r: Option<(usize, usize)>)
    ensures
        r == median_positions_of(count as nat),
        r matches Some((lo, hi)) ==> lo <= hi < count,
{
    if count == 0 {
        None
    } else if count % 2 == 0 {
        Some((count / 2 - 1, count / 2))
    } else {
        Some((count / 2, count / 2))
    }
}

} // verus!
