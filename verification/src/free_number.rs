//! Finding a number that is not taken.
//!
//! Partnering ids and request tokens are 32-bit numbers, and a new one must
//! differ from all that are in use. The search starts at a number of the
//! caller's choosing, counts upward, goes on from zero after the largest
//! number, and stops at the first number that is free.

use vstd::prelude::*;

verus! {

/// Whether `id` lies on the way from `start` up to, but not including,
/// `end`, counting upward and going on from zero after the largest number.
pub open spec fn on_the_way(start: u32, end: u32, id: u32) -> bool {
    if start <= end {
        start <= id < end
    } else {
        id >= start || id < end
    }
}

/// Whether `id` is the first number at or after `start`, going on from zero
/// after the largest number, that is not in `taken`.
pub open spec fn is_first_free_from(taken: Set<u32>, start: u32, id: u32) -> bool {
    &&& !taken.contains(id)
    &&& forall|other: u32| on_the_way(start, id, other) ==> taken.contains(other)
}

/// The number that is `k` steps after `start`, going on from zero after the
/// largest number.
pub open spec fn steps_after(start: u32, k: int) -> u32 {
    ((start + k) % 0x1_0000_0000) as u32
}

/// The number of steps from `start` to `id`.
pub open spec fn steps_to(start: u32, id: u32) -> int {
    if id >= start {
        id - start
    } else {
        id + 0x1_0000_0000 - start
    }
}

/// While a free number exists, a search that has found only taken numbers has
/// not yet gone all the way round.
pub proof fn lemma_search_goes_on(taken: Set<u32>, start: u32, steps: int)
    requires
        0 <= steps <= 0x1_0000_0000,
        forall|k: int| 0 <= k < steps ==> taken.contains(#[trigger] steps_after(start, k)),
        exists|free: u32| !taken.contains(free),
    ensures
        steps < 0x1_0000_0000,
{
    let free = choose|free: u32| !taken.contains(free);
    assert(steps_after(start, steps_to(start, free)) == free);
}

/// A search that stops at the first number it finds free has found the first
/// free number.
pub proof fn lemma_search_found_first(taken: Set<u32>, start: u32, steps: int, found: u32)
    requires
        0 <= steps < 0x1_0000_0000,
        forall|k: int| 0 <= k < steps ==> taken.contains(#[trigger] steps_after(start, k)),
        found == steps_after(start, steps),
        !taken.contains(found),
    ensures
        is_first_free_from(taken, start, found),
{
    assert forall|other: u32| on_the_way(start, found, other) implies taken.contains(other) by {
        let k = steps_to(start, other);
        assert(steps_after(start, k) == other);
    }
}

/// A finite set that holds every number below `n` has `n` members or more.
proof fn lemma_holds_all_below(taken: Set<u32>, n: nat)
    requires
        taken.finite(),
        n <= 0x1_0000_0000,
        forall|id: u32| id < n ==> taken.contains(id),
    ensures
        taken.len() >= n,
    decreases n,
{
    if n > 0 {
        let last = (n - 1) as u32;
        lemma_holds_all_below(taken.remove(last), (n - 1) as nat);
    }
}

/// A finite set of numbers below `n` has `n` members or fewer.
proof fn lemma_holds_only_below(taken: Set<u32>, n: nat)
    requires
        taken.finite(),
        n <= 0x1_0000_0000,
        forall|id: u32| taken.contains(id) ==> id < n,
    ensures
        taken.len() <= n,
    decreases n,
{
    if n == 0 {
        assert(taken =~= Set::empty());
    } else {
        let last = (n - 1) as u32;
        lemma_holds_only_below(taken.remove(last), (n - 1) as nat);
    }
}

/// A finite set of numbers below `n` that lacks one of them has fewer than
/// `n` members.
proof fn lemma_lacks_one_below(taken: Set<u32>, n: nat, free: u32)
    requires
        taken.finite(),
        n <= 0x1_0000_0000,
        forall|id: u32| taken.contains(id) ==> id < n,
        free < n,
        !taken.contains(free),
    ensures
        taken.len() < n,
    decreases n,
{
    let last = (n - 1) as u32;
    if last == free {
        lemma_holds_only_below(taken, (n - 1) as nat);
    } else {
        lemma_lacks_one_below(taken.remove(last), (n - 1) as nat, free);
    }
}

/// A finite set of 32-bit numbers has a number to spare exactly when it has
/// fewer members than there are such numbers.
pub proof fn lemma_free_number_exists(taken: Set<u32>)
    requires
        taken.finite(),
    ensures
        (exists|free: u32| !taken.contains(free)) <==> taken.len() < 0x1_0000_0000,
{
    if exists|free: u32| !taken.contains(free) {
        let free = choose|free: u32| !taken.contains(free);
        lemma_lacks_one_below(taken, 0x1_0000_0000, free);
    } else {
        lemma_holds_all_below(taken, 0x1_0000_0000);
    }
}

} // verus!
