//! Arithmetic of a ring of `n` slots addressed by `version mod n`.

use vstd::prelude::*;
use vstd::arithmetic::div_mod::{
    lemma_fundamental_div_mod, lemma_fundamental_div_mod_converse, lemma_mod_bound,
};

verus! {

/// The one version in `[base, base + n)` that lives in slot `slot`.
pub open spec fn slot_version(base: int, slot: int, n: int) -> int {
    base + (slot - base) % n
}

/// `slot_version` lands in its window and in its slot.
pub proof fn lemma_slot_version_range(base: int, slot: int, n: int)
    requires
        0 < n,
        0 <= slot < n,
    ensures
        base <= slot_version(base, slot, n) < base + n,
        slot_version(base, slot, n) % n == slot,
{
    let x = slot - base;
    lemma_fundamental_div_mod(x, n);
    lemma_mod_bound(x, n);
    let q = x / n;
    let r = x % n;
    assert(base + r == (-q) * n + slot) by (nonlinear_arith)
        requires
            slot - base == n * q + r,
    ;
    lemma_fundamental_div_mod_converse(base + r, n, -q, slot);
}

/// Within a window of `n` versions each slot is hit exactly once.
pub proof fn lemma_slot_version_unique(base: int, v: int, n: int)
    requires
        0 < n,
        base <= v < base + n,
    ensures
        0 <= v % n < n,
        slot_version(base, v % n, n) == v,
{
    lemma_fundamental_div_mod(v, n);
    lemma_mod_bound(v, n);
    let q = v / n;
    let j = v % n;
    assert(j - base == (-q) * n + (v - base)) by (nonlinear_arith)
        requires
            v == n * q + j,
    ;
    lemma_fundamental_div_mod_converse(j - base, n, -q, v - base);
}

/// The latest version below `end` that lives in slot `slot`.
pub open spec fn latest_below(end: int, slot: int, n: int) -> int {
    slot_version(end - n, slot, n)
}

/// `latest_below` is one of the `n` versions just below `end`, and lives in
/// its slot.
pub proof fn lemma_latest_below_range(end: int, slot: int, n: int)
    requires
        0 < n,
        0 <= slot < n,
    ensures
        end - n <= latest_below(end, slot, n) < end,
        latest_below(end, slot, n) % n == slot,
{
    lemma_slot_version_range(end - n, slot, n);
}

/// Each of the `n` versions just below `end` is the latest one in its slot.
pub proof fn lemma_latest_below_unique(end: int, v: int, n: int)
    requires
        0 < n,
        end - n <= v < end,
    ensures
        0 <= v % n < n,
        latest_below(end, v % n, n) == v,
{
    lemma_slot_version_unique(end - n, v, n);
}

/// Writing version `end` changes the latest version of its own slot only.
pub proof fn lemma_latest_below_step(end: int, slot: int, n: int)
    requires
        0 < n,
        0 <= slot < n,
    ensures
        latest_below(end + 1, slot, n) == if slot == end % n {
            end
        } else {
            latest_below(end, slot, n)
        },
{
    lemma_latest_below_range(end + 1, slot, n);
    lemma_latest_below_unique(end + 1, end, n);
    let v = latest_below(end + 1, slot, n);
    if slot != end % n {
        lemma_latest_below_unique(end, v, n);
    }
}

/// Two windows of `n` versions agree on every version that lies in both.
pub proof fn lemma_latest_below_agree(end_a: int, end_b: int, slot: int, n: int)
    requires
        0 < n,
        0 <= slot < n,
        end_b - n <= latest_below(end_a, slot, n) < end_b,
    ensures
        latest_below(end_b, slot, n) == latest_below(end_a, slot, n),
{
    lemma_latest_below_range(end_a, slot, n);
    lemma_latest_below_unique(end_b, latest_below(end_a, slot, n), n);
}

} // verus!
