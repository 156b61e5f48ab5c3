//! Step-count sweeps that follow an arithmetic progression.

use vstd::prelude::*;

verus! {

/// The `i`-th term of the arithmetic progression that starts at `init` and
/// grows by `step`.
pub open spec fn arithm_term(init: int, step: int, i: int) -> int {
    init + i * step
}

/// The number of terms that a sweep of `num` steps holds: none for a
/// negative `num`.
pub open spec fn arithm_len(num: int) -> nat {
    if num < 0 {
        0
    } else {
        num as nat
    }
}

/// Every one of the first `num` terms can be held in an `i32`.
pub open spec fn arithm_fits(init: int, step: int, num: int) -> bool {
    forall|i: int|
        0 <= i < num ==> i32::MIN <= #[trigger] arithm_term(init, step, i) <= i32::MAX
}

/// A sweep with a step that is not negative never decreases, and one with a
/// positive step increases from each term to the next.
pub proof fn lemma_arithm_monotone(init: int, step: int, i: int, j: int)
    requires
        i <= j,
    ensures
        step >= 0 ==> arithm_term(init, step, i) <= arithm_term(init, step, j),
        step > 0 && i < j ==> arithm_term(init, step, i) < arithm_term(init, step, j),
        step <= 0 ==> arithm_term(init, step, i) >= arithm_term(init, step, j),
{
    assert(step >= 0 ==> i * step <= j * step) by (nonlinear_arith)
        requires
            i <= j,
    ;
    assert(step > 0 && i < j ==> i * step < j * step) by (nonlinear_arith)
        requires
            i <= j,
    ;
    assert(step <= 0 ==> i * step >= j * step) by (nonlinear_arith)
        requires
            i <= j,
    ;
}

/// Whether the sweep of `num` terms from `init` by `step` stays within `i32`.
pub fn arithm_in_range(init: i32, step: i32, num: i32) -> (ok: bool)
    ensures
        ok == arithm_fits(init as int, step as int, num as int),
{
    if num <= 0 {
        return true;
    }
    assert(-0x4000_0000_0000_0000 <= (num - 1) * step <= 0x4000_0000_0000_0000)
        by (nonlinear_arith)
        requires
            0 <= num - 1 < 0x8000_0000,
            -0x8000_0000 <= step < 0x8000_0000,
    ;
    let last: i64 = (init as i64) + ((num - 1) as i64) * (step as i64);
    let ok = (i32::MIN as i64) <= last && last <= (i32::MAX as i64);
    proof {
        assert(last == arithm_term(init as int, step as int, num - 1));
        assert(init == arithm_term(init as int, step as int, 0));
        if ok {
            assert forall|i: int| 0 <= i < num implies i32::MIN <= #[trigger] arithm_term(
                init as int,
                step as int,
                i,
            ) <= i32::MAX by {
                lemma_arithm_monotone(init as int, step as int, 0, i);
                lemma_arithm_monotone(init as int, step as int, i, num - 1);
            }
        }
    }
    ok
}

/// The arithmetic sweep: `num` step counts, the `i`-th being
/// `init + i * step`; none when `num` is not positive.
pub fn gen_arithm(init: i32, step: i32, num: i32) -> (v: Vec<i32>)
    requires
        arithm_fits(init as int, step as int, num as int),
    ensures
        v@.len() == arithm_len(num as int),
        forall|i: int| 0 <= i < v@.len() ==> v@[i] == arithm_term(init as int, step as int, i),
        forall|i: int| 0 <= i < v@.len() - 1 ==> #[trigger] v@[i + 1] - v@[i] == step,
{
    let mut v: Vec<i32> = Vec::new();
    let mut i: i32 = 0;
    while i < num
        invariant
            0 <= i <= arithm_len(num as int),
            v@.len() == i,
            arithm_fits(init as int, step as int, num as int),
            forall|j: int| 0 <= j < i ==> v@[j] == arithm_term(init as int, step as int, j),
        decreases num - i,
    {
        assert(-0x4000_0000_0000_0000 <= i * step <= 0x4000_0000_0000_0000) by (nonlinear_arith)
            requires
                0 <= i < 0x8000_0000,
                -0x8000_0000 <= step < 0x8000_0000,
        ;
        let term: i64 = (init as i64) + (i as i64) * (step as i64);
        assert(term == arithm_term(init as int, step as int, i as int));
        v.push(term as i32);
        i = i + 1;
    }
    proof {
        assert forall|j: int| 0 <= j < v@.len() - 1 implies #[trigger] v@[j + 1] - v@[j]
            == step by {
            assert((j + 1) * step == j * step + step) by (nonlinear_arith);
        }
    }
    v
}

} // verus!
