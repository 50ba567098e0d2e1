//! The musical rule for changing the length of a trigger grid, stated over
//! sequences of booleans, with the facts that relate its parts.

use vstd::prelude::*;
use vstd::arithmetic::div_mod::lemma_fundamental_div_mod_converse;

verus! {

/// `n` slots that trigger nothing.
pub open spec fn silence(n: nat) -> Seq<bool> {
    Seq::new(n, |i: int| false)
}

/// Every slot of `slots` followed by `factor - 1` silent slots: the slot at
/// `j` moves to `j * factor`.
pub open spec fn interpolated(slots: Seq<bool>, factor: nat) -> Seq<bool> {
    Seq::new(
        slots.len() * factor,
        |i: int| i % (factor as int) == 0 && slots[i / (factor as int)],
    )
}

/// How many slots are left when every `factor`-th slot of `len` is kept,
/// starting with the first.
pub open spec fn decimated_len(len: nat, factor: nat) -> nat {
    ((len + factor - 1) / (factor as int)) as nat
}

/// Every `factor`-th slot of `slots`, starting with the first.
pub open spec fn decimated(slots: Seq<bool>, factor: nat) -> Seq<bool> {
    Seq::new(decimated_len(slots.len(), factor), |i: int| slots[i * factor])
}

/// The slots of a voice after the grid changes from `p` slots to `n`.
///
/// An empty grid on either side gives silence. A grid that grows by a whole
/// factor is interpolated, one that shrinks by a whole factor is decimated.
/// Any other growth appends silence, any other shrinking drops the tail.
pub open spec fn resized(slots: Seq<bool>, p: nat, n: nat) -> Seq<bool> {
    if p == 0 || n == 0 {
        silence(n)
    } else if n > p {
        if n % p == 0 {
            interpolated(slots, n / p)
        } else {
            slots + silence((n - p) as nat)
        }
    } else if n < p {
        if p % n == 0 {
            decimated(slots, p / n)
        } else {
            slots.take(n as int)
        }
    } else {
        slots
    }
}

/// Position `j * k + r` with `r < k` lies in block `j` at offset `r`.
pub proof fn lemma_block_position(j: int, r: int, k: int)
    requires
        0 <= r < k,
    ensures
        (j * k + r) / k == j,
        (j * k + r) % k == r,
{
    lemma_fundamental_div_mod_converse(j * k + r, k, j, r);
}

/// Keeping every `k`-th of `n * k` slots leaves `n` of them.
pub proof fn lemma_decimated_len_exact(n: nat, k: nat)
    requires
        k >= 1,
    ensures
        decimated_len(n * k, k) == n,
{
    lemma_block_position(n as int, k - 1, k as int);
}

/// A whole multiple `n` of `p` is `p` times the quotient.
pub proof fn lemma_whole_factor(n: nat, p: nat)
    requires
        p >= 1,
        n % p == 0,
    ensures
        p * (n / p) == n,
        (n / p) * p == n,
        n >= p ==> n / p >= 1,
{
    vstd::arithmetic::div_mod::lemma_fundamental_div_mod(n as int, p as int);
    assert(p * (n / p) == (n / p) * p) by (nonlinear_arith);
    if n >= p && n / p < 1 {
        assert(n / p <= 0);
        assert(p * (n / p) <= 0) by (nonlinear_arith)
            requires
                p >= 1,
                n / p <= 0,
        ;
    }
}

/// A resized grid has the new length, whatever the rule that applied.
pub proof fn lemma_resized_len(slots: Seq<bool>, p: nat, n: nat)
    requires
        slots.len() == p,
    ensures
        resized(slots, p, n).len() == n,
{
    if p == 0 || n == 0 {
    } else if n > p {
        if n % p == 0 {
            lemma_whole_factor(n, p);
        }
    } else if n < p {
        if p % n == 0 {
            lemma_whole_factor(p, n);
            lemma_decimated_len_exact(n, p / n);
        }
    }
}

/// Resizing a grid to the length it has changes nothing.
pub proof fn lemma_resized_same(slots: Seq<bool>, n: nat)
    requires
        slots.len() == n,
    ensures
        resized(slots, n, n) == slots,
{
    assert(resized(slots, n, n) =~= slots);
}

/// Growing a grid by a whole factor and shrinking it back gives the slots it
/// had, one for one.
pub proof fn lemma_resized_round_trip(slots: Seq<bool>, p: nat, k: nat)
    requires
        slots.len() == p,
        k >= 1,
    ensures
        resized(resized(slots, p, k * p), k * p, p) == slots,
{
    let n = k * p;
    let grown = resized(slots, p, n);
    lemma_resized_len(slots, p, n);
    if p == 0 {
        assert(n == 0) by (nonlinear_arith)
            requires
                n == k * p,
                p == 0,
        ;
        assert(resized(grown, n, p) =~= slots);
    } else if k == 1 {
        assert(n == p) by (nonlinear_arith)
            requires
                n == k * p,
                k == 1,
        ;
        assert(resized(grown, n, p) =~= slots);
    } else {
        assert(n > p && n >= 1) by (nonlinear_arith)
            requires
                n == k * p,
                k >= 2,
                p >= 1,
        ;
        lemma_block_position(k as int, 0, p as int);
        assert(n % p == 0);
        assert(n / p == k);
        assert(grown == interpolated(slots, k));
        lemma_decimated_len_exact(p, k);
        assert(p * k == n) by (nonlinear_arith)
            requires
                n == k * p,
        ;
        let back = resized(grown, n, p);
        assert(back == decimated(grown, k));
        assert(back.len() == p);
        assert forall|i: int| 0 <= i < p implies back[i] == slots[i] by {
            lemma_block_position(i, 0, k as int);
            assert(i * k < p * k) by (nonlinear_arith)
                requires
                    0 <= i < p,
                    k >= 1,
            ;
        }
        assert(back =~= slots);
    }
}

/// Growing a grid by anything but a whole factor keeps the slots it had as a
/// prefix and fills the rest with silence.
pub proof fn lemma_resized_appends(slots: Seq<bool>, p: nat, n: nat)
    requires
        slots.len() == p,
        p >= 1,
        n > p,
        n % p != 0,
    ensures
        resized(slots, p, n).len() == n,
        resized(slots, p, n).take(p as int) == slots,
        forall|i: int| p <= i < n ==> !(#[trigger] resized(slots, p, n)[i]),
{
    assert(resized(slots, p, n).take(p as int) =~= slots);
}

} // verus!
