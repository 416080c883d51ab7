//! Where records land in a ring of `c` slots and which one a reader meets next.
//!
//! Record number `e` (its epoch, counted from 1) is written into slot `(e - 1) % c`,
//! so after `w` pushes slot `i` holds the newest epoch `e <= w` with
//! `(e - 1) % c == i`, or nothing (epoch 0) when no push has reached it yet.
use vstd::prelude::*;
use vstd::arithmetic::div_mod::{
    lemma_add_mod_noop_right,
    lemma_fundamental_div_mod,
    lemma_mod_equivalence,
    lemma_mod_multiples_vanish,
    lemma_mod_sub_multiples_vanish,
    lemma_small_mod,
};

verus! {

/// Slot `i` of a ring of `c` slots holds epoch `e` after `w` pushes.
pub open spec fn holds_epoch(w: int, c: int, i: int, e: int) -> bool {
    ||| (e == 0 && w <= i)
    ||| (1 <= e <= w && (e - 1) % c == i && w < e + c)
}

/// The epoch a reader that has consumed up to epoch `r` takes next, once `w`
/// records have been pushed (`r < w`): the newest record in the slot after the
/// one of epoch `r`. When nothing was overwritten this is `r + 1`.
pub open spec fn next_epoch(w: int, r: int, c: int) -> int {
    w - (w - r - 1) % c
}

/// The epochs that successive reads yield, from read epoch `r` until the reader
/// has caught up with the `w` pushed records.
pub open spec fn drain_epochs(w: int, r: int, c: int) -> Seq<int>
    decreases w - r,
{
    if r < w && 0 < c && r < next_epoch(w, r, c) {
        seq![next_epoch(w, r, c)].add(drain_epochs(w, next_epoch(w, r, c), c))
    } else {
        Seq::empty()
    }
}

/// The run of consecutive epochs `from, from + 1, ..., to`.
pub open spec fn epoch_run(from: int, to: int) -> Seq<int> {
    Seq::new((to - from + 1) as nat, |k: int| from + k)
}

/// Two distinct non-negative numbers with the same remainder lie at least `c` apart.
pub proof fn lemma_congruent_gap(a: int, b: int, c: int)
    requires
        0 <= a < b,
        0 < c,
        a % c == b % c,
    ensures
        a + c <= b,
{
    lemma_fundamental_div_mod(a, c);
    lemma_fundamental_div_mod(b, c);
    let qa = a / c;
    let qb = b / c;
    assert(b - a == c * (qb - qa)) by (nonlinear_arith)
        requires
            a == c * qa + a % c,
            b == c * qb + b % c,
            a % c == b % c,
    ;
    assert(c * (qb - qa) >= c) by (nonlinear_arith)
        requires
            c * (qb - qa) > 0,
            c > 0,
    ;
}

/// Stepping a position forward by one commutes with reducing it modulo `c`.
pub proof fn lemma_step_mod(a: int, c: int)
    requires
        0 < c,
    ensures
        (a % c + 1) % c == (a + 1) % c,
{
    lemma_add_mod_noop_right(1, a, c);
}

/// A fresh ring: every slot is empty.
pub proof fn lemma_fresh_ring(c: int, i: int)
    requires
        0 <= i < c,
    ensures
        holds_epoch(0, c, i, 0),
{
}

/// Push number `w + 1` lands in slot `w % c` and leaves every other slot as it was.
pub proof fn lemma_push_epochs(w: int, c: int, i: int, e: int)
    requires
        0 <= w,
        0 <= i < c,
        holds_epoch(w, c, i, e),
    ensures
        i == w % c ==> holds_epoch(w + 1, c, i, w + 1),
        i != w % c ==> holds_epoch(w + 1, c, i, e),
{
    if e == 0 {
        if i != w % c {
            lemma_small_mod(w as nat, c as nat);
        }
    } else if i != w % c && w + 1 == e + c {
        lemma_mod_sub_multiples_vanish(w, c);
        assert((e - 1) % c == w % c);
    }
}

/// What a reader at epoch `r < w` finds in slot `r % c` is the record of
/// `next_epoch(w, r, c)`, which is newer than `r` and not yet lapped.
pub proof fn lemma_next_slot(w: int, r: int, c: int, e: int)
    requires
        0 <= r < w,
        0 < c,
        holds_epoch(w, c, r % c, e),
    ensures
        e == next_epoch(w, r, c),
        r < e <= w,
        w < e + c,
        (r % c + 1) % c == e % c,
{
    assert(r % c <= r) by {
        lemma_fundamental_div_mod(r, c);
        assert(r / c >= 0) by {
            vstd::arithmetic::div_mod::lemma_div_pos_is_pos(r, c);
        }
        assert(c * (r / c) >= 0) by (nonlinear_arith)
            requires
                c > 0,
                r / c >= 0,
        ;
    }
    if e - 1 < r {
        lemma_congruent_gap(e - 1, r, c);
    }
    let d = w - e;
    let k = e - 1 - r;
    lemma_mod_equivalence(e - 1, r, c);
    assert(k % c == 0);
    lemma_fundamental_div_mod(k, c);
    let q = k / c;
    assert(k == c * q);
    lemma_mod_multiples_vanish(q, d, c);
    lemma_small_mod(d as nat, c as nat);
    assert(w - r - 1 == c * q + d);
    lemma_step_mod(e - 1, c);
}

/// Without overwrites (at most `c` records unread) the next record is the oldest unread one.
pub proof fn lemma_next_without_overwrite(w: int, r: int, c: int)
    requires
        0 <= r < w,
        w - r <= c,
    ensures
        next_epoch(w, r, c) == r + 1,
{
    lemma_small_mod((w - r - 1) as nat, c as nat);
}

/// The slot before position `w % c`, going round the ring, is slot `(w - 1) % c`.
pub proof fn lemma_prev_index(w: int, c: int)
    requires
        1 <= w,
        0 < c,
    ensures
        w % c == 0 ==> (w - 1) % c == c - 1,
        w % c != 0 ==> (w - 1) % c == w % c - 1,
{
    lemma_fundamental_div_mod(w, c);
    vstd::arithmetic::div_mod::lemma_mod_pos_bound(w, c);
    let q = w / c;
    assert(w == q * c + w % c) by (nonlinear_arith)
        requires
            w == c * q + w % c,
    ;
    if w % c == 0 {
        assert(w - 1 == (q - 1) * c + (c - 1)) by (nonlinear_arith)
            requires
                w == q * c,
        ;
        vstd::arithmetic::div_mod::lemma_fundamental_div_mod_converse(w - 1, c, q - 1, c - 1);
    } else {
        vstd::arithmetic::div_mod::lemma_fundamental_div_mod_converse(w - 1, c, q, w % c - 1);
    }
}

/// After `w >= 1` pushes, slot `(w - 1) % c` holds the newest record.
pub proof fn lemma_latest_slot(w: int, c: int, e: int)
    requires
        1 <= w,
        0 < c,
        holds_epoch(w, c, (w - 1) % c, e),
    ensures
        e == w,
{
    lemma_next_slot(w, w - 1, c, e);
}

/// Reads without overwrites: while at most `c` records are unread, successive
/// reads return every unread record, oldest first, with no gap.
pub proof fn lemma_drain_in_order(w: int, r: int, c: int)
    requires
        0 <= r <= w,
        w - r <= c,
        0 < c,
    ensures
        drain_epochs(w, r, c) == epoch_run(r + 1, w),
    decreases w - r,
{
    if r < w {
        lemma_next_without_overwrite(w, r, c);
        lemma_drain_in_order(w, r + 1, c);
        assert(drain_epochs(w, r, c) =~= epoch_run(r + 1, w));
    } else {
        assert(drain_epochs(w, r, c) =~= epoch_run(r + 1, w));
    }
}

/// Freshness bias: whatever was pushed, draining returns at most `c` records and
/// their epochs are a suffix `e, e + 1, ..., w` of the pushed sequence, starting
/// at the next record read.
pub proof fn lemma_drain_is_suffix(w: int, r: int, c: int)
    requires
        0 <= r < w,
        0 < c,
    ensures
        drain_epochs(w, r, c) == epoch_run(next_epoch(w, r, c), w),
        drain_epochs(w, r, c).len() <= c,
        drain_epochs(w, r, c).len() >= 1,
        r < next_epoch(w, r, c) <= w,
{
    let e = next_epoch(w, r, c);
    vstd::arithmetic::div_mod::lemma_mod_pos_bound(w - r - 1, c);
    vstd::arithmetic::div_mod::lemma_mod_decreases((w - r - 1) as nat, c as nat);
    assert(r < e <= w);
    lemma_drain_in_order(w, e, c);
    assert(drain_epochs(w, r, c) =~= epoch_run(e, w));
}

/// A single slot keeps only the latest record: every push replaces it, and a
/// reader behind gets exactly the newest record.
pub proof fn lemma_single_slot(w: int, r: int)
    requires
        0 <= r < w,
    ensures
        next_epoch(w, r, 1) == w,
        drain_epochs(w, r, 1) == seq![w],
{
    lemma_drain_is_suffix(w, r, 1);
    assert(epoch_run(w, w) =~= seq![w]);
}

} // verus!
