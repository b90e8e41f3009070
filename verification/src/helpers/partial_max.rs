//! The maximum of a collection of partially ordered values.

use vstd::prelude::*;

use crate::fixed::Fixed;

verus! {

/// The largest value in a non-empty sequence of raw values; when several
/// entries are equal to the maximum, the earliest one is the witness.
pub open spec fn seq_max_vals(s: Seq<int>) -> int
    decreases s.len(),
{
    if s.len() <= 1 {
        s[0]
    } else if seq_max_vals(s.drop_last()) < s.last() {
        s.last()
    } else {
        seq_max_vals(s.drop_last())
    }
}

/// The largest value of a non-empty sequence of scalars.
pub open spec fn max_value(v: Seq<Fixed>) -> int {
    seq_max_vals(v.map_values(|f: Fixed| f@))
}

/// No element of a sequence exceeds its maximum.
pub proof fn lemma_seq_max_ge(s: Seq<int>, k: int)
    requires
        0 <= k < s.len(),
    ensures
        s[k] <= seq_max_vals(s),
    decreases s.len(),
{
    if s.len() > 1 && k < s.len() - 1 {
        lemma_seq_max_ge(s.drop_last(), k);
    }
}

/// One acceptable scan step: visiting item `n - 1` with current selection
/// `(p0, sel0)`, the projection returned `px` for the item and the
/// comparator answered `switch`; the selection afterwards is the item
/// exactly when it said to switch.
pub open spec fn fold_step_ok<T, B, FProj: Fn(&T) -> B, FCmp: Fn(&B, &T, &B, &T) -> bool>(
    items: Seq<T>,
    f_proj: FProj,
    f_cmp: FCmp,
    n: int,
    p0: B,
    sel0: T,
    px: B,
    switch: bool,
    p: B,
    sel: T,
) -> bool {
    &&& call_ensures(f_proj, (&items[n - 1],), px)
    &&& call_ensures(f_cmp, (&p0, &sel0, &px, &items[n - 1]), switch)
    &&& p == if switch {
        px
    } else {
        p0
    }
    &&& sel == if switch {
        items[n - 1]
    } else {
        sel0
    }
}

/// The selection the left-to-right scan reaches after the first `n` items:
/// the first item starts as the selection with a projection computed for
/// it, and each later item replaces the selection exactly when the
/// comparator, applied to the current selection and the item (each with its
/// projection), said to switch.
pub open spec fn fold_selects<T, B, FProj: Fn(&T) -> B, FCmp: Fn(&B, &T, &B, &T) -> bool>(
    items: Seq<T>,
    f_proj: FProj,
    f_cmp: FCmp,
    n: int,
    p: B,
    sel: T,
) -> bool
    decreases n,
{
    if n <= 0 {
        false
    } else if n == 1 {
        sel == items[0] && call_ensures(f_proj, (&items[0],), p)
    } else {
        exists|p0: B, sel0: T, px: B, switch: bool|
            fold_selects(items, f_proj, f_cmp, n - 1, p0, sel0) && #[trigger] fold_step_ok(
                items,
                f_proj,
                f_cmp,
                n,
                p0,
                sel0,
                px,
                switch,
                p,
                sel,
            )
    }
}

/// One scan step extends the selection chain: from a selection reached
/// after `n` items, the comparator's verdict on item `n` determines the
/// selection reached after `n + 1` items.
pub proof fn lemma_fold_selects_step<T, B, FProj: Fn(&T) -> B, FCmp: Fn(&B, &T, &B, &T) -> bool>(
    items: Seq<T>,
    f_proj: FProj,
    f_cmp: FCmp,
    n: int,
    p0: B,
    sel0: T,
    px: B,
    switch: bool,
    p: B,
    sel: T,
)
    requires
        1 <= n,
        fold_selects(items, f_proj, f_cmp, n, p0, sel0),
        call_ensures(f_proj, (&items[n],), px),
        call_ensures(f_cmp, (&p0, &sel0, &px, &items[n]), switch),
        p == if switch {
            px
        } else {
            p0
        },
        sel == if switch {
            items[n]
        } else {
            sel0
        },
    ensures
        fold_selects(items, f_proj, f_cmp, n + 1, p, sel),
{
    assert(fold_selects(items, f_proj, f_cmp, (n + 1) - 1, p0, sel0));
    assert(fold_step_ok(items, f_proj, f_cmp, n + 1, p0, sel0, px, switch, p, sel));
}

/// Scans the items left to right, keeping one selected item and its
/// projection; the comparator decides, from the current selection and the
/// next item (each with its projection), whether to switch to the next
/// item. Starting from the first item avoids wrapping the selection in an
/// option inside the loop. The result, if any, is one of the items together
/// with a value the projection can return for it, reached by a scan
/// obeying [`fold_selects`]; with closures whose answers are not pinned by
/// their own contracts, that chain is the strongest statement available.
pub fn select_fold1<T: Copy, B, FProj: Fn(&T) -> B, FCmp: Fn(&B, &T, &B, &T) -> bool>(
    items: &Vec<T>,
    f_proj: FProj,
    f_cmp: FCmp,
) -> (r: Option<(B, T)>)
    requires
        forall|i: int|
            #![trigger items@[i]]
            0 <= i < items@.len() ==> call_requires(f_proj, (&items@[i],)),
        forall|b1: &B, t1: &T, b2: &B, t2: &T|
            #[trigger] call_requires(f_cmp, (b1, t1, b2, t2)),
    ensures
        (r is Some) <==> items@.len() > 0,
        r matches Option::Some(picked) ==> (exists|k: int|
            0 <= k < items@.len() && picked.1 == items@[k]) && call_ensures(
            f_proj,
            (&picked.1,),
            picked.0,
        ),
        r matches Option::Some(picked) ==> fold_selects(
            items@,
            f_proj,
            f_cmp,
            items@.len() as int,
            picked.0,
            picked.1,
        ),
{
    if items.len() == 0 {
        return None;
    }
    let mut sel: T = items[0];
    let mut sel_p: B = f_proj(&sel);
    let mut k: usize = 1;
    while k < items.len()
        invariant
            items@.len() > 0,
            1 <= k <= items@.len(),
            forall|i: int|
                #![trigger items@[i]]
                0 <= i < items@.len() ==> call_requires(f_proj, (&items@[i],)),
            forall|b1: &B, t1: &T, b2: &B, t2: &T|
                #[trigger] call_requires(f_cmp, (b1, t1, b2, t2)),
            exists|m: int| 0 <= m < items@.len() && sel == items@[m],
            call_ensures(f_proj, (&sel,), sel_p),
            fold_selects(items@, f_proj, f_cmp, k as int, sel_p, sel),
        decreases items@.len() - k,
    {
        let x: T = items[k];
        let x_p: B = f_proj(&x);
        let ghost previous_p = sel_p;
        let ghost previous_sel = sel;
        let switch = f_cmp(&sel_p, &sel, &x_p, &x);
        if switch {
            sel = x;
            sel_p = x_p;
        }
        proof {
            assert(call_ensures(f_proj, (&items@[k as int],), x_p));
            assert(call_ensures(
                f_cmp,
                (&previous_p, &previous_sel, &x_p, &items@[k as int]),
                switch,
            ));
            lemma_fold_selects_step(
                items@,
                f_proj,
                f_cmp,
                k as int,
                previous_p,
                previous_sel,
                x_p,
                switch,
                sel_p,
                sel,
            );
        }
        k += 1;
    }
    Some((sel_p, sel))
}

/// Collections whose maximum can be extracted; the `:` here says that the
/// contract of `partial_max` is chosen by each implementation.
pub trait PartialMaxIteratorExt<T>: Sized {
    /// What `partial_max` promises of its result.
    spec fn partial_max_post(&self, r: &Option<T>) -> bool;

    /// The largest element, or `None` when there is none.
    fn partial_max(self) -> (r: Option<T>)
        ensures
            self.partial_max_post(&r),
    ;
}

impl PartialMaxIteratorExt<Fixed> for Vec<Fixed> {
    /// `partial_max` is `None` exactly on the empty vector, and otherwise
    /// returns the largest value held.
    open spec fn partial_max_post(&self, r: &Option<Fixed>) -> bool {
        &&& (*r is None <==> self@.len() == 0)
        &&& self@.len() > 0 ==> (*r matches Option::Some(m) && m@ == max_value(self@))
    }

    // scans directly rather than through `select_fold1`, so the contract
    // can state the exact maximum instead of mere membership
    fn partial_max(self) -> (r: Option<Fixed>) {
        if self.len() == 0 {
            return None;
        }
        let ghost vals: Seq<int> = self@.map_values(|f: Fixed| f@);
        let mut sel: Fixed = self[0];
        let mut k: usize = 1;
        while k < self.len()
            invariant
                1 <= k <= self@.len(),
                vals == self@.map_values(|f: Fixed| f@),
                vals.len() == self@.len(),
                sel@ == seq_max_vals(vals.take(k as int)),
            decreases self@.len() - k,
        {
            let x: Fixed = self[k];
            // switch only on a strictly larger value, so the earliest of
            // equal maxima is kept.
            if sel.lt(x) {
                sel = x;
            }
            proof {
                assert(vals.take(k + 1).drop_last() =~= vals.take(k as int));
                assert(vals.take(k + 1).last() == x@);
            }
            k += 1;
        }
        proof {
            assert(vals.take(self@.len() as int) =~= vals);
        }
        Some(sel)
    }
}

} // verus!
