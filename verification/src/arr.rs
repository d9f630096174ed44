//! Array indexing and slicing, range resolution, and index updates, each
//! against an exact spec: which elements come out, and which error is
//! raised for which input, first offender first.

use vstd::prelude::*;
use crate::error::Error;
use crate::span::PackageSpan;
use crate::val::{Val, Value, views_of, clone_value, clone_values, lemma_vview_array};
use vstd::arithmetic::div_mod::lemma_fundamental_div_mod;

verus! {

/// A counting range: the next value to produce, the step, and the inclusive
/// bound.
pub struct Range {
    pub step: i64,
    pub end: i64,
    pub curr: i64,
}

impl Range {
    /// A range that counts from `start` by `step` while the bound admits it.
    pub fn new(start: i64, step: i64, end: i64) -> (r: Range)
        ensures
            r.curr == start && r.step == step && r.end == end,
    {
        Range { step, end, curr: start }
    }

    /// Whether the current position is still within the bound.
    pub open spec fn in_bound(self) -> bool {
        (self.step > 0 && self.curr <= self.end) || (self.step < 0 && self.curr >= self.end)
    }

    /// Produces the current value and advances by the step (wrapping at the
    /// numeric edge, where iteration has already left the bound).
    pub fn next(&mut self) -> (r: Option<i64>)
        ensures
            final(self).step == old(self).step && final(self).end == old(self).end,
            final(self).curr == vstd::wrapping::i64_specs::wrapping_add(
                old(self).curr,
                old(self).step,
            ),
            r == if old(self).in_bound() {
                Option::Some(old(self).curr)
            } else {
                Option::<i64>::None
            },
    {
        let curr = self.curr;
        self.curr = self.curr.wrapping_add(self.step);
        if (self.step > 0 && curr <= self.end) || (self.step < 0 && curr >= self.end) {
            Some(curr)
        } else {
            None
        }
    }
}

/// The start the range resolves to: an absent start defaults to the first
/// element walked in the step's direction.
pub open spec fn resolved_start(len: int, start: Option<i64>, step: i64) -> int {
    match start {
        Option::Some(s) => s as int,
        Option::None => if step > 0 {
            0
        } else {
            len - 1
        },
    }
}

/// The end the range resolves to: an absent end defaults to the last
/// element walked in the step's direction.
pub open spec fn resolved_end(len: int, step: i64, end: Option<i64>) -> int {
    match end {
        Option::Some(e) => e as int,
        Option::None => if step > 0 {
            len - 1
        } else {
            0
        },
    }
}

/// How many values a resolved range produces.
pub open spec fn range_len(start: int, step: int, end: int) -> nat {
    if step > 0 {
        if start > end {
            0
        } else {
            ((end - start) / step + 1) as nat
        }
    } else if step < 0 {
        if start < end {
            0
        } else {
            ((start - end) / (-step) + 1) as nat
        }
    } else {
        0
    }
}

/// The indices a resolved range walks: `start`, `start + step`, and so on,
/// inclusive of every point reachable with that step.
pub open spec fn range_idx_seq(start: int, step: int, end: int) -> Seq<int> {
    Seq::new(range_len(start, step, end), |k: int| start + k * step)
}

/// Every walked index lies between the start and the bound, and one more
/// step from the last index leaves the bound.
pub proof fn lemma_range_bounds(start: int, step: int, end: int, k: int)
    requires
        step != 0,
        0 <= k < range_len(start, step, end),
    ensures
        step > 0 ==> start <= start + k * step <= end,
        step < 0 ==> end <= start + k * step <= start,
        k + 1 == range_len(start, step, end) ==> (if step > 0 {
            start + (k + 1) * step > end
        } else {
            start + (k + 1) * step < end
        }),
{
    if step > 0 {
        let q = (end - start) / step;
        lemma_fundamental_div_mod(end - start, step);
        vstd::arithmetic::div_mod::lemma_mod_bound(end - start, step);
        assert(k * step <= q * step && 0 <= k * step) by (nonlinear_arith)
            requires
                0 <= k <= q && step > 0,
        ;
        assert(q * step <= end - start);
        if k + 1 == range_len(start, step, end) {
            assert((k + 1) * step == q * step + step) by (nonlinear_arith)
                requires
                    k + 1 == q + 1,
            ;
        }
    } else {
        let q = (start - end) / (-step);
        lemma_fundamental_div_mod(start - end, -step);
        vstd::arithmetic::div_mod::lemma_mod_bound(start - end, -step);
        assert(k * (-step) <= q * (-step) && 0 <= k * (-step)) by (nonlinear_arith)
            requires
                0 <= k <= q && -step > 0,
        ;
        assert(q * (-step) <= start - end);
        assert(k * step == -(k * (-step))) by (nonlinear_arith);
        if k + 1 == range_len(start, step, end) {
            assert((k + 1) * (-step) == q * (-step) + (-step)) by (nonlinear_arith)
                requires
                    k + 1 == q + 1,
            ;
            assert((k + 1) * step == -((k + 1) * (-step))) by (nonlinear_arith);
        }
    }
}

/// A range with a zero step is `RangeStepZero`; otherwise it walks exactly
/// the arithmetic progression from its start, keeping every point that the
/// step reaches before passing the bound.
pub proof fn lemma_range_iteration(start: int, step: int, end: int)
    requires
        step != 0,
    ensures
        range_idx_seq(start, step, end).len() == range_len(start, step, end),
        forall|k: int|
            0 <= k < range_len(start, step, end) ==> range_idx_seq(start, step, end)[k] == start
                + k * step,
        step > 0 ==> ((range_len(start, step, end) > 0) <==> start <= end),
        step < 0 ==> ((range_len(start, step, end) > 0) <==> start >= end),
        range_len(start, step, end) > 0 ==> (if step > 0 {
            start + (range_len(start, step, end) - 1) * step <= end && start + (range_len(
                start,
                step,
                end,
            ) as int) * step > end
        } else {
            start + (range_len(start, step, end) - 1) * step >= end && start + (range_len(
                start,
                step,
                end,
            ) as int) * step < end
        }),
{
    if step > 0 && start <= end {
        vstd::arithmetic::div_mod::lemma_div_non_zero(end - start + step, step);
        lemma_range_bounds(start, step, end, range_len(start, step, end) as int - 1);
    }
    if step < 0 && start >= end {
        lemma_range_bounds(start, step, end, range_len(start, step, end) as int - 1);
    }
}


/// Updating one element updates exactly that element's view.
proof fn lemma_views_update(pre: Seq<Value>, post: Seq<Value>, i: int, v: Value)
    requires
        0 <= i < pre.len(),
        post == pre.update(i, v),
    ensures
        views_of(post) == views_of(pre).update(i, v@),
{
    assert forall|j: int| 0 <= j < post.len() implies views_of(post)[j] == views_of(pre).update(
        i,
        v@,
    )[j] by {
        if j != i {
            assert(post[j] == pre[j]);
        }
    }
    assert(views_of(post) =~= views_of(pre).update(i, v@));
}

/// Picks array elements at a sequence of indices: `None` below zero is
/// `InvalidIndex`, past the end is `IndexOutOfRange`, first offender first.
pub open spec fn spec_gather(arrv: Seq<Val>, idxs: Seq<int>, span: PackageSpan) -> Result<
    Seq<Val>,
    Error,
>
    decreases idxs.len(),
{
    if idxs.len() == 0 {
        Result::Ok(Seq::<Val>::empty())
    } else {
        let i = idxs[0];
        if i < 0 {
            Result::Err(Error::InvalidIndex(i as i64, span))
        } else if i >= arrv.len() {
            Result::Err(Error::IndexOutOfRange(i as i64, span))
        } else {
            match spec_gather(arrv, idxs.drop_first(), span) {
                Result::Ok(rest) => Result::Ok(seq![arrv[i]].add(rest)),
                Result::Err(e) => Result::Err(e),
            }
        }
    }
}

/// Splitting a gather at a point where every earlier index is in bounds.
proof fn lemma_gather_prefix(arrv: Seq<Val>, idxs: Seq<int>, span: PackageSpan, k: int)
    requires
        0 <= k <= idxs.len(),
        forall|j: int| 0 <= j < k ==> 0 <= #[trigger] idxs[j] < arrv.len(),
    ensures
        spec_gather(arrv, idxs, span) == match spec_gather(arrv, idxs.skip(k), span) {
            Result::Ok(rest) => Result::Ok(
                Seq::new(k as nat, |j: int| arrv[idxs[j]]).add(rest),
            ),
            Result::Err(e) => Result::<Seq<Val>, Error>::Err(e),
        },
    decreases k,
{
    if k == 0 {
        assert(idxs.skip(0) =~= idxs);
        match spec_gather(arrv, idxs, span) {
            Result::Ok(rest) => {
                assert(Seq::new(0, |j: int| arrv[idxs[j]]).add(rest) =~= rest);
            },
            Result::Err(_) => {},
        }
    } else {
        assert(idxs.len() > 0);
        lemma_gather_prefix(arrv, idxs.drop_first(), span, k - 1);
        assert(idxs.drop_first().skip(k - 1) =~= idxs.skip(k));
        match spec_gather(arrv, idxs.skip(k), span) {
            Result::Ok(rest) => {
                assert(spec_gather(arrv, idxs.drop_first(), span) == Result::<
                    Seq<Val>,
                    Error,
                >::Ok(Seq::new((k - 1) as nat, |j: int| arrv[idxs.drop_first()[j]]).add(rest)));
                assert(seq![arrv[idxs[0]]].add(
                    Seq::new((k - 1) as nat, |j: int| arrv[idxs.drop_first()[j]]).add(rest),
                ) =~= Seq::new(k as nat, |j: int| arrv[idxs[j]]).add(rest));
            },
            Result::Err(_) => {},
        }
    }
}

/// Reads one array element: a negative index is `InvalidIndex`, one past
/// the end is `IndexOutOfRange`.
pub fn index_array(arr: &Vec<Value>, index: i64, span: PackageSpan) -> (r: Result<Value, Error>)
    ensures
        index < 0 ==> (r matches Err(e) && e == Error::InvalidIndex(index, span)),
        0 <= index < arr@.len() ==> (r matches Ok(v) && v@ == arr@[index as int]@),
        index >= arr@.len() ==> (r matches Err(e) && e == Error::IndexOutOfRange(index, span)),
{
    if index < 0 {
        Err(Error::InvalidIndex(index, span))
    } else if (index as u64) < arr.len() as u64 {
        Ok(clone_value(&arr[index as usize]))
    } else {
        Err(Error::IndexOutOfRange(index, span))
    }
}

/// The largest array length the range machinery admits.
pub open spec fn len_fits(len: nat) -> bool {
    len <= i64::MAX
}

/// What slicing an array by a range yields.
pub open spec fn spec_slice(arrv: Seq<Val>, start: Option<i64>, step: i64, end: Option<i64>, span:
    PackageSpan) -> Result<Seq<Val>, Error> {
    if step == 0 {
        Result::Err(Error::RangeStepZero(span))
    } else if !len_fits(arrv.len()) {
        Result::Err(Error::ArrayTooLarge(span))
    } else {
        let rs = resolved_start(arrv.len() as int, start, step);
        let re = resolved_end(arrv.len() as int, step, end);
        spec_gather(arrv, range_idx_seq(rs, step as int, re), span)
    }
}

/// Resolves a range against an array: a zero step is `RangeStepZero`, an
/// array longer than `i64` admits is `ArrayTooLarge`, and missing endpoints
/// default to the array's edges in the step's direction.
pub fn make_range(arr: &Vec<Value>, start: Option<i64>, step: i64, end: Option<i64>, span:
    PackageSpan) -> (r: Result<Range, Error>)
    ensures
        step == 0 ==> (r matches Err(e) && e == Error::RangeStepZero(span)),
        step != 0 && !len_fits(arr@.len()) ==> (r matches Err(e) && e == Error::ArrayTooLarge(
            span,
        )),
        step != 0 && len_fits(arr@.len()) ==> (r matches Ok(rng) && rng.step == step && rng.curr
            == resolved_start(arr@.len() as int, start, step) && rng.end == resolved_end(
            arr@.len() as int,
            step,
            end,
        )),
{
    if step == 0 {
        Err(Error::RangeStepZero(span))
    } else if arr.len() as u64 > i64::MAX as u64 {
        Err(Error::ArrayTooLarge(span))
    } else {
        let len = arr.len() as i64;
        let rs: i64 = match start {
            Option::Some(s) => s,
            Option::None => if step > 0 {
                0
            } else {
                len - 1
            },
        };
        let re: i64 = match end {
            Option::Some(e) => e,
            Option::None => if step > 0 {
                len - 1
            } else {
                0
            },
        };
        Ok(Range::new(rs, step, re))
    }
}

/// Slices an array by a range: the picked elements in walk order, or the
/// first index error the walk hits.
pub fn slice_array(arr: &Vec<Value>, start: Option<i64>, step: i64, end: Option<i64>, span:
    PackageSpan) -> (r: Result<Value, Error>)
    ensures
        match r {
            Ok(v) => spec_slice(views_of(arr@), start, step, end, span) matches Ok(s) && v@
                == Val::Array(s),
            Err(e) => spec_slice(views_of(arr@), start, step, end, span) == Result::<
                Seq<Val>,
                Error,
            >::Err(e),
        },
{
    let rng = match make_range(arr, start, step, end, span) {
        Ok(rng) => rng,
        Err(e) => {
            return Err(e);
        },
    };
    let ghost arrv = views_of(arr@);
    let ghost rs = rng.curr as int;
    let ghost re = rng.end as int;
    let ghost idxs = range_idx_seq(rs, step as int, re);
    let ghost total = range_len(rs, step as int, re);
    let mut out: Vec<Value> = Vec::new();
    let mut k: u128 = 0;
    while k < range_count(rng.curr, step, rng.end)
        invariant
            step != 0,
            rs == rng.curr as int && re == rng.end as int,
            rs == resolved_start(arr@.len() as int, start, step),
            re == resolved_end(arr@.len() as int, step, end),
            arrv == views_of(arr@),
            idxs == range_idx_seq(rs, step as int, re),
            total == range_len(rs, step as int, re),
            arrv.len() <= i64::MAX,
            k as nat <= total,
            forall|j: int| 0 <= j < k ==> 0 <= #[trigger] idxs[j] < arrv.len(),
            out@.len() == k,
            forall|j: int| 0 <= j < k ==> #[trigger] out@[j]@ == arrv[idxs[j]],
        decreases total - k,
    {
        proof {
            lemma_range_bounds(rs, step as int, re, k as int);
        }
        let idx_wide: i128 = (rng.curr as i128) + (k as i128) * (step as i128);
        let idx: i64 = idx_wide as i64;
        if idx < 0 {
            proof {
                lemma_gather_prefix(arrv, idxs, span, k as int);
                assert(idxs.skip(k as int).len() > 0);
                assert(idxs.skip(k as int)[0] == idx as int);
                assert(spec_gather(arrv, idxs.skip(k as int), span) == Result::<
                    Seq<Val>,
                    Error,
                >::Err(Error::InvalidIndex(idx, span)));
            }
            return Err(Error::InvalidIndex(idx, span));
        }
        if idx as u64 >= arr.len() as u64 {
            proof {
                lemma_gather_prefix(arrv, idxs, span, k as int);
                assert(idxs.skip(k as int).len() > 0);
                assert(idxs.skip(k as int)[0] == idx as int);
                assert(spec_gather(arrv, idxs.skip(k as int), span) == Result::<
                    Seq<Val>,
                    Error,
                >::Err(Error::IndexOutOfRange(idx, span)));
            }
            return Err(Error::IndexOutOfRange(idx, span));
        }
        out.push(clone_value(&arr[idx as usize]));
        k = k + 1;
    }
    proof {
        lemma_gather_prefix(arrv, idxs, span, total as int);
        assert(idxs.skip(total as int) =~= Seq::<int>::empty());
        assert(Seq::new(total, |j: int| arrv[idxs[j]]).add(Seq::<Val>::empty()) =~= Seq::new(
            total,
            |j: int| arrv[idxs[j]],
        ));
        lemma_vview_array(out);
        assert(views_of(out@) =~= Seq::new(total, |j: int| arrv[idxs[j]]));
    }
    Ok(Value::Array(out))
}

/// Counts how many values a resolved range produces.
pub fn range_count(curr: i64, step: i64, end: i64) -> (r: u128)
    requires
        step != 0,
    ensures
        r as nat == range_len(curr as int, step as int, end as int),
{
    if step > 0 {
        if curr > end {
            0
        } else {
            let diff: u64 = ((end as i128) - (curr as i128)) as u64;
            proof {
                lemma_range_count_fits(curr as int, step as int, end as int);
            }
            (diff / (step as u64)) as u128 + 1
        }
    } else {
        if curr < end {
            0
        } else {
            let diff: u64 = ((curr as i128) - (end as i128)) as u64;
            let nstep: u64 = (0i128 - (step as i128)) as u64;
            proof {
                lemma_range_count_fits(curr as int, step as int, end as int);
            }
            (diff / nstep) as u128 + 1
        }
    }
}

/// The count of a non-empty range is at most one more than the span of
/// the endpoints.
proof fn lemma_range_count_fits(start: int, step: int, end: int)
    requires
        step != 0,
        i64::MIN <= start <= i64::MAX,
        i64::MIN <= end <= i64::MAX,
    ensures
        step > 0 && start <= end ==> (end - start) / step <= u64::MAX,
        step < 0 && start >= end ==> (start - end) / (-step) <= u64::MAX,
{
    if step > 0 && start <= end {
        vstd::arithmetic::div_mod::lemma_div_nonincreasing(end - start, step);
    }
    if step < 0 && start >= end {
        vstd::arithmetic::div_mod::lemma_div_nonincreasing(start - end, -step);
    }
}

/// What updating one array position yields: a negative index is
/// `InvalidNegativeInt`, one past the end is `IndexOutOfRange`, otherwise
/// the array with that position replaced.
pub open spec fn spec_update_single(arrv: Seq<Val>, index: i64, update: Val, span: PackageSpan)
    -> Result<Seq<Val>, Error> {
    if index < 0 {
        Result::Err(Error::InvalidNegativeInt(index, span))
    } else if index >= arrv.len() {
        Result::Err(Error::IndexOutOfRange(index, span))
    } else {
        Result::Ok(arrv.update(index as int, update))
    }
}

/// Rebuilds an array with one position replaced.
pub fn update_index_single(values: &Vec<Value>, index: i64, update: Value, span: PackageSpan)
    -> (r: Result<Vec<Value>, Error>)
    ensures
        match r {
            Ok(out) => spec_update_single(views_of(values@), index, update@, span) == Result::<
                Seq<Val>,
                Error,
            >::Ok(views_of(out@)),
            Err(e) => spec_update_single(views_of(values@), index, update@, span) == Result::<
                Seq<Val>,
                Error,
            >::Err(e),
        },
{
    if index < 0 {
        return Err(Error::InvalidNegativeInt(index, span));
    }
    if index as u64 >= values.len() as u64 {
        return Err(Error::IndexOutOfRange(index, span));
    }
    let ghost uview = update@;
    let mut out = clone_values(values);
    let ghost cv = out@;
    out.set(index as usize, update);
    proof {
        lemma_views_update(cv, out@, index as int, out@[index as int]);
        assert(views_of(cv) =~= views_of(values@));
        assert(views_of(out@) =~= views_of(values@).update(index as int, uview));
    }
    Ok(out)
}

/// Update round-trip, value level: reading back a just-written position
/// yields the written value, and writing back a just-read position leaves
/// the array unchanged.
pub proof fn lemma_update_index_round_trip(arrv: Seq<Val>, index: i64, v: Val, span: PackageSpan)
    requires
        0 <= index < arrv.len(),
    ensures
        spec_update_single(arrv, index, v, span) matches Ok(updated) && updated[index as int] == v,
        spec_update_single(arrv, index, arrv[index as int], span) == Result::<
            Seq<Val>,
            Error,
        >::Ok(arrv),
{
    assert(arrv.update(index as int, arrv[index as int]) =~= arrv);
}

/// What updating a range of positions yields: walked indices are paired
/// with update elements until either runs out; a negative walked index is
/// `InvalidIndex`, one past the end is `IndexOutOfRange`.
pub open spec fn spec_update_range(arrv: Seq<Val>, idxs: Seq<int>, upd: Seq<Val>, span:
    PackageSpan) -> Result<Seq<Val>, Error>
    decreases idxs.len(),
{
    if idxs.len() == 0 || upd.len() == 0 {
        Result::Ok(arrv)
    } else {
        let i = idxs[0];
        if i < 0 {
            Result::Err(Error::InvalidIndex(i as i64, span))
        } else if i >= arrv.len() {
            Result::Err(Error::IndexOutOfRange(i as i64, span))
        } else {
            spec_update_range(arrv.update(i, upd[0]), idxs.drop_first(), upd.drop_first(), span)
        }
    }
}

/// Rebuilds an array with the positions a range walks replaced by the
/// elements of an update array, pairing until either runs out.
pub fn update_index_range(values: &Vec<Value>, start: Option<i64>, step: i64, end: Option<i64>,
    update: &Vec<Value>, span: PackageSpan) -> (r: Result<Vec<Value>, Error>)
    ensures
        match r {
            Ok(out) => ({
                &&& step != 0
                &&& len_fits(values@.len())
                &&& spec_update_range(
                    views_of(values@),
                    range_idx_seq(
                        resolved_start(values@.len() as int, start, step),
                        step as int,
                        resolved_end(values@.len() as int, step, end),
                    ),
                    views_of(update@),
                    span,
                ) == Result::<Seq<Val>, Error>::Ok(views_of(out@))
            }),
            Err(e) => {
                if step == 0 {
                    e == Error::RangeStepZero(span)
                } else if !len_fits(values@.len()) {
                    e == Error::ArrayTooLarge(span)
                } else {
                    spec_update_range(
                        views_of(values@),
                        range_idx_seq(
                            resolved_start(values@.len() as int, start, step),
                            step as int,
                            resolved_end(values@.len() as int, step, end),
                        ),
                        views_of(update@),
                        span,
                    ) == Result::<Seq<Val>, Error>::Err(e)
                }
            },
        },
{
    let rng = match make_range(values, start, step, end, span) {
        Ok(rng) => rng,
        Err(e) => {
            return Err(e);
        },
    };
    let ghost rs = rng.curr as int;
    let ghost re = rng.end as int;
    let ghost idxs = range_idx_seq(rs, step as int, re);
    let ghost total = range_len(rs, step as int, re);
    let mut out = clone_values(values);
    let mut k: u128 = 0;
    let count = range_count(rng.curr, step, rng.end);
    proof {
        assert(idxs.skip(0) =~= idxs);
        assert(views_of(update@).skip(0) =~= views_of(update@));
        assert(views_of(out@) =~= views_of(values@));
    }
    while k < count && k < update.len() as u128
        invariant
            step != 0,
            rs == rng.curr as int && re == rng.end as int,
            rs == resolved_start(values@.len() as int, start, step),
            re == resolved_end(values@.len() as int, step, end),
            idxs == range_idx_seq(rs, step as int, re),
            total == range_len(rs, step as int, re),
            count as nat == total,
            views_of(values@).len() <= i64::MAX,
            k as nat <= total,
            k <= update@.len(),
            out@.len() == values@.len(),
            spec_update_range(views_of(values@), idxs, views_of(update@), span)
                == spec_update_range(
                views_of(out@),
                idxs.skip(k as int),
                views_of(update@).skip(k as int),
                span,
            ),
        decreases total - k,
    {
        proof {
            lemma_range_bounds(rs, step as int, re, k as int);
            assert(idxs.skip(k as int)[0] == rs + (k as int) * (step as int));
            assert(idxs.skip(k as int).drop_first() =~= idxs.skip(k as int + 1));
            assert(views_of(update@).skip(k as int).drop_first() =~= views_of(update@).skip(
                k as int + 1,
            ));
            assert(views_of(update@).skip(k as int)[0] == update@[k as int]@);
        }
        let idx_wide: i128 = (rng.curr as i128) + (k as i128) * (step as i128);
        let idx: i64 = idx_wide as i64;
        if idx < 0 {
            proof {
                assert(spec_update_range(
                    views_of(out@),
                    idxs.skip(k as int),
                    views_of(update@).skip(k as int),
                    span,
                ) == Result::<Seq<Val>, Error>::Err(Error::InvalidIndex(idx, span)));
            }
            return Err(Error::InvalidIndex(idx, span));
        }
        if idx as u64 >= out.len() as u64 {
            proof {
                assert(spec_update_range(
                    views_of(out@),
                    idxs.skip(k as int),
                    views_of(update@).skip(k as int),
                    span,
                ) == Result::<Seq<Val>, Error>::Err(Error::IndexOutOfRange(idx, span)));
            }
            return Err(Error::IndexOutOfRange(idx, span));
        }
        let elem = clone_value(&update[k as usize]);
        let ghost cv = out@;
        out.set(idx as usize, elem);
        proof {
            lemma_views_update(cv, out@, idx as int, out@[idx as int]);
            assert(views_of(out@) =~= views_of(cv).update(idx as int, update@[k as int]@));
        }
        k = k + 1;
    }
    proof {
        if k as nat == total {
            assert(idxs.skip(k as int) =~= Seq::<int>::empty());
        } else {
            assert(views_of(update@).skip(k as int).len() == 0);
        }
    }
    Ok(out)
}

} // verus!
