//! What holds of every plan: the sizes of its volumes, and that its volumes
//! hold the selected chapters, each once and in order.

use vstd::prelude::*;
use crate::calc::{ceil_div_spec, covers, lemma_ceil_div_is_least_cover};
use crate::plan::{Chapter, VolumeBatch, CompilationPlan, Method, batch_len, batch_chapters,
    is_batch, is_plan, first_selected, selected_count};

verus! {

/// The selected chapters in order: `count` chapters, the first of which
/// stands at position `first` among those found.
pub open spec fn selected_chapters(first: nat, count: nat) -> Seq<Chapter> {
    Seq::new(count, |i: int| Chapter { ordinal: (i + 1) as usize, source: (first + i) as usize })
}

/// The chapters of a list of volumes, one volume after the other.
pub open spec fn all_chapters(volumes: Seq<VolumeBatch>) -> Seq<Chapter>
    decreases volumes.len(),
{
    if volumes.len() == 0 {
        Seq::empty()
    } else {
        all_chapters(volumes.drop_last()) + volumes.last().chapters@
    }
}

/// A volume that the plan holds starts before the selection ends.
pub proof fn lemma_volume_starts_inside(count: nat, size: nat, volume: nat)
    requires
        size > 0,
        volume < ceil_div_spec(count, size),
    ensures
        volume * size < count,
{
    lemma_ceil_div_is_least_cover(count, size);
    if volume * size >= count {
        assert(covers(volume, size, count));
    }
}

/// Every volume holds at least one chapter and at most `size`, and every
/// volume but the last holds exactly `size`.
pub proof fn lemma_batch_sizes(count: nat, size: nat, volume: nat)
    requires
        size > 0,
        volume < ceil_div_spec(count, size),
    ensures
        1 <= batch_len(count, size, volume) <= size,
        volume + 1 < ceil_div_spec(count, size) ==> batch_len(count, size, volume) == size,
{
    lemma_volume_starts_inside(count, size, volume);
    if volume + 1 < ceil_div_spec(count, size) {
        lemma_volume_starts_inside(count, size, volume + 1);
        assert((volume + 1) * size == volume * size + size) by (nonlinear_arith);
    }
}

/// The first `upto` volumes hold the first chapters of the selection, in
/// order: `upto * size` of them.
proof fn lemma_volumes_prefix(
    volumes: Seq<VolumeBatch>,
    first: nat,
    count: nat,
    size: nat,
    upto: nat,
)
    requires
        size > 0,
        first + count <= usize::MAX,
        volumes.len() == ceil_div_spec(count, size),
        forall|v: int|
            0 <= v < volumes.len() ==> is_batch(#[trigger] volumes[v], first, count, size, v as nat),
        upto <= volumes.len(),
    ensures
        upto < volumes.len() ==> all_chapters(volumes.take(upto as int)) == selected_chapters(
            first,
            upto * size,
        ),
        upto == volumes.len() ==> all_chapters(volumes.take(upto as int)) == selected_chapters(
            first,
            count,
        ),
    decreases upto,
{
    let taken = volumes.take(upto as int);
    if upto == 0 {
        assert(0 * size == 0) by (nonlinear_arith);
        assert(all_chapters(taken) =~= selected_chapters(first, 0));
        if volumes.len() == 0 {
            lemma_ceil_div_is_least_cover(count, size);
            assert(covers(0, size, count));
            assert(count == 0);
        }
    } else {
        let v = (upto - 1) as nat;
        lemma_volumes_prefix(volumes, first, count, size, v);
        lemma_volume_starts_inside(count, size, v);
        lemma_batch_sizes(count, size, v);
        assert(taken.drop_last() =~= volumes.take(v as int));
        assert(taken.last() == volumes[v as int]);
        assert(is_batch(volumes[v as int], first, count, size, v));
        let before = selected_chapters(first, v * size);
        let added = batch_chapters(first, count, size, v);
        assert(all_chapters(taken) == before + added);
        assert(upto * size == v * size + size) by (nonlinear_arith)
            requires
                upto == v + 1,
        ;
        let reached = v * size + batch_len(count, size, v);
        assert(before + added =~= selected_chapters(first, reached));
        if upto < volumes.len() {
            assert(reached == upto * size);
        } else {
            lemma_ceil_div_is_least_cover(count, size);
            if reached < count {
                assert(batch_len(count, size, v) == size);
                assert(!covers(upto, size, count));
            }
            assert(reached == count);
        }
    }
}

/// The volumes of a batching hold the selected chapters, each once and in
/// order: putting the volumes' chapters one after the other gives back the
/// selection.
pub proof fn lemma_volumes_hold_selection(
    volumes: Seq<VolumeBatch>,
    first: nat,
    count: nat,
    size: nat,
)
    requires
        size > 0,
        first + count <= usize::MAX,
        volumes.len() == ceil_div_spec(count, size),
        forall|v: int|
            0 <= v < volumes.len() ==> is_batch(#[trigger] volumes[v], first, count, size, v as nat),
    ensures
        all_chapters(volumes) == selected_chapters(first, count),
{
    lemma_volumes_prefix(volumes, first, count, size, volumes.len());
    assert(volumes.take(volumes.len() as int) =~= volumes);
}

/// No more chapters are selected than were found behind the start, and a
/// single volume's selection fits into one volume.
pub proof fn lemma_selection_bounds(
    method: Method,
    start: Option<usize>,
    end: Option<usize>,
    total: nat,
)
    ensures
        selected_count(method, start, end, total) > 0 ==> first_selected(start) + selected_count(
            method,
            start,
            end,
            total,
        ) <= total,
        method == Method::Single ==> selected_count(method, start, end, total)
            <= method.volume_size(),
{
}

/// What holds of every plan. It has as many volumes as it takes to hold the
/// selected chapters; every volume holds at least one chapter and at most the
/// volume size, and all but the last hold exactly that many; the volumes'
/// chapters, one volume after the other, are the selected chapters in order;
/// and a plan for a single volume has at most one volume.
pub proof fn lemma_plan_partitions_selection(
    plan: CompilationPlan,
    method: Method,
    start: Option<usize>,
    end: Option<usize>,
    total: nat,
)
    requires
        method.volume_size() > 0,
        total <= usize::MAX,
        is_plan(plan, method, start, end, total),
    ensures
        plan.volumes@.len() == ceil_div_spec(
            selected_count(method, start, end, total),
            method.volume_size(),
        ),
        forall|v: int|
            0 <= v < plan.volumes@.len() ==> 1 <= (#[trigger] plan.volumes@[v]).chapters@.len()
                <= method.volume_size(),
        forall|v: int|
            0 <= v < plan.volumes@.len() - 1 ==> (#[trigger] plan.volumes@[v]).chapters@.len()
                == method.volume_size(),
        all_chapters(plan.volumes@) == selected_chapters(
            first_selected(start),
            selected_count(method, start, end, total),
        ),
        method == Method::Single ==> plan.volumes@.len() <= 1,
{
    let first = first_selected(start);
    let count = selected_count(method, start, end, total);
    let size = method.volume_size();
    lemma_selection_bounds(method, start, end, total);
    assert forall|v: int| 0 <= v < plan.volumes@.len() implies {
        &&& 1 <= (#[trigger] plan.volumes@[v]).chapters@.len() <= size
        &&& v < plan.volumes@.len() - 1 ==> plan.volumes@[v].chapters@.len() == size
    } by {
        assert(is_batch(plan.volumes@[v], first, count, size, v as nat));
        lemma_batch_sizes(count, size, v as nat);
    }
    if count == 0 {
        assert(first + count <= usize::MAX);
    }
    lemma_volumes_hold_selection(plan.volumes@, first, count, size);
    if method == Method::Single {
        lemma_ceil_div_is_least_cover(count, size);
        assert(1 * size == size) by (nonlinear_arith);
        assert(covers(1, size, count));
    }
}

} // verus!
