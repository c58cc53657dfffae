//! How a batch of task records becomes the working set of the outline:
//! hidden tasks leave unless asked for, of records that share an identifier
//! only the latest stays, and the rest is put newest first.

use crate::hierarchy::unique_ids;
use crate::todo::{Timestamp, Todo};
use vstd::prelude::*;

verus! {

/// A task takes part when hidden tasks are shown or it is not hidden.
pub open spec fn is_visible(t: Todo, show_hidden: bool) -> bool {
    show_hidden || !t.hidden
}

/// The records that take part, in their order.
pub open spec fn visible(tasks: Seq<Todo>, show_hidden: bool) -> Seq<Todo>
    decreases tasks.len(),
{
    if tasks.len() == 0 {
        Seq::empty()
    } else if is_visible(tasks.last(), show_hidden) {
        visible(tasks.drop_last(), show_hidden).push(tasks.last())
    } else {
        visible(tasks.drop_last(), show_hidden)
    }
}

/// Some record of `tasks` carries `id`.
pub open spec fn carries(tasks: Seq<Todo>, id: i64) -> bool {
    exists|i: int| 0 <= i < tasks.len() && (#[trigger] tasks[i]).id == id
}

/// Of the records that share an identifier only the last one, the others in
/// their order.
pub open spec fn latest_only(tasks: Seq<Todo>) -> Seq<Todo>
    decreases tasks.len(),
{
    if tasks.len() == 0 {
        Seq::empty()
    } else if carries(tasks.drop_first(), tasks[0].id) {
        latest_only(tasks.drop_first())
    } else {
        seq![tasks[0]] + latest_only(tasks.drop_first())
    }
}

/// `t` put into `sorted` behind every record that is not older than it.
pub open spec fn insert_by_age(sorted: Seq<Todo>, t: Todo) -> Seq<Todo>
    decreases sorted.len(),
{
    if sorted.len() == 0 || !sorted.last().created_at.earlier_than(t.created_at) {
        sorted.push(t)
    } else {
        insert_by_age(sorted.drop_last(), t).push(sorted.last())
    }
}

/// The records by creation time, the most recent first; records of the same
/// instant keep their order.
pub open spec fn newest_first(tasks: Seq<Todo>) -> Seq<Todo>
    decreases tasks.len(),
{
    if tasks.len() == 0 {
        Seq::empty()
    } else {
        insert_by_age(newest_first(tasks.drop_last()), tasks.last())
    }
}

/// The working set that a batch of records gives.
pub open spec fn normalized(tasks: Seq<Todo>, show_hidden: bool) -> Seq<Todo> {
    newest_first(latest_only(visible(tasks, show_hidden)))
}

/// No record is followed by a more recent one.
pub open spec fn is_newest_first(tasks: Seq<Todo>) -> bool {
    forall|i: int, j: int|
        0 <= i < j < tasks.len() ==> !(#[trigger] tasks[i]).created_at.earlier_than(
            (#[trigger] tasks[j]).created_at,
        )
}

/// Where `insert_by_age` puts the new record: every record behind it is
/// older, the one before it is not.
pub proof fn lemma_insert_by_age(sorted: Seq<Todo>, t: Todo) -> (at: int)
    ensures
        0 <= at <= sorted.len(),
        insert_by_age(sorted, t) == sorted.insert(at, t),
        forall|k: int| at <= k < sorted.len() ==> sorted[k].created_at.earlier_than(t.created_at),
        at > 0 ==> !sorted[at - 1].created_at.earlier_than(t.created_at),
    decreases sorted.len(),
{
    if sorted.len() == 0 || !sorted.last().created_at.earlier_than(t.created_at) {
        assert(sorted.push(t) =~= sorted.insert(sorted.len() as int, t));
        sorted.len() as int
    } else {
        let front = sorted.drop_last();
        let at = lemma_insert_by_age(front, t);
        assert(front.insert(at, t).push(sorted.last()) =~= sorted.insert(at, t));
        assert forall|k: int| at <= k < sorted.len() implies sorted[k].created_at.earlier_than(
            t.created_at,
        ) by {
            if k < front.len() {
                assert(front[k] == sorted[k]);
            }
        }
        if at > 0 {
            assert(front[at - 1] == sorted[at - 1]);
        }
        at
    }
}

/// Putting a record into a list that is newest first leaves it newest first.
pub proof fn lemma_insert_keeps_order(sorted: Seq<Todo>, t: Todo)
    requires
        is_newest_first(sorted),
    ensures
        is_newest_first(insert_by_age(sorted, t)),
{
    let at = lemma_insert_by_age(sorted, t);
    let out = sorted.insert(at, t);
    assert forall|i: int, j: int| 0 <= i < j < out.len() implies !(#[trigger] out[i]).created_at.earlier_than(
        (#[trigger] out[j]).created_at,
    ) by {
        if j < at {
            assert(out[i] == sorted[i] && out[j] == sorted[j]);
        } else if j == at {
            assert(out[i] == sorted[i]);
            if i < at - 1 {
                assert(!sorted[i].created_at.earlier_than(sorted[at - 1].created_at));
            }
        } else if i == at {
            assert(out[j] == sorted[j - 1]);
        } else if i < at {
            assert(out[i] == sorted[i] && out[j] == sorted[j - 1]);
        } else {
            assert(out[i] == sorted[i - 1] && out[j] == sorted[j - 1]);
        }
    }
}

/// The sorted list is newest first.
pub proof fn lemma_newest_first_is_ordered(tasks: Seq<Todo>)
    ensures
        is_newest_first(newest_first(tasks)),
    decreases tasks.len(),
{
    if tasks.len() > 0 {
        lemma_newest_first_is_ordered(tasks.drop_last());
        lemma_insert_keeps_order(newest_first(tasks.drop_last()), tasks.last());
    }
}

/// Sorting rearranges: it neither drops nor adds nor repeats a record.
pub proof fn lemma_newest_first_is_rearrangement(tasks: Seq<Todo>)
    ensures
        newest_first(tasks).to_multiset() == tasks.to_multiset(),
        newest_first(tasks).len() == tasks.len(),
    decreases tasks.len(),
{
    broadcast use vstd::seq_lib::group_to_multiset_ensures;

    if tasks.len() > 0 {
        let front = tasks.drop_last();
        lemma_newest_first_is_rearrangement(front);
        let at = lemma_insert_by_age(newest_first(front), tasks.last());
        assert(tasks =~= front.push(tasks.last()));
        assert(newest_first(tasks).len() == tasks.len());
    }
}

/// Sorting keeps identifiers distinct.
pub proof fn lemma_newest_first_keeps_unique(tasks: Seq<Todo>)
    requires
        unique_ids(tasks),
    ensures
        unique_ids(newest_first(tasks)),
        forall|id: i64| #[trigger] carries(newest_first(tasks), id) <==> carries(tasks, id),
    decreases tasks.len(),
{
    if tasks.len() > 0 {
        let front = tasks.drop_last();
        let last = tasks.last();
        assert forall|i: int, j: int| 0 <= i < j < front.len() implies front[i].id
            != front[j].id by {
            assert(front[i] == tasks[i] && front[j] == tasks[j]);
        }
        lemma_newest_first_keeps_unique(front);
        let sorted = newest_first(front);
        let at = lemma_insert_by_age(sorted, last);
        let out = sorted.insert(at, last);
        assert(!carries(front, last.id)) by {
            if carries(front, last.id) {
                let i = choose|i: int| 0 <= i < front.len() && (#[trigger] front[i]).id == last.id;
                assert(tasks[i].id == tasks[tasks.len() - 1].id);
            }
        }
        assert forall|i: int, j: int| 0 <= i < j < out.len() implies out[i].id != out[j].id by {
            if i != at && j != at {
                let si = if i < at {
                    i
                } else {
                    i - 1
                };
                let sj = if j < at {
                    j
                } else {
                    j - 1
                };
                assert(out[i] == sorted[si] && out[j] == sorted[sj]);
            } else if i == at {
                assert(out[j] == sorted[j - 1]);
                assert(carries(sorted, sorted[j - 1].id));
            } else {
                assert(out[i] == sorted[i]);
                assert(carries(sorted, sorted[i].id));
            }
        }
        assert forall|id: i64| carries(out, id) <==> carries(tasks, id) by {
            if carries(out, id) {
                let i = choose|i: int| 0 <= i < out.len() && (#[trigger] out[i]).id == id;
                if i == at {
                    assert(tasks[tasks.len() - 1].id == id);
                } else {
                    let si = if i < at {
                        i
                    } else {
                        i - 1
                    };
                    assert(sorted[si].id == id);
                    assert(carries(sorted, id));
                    assert(carries(front, id));
                    let k = choose|k: int| 0 <= k < front.len() && (#[trigger] front[k]).id == id;
                    assert(tasks[k].id == id);
                }
            }
            if carries(tasks, id) {
                let k = choose|k: int| 0 <= k < tasks.len() && (#[trigger] tasks[k]).id == id;
                if k == tasks.len() - 1 {
                    assert(out[at].id == id);
                } else {
                    assert(front[k].id == id);
                    assert(carries(sorted, id));
                    let s = choose|s: int| 0 <= s < sorted.len() && (#[trigger] sorted[s]).id == id;
                    let o = if s < at {
                        s
                    } else {
                        s + 1
                    };
                    assert(out[o].id == id);
                }
            }
        }
    }
}

/// What `latest_only` keeps: records of the list, one for each identifier
/// that occurs.
pub proof fn lemma_latest_only(tasks: Seq<Todo>)
    ensures
        unique_ids(latest_only(tasks)),
        forall|id: i64| #[trigger] carries(latest_only(tasks), id) <==> carries(tasks, id),
        forall|k: int|
            0 <= k < latest_only(tasks).len() ==> exists|i: int|
                0 <= i < tasks.len() && tasks[i] == #[trigger] latest_only(tasks)[k],
    decreases tasks.len(),
{
    if tasks.len() > 0 {
        let rest = tasks.drop_first();
        lemma_latest_only(rest);
        let kept = latest_only(rest);
        let out = latest_only(tasks);
        assert forall|k: int| 0 <= k < out.len() implies exists|i: int|
            0 <= i < tasks.len() && tasks[i] == #[trigger] out[k] by {
            if !carries(rest, tasks[0].id) && k == 0 {
                assert(tasks[0] == out[0]);
            } else {
                let kk = if carries(rest, tasks[0].id) {
                    k
                } else {
                    k - 1
                };
                assert(out[k] == kept[kk]);
                let i = choose|i: int| 0 <= i < rest.len() && rest[i] == kept[kk];
                assert(tasks[i + 1] == out[k]);
            }
        }
        assert forall|id: i64| carries(out, id) <==> carries(tasks, id) by {
            if carries(out, id) {
                let k = choose|k: int| 0 <= k < out.len() && (#[trigger] out[k]).id == id;
                let i = choose|i: int| 0 <= i < tasks.len() && tasks[i] == out[k];
                assert(tasks[i].id == id);
            }
            if carries(tasks, id) {
                let i = choose|i: int| 0 <= i < tasks.len() && (#[trigger] tasks[i]).id == id;
                if i > 0 {
                    assert(rest[i - 1].id == id);
                    assert(carries(rest, id));
                }
                if carries(rest, id) {
                    assert(carries(kept, id));
                    let k = choose|k: int| 0 <= k < kept.len() && (#[trigger] kept[k]).id == id;
                    let o = if carries(rest, tasks[0].id) {
                        k
                    } else {
                        k + 1
                    };
                    assert(out[o].id == id);
                } else {
                    assert(out[0].id == id);
                }
            }
        }
        assert forall|i: int, j: int| 0 <= i < j < out.len() implies out[i].id != out[j].id by {
            if carries(rest, tasks[0].id) {
            } else if i == 0 {
                assert(out[j] == kept[j - 1]);
                assert(carries(kept, kept[j - 1].id));
            } else {
                assert(out[i] == kept[i - 1] && out[j] == kept[j - 1]);
            }
        }
    }
}

/// What takes part is a record of the batch that may take part, and every
/// such record is there.
pub proof fn lemma_visible(tasks: Seq<Todo>, show_hidden: bool)
    ensures
        forall|k: int|
            0 <= k < visible(tasks, show_hidden).len() ==> is_visible(
                #[trigger] visible(tasks, show_hidden)[k],
                show_hidden,
            ) && exists|i: int| 0 <= i < tasks.len() && tasks[i] == visible(tasks, show_hidden)[k],
        forall|i: int|
            0 <= i < tasks.len() && is_visible(#[trigger] tasks[i], show_hidden) ==> carries(
                visible(tasks, show_hidden),
                tasks[i].id,
            ),
    decreases tasks.len(),
{
    if tasks.len() > 0 {
        let front = tasks.drop_last();
        lemma_visible(front, show_hidden);
        let kept = visible(front, show_hidden);
        let out = visible(tasks, show_hidden);
        assert forall|k: int| 0 <= k < out.len() implies is_visible(#[trigger] out[k], show_hidden)
            && exists|i: int| 0 <= i < tasks.len() && tasks[i] == out[k] by {
            if k < kept.len() {
                assert(out[k] == kept[k]);
                let i = choose|i: int| 0 <= i < front.len() && front[i] == kept[k];
                assert(tasks[i] == out[k]);
            } else {
                assert(tasks[tasks.len() - 1] == out[k]);
            }
        }
        assert forall|i: int|
            0 <= i < tasks.len() && is_visible(#[trigger] tasks[i], show_hidden) implies carries(
            out,
            tasks[i].id,
        ) by {
            if i < front.len() {
                assert(front[i] == tasks[i]);
                assert(carries(kept, front[i].id));
                let k = choose|k: int| 0 <= k < kept.len() && (#[trigger] kept[k]).id == tasks[i].id;
                assert(out[k].id == tasks[i].id);
            } else {
                assert(out[out.len() - 1].id == tasks[i].id);
            }
        }
    }
}

/// The working set holds records of the batch that may take part, and one
/// for the identifier of every record that may.
pub proof fn lemma_normalized_members(tasks: Seq<Todo>, show_hidden: bool)
    ensures
        forall|k: int|
            0 <= k < normalized(tasks, show_hidden).len() ==> is_visible(
                #[trigger] normalized(tasks, show_hidden)[k],
                show_hidden,
            ) && exists|i: int|
                0 <= i < tasks.len() && tasks[i] == normalized(tasks, show_hidden)[k],
        forall|i: int|
            0 <= i < tasks.len() && is_visible(#[trigger] tasks[i], show_hidden) ==> carries(
                normalized(tasks, show_hidden),
                tasks[i].id,
            ),
{
    broadcast use vstd::seq_lib::group_to_multiset_ensures;

    let shown = visible(tasks, show_hidden);
    let distinct = latest_only(shown);
    let out = normalized(tasks, show_hidden);
    lemma_visible(tasks, show_hidden);
    lemma_latest_only(shown);
    lemma_newest_first_keeps_unique(distinct);
    lemma_newest_first_is_rearrangement(distinct);
    assert forall|k: int| 0 <= k < out.len() implies is_visible(#[trigger] out[k], show_hidden)
        && exists|i: int| 0 <= i < tasks.len() && tasks[i] == out[k] by {
        assert(out.to_multiset().count(out[k]) > 0);
        assert(distinct.to_multiset().count(out[k]) > 0);
        assert(distinct.contains(out[k]));
        let d = choose|d: int| 0 <= d < distinct.len() && distinct[d] == out[k];
        let s = choose|s: int| 0 <= s < shown.len() && shown[s] == distinct[d];
        assert(is_visible(shown[s], show_hidden));
        let i = choose|i: int| 0 <= i < tasks.len() && tasks[i] == shown[s];
        assert(tasks[i] == out[k]);
    }
    assert forall|i: int|
        0 <= i < tasks.len() && is_visible(#[trigger] tasks[i], show_hidden) implies carries(
        out,
        tasks[i].id,
    ) by {
        assert(carries(shown, tasks[i].id));
        assert(carries(distinct, tasks[i].id));
        assert(carries(newest_first(distinct), tasks[i].id));
    }
}

/// The working set holds each identifier once and is newest first.
pub proof fn lemma_normalized(tasks: Seq<Todo>, show_hidden: bool)
    ensures
        unique_ids(normalized(tasks, show_hidden)),
        is_newest_first(normalized(tasks, show_hidden)),
{
    let distinct = latest_only(visible(tasks, show_hidden));
    lemma_latest_only(visible(tasks, show_hidden));
    lemma_newest_first_keeps_unique(distinct);
    lemma_newest_first_is_ordered(distinct);
}

fn keep_visible(tasks: &Vec<Todo>, show_hidden: bool) -> (kept: Vec<Todo>)
    ensures
        kept@ == visible(tasks@, show_hidden),
{
    let mut kept: Vec<Todo> = Vec::new();
    let mut i: usize = 0;
    while i < tasks.len()
        invariant
            i <= tasks.len(),
            kept@ == visible(tasks@.take(i as int), show_hidden),
        decreases tasks.len() - i,
    {
        proof {
            assert(tasks@.take(i + 1).drop_last() =~= tasks@.take(i as int));
        }
        if show_hidden || !tasks[i].hidden {
            kept.push(tasks[i].clone());
        }
        i += 1;
    }
    proof {
        assert(tasks@.take(tasks.len() as int) =~= tasks@);
    }
    kept
}

fn occurs_from(tasks: &Vec<Todo>, start: usize, id: i64) -> (found: bool)
    requires
        start <= tasks.len(),
    ensures
        found == carries(tasks@.skip(start as int), id),
{
    let mut j: usize = start;
    while j < tasks.len()
        invariant
            start <= j <= tasks.len(),
            forall|k: int| start <= k < j ==> tasks@[k].id != id,
        decreases tasks.len() - j,
    {
        if tasks[j].id == id {
            proof {
                assert(tasks@.skip(start as int)[j - start].id == id);
            }
            return true;
        }
        j += 1;
    }
    proof {
        let tail = tasks@.skip(start as int);
        assert forall|k: int| 0 <= k < tail.len() implies (#[trigger] tail[k]).id != id by {
            assert(tail[k] == tasks@[k + start]);
        }
    }
    false
}

fn keep_latest(tasks: &Vec<Todo>) -> (kept: Vec<Todo>)
    ensures
        kept@ == latest_only(tasks@),
{
    let mut kept: Vec<Todo> = Vec::new();
    let mut i: usize = 0;
    proof {
        assert(tasks@.skip(0) =~= tasks@);
        assert(kept@ + latest_only(tasks@) =~= latest_only(tasks@));
    }
    while i < tasks.len()
        invariant
            i <= tasks.len(),
            kept@ + latest_only(tasks@.skip(i as int)) == latest_only(tasks@),
        decreases tasks.len() - i,
    {
        proof {
            assert(tasks@.skip(i as int).drop_first() =~= tasks@.skip(i + 1));
            assert(tasks@.skip(i as int)[0] == tasks@[i as int]);
        }
        let ghost before = kept@;
        if !occurs_from(tasks, i + 1, tasks[i].id) {
            kept.push(tasks[i].clone());
            proof {
                assert(kept@ + latest_only(tasks@.skip(i + 1)) =~= before + (seq![tasks@[i as int]]
                    + latest_only(tasks@.skip(i + 1))));
            }
        }
        i += 1;
    }
    proof {
        assert(kept@ + Seq::<Todo>::empty() =~= kept@);
    }
    kept
}

fn insert_newest_first(sorted: &mut Vec<Todo>, t: Todo)
    ensures
        final(sorted)@ == insert_by_age(old(sorted)@, t),
{
    let mut at: usize = sorted.len();
    proof {
        assert(sorted@.take(sorted.len() as int) =~= sorted@);
        assert(sorted@.skip(sorted.len() as int) =~= Seq::<Todo>::empty());
        assert(insert_by_age(sorted@, t) + Seq::<Todo>::empty() =~= insert_by_age(sorted@, t));
    }
    while at > 0 && sorted[at - 1].created_at.is_before(&t.created_at)
        invariant
            at <= sorted.len(),
            sorted@ == old(sorted)@,
            insert_by_age(sorted@, t) == insert_by_age(sorted@.take(at as int), t) + sorted@.skip(
                at as int,
            ),
        decreases at,
    {
        proof {
            let head = sorted@.take(at as int);
            assert(head.drop_last() =~= sorted@.take(at - 1));
            assert(head.last() == sorted@[at - 1]);
            assert(insert_by_age(sorted@.take(at - 1), t).push(head.last()) + sorted@.skip(
                at as int,
            ) =~= insert_by_age(sorted@.take(at - 1), t) + sorted@.skip(at - 1));
        }
        at -= 1;
    }
    proof {
        let head = sorted@.take(at as int);
        if at > 0 {
            assert(head.last() == sorted@[at - 1]);
        }
        assert(head.push(t) + sorted@.skip(at as int) =~= sorted@.insert(at as int, t));
    }
    sorted.insert(at, t);
}

fn sort_newest_first(tasks: &Vec<Todo>) -> (sorted: Vec<Todo>)
    ensures
        sorted@ == newest_first(tasks@),
{
    let mut sorted: Vec<Todo> = Vec::new();
    let mut i: usize = 0;
    while i < tasks.len()
        invariant
            i <= tasks.len(),
            sorted@ == newest_first(tasks@.take(i as int)),
        decreases tasks.len() - i,
    {
        proof {
            assert(tasks@.take(i + 1).drop_last() =~= tasks@.take(i as int));
        }
        insert_newest_first(&mut sorted, tasks[i].clone());
        i += 1;
    }
    proof {
        assert(tasks@.take(tasks.len() as int) =~= tasks@);
    }
    sorted
}

/// The instant at which a task was completed; the beginning of time for one
/// that is not.
pub open spec fn completion_instant(t: Todo) -> Timestamp {
    match t.completed_at {
        Some(at) => at,
        None => Timestamp { secs: i64::MIN, nanos: 0 },
    }
}

/// `t` put into `sorted` behind every record that was not completed before
/// it.
pub open spec fn insert_by_completion(sorted: Seq<Todo>, t: Todo) -> Seq<Todo>
    decreases sorted.len(),
{
    if sorted.len() == 0 || !completion_instant(sorted.last()).earlier_than(
        completion_instant(t),
    ) {
        sorted.push(t)
    } else {
        insert_by_completion(sorted.drop_last(), t).push(sorted.last())
    }
}

/// The completed records of `tasks`, the one completed last first; records
/// completed at the same instant keep their order.
pub open spec fn completed_latest_first(tasks: Seq<Todo>) -> Seq<Todo>
    decreases tasks.len(),
{
    if tasks.len() == 0 {
        Seq::empty()
    } else if tasks.last().completed() {
        insert_by_completion(completed_latest_first(tasks.drop_last()), tasks.last())
    } else {
        completed_latest_first(tasks.drop_last())
    }
}

/// Where `insert_by_completion` puts the new record.
pub proof fn lemma_insert_by_completion(sorted: Seq<Todo>, t: Todo) -> (at: int)
    ensures
        0 <= at <= sorted.len(),
        insert_by_completion(sorted, t) == sorted.insert(at, t),
        forall|k: int|
            at <= k < sorted.len() ==> completion_instant(sorted[k]).earlier_than(
                completion_instant(t),
            ),
        at > 0 ==> !completion_instant(sorted[at - 1]).earlier_than(completion_instant(t)),
    decreases sorted.len(),
{
    if sorted.len() == 0 || !completion_instant(sorted.last()).earlier_than(
        completion_instant(t),
    ) {
        assert(sorted.push(t) =~= sorted.insert(sorted.len() as int, t));
        sorted.len() as int
    } else {
        let front = sorted.drop_last();
        let at = lemma_insert_by_completion(front, t);
        assert(front.insert(at, t).push(sorted.last()) =~= sorted.insert(at, t));
        assert forall|k: int| at <= k < sorted.len() implies completion_instant(
            sorted[k],
        ).earlier_than(completion_instant(t)) by {
            if k < front.len() {
                assert(front[k] == sorted[k]);
            }
        }
        if at > 0 {
            assert(front[at - 1] == sorted[at - 1]);
        }
        at
    }
}

/// The list of completed records holds completed records only, and none is
/// followed by one that was completed later.
pub proof fn lemma_completed_latest_first(tasks: Seq<Todo>)
    ensures
        forall|i: int|
            0 <= i < completed_latest_first(tasks).len() ==> (#[trigger] completed_latest_first(
                tasks,
            )[i]).completed(),
        forall|i: int, j: int|
            0 <= i < j < completed_latest_first(tasks).len() ==> !completion_instant(
                #[trigger] completed_latest_first(tasks)[i],
            ).earlier_than(completion_instant(#[trigger] completed_latest_first(tasks)[j])),
    decreases tasks.len(),
{
    if tasks.len() > 0 {
        lemma_completed_latest_first(tasks.drop_last());
        if tasks.last().completed() {
            let sorted = completed_latest_first(tasks.drop_last());
            let at = lemma_insert_by_completion(sorted, tasks.last());
            let out = sorted.insert(at, tasks.last());
            assert forall|i: int| 0 <= i < out.len() implies (#[trigger] out[i]).completed() by {
                if i < at {
                    assert(out[i] == sorted[i]);
                } else if i > at {
                    assert(out[i] == sorted[i - 1]);
                }
            }
            assert forall|i: int, j: int| 0 <= i < j < out.len() implies !completion_instant(
                #[trigger] out[i],
            ).earlier_than(completion_instant(#[trigger] out[j])) by {
                if j < at {
                    assert(out[i] == sorted[i] && out[j] == sorted[j]);
                } else if j == at {
                    assert(out[i] == sorted[i]);
                    if i < at - 1 {
                        assert(!completion_instant(sorted[i]).earlier_than(
                            completion_instant(sorted[at - 1]),
                        ));
                    }
                } else if i == at {
                    assert(out[j] == sorted[j - 1]);
                } else if i < at {
                    assert(out[i] == sorted[i] && out[j] == sorted[j - 1]);
                } else {
                    assert(out[i] == sorted[i - 1] && out[j] == sorted[j - 1]);
                }
            }
        }
    }
}

fn completion_of(t: &Todo) -> (at: Timestamp)
    ensures
        at == completion_instant(*t),
{
    match t.completed_at {
        Some(at) => at,
        None => Timestamp { secs: i64::MIN, nanos: 0 },
    }
}

fn insert_latest_first(sorted: &mut Vec<Todo>, t: Todo)
    ensures
        final(sorted)@ == insert_by_completion(old(sorted)@, t),
{
    let instant = completion_of(&t);
    let mut at: usize = sorted.len();
    proof {
        assert(sorted@.take(sorted.len() as int) =~= sorted@);
        assert(sorted@.skip(sorted.len() as int) =~= Seq::<Todo>::empty());
        assert(insert_by_completion(sorted@, t) + Seq::<Todo>::empty() =~= insert_by_completion(
            sorted@,
            t,
        ));
    }
    while at > 0 && completion_of(&sorted[at - 1]).is_before(&instant)
        invariant
            at <= sorted.len(),
            sorted@ == old(sorted)@,
            instant == completion_instant(t),
            insert_by_completion(sorted@, t) == insert_by_completion(sorted@.take(at as int), t)
                + sorted@.skip(at as int),
        decreases at,
    {
        proof {
            let head = sorted@.take(at as int);
            assert(head.drop_last() =~= sorted@.take(at - 1));
            assert(head.last() == sorted@[at - 1]);
            assert(insert_by_completion(sorted@.take(at - 1), t).push(head.last()) + sorted@.skip(
                at as int,
            ) =~= insert_by_completion(sorted@.take(at - 1), t) + sorted@.skip(at - 1));
        }
        at -= 1;
    }
    proof {
        let head = sorted@.take(at as int);
        if at > 0 {
            assert(head.last() == sorted@[at - 1]);
        }
        assert(head.push(t) + sorted@.skip(at as int) =~= sorted@.insert(at as int, t));
    }
    sorted.insert(at, t);
}

/// The completed tasks among `all_todos`, the one completed last first.
pub fn get_all_completed_todos(all_todos: &Vec<Todo>) -> (completed: Vec<Todo>)
    ensures
        completed@ == completed_latest_first(all_todos@),
{
    let mut completed: Vec<Todo> = Vec::new();
    let mut i: usize = 0;
    proof {
        assert(all_todos@.take(0) =~= Seq::<Todo>::empty());
    }
    while i < all_todos.len()
        invariant
            i <= all_todos.len(),
            completed@ == completed_latest_first(all_todos@.take(i as int)),
        decreases all_todos.len() - i,
    {
        proof {
            assert(all_todos@.take(i + 1).drop_last() =~= all_todos@.take(i as int));
        }
        if all_todos[i].is_completed() {
            insert_latest_first(&mut completed, all_todos[i].clone());
        }
        i += 1;
    }
    proof {
        assert(all_todos@.take(all_todos.len() as int) =~= all_todos@);
    }
    completed
}

/// Turns a batch of records into the working set of the outline.
pub fn normalize(tasks: &Vec<Todo>, show_hidden: bool) -> (todos: Vec<Todo>)
    ensures
        todos@ == normalized(tasks@, show_hidden),
        unique_ids(todos@),
        is_newest_first(todos@),
{
    let shown = keep_visible(tasks, show_hidden);
    let distinct = keep_latest(&shown);
    proof {
        lemma_normalized(tasks@, show_hidden);
    }
    sort_newest_first(&distinct)
}

} // verus!
