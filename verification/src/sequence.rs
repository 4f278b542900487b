//! What a reader yields over a whole run, and the laws of that sequence.

use vstd::prelude::*;

use crate::extent::FiemapExtent;
use crate::reader::{FiemapError, FiemapView, ReplyView, Step};

verus! {

/// What a consumer sees that pulls the reader from `state` on until the
/// sequence is over, while the kernel answers the reader's queries, one
/// after the other, with `replies`. Where the replies run out before the
/// sequence is over, this is what was seen until then.
pub open spec fn items(state: FiemapView, replies: Seq<ReplyView>) -> Seq<
    Result<FiemapExtent, FiemapError>,
>
    decreases replies.len(), state.batch.len() - state.cursor, 1int,
{
    let (after, step) = state.next();
    match step {
        Step::Ready(None) => Seq::empty(),
        Step::Ready(Some(item)) => seq![item] + items(after, replies),
        Step::Query => items_from_query(after, replies),
    }
}

/// What a consumer sees from the moment at which the reader in `state` has
/// asked for a query.
pub open spec fn items_from_query(state: FiemapView, replies: Seq<ReplyView>) -> Seq<
    Result<FiemapExtent, FiemapError>,
>
    decreases replies.len(), state.batch.len() - state.cursor, 0int,
{
    if replies.len() == 0 {
        Seq::empty()
    } else {
        let (after, step) = state.resume(replies[0]);
        match step {
            Step::Ready(None) => Seq::empty(),
            Step::Ready(Some(item)) => seq![item] + items(after, replies.skip(1)),
            Step::Query => items_from_query(after, replies.skip(1)),
        }
    }
}

/// Where each query started that one of `replies` answered, in the order
/// in which the reader in `state` asked for them.
pub open spec fn starts(state: FiemapView, replies: Seq<ReplyView>) -> Seq<u64>
    decreases replies.len(), state.batch.len() - state.cursor, 1int,
{
    let (after, step) = state.next();
    match step {
        Step::Ready(None) => Seq::empty(),
        Step::Ready(Some(_)) => starts(after, replies),
        Step::Query => starts_from_query(after, replies),
    }
}

/// Where each query started that one of `replies` answered, from the
/// moment at which the reader in `state` has asked for a query.
pub open spec fn starts_from_query(state: FiemapView, replies: Seq<ReplyView>) -> Seq<u64>
    decreases replies.len(), state.batch.len() - state.cursor, 0int,
{
    if replies.len() == 0 {
        Seq::empty()
    } else {
        let (after, step) = state.resume(replies[0]);
        seq![state.start] + match step {
            Step::Ready(None) => Seq::empty(),
            Step::Ready(Some(_)) => starts(after, replies.skip(1)),
            Step::Query => starts_from_query(after, replies.skip(1)),
        }
    }
}

/// The extents of an answer as items of the sequence.
pub open spec fn oks(batch: Seq<FiemapExtent>) -> Seq<Result<FiemapExtent, FiemapError>> {
    batch.map_values(|extent: FiemapExtent| Ok(extent))
}

/// Whether the reader asks for no query after the answer `batch`: it holds
/// no extent, or its last extent is the last of the file.
pub open spec fn closes(batch: Seq<FiemapExtent>) -> bool {
    batch.len() == 0 || batch.last().is_last()
}

/// The sequence as the outcomes of the queries spell it out: every extent
/// of every answer in turn, up to the answer that closes the sequence, or
/// up to the failure, with nothing for an interrupted call.
pub open spec fn answers(replies: Seq<ReplyView>) -> Seq<Result<FiemapExtent, FiemapError>>
    decreases replies.len(),
{
    if replies.len() == 0 {
        Seq::empty()
    } else {
        match replies[0] {
            ReplyView::Interrupted => answers(replies.skip(1)),
            ReplyView::Failed(error) => seq![Err(error)],
            ReplyView::Mapped(batch) => oks(batch) + if closes(batch) {
                Seq::empty()
            } else {
                answers(replies.skip(1))
            },
        }
    }
}

/// Where the queries start as the outcomes spell it out: the first at
/// `start`, a query after an interrupted one where that one started, and a
/// query after an answer behind the last extent of that answer.
pub open spec fn resumptions(start: u64, replies: Seq<ReplyView>) -> Seq<u64>
    decreases replies.len(),
{
    if replies.len() == 0 {
        Seq::empty()
    } else {
        seq![start] + match replies[0] {
            ReplyView::Interrupted => resumptions(start, replies.skip(1)),
            ReplyView::Failed(_) => Seq::empty(),
            ReplyView::Mapped(batch) => if closes(batch) {
                Seq::empty()
            } else {
                resumptions(batch.last().end() as u64, replies.skip(1))
            },
        }
    }
}

/// The reader hands out what the kernel answered, no extent twice and none
/// left out: first the extents of its buffer that are not read yet, then,
/// unless it has ended, the extents of the answers in turn.
pub proof fn lemma_items_follow_answers(state: FiemapView, replies: Seq<ReplyView>)
    requires
        state.cursor <= state.batch.len(),
    ensures
        items(state, replies) == oks(state.batch.skip(state.cursor as int)) + if state.ended {
            Seq::empty()
        } else {
            answers(replies)
        },
    decreases replies.len(), state.batch.len() - state.cursor, 1int,
{
    let (after, step) = state.next();
    let unread = state.batch.skip(state.cursor as int);
    if state.cursor < state.batch.len() {
        lemma_items_follow_answers(after, replies);
        assert(oks(unread) =~= seq![Ok(state.batch[state.cursor as int])] + oks(
            after.batch.skip(after.cursor as int),
        ));
    } else if state.ended {
        assert(oks(unread) =~= Seq::empty());
    } else {
        lemma_items_from_query_follow_answers(after, replies);
        assert(oks(unread) =~= Seq::empty());
    }
}

/// From a query on, the reader hands out the extents of the answers in
/// turn.
pub proof fn lemma_items_from_query_follow_answers(state: FiemapView, replies: Seq<ReplyView>)
    requires
        state.cursor == state.batch.len(),
        !state.ended,
    ensures
        items_from_query(state, replies) == answers(replies),
    decreases replies.len(), state.batch.len() - state.cursor, 0int,
{
    if replies.len() > 0 {
        let (after, step) = state.resume(replies[0]);
        let rest = replies.skip(1);
        match replies[0] {
            ReplyView::Interrupted => {
                lemma_items_from_query_follow_answers(after, rest);
            },
            ReplyView::Failed(error) => {
                lemma_items_follow_answers(after, rest);
                assert(oks(after.batch.skip(after.cursor as int)) =~= Seq::empty());
            },
            ReplyView::Mapped(batch) => {
                if batch.len() > 0 {
                    lemma_items_follow_answers(after, rest);
                    assert(oks(batch) =~= seq![Ok(batch[0])] + oks(
                        after.batch.skip(after.cursor as int),
                    ));
                } else {
                    assert(oks(batch) =~= Seq::empty());
                }
            },
        }
    }
}

/// Each query resumes where the last answer ended: the first query that a
/// reader asks for starts behind the last extent in its buffer, and each
/// later one behind the last extent of the answer before it.
pub proof fn lemma_starts_follow_answers(state: FiemapView, replies: Seq<ReplyView>)
    requires
        state.cursor <= state.batch.len(),
    ensures
        starts(state, replies) == if state.ended {
            Seq::empty()
        } else {
            resumptions(state.resume_offset(), replies)
        },
    decreases replies.len(), state.batch.len() - state.cursor, 1int,
{
    let (after, step) = state.next();
    if state.cursor < state.batch.len() {
        lemma_starts_follow_answers(after, replies);
    } else if !state.ended {
        lemma_starts_from_query_follow_answers(after, replies);
    }
}

/// From a query on, each query resumes where the last answer ended.
pub proof fn lemma_starts_from_query_follow_answers(state: FiemapView, replies: Seq<ReplyView>)
    requires
        state.cursor == state.batch.len(),
        !state.ended,
        state.start == state.resume_offset(),
    ensures
        starts_from_query(state, replies) == resumptions(state.start, replies),
    decreases replies.len(), state.batch.len() - state.cursor, 0int,
{
    if replies.len() > 0 {
        let (after, step) = state.resume(replies[0]);
        let rest = replies.skip(1);
        match replies[0] {
            ReplyView::Interrupted => {
                lemma_starts_from_query_follow_answers(after, rest);
            },
            ReplyView::Failed(error) => {
                lemma_starts_follow_answers(after, rest);
            },
            ReplyView::Mapped(batch) => {
                if batch.len() > 0 {
                    lemma_starts_follow_answers(after, rest);
                }
            },
        }
    }
}

/// The outcomes of queries that all succeed, with one answer of `batches`
/// each.
pub open spec fn mapped(batches: Seq<Seq<FiemapExtent>>) -> Seq<ReplyView> {
    batches.map_values(|batch: Seq<FiemapExtent>| ReplyView::Mapped(batch))
}

/// Answers that do not close the sequence come first in it, one after the
/// other, and what follows them is what the later outcomes spell.
proof fn lemma_answers_after_batches(batches: Seq<Seq<FiemapExtent>>, later: Seq<ReplyView>)
    requires
        forall|i: int| 0 <= i < batches.len() ==> !closes(#[trigger] batches[i]),
    ensures
        answers(mapped(batches) + later) == oks(batches.flatten()) + answers(later),
    decreases batches.len(),
{
    let replies = mapped(batches) + later;
    if batches.len() == 0 {
        assert(replies =~= later);
        assert(oks(batches.flatten()) =~= Seq::empty());
    } else {
        let rest = batches.drop_first();
        assert(replies.skip(1) =~= mapped(rest) + later);
        assert(replies[0] == ReplyView::Mapped(batches[0]));
        assert forall|i: int| 0 <= i < rest.len() implies !closes(#[trigger] rest[i]) by {
            assert(rest[i] == batches[i + 1]);
        }
        lemma_answers_after_batches(rest, later);
        assert(oks(batches.flatten()) =~= oks(batches[0]) + oks(rest.flatten()));
    }
}

/// After answers that do not close the sequence, each query started behind
/// the answer before it, and the next one starts behind the last of them.
proof fn lemma_resumptions_after_batches(
    start: u64,
    batches: Seq<Seq<FiemapExtent>>,
    later: Seq<ReplyView>,
)
    requires
        forall|i: int| 0 <= i < batches.len() ==> !closes(#[trigger] batches[i]),
    ensures
        resumptions(start, mapped(batches) + later) == Seq::new(
            batches.len(),
            |i: int|
                if i == 0 {
                    start
                } else {
                    batches[i - 1].last().end() as u64
                },
        ) + resumptions(
            if batches.len() == 0 {
                start
            } else {
                batches.last().last().end() as u64
            },
            later,
        ),
    decreases batches.len(),
{
    let replies = mapped(batches) + later;
    if batches.len() == 0 {
        assert(replies =~= later);
    } else {
        let rest = batches.drop_first();
        let next = batches[0].last().end() as u64;
        assert(replies.skip(1) =~= mapped(rest) + later);
        assert(replies[0] == ReplyView::Mapped(batches[0]));
        assert forall|i: int| 0 <= i < rest.len() implies !closes(#[trigger] rest[i]) by {
            assert(rest[i] == batches[i + 1]);
        }
        lemma_resumptions_after_batches(next, rest, later);
        if rest.len() > 0 {
            assert(rest.last() == batches.last());
        }
        let head = Seq::new(
            batches.len(),
            |i: int|
                if i == 0 {
                    start
                } else {
                    batches[i - 1].last().end() as u64
                },
        );
        let tail = Seq::new(
            rest.len(),
            |i: int|
                if i == 0 {
                    next
                } else {
                    rest[i - 1].last().end() as u64
                },
        );
        assert(head =~= seq![start] + tail) by {
            assert forall|i: int| 0 < i < batches.len() implies head[i] == tail[i - 1] by {
                if i > 1 {
                    assert(rest[i - 2] == batches[i - 1]);
                }
            }
        }
    }
}

/// A file without extents yields nothing: when the kernel answers the
/// first query without an extent, the sequence is empty, and that query,
/// from offset zero, is the only one.
pub proof fn lemma_empty_file(replies: Seq<ReplyView>)
    requires
        replies.len() > 0,
        replies[0] == ReplyView::Mapped(Seq::empty()),
    ensures
        items(FiemapView::fresh(), replies) == Seq::<Result<FiemapExtent, FiemapError>>::empty(),
        starts(FiemapView::fresh(), replies) == seq![0u64],
{
    lemma_items_follow_answers(FiemapView::fresh(), replies);
    lemma_starts_follow_answers(FiemapView::fresh(), replies);
    assert(FiemapView::fresh().batch.skip(0) =~= Seq::empty());
    assert(oks(Seq::empty()) =~= Seq::empty());
}

/// A file whose extents come in one answer: when the last extent of the
/// first answer is marked as the last of the file, the sequence is that
/// answer, extent for extent, and the query for it, from offset zero, is
/// the only one, whatever the kernel would have said to another.
pub proof fn lemma_single_query(batch: Seq<FiemapExtent>, replies: Seq<ReplyView>)
    requires
        replies.len() > 0,
        replies[0] == ReplyView::Mapped(batch),
        batch.len() > 0,
        batch.last().is_last(),
    ensures
        items(FiemapView::fresh(), replies) == oks(batch),
        starts(FiemapView::fresh(), replies) == seq![0u64],
{
    lemma_items_follow_answers(FiemapView::fresh(), replies);
    lemma_starts_follow_answers(FiemapView::fresh(), replies);
    assert(FiemapView::fresh().batch.skip(0) =~= Seq::empty());
    assert(oks(Seq::empty()) =~= Seq::empty());
}

/// A file whose extents come in several answers: the sequence is the
/// answers one after the other, with no extent twice and none left out
/// where one answer ends and the next begins; the first query starts at
/// offset zero and each later one behind the last extent of the answer
/// before it; and nothing is asked after the answer that closes.
pub proof fn lemma_batches_concatenate(
    batches: Seq<Seq<FiemapExtent>>,
    closing: Seq<FiemapExtent>,
    later: Seq<ReplyView>,
)
    requires
        forall|i: int| 0 <= i < batches.len() ==> !closes(#[trigger] batches[i]),
        forall|i: int|
            0 <= i < batches.len() ==> (#[trigger] batches[i]).last().end() <= u64::MAX,
        closes(closing),
    ensures
        items(FiemapView::fresh(), mapped(batches.push(closing)) + later) == oks(
            batches.push(closing).flatten(),
        ),
        starts(FiemapView::fresh(), mapped(batches.push(closing)) + later).len()
            == batches.len() + 1,
        starts(FiemapView::fresh(), mapped(batches.push(closing)) + later)[0] == 0,
        forall|i: int|
            0 < i <= batches.len() ==> #[trigger] starts(
                FiemapView::fresh(),
                mapped(batches.push(closing)) + later,
            )[i] == batches[i - 1].last().end(),
{
    let fresh = FiemapView::fresh();
    let replies = mapped(batches.push(closing)) + later;
    let after = seq![ReplyView::Mapped(closing)] + later;
    assert(replies =~= mapped(batches) + after);
    lemma_items_follow_answers(fresh, replies);
    lemma_starts_follow_answers(fresh, replies);
    lemma_answers_after_batches(batches, after);
    lemma_resumptions_after_batches(0, batches, after);
    assert(fresh.batch.skip(0) =~= Seq::empty());
    assert(oks(Seq::empty()) =~= Seq::empty());
    assert(answers(after) =~= oks(closing));
    assert(batches.push(closing).flatten() =~= batches.flatten() + closing) by {
        batches.lemma_flatten_push(closing);
    }
    assert(oks(batches.flatten() + closing) =~= oks(batches.flatten()) + oks(closing));
}

/// A failure ends the sequence: after the extents of the answers before
/// it, the sequence holds the error, once, and nothing behind it, whatever
/// the kernel would have said to later queries.
pub proof fn lemma_failure_ends(
    batches: Seq<Seq<FiemapExtent>>,
    error: FiemapError,
    later: Seq<ReplyView>,
)
    requires
        forall|i: int| 0 <= i < batches.len() ==> !closes(#[trigger] batches[i]),
    ensures
        items(FiemapView::fresh(), mapped(batches) + seq![ReplyView::Failed(error)] + later)
            == oks(batches.flatten()).push(Err(error)),
{
    let fresh = FiemapView::fresh();
    let after = seq![ReplyView::Failed(error)] + later;
    let replies = mapped(batches) + seq![ReplyView::Failed(error)] + later;
    assert(replies =~= mapped(batches) + after);
    lemma_items_follow_answers(fresh, replies);
    lemma_answers_after_batches(batches, after);
    assert(fresh.batch.skip(0) =~= Seq::empty());
    assert(oks(Seq::empty()) =~= Seq::empty());
    assert(oks(batches.flatten()) + answers(after) =~= oks(batches.flatten()).push(Err(error)));
}

/// An interrupted call is not seen: with one more interruption at any
/// place among the outcomes of the queries, the reader yields the same
/// items in the same order.
pub proof fn lemma_interrupt_unseen(state: FiemapView, replies: Seq<ReplyView>, at: int)
    requires
        state.cursor <= state.batch.len(),
        0 <= at <= replies.len(),
    ensures
        items(state, replies.insert(at, ReplyView::Interrupted)) == items(state, replies),
{
    lemma_items_follow_answers(state, replies);
    lemma_items_follow_answers(state, replies.insert(at, ReplyView::Interrupted));
    lemma_answers_skip_interrupt(replies, at);
}

proof fn lemma_answers_skip_interrupt(replies: Seq<ReplyView>, at: int)
    requires
        0 <= at <= replies.len(),
    ensures
        answers(replies.insert(at, ReplyView::Interrupted)) == answers(replies),
    decreases at,
{
    let longer = replies.insert(at, ReplyView::Interrupted);
    if at == 0 {
        assert(longer.skip(1) =~= replies);
    } else {
        assert(longer[0] == replies[0]);
        assert(longer.skip(1) =~= replies.skip(1).insert(at - 1, ReplyView::Interrupted));
        lemma_answers_skip_interrupt(replies.skip(1), at - 1);
    }
}

/// After an interrupted call the reader asks for the same query again and
/// is otherwise as it was.
pub proof fn lemma_interrupt_repeats_query(state: FiemapView)
    requires
        state.awaiting(),
    ensures
        state.next().1 == Step::Query,
        state.next().0.resume(ReplyView::Interrupted) == (state.next().0, Step::Query),
{
}

/// Whether the logical offsets never fall along `extents`.
pub open spec fn ascending(extents: Seq<FiemapExtent>) -> bool {
    forall|i: int, j: int|
        #![trigger extents[i], extents[j]]
        0 <= i <= j < extents.len() ==> extents[i].fe_logical <= extents[j].fe_logical
}

/// Whether the logical offsets never fall along the extents of `items`.
pub open spec fn in_order(items: Seq<Result<FiemapExtent, FiemapError>>) -> bool {
    forall|i: int, j: int|
        #![trigger items[i], items[j]]
        0 <= i <= j < items.len() ==> (items[i] matches Ok(first) ==> (items[j] matches Ok(
            second,
        ) ==> first.fe_logical <= second.fe_logical))
}

/// Whether the kernel kept to the queries that started at `queries`: each
/// answer is in ascending order and does not begin before the start of the
/// query that it is for.
pub open spec fn honours(replies: Seq<ReplyView>, queries: Seq<u64>) -> bool {
    forall|k: int|
        0 <= k < queries.len() && k < replies.len() ==> (#[trigger] replies[k] matches ReplyView::Mapped(
            batch,
        ) ==> ascending(batch) && (batch.len() > 0 ==> batch[0].fe_logical >= queries[k]))
}

proof fn lemma_answers_in_order(start: u64, replies: Seq<ReplyView>)
    requires
        forall|k: int| 0 <= k < replies.len() ==> (#[trigger] replies[k]).wf(),
        honours(replies, resumptions(start, replies)),
    ensures
        in_order(answers(replies)),
        forall|i: int|
            0 <= i < answers(replies).len() ==> (#[trigger] answers(replies)[i] matches Ok(extent)
                ==> extent.fe_logical >= start),
    decreases replies.len(),
{
    if replies.len() > 0 {
        let rest = replies.skip(1);
        let queries = resumptions(start, replies);
        assert forall|k: int| 0 <= k < rest.len() implies (#[trigger] rest[k]).wf() by {
            assert(rest[k] == replies[k + 1]);
        }
        match replies[0] {
            ReplyView::Interrupted => {
                let later = resumptions(start, rest);
                assert(queries =~= seq![start] + later);
                assert forall|k: int| 0 <= k < later.len() && k < rest.len() implies (
                #[trigger] rest[k] matches ReplyView::Mapped(batch) ==> ascending(batch) && (
                batch.len() > 0 ==> batch[0].fe_logical >= later[k])) by {
                    assert(rest[k] == replies[k + 1]);
                    assert(later[k] == queries[k + 1]);
                }
                lemma_answers_in_order(start, rest);
            },
            ReplyView::Failed(error) => {},
            ReplyView::Mapped(batch) => {
                assert(replies[0].wf());
                assert(ascending(batch));
                if closes(batch) {
                    assert(answers(replies) =~= oks(batch));
                } else {
                    let next = batch.last().end() as u64;
                    let later = resumptions(next, rest);
                    assert(queries =~= seq![start] + later);
                    assert forall|k: int| 0 <= k < later.len() && k < rest.len() implies (
                    #[trigger] rest[k] matches ReplyView::Mapped(b) ==> ascending(b) && (b.len() > 0
                        ==> b[0].fe_logical >= later[k])) by {
                        assert(rest[k] == replies[k + 1]);
                        assert(later[k] == queries[k + 1]);
                    }
                    lemma_answers_in_order(next, rest);
                    let tail = answers(rest);
                    assert(answers(replies) =~= oks(batch) + tail);
                    assert(batch[0].fe_logical >= start);
                    assert(next >= batch.last().fe_logical);
                    assert forall|i: int| 0 <= i < answers(replies).len() implies (
                    #[trigger] answers(replies)[i] matches Ok(extent) ==> extent.fe_logical
                        >= start) by {
                        if i < batch.len() {
                            assert(answers(replies)[i] == Ok::<FiemapExtent, FiemapError>(batch[i]));
                        } else {
                            assert(answers(replies)[i] == tail[i - batch.len()]);
                        }
                    }
                    assert forall|i: int, j: int|
                        #![trigger answers(replies)[i], answers(replies)[j]]
                        0 <= i <= j < answers(replies).len() implies (answers(
                        replies,
                    )[i] matches Ok(first) ==> (answers(replies)[j] matches Ok(second)
                        ==> first.fe_logical <= second.fe_logical)) by {
                        if j < batch.len() {
                            assert(answers(replies)[i] == Ok::<FiemapExtent, FiemapError>(batch[i]));
                            assert(answers(replies)[j] == Ok::<FiemapExtent, FiemapError>(batch[j]));
                        } else if i < batch.len() {
                            assert(answers(replies)[i] == Ok::<FiemapExtent, FiemapError>(batch[i]));
                            assert(answers(replies)[j] == tail[j - batch.len()]);
                        } else {
                            assert(answers(replies)[i] == tail[i - batch.len()]);
                            assert(answers(replies)[j] == tail[j - batch.len()]);
                        }
                    }
                }
            },
        }
    }
}

/// The order of the kernel is kept: where each answer is in ascending
/// order of logical offsets and does not begin before the start of its
/// query, the extents of the whole sequence are in ascending order, across
/// the places where one answer ends and the next begins.
pub proof fn lemma_order_kept(replies: Seq<ReplyView>)
    requires
        forall|k: int| 0 <= k < replies.len() ==> (#[trigger] replies[k]).wf(),
        honours(replies, starts(FiemapView::fresh(), replies)),
    ensures
        in_order(items(FiemapView::fresh(), replies)),
{
    let fresh = FiemapView::fresh();
    lemma_items_follow_answers(fresh, replies);
    lemma_starts_follow_answers(fresh, replies);
    lemma_answers_in_order(0, replies);
    assert(fresh.batch.skip(0) =~= Seq::empty());
    assert(oks(Seq::empty()) =~= Seq::empty());
    assert(items(fresh, replies) =~= answers(replies));
}

/// A call of the reader.
pub enum Call {
    /// `Fiemap::next`.
    Next,
    /// `Fiemap::resume` with this outcome.
    Resume(ReplyView),
}

/// One call: the state after it, and what it comes to.
pub open spec fn call(state: FiemapView, which: Call) -> (FiemapView, Step) {
    match which {
        Call::Next => state.next(),
        Call::Resume(reply) => state.resume(reply),
    }
}

/// What a series of calls comes to, call for call, from `state` on.
pub open spec fn steps(state: FiemapView, calls: Seq<Call>) -> Seq<Step>
    decreases calls.len(),
{
    if calls.len() == 0 {
        Seq::empty()
    } else {
        seq![call(state, calls[0]).1] + steps(call(state, calls[0]).0, calls.skip(1))
    }
}

proof fn lemma_steps_len(state: FiemapView, calls: Seq<Call>)
    ensures
        steps(state, calls).len() == calls.len(),
    decreases calls.len(),
{
    if calls.len() > 0 {
        lemma_steps_len(call(state, calls[0]).0, calls.skip(1));
    }
}

proof fn lemma_finished_steps(state: FiemapView, calls: Seq<Call>, at: int)
    requires
        state.finished(),
        0 <= at < calls.len(),
    ensures
        steps(state, calls)[at] == Step::Ready(None),
    decreases calls.len(),
{
    lemma_steps_len(call(state, calls[0]).0, calls.skip(1));
    if at > 0 {
        lemma_finished_steps(state, calls.skip(1), at - 1);
    }
}

/// The sequence does not start again: once a call has come to `None` or to
/// an error, every later call comes to `None`, whatever it is and whatever
/// outcome of a query it brings.
pub proof fn lemma_no_restart(state: FiemapView, calls: Seq<Call>, at: int, later: int)
    requires
        0 <= at < later < calls.len(),
        steps(state, calls)[at].ends(),
    ensures
        steps(state, calls)[later] == Step::Ready(None),
    decreases calls.len(),
{
    let after = call(state, calls[0]).0;
    lemma_steps_len(after, calls.skip(1));
    if at == 0 {
        lemma_finished_steps(after, calls.skip(1), later - 1);
    } else {
        lemma_no_restart(after, calls.skip(1), at - 1, later - 1);
    }
}

} // verus!
