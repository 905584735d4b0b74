//! Laws of sending a command and of what is done after each reply.
use crate::aql;
use crate::aql::AqlBuilder;
use crate::aql::AqlView;
use crate::send;
use crate::send::AqlRun;
use crate::send::Batch;
use crate::send::RetryAction;
use crate::send::SendAction;
use crate::send::SendReply;
use vstd::prelude::*;

verus! {

/// The request carries the whole text of the command's query, its bind variables in
/// their order and its settings; nothing is collected yet, and the first thing to do is
/// to send it.
pub proof fn law_request_is_the_command<R, M, E>(
    aql: AqlBuilder,
    query: String,
    start: (AqlRun<R>, SendAction<R, M, E>),
)
    requires
        call_ensures(AqlBuilder::build_query, (&aql,), query),
        call_ensures(send::send_generic_aql::<R, M, E>, (&aql,), start),
    ensures
        start.0.request.query@ == query@,
        start.0.request.bind_vars@.len() == aql.vars@.len(),
        forall|i: int|
            0 <= i < aql.vars@.len() ==> (#[trigger] start.0.request.bind_vars@[i]).0@
                == aql.vars@[i].0@ && start.0.request.bind_vars@[i].1@ == aql.vars@[i].1@,
        start.0.request.batch_size == aql.batch_size,
        start.0.request.full_count == aql.full_count,
        start.0.handle_write_conflicts == aql.handle_write_conflicts,
        start.0.results@.len() == 0,
        start.1 is Query,
{
    let sent = start.0.request.bind_vars@;
    assert(aql::vars_view(sent).len() == sent.len());
    assert(aql::vars_view(aql.vars@).len() == aql.vars@.len());
    assert forall|i: int| 0 <= i < aql.vars@.len() implies (#[trigger] sent[i]).0@
        == aql.vars@[i].0@ && sent[i].1@ == aql.vars@[i].1@ by {
        assert(aql::vars_view(sent)[i] == aql::vars_view(aql.vars@)[i]);
    }
}

/// Whether a text holds another at a place.
pub open spec fn holds_at(text: Seq<char>, at: int, part: Seq<char>) -> bool {
    0 <= at <= at + part.len() <= text.len() && text.subrange(at, at + part.len()) == part
}

/// Where the clause of a step stands in the text of a command.
proof fn lemma_clause_at(aql: AqlView, k: int) -> (at: int)
    requires
        0 <= k < aql.steps.len(),
    ensures
        holds_at(aql.query(), at, aql::step_text(aql.steps[k])),
        at > aql::kind_text(aql.kind).len(),
        at == aql::kind_text(aql.kind).len() + aql::steps_text(aql.steps.take(k)).len() + 1,
    decreases aql.steps.len(),
{
    reveal_strlit(" ");
    let n = aql.steps.len() - 1;
    let shorter = AqlView { steps: aql.steps.drop_last(), ..aql };
    let clause = aql::step_text(aql.steps[k]);
    let at = aql::kind_text(aql.kind).len() as int + aql::steps_text(aql.steps.take(k)).len() + 1;
    assert(aql.query() =~= shorter.query() + (" "@ + aql::step_text(aql.steps.last())));
    if k == n {
        assert(aql.steps.take(k) =~= shorter.steps);
        assert(aql.query().subrange(at, at + clause.len()) =~= clause);
    } else {
        let same = lemma_clause_at(shorter, k);
        assert(shorter.steps.take(k) =~= aql.steps.take(k));
        assert(aql.query().subrange(at, at + clause.len()) =~= shorter.query().subrange(
            at,
            at + clause.len(),
        ));
    }
    at
}

/// The clause of a step ends before that of a later one begins.
proof fn lemma_clauses_in_order(aql: AqlView, j: int, k: int)
    requires
        0 <= j < k < aql.steps.len(),
    ensures
        aql::steps_text(aql.steps.take(j)).len() + 1 + aql::step_text(aql.steps[j]).len()
            <= aql::steps_text(aql.steps.take(k)).len(),
    decreases k,
{
    reveal_strlit(" ");
    let taken = aql.steps.take(k);
    assert(taken.drop_last() =~= aql.steps.take(k - 1));
    assert(taken.last() == aql.steps[k - 1]);
    if j < k - 1 {
        lemma_clauses_in_order(aql, j, k - 1);
    }
}

/// The request's query begins with the head of the loop and holds the clause of every
/// step behind it, those of earlier steps before those of later ones.
pub proof fn law_request_holds_every_clause<R, M, E>(
    aql: AqlBuilder,
    start: (AqlRun<R>, SendAction<R, M, E>),
    j: int,
    k: int,
)
    requires
        call_ensures(send::send_generic_aql::<R, M, E>, (&aql,), start),
        0 <= j <= k < aql.steps@.len(),
    ensures
        ({
            let query = start.0.request.query@;
            let head = aql::kind_text(aql.kind@);
            let earlier = aql::step_text(aql.steps@[j]@);
            let later = aql::step_text(aql.steps@[k]@);
            &&& holds_at(query, 0, head)
            &&& exists|a: int, b: int| #[trigger]
                holds_at(query, a, earlier) && #[trigger] holds_at(query, b, later) && head.len()
                    < a && (j < k ==> a + earlier.len() < b)
        }),
{
    let query = start.0.request.query@;
    let head = aql::kind_text(aql.kind@);
    assert(aql@.steps[j] == aql.steps@[j]@ && aql@.steps[k] == aql.steps@[k]@);
    assert(query.subrange(0, head.len() as int) =~= head);
    let a = lemma_clause_at(aql@, j);
    let b = lemma_clause_at(aql@, k);
    if j < k {
        lemma_clauses_in_order(aql@, j, k);
    }
    assert(holds_at(query, a, aql::step_text(aql.steps@[j]@)));
    assert(holds_at(query, b, aql::step_text(aql.steps@[k]@)));
}

/// A batch that promises more is collected behind the earlier ones, and the next batch
/// of that answer is asked for.
pub proof fn law_batch_is_collected<R, M, E>(
    run: &mut AqlRun<R>,
    batch: Batch<R, M>,
    action: SendAction<R, M, E>,
)
    requires
        batch.more,
        batch.id is Some,
        call_ensures(
            AqlRun::<R>::on_reply::<M, E>,
            (run, SendReply::<R, M, E>::Batch(batch)),
            action,
        ),
    ensures
        action matches SendAction::NextBatch { id } && id@ == batch.id->0@,
        final(run).results@ == old(run).results@ + batch.result@,
        final(run).request == old(run).request,
        final(run).handle_write_conflicts == old(run).handle_write_conflicts,
{
}

/// The last batch is handed over as it came, but with the results of the earlier ones
/// before its own; the run is left without any.
pub proof fn law_last_batch_brings_all<R, M, E>(
    run: &mut AqlRun<R>,
    batch: Batch<R, M>,
    action: SendAction<R, M, E>,
)
    requires
        !batch.more,
        call_ensures(
            AqlRun::<R>::on_reply::<M, E>,
            (run, SendReply::<R, M, E>::Batch(batch)),
            action,
        ),
    ensures
        action matches SendAction::Finish(whole) && whole.result@ == old(run).results@
            + batch.result@ && !whole.more && whole.rest == batch.rest && (whole.id is Some
            <==> batch.id is Some) && (batch.id is Some ==> whole.id->0@ == batch.id->0@),
        final(run).results@.len() == 0,
        final(run).request == old(run).request,
        final(run).handle_write_conflicts == old(run).handle_write_conflicts,
{
}

/// A failure drops what was collected. If it is a write conflict, and those are
/// handled, the same request is sent again; any other failure is what the run ends
/// with.
pub proof fn law_failure_resends_or_ends<R, M, E>(
    run: &mut AqlRun<R>,
    error: E,
    write_conflict: bool,
    action: SendAction<R, M, E>,
)
    requires
        call_ensures(
            AqlRun::<R>::on_reply::<M, E>,
            (run, SendReply::<R, M, E>::Failed { error, write_conflict }),
            action,
        ),
    ensures
        write_conflict && old(run).handle_write_conflicts ==> action is Query,
        !(write_conflict && old(run).handle_write_conflicts) ==> action
            == SendAction::<R, M, E>::Fail(error),
        final(run).results@.len() == 0,
        final(run).request == old(run).request,
        final(run).handle_write_conflicts == old(run).handle_write_conflicts,
{
}

/// The results that a run has collected after so many replies.
proof fn lemma_collected<R, M, E>(
    calls: Seq<&mut AqlRun<R>>,
    runs: Seq<AqlRun<R>>,
    replies: Seq<SendReply<R, M, E>>,
    actions: Seq<SendAction<R, M, E>>,
    since: int,
    n: int,
)
    requires
        calls.len() == actions.len() == replies.len(),
        runs.len() == replies.len() + 1,
        forall|r: int|
            0 <= r < replies.len() ==> #[trigger] call_ensures(
                AqlRun::<R>::on_reply::<M, E>,
                (calls[r], replies[r]),
                actions[r],
            ) && *calls[r] == runs[r] && *final(calls[r]) == runs[r + 1],
        0 <= since <= n < replies.len(),
        since == 0 ==> runs[0].results@.len() == 0,
        since > 0 ==> replies[since - 1] is Failed,
        forall|r: int|
            since <= r < replies.len() - 1 ==> #[trigger] replies[r] is Batch
                && replies[r]->Batch_0.more && replies[r]->Batch_0.id is Some,
    ensures
        runs[n].results@ == Seq::new(
            (n - since) as nat,
            |i: int| replies[since + i]->Batch_0.result@,
        ).flatten(),
    decreases n,
{
    if since < n {
        lemma_collected(calls, runs, replies, actions, since, n - 1);
    }
    if n > 0 {
        assert(call_ensures(
            AqlRun::<R>::on_reply::<M, E>,
            (calls[n - 1], replies[n - 1]),
            actions[n - 1],
        ));
    }
    let came = Seq::new((n - since) as nat, |i: int| replies[since + i]->Batch_0.result@);
    if n == since {
        assert(came =~= Seq::<Seq<R>>::empty());
        assert(runs[n].results@ =~= came.flatten());
    } else {
        let earlier = Seq::new(
            (n - 1 - since) as nat,
            |i: int| replies[since + i]->Batch_0.result@,
        );
        let last = replies[n - 1]->Batch_0.result@;
        assert(came =~= earlier.push(last));
        earlier.lemma_flatten_push(last);
    }
}

/// A run that goes from its start, or from a failure, through batches that promise
/// more to one that does not, finishes with the results of these batches, all of them,
/// in the order in which they came, and with none of an answer before the failure.
pub proof fn law_finished_run_brings_the_open_answer<R, M, E>(
    aql: AqlBuilder,
    start: (AqlRun<R>, SendAction<R, M, E>),
    calls: Seq<&mut AqlRun<R>>,
    runs: Seq<AqlRun<R>>,
    replies: Seq<SendReply<R, M, E>>,
    actions: Seq<SendAction<R, M, E>>,
    since: int,
)
    requires
        call_ensures(send::send_generic_aql::<R, M, E>, (&aql,), start),
        calls.len() == actions.len() == replies.len(),
        runs.len() == replies.len() + 1,
        runs[0] == start.0,
        forall|r: int|
            0 <= r < replies.len() ==> #[trigger] call_ensures(
                AqlRun::<R>::on_reply::<M, E>,
                (calls[r], replies[r]),
                actions[r],
            ) && *calls[r] == runs[r] && *final(calls[r]) == runs[r + 1],
        0 <= since < replies.len(),
        since > 0 ==> replies[since - 1] is Failed,
        forall|r: int|
            since <= r < replies.len() - 1 ==> #[trigger] replies[r] is Batch
                && replies[r]->Batch_0.more && replies[r]->Batch_0.id is Some,
        replies.last() is Batch && !replies.last()->Batch_0.more,
    ensures
        actions.last() matches SendAction::Finish(whole) && whole.result@ == Seq::new(
            (replies.len() - since) as nat,
            |i: int| replies[since + i]->Batch_0.result@,
        ).flatten(),
{
    let n = replies.len() - 1;
    lemma_collected(calls, runs, replies, actions, since, n);
    assert(call_ensures(
        AqlRun::<R>::on_reply::<M, E>,
        (calls[n], replies[n]),
        actions[n],
    ));
    let earlier = Seq::new((n - since) as nat, |i: int| replies[since + i]->Batch_0.result@);
    let came = Seq::new((n + 1 - since) as nat, |i: int| replies[since + i]->Batch_0.result@);
    let last = replies[n]->Batch_0.result@;
    assert(came =~= earlier.push(last));
    earlier.lemma_flatten_push(last);
}

/// Whatever the replies, the request stays the one that was written at the start.
pub proof fn law_request_stays_the_same<R, M, E>(
    calls: Seq<&mut AqlRun<R>>,
    runs: Seq<AqlRun<R>>,
    replies: Seq<SendReply<R, M, E>>,
    actions: Seq<SendAction<R, M, E>>,
    n: int,
)
    requires
        calls.len() == actions.len() == replies.len(),
        runs.len() == replies.len() + 1,
        forall|r: int|
            0 <= r < replies.len() ==> #[trigger] call_ensures(
                AqlRun::<R>::on_reply::<M, E>,
                (calls[r], replies[r]),
                actions[r],
            ) && *calls[r] == runs[r] && *final(calls[r]) == runs[r + 1],
        0 <= n <= replies.len(),
    ensures
        runs[n].request == runs[0].request,
        runs[n].handle_write_conflicts == runs[0].handle_write_conflicts,
    decreases n,
{
    if n > 0 {
        law_request_stays_the_same(calls, runs, replies, actions, n - 1);
        assert(call_ensures(
            AqlRun::<R>::on_reply::<M, E>,
            (calls[n - 1], replies[n - 1]),
            actions[n - 1],
        ));
    }
}

/// The server's error number 1200, and no other, tells of a write conflict.
pub proof fn law_one_number_tells_of_a_conflict(error_num: u16, conflict: bool)
    requires
        call_ensures(send::is_write_conflict, (error_num,), conflict),
    ensures
        conflict <==> error_num == 1200,
{
}

/// A check that is content ends the retries, one that is not has the command sent
/// again, and an error ends them with that error.
pub proof fn law_check_decides_on_retries<E>(outcome: Result<bool, E>, action: RetryAction<E>)
    requires
        call_ensures(send::send_generic_aql_with_manual_retries::<E>, (outcome,), action),
    ensures
        action is Finish <==> outcome == Ok::<bool, E>(true),
        action is Resend <==> outcome == Ok::<bool, E>(false),
        action is Fail <==> outcome is Err,
        outcome matches Err(error) ==> action == RetryAction::<E>::Fail(error),
{
}

/// Every failure, every last batch and every batch that names the rest of its answer
/// can be taken.
pub proof fn law_every_reply_can_be_taken<R, M, E>(reply: SendReply<R, M, E>)
    requires
        reply is Failed || !reply->Batch_0.more || reply->Batch_0.id is Some,
    ensures
        forall|run: &mut AqlRun<R>| #[trigger]
            call_requires(AqlRun::<R>::on_reply::<M, E>, (run, reply)),
{
}

} // verus!
