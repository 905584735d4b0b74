//! Sending a query: the batches of an answer, and what to do after each reply
//! of the server.
use crate::aql;
use crate::aql::AqlBuilder;
use crate::aql::AqlView;
use vstd::prelude::*;

verus! {

/// The error number by which the server reports a write conflict.
pub const ERROR_WRITE_CONFLICT: u16 = 1200;

/// Whether the server's error number tells of a write conflict.
pub fn is_write_conflict(error_num: u16) -> (conflict: bool)
    ensures
        conflict == (error_num == ERROR_WRITE_CONFLICT),
{
    error_num == ERROR_WRITE_CONFLICT
}

/// What the server is asked.
pub struct AqlRequest {
    pub query: String,
    /// The bind variables: names, each with the JSON text of its value.
    pub bind_vars: Vec<(String, String)>,
    pub batch_size: Option<u32>,
    pub full_count: bool,
}

/// What an [`AqlRequest`] holds.
pub struct AqlRequestView {
    pub query: Seq<char>,
    pub bind_vars: Seq<(Seq<char>, Seq<char>)>,
    pub batch_size: Option<u32>,
    pub full_count: bool,
}

impl View for AqlRequest {
    type V = AqlRequestView;

    open spec fn view(&self) -> AqlRequestView {
        AqlRequestView {
            query: self.query@,
            bind_vars: aql::vars_view(self.bind_vars@),
            batch_size: self.batch_size,
            full_count: self.full_count,
        }
    }
}

/// One batch of an answer.
pub struct Batch<R, M> {
    /// The server's name for the rest of the answer.
    pub id: Option<String>,
    /// Whether the server holds more batches of this answer.
    pub more: bool,
    /// The results that came with this batch.
    pub result: Vec<R>,
    /// Whatever else came with this batch.
    pub rest: M,
}

/// What a [`Batch`] holds.
pub struct BatchView<R, M> {
    pub id: Option<Seq<char>>,
    pub more: bool,
    pub result: Seq<R>,
    pub rest: M,
}

impl<R, M> View for Batch<R, M> {
    type V = BatchView<R, M>;

    open spec fn view(&self) -> BatchView<R, M> {
        BatchView {
            id: match self.id {
                Some(id) => Some(id@),
                None => None,
            },
            more: self.more,
            result: self.result@,
            rest: self.rest,
        }
    }
}

/// How a question to the server ended.
pub enum SendReply<R, M, E> {
    /// It brought a batch.
    Batch(Batch<R, M>),
    /// It failed; `write_conflict` tells whether because of a write conflict.
    Failed { error: E, write_conflict: bool },
}

/// What a [`SendReply`] holds.
pub enum SendReplyView<R, M, E> {
    Batch(BatchView<R, M>),
    Failed { error: E, write_conflict: bool },
}

impl<R, M, E> View for SendReply<R, M, E> {
    type V = SendReplyView<R, M, E>;

    open spec fn view(&self) -> SendReplyView<R, M, E> {
        match self {
            SendReply::Batch(batch) => SendReplyView::Batch(batch@),
            SendReply::Failed { error, write_conflict } => SendReplyView::Failed {
                error: *error,
                write_conflict: *write_conflict,
            },
        }
    }
}

impl<R, M, E> SendReplyView<R, M, E> {
    /// A batch that promises more names the rest of its answer.
    pub open spec fn is_complete(self) -> bool {
        self matches SendReplyView::Batch(batch) ==> batch.more ==> batch.id is Some
    }
}

/// What to do next.
pub enum SendAction<R, M, E> {
    /// Send the request.
    Query,
    /// Ask for the next batch of the answer with this name.
    NextBatch { id: String },
    /// The whole answer is there: the last batch, with the results of all.
    Finish(Batch<R, M>),
    /// Give up.
    Fail(E),
}

/// What a [`SendAction`] holds.
pub enum SendActionView<R, M, E> {
    Query,
    NextBatch { id: Seq<char> },
    Finish(BatchView<R, M>),
    Fail(E),
}

impl<R, M, E> View for SendAction<R, M, E> {
    type V = SendActionView<R, M, E>;

    open spec fn view(&self) -> SendActionView<R, M, E> {
        match self {
            SendAction::Query => SendActionView::Query,
            SendAction::NextBatch { id } => SendActionView::NextBatch { id: id@ },
            SendAction::Finish(batch) => SendActionView::Finish(batch@),
            SendAction::Fail(error) => SendActionView::Fail(*error),
        }
    }
}

/// A query that is being sent.
pub struct AqlRun<R> {
    /// What the server is asked, each time anew.
    pub request: AqlRequest,
    pub handle_write_conflicts: bool,
    /// The results of the answer that is coming in.
    pub results: Vec<R>,
}

/// What an [`AqlRun`] holds.
pub struct AqlRunView<R> {
    pub request: AqlRequestView,
    pub handle_write_conflicts: bool,
    pub results: Seq<R>,
}

impl<R> View for AqlRun<R> {
    type V = AqlRunView<R>;

    open spec fn view(&self) -> AqlRunView<R> {
        AqlRunView {
            request: self.request@,
            handle_write_conflicts: self.handle_write_conflicts,
            results: self.results@,
        }
    }
}

/// The request that a command makes.
pub open spec fn request_of(aql: AqlView) -> AqlRequestView {
    AqlRequestView {
        query: aql.query(),
        bind_vars: aql.vars,
        batch_size: aql.batch_size,
        full_count: aql.full_count,
    }
}

/// A command that has not been sent yet.
pub open spec fn started<R>(aql: AqlView) -> AqlRunView<R> {
    AqlRunView {
        request: request_of(aql),
        handle_write_conflicts: aql.handle_write_conflicts,
        results: seq![],
    }
}

impl<R> AqlRunView<R> {
    /// The same request with the given results collected.
    pub open spec fn with_results(self, results: Seq<R>) -> AqlRunView<R> {
        AqlRunView { results, ..self }
    }

    /// Whether a failure is answered by sending the request again.
    pub open spec fn retries(self, write_conflict: bool) -> bool {
        self.handle_write_conflicts && write_conflict
    }

    /// The run after a reply.
    pub open spec fn after<M, E>(self, reply: SendReplyView<R, M, E>) -> AqlRunView<R> {
        match reply {
            SendReplyView::Batch(batch) if batch.more => self.with_results(
                self.results + batch.result,
            ),
            _ => self.with_results(seq![]),
        }
    }

    /// What a reply asks for.
    pub open spec fn action<M, E>(self, reply: SendReplyView<R, M, E>) -> SendActionView<R, M, E> {
        match reply {
            SendReplyView::Batch(batch) => if batch.more {
                SendActionView::NextBatch { id: batch.id->0 }
            } else {
                SendActionView::Finish(
                    BatchView { result: self.results + batch.result, ..batch },
                )
            },
            SendReplyView::Failed { error, write_conflict } => if self.retries(write_conflict) {
                SendActionView::Query
            } else {
                SendActionView::Fail(error)
            },
        }
    }

    /// The run after a sequence of replies.
    pub open spec fn after_all<M, E>(self, replies: Seq<SendReplyView<R, M, E>>) -> AqlRunView<R>
        decreases replies.len(),
    {
        if replies.len() == 0 {
            self
        } else {
            self.after_all(replies.drop_last()).after(replies.last())
        }
    }
}

/// A copy of the bind variables.
fn copy_vars(vars: &Vec<(String, String)>) -> (copies: Vec<(String, String)>)
    ensures
        aql::vars_view(copies@) == aql::vars_view(vars@),
{
    let mut copies: Vec<(String, String)> = Vec::new();
    let mut i: usize = 0;
    while i < vars.len()
        invariant
            i <= vars.len(),
            copies.len() == i,
            forall|j: int|
                0 <= j < i ==> (#[trigger] copies@[j]).0@ == vars@[j].0@ && copies@[j].1@
                    == vars@[j].1@,
        decreases vars.len() - i,
    {
        copies.push((vars[i].0.clone(), vars[i].1.clone()));
        i += 1;
    }
    assert(aql::vars_view(copies@) =~= aql::vars_view(vars@));
    copies
}

/// Prepares to send a command: the request is written once, and the first thing
/// to do is to send it.
pub fn send_generic_aql<R, M, E>(aql: &AqlBuilder) -> (start: (AqlRun<R>, SendAction<R, M, E>))
    ensures
        start.0@ == started::<R>(aql@),
        start.0.request.query@ == aql@.query(),
        aql::vars_view(start.0.request.bind_vars@) == aql@.vars,
        start.0.request.batch_size == aql.batch_size,
        start.0.request.full_count == aql.full_count,
        start.0.handle_write_conflicts == aql.handle_write_conflicts,
        start.0.results@ == Seq::<R>::empty(),
        start.1 == SendAction::<R, M, E>::Query,
{
    let run = AqlRun {
        request: AqlRequest {
            query: aql.build_query(),
            bind_vars: copy_vars(&aql.vars),
            batch_size: aql.batch_size,
            full_count: aql.full_count,
        },
        handle_write_conflicts: aql.handle_write_conflicts,
        results: Vec::new(),
    };
    (run, SendAction::Query)
}

impl<R> AqlRun<R> {
    /// Takes the server's reply to the last action.
    ///
    /// Batches are collected until one promises no more. A failure ends the run,
    /// but for a write conflict where those are handled: then what was collected
    /// is dropped and the request is sent again.
    pub fn on_reply<M, E>(&mut self, reply: SendReply<R, M, E>) -> (action: SendAction<R, M, E>)
        requires
            reply@.is_complete(),
        ensures
            final(self)@ == old(self)@.after(reply@),
            final(self).request == old(self).request,
            final(self).handle_write_conflicts == old(self).handle_write_conflicts,
            action@ == old(self)@.action(reply@),
    {
        match reply {
            SendReply::Batch(batch) => {
                let Batch { id, more, mut result, rest } = batch;
                self.results.append(&mut result);
                if more {
                    SendAction::NextBatch { id: id.unwrap() }
                } else {
                    let mut all: Vec<R> = Vec::new();
                    std::mem::swap(&mut all, &mut self.results);
                    SendAction::Finish(Batch { id, more, result: all, rest })
                }
            },
            SendReply::Failed { error, write_conflict } => {
                self.results = Vec::new();
                if self.handle_write_conflicts && write_conflict {
                    SendAction::Query
                } else {
                    SendAction::Fail(error)
                }
            },
        }
    }
}

/// What a caller's own check of an answer asks for.
pub enum RetryAction<E> {
    /// Send the command, as the check left it, again.
    Resend,
    /// The check is content.
    Finish,
    /// The command could not be sent.
    Fail(E),
}

/// Goes on after a command was sent and, if that succeeded, its results were
/// checked: `outcome` holds what the check said.
pub fn send_generic_aql_with_manual_retries<E>(outcome: Result<bool, E>) -> (action: RetryAction<E>)
    ensures
        action == (match outcome {
            Ok(true) => RetryAction::Finish,
            Ok(false) => RetryAction::Resend,
            Err(error) => RetryAction::Fail(error),
        }),
{
    match outcome {
        Ok(true) => RetryAction::Finish,
        Ok(false) => RetryAction::Resend,
        Err(error) => RetryAction::Fail(error),
    }
}

/// The batches of the answer that is coming in after a sequence of replies: those
/// since the request was last sent.
pub open spec fn open_batches<R, M, E>(replies: Seq<SendReplyView<R, M, E>>) -> Seq<BatchView<R, M>>
    decreases replies.len(),
{
    if replies.len() == 0 {
        seq![]
    } else {
        match replies.last() {
            SendReplyView::Batch(batch) if batch.more => open_batches(replies.drop_last()).push(
                batch,
            ),
            _ => seq![],
        }
    }
}

/// The results of some batches, in their order.
pub open spec fn all_results<R, M>(batches: Seq<BatchView<R, M>>) -> Seq<R>
    decreases batches.len(),
{
    if batches.len() == 0 {
        seq![]
    } else {
        all_results(batches.drop_last()) + batches.last().result
    }
}

/// At every point of a run the collected results are those of the batches that
/// came since the request was last sent, none lost, doubled or out of order, and
/// the request and the settings are those of the command.
pub proof fn law_results_are_those_of_the_open_answer<R, M, E>(
    aql: AqlView,
    replies: Seq<SendReplyView<R, M, E>>,
)
    ensures
        started::<R>(aql).after_all(replies) == started::<R>(aql).with_results(
            all_results(open_batches(replies)),
        ),
    decreases replies.len(),
{
    if replies.len() > 0 {
        law_results_are_those_of_the_open_answer(aql, replies.drop_last());
        if let SendReplyView::Batch(batch) = replies.last() {
            if batch.more {
                let earlier = open_batches(replies.drop_last());
                assert(earlier.push(batch).drop_last() =~= earlier);
            }
        }
    }
}

/// A run that finishes hands over the last batch with the results of every batch
/// of that answer, in their order.
pub proof fn law_finished_run_hands_over_every_result<R, M, E>(
    aql: AqlView,
    replies: Seq<SendReplyView<R, M, E>>,
    last: BatchView<R, M>,
)
    requires
        !last.more,
    ensures
        started::<R>(aql).after_all(replies).action(SendReplyView::<R, M, E>::Batch(last))
            == SendActionView::<R, M, E>::Finish(
            BatchView { result: all_results(open_batches(replies).push(last)), ..last },
        ),
{
    law_results_are_those_of_the_open_answer(aql, replies);
    let earlier = open_batches(replies);
    assert(earlier.push(last).drop_last() =~= earlier);
}

/// Where write conflicts are handled, one of them puts the run back to its start:
/// whatever was collected is forgotten and the same request is sent again.
pub proof fn law_handled_conflict_starts_over<R, M, E>(
    aql: AqlView,
    replies: Seq<SendReplyView<R, M, E>>,
    error: E,
)
    requires
        aql.handle_write_conflicts,
    ensures
        ({
            let conflict = SendReplyView::<R, M, E>::Failed { error, write_conflict: true };
            let run = started::<R>(aql).after_all(replies);
            &&& run.action(conflict) == SendActionView::<R, M, E>::Query
            &&& run.after(conflict) == started::<R>(aql)
        }),
{
    law_results_are_those_of_the_open_answer(aql, replies);
}

/// A failure that is no handled write conflict is what the run ends with,
/// whatever came before it.
pub proof fn law_other_failure_ends_the_run<R, M, E>(
    aql: AqlView,
    replies: Seq<SendReplyView<R, M, E>>,
    error: E,
    write_conflict: bool,
)
    requires
        !(aql.handle_write_conflicts && write_conflict),
    ensures
        started::<R>(aql).after_all(replies).action(
            SendReplyView::<R, M, E>::Failed { error, write_conflict },
        ) == SendActionView::<R, M, E>::Fail(error),
{
    law_results_are_those_of_the_open_answer(aql, replies);
}

/// How many of some replies told of a write conflict.
pub open spec fn conflicts<R, M, E>(replies: Seq<SendReplyView<R, M, E>>) -> nat
    decreases replies.len(),
{
    if replies.len() == 0 {
        0
    } else {
        conflicts(replies.drop_last()) + (match replies.last() {
            SendReplyView::Failed { write_conflict: true, .. } => 1nat,
            _ => 0nat,
        })
    }
}

/// How often a command is sent when these replies come: once at the start, and each
/// time a reply asks for it.
pub open spec fn sends<R, M, E>(aql: AqlView, replies: Seq<SendReplyView<R, M, E>>) -> nat
    decreases replies.len(),
{
    if replies.len() == 0 {
        1
    } else {
        let run = started::<R>(aql).after_all(replies.drop_last());
        sends(aql, replies.drop_last()) + (match run.action(replies.last()) {
            SendActionView::Query => 1nat,
            _ => 0nat,
        })
    }
}

/// Where write conflicts are handled, a command is sent once more than there were
/// conflicts; where they are not, it is sent once.
pub proof fn law_sends_are_counted_by_conflicts<R, M, E>(
    aql: AqlView,
    replies: Seq<SendReplyView<R, M, E>>,
)
    ensures
        sends(aql, replies) == (if aql.handle_write_conflicts {
            1 + conflicts(replies)
        } else {
            1
        }),
    decreases replies.len(),
{
    if replies.len() > 0 {
        law_sends_are_counted_by_conflicts(aql, replies.drop_last());
        law_results_are_those_of_the_open_answer(aql, replies.drop_last());
    }
}

} // verus!
