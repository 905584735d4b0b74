//! Laws of updating a list of documents.
use crate::aql::AqlBuilder;
use crate::aql::AqlKind;
use crate::collection::DBCollection;
use crate::text;
use crate::update;
use crate::update::Document;
use crate::update::DocumentView;
use crate::update::UpdateRun;
use crate::update::UpdateRunView;
use vstd::prelude::*;

verus! {

/// Whether a list of keys holds that of a document.
pub open spec fn names_document(keys: Seq<String>, document: Document) -> bool {
    exists|k: int| 0 <= k < keys.len() && (#[trigger] keys[k])@ == document.key->0@
}

/// Whether some report names a document.
pub open spec fn is_reported(reports: Seq<Vec<String>>, document: Document) -> bool {
    exists|r: int| 0 <= r < reports.len() && names_document((#[trigger] reports[r])@, document)
}

/// What some reports hold.
spec fn reports_view(reports: Seq<Vec<String>>) -> Seq<Seq<Seq<char>>> {
    reports.map_values(|report: Vec<String>| text::texts(report@))
}

/// A report names a document exactly if it holds its key.
proof fn lemma_names_document(report: Vec<String>, document: Document)
    requires
        document.key is Some,
    ensures
        names_document(report@, document) <==> text::texts(report@).contains(document@.key->0),
{
    let key = document@.key->0;
    let held = text::texts(report@);
    if held.contains(key) {
        let k = choose|k: int| 0 <= k < held.len() && held[k] == key;
        assert(report@[k]@ == key);
    }
    if names_document(report@, document) {
        let k = choose|k: int| 0 <= k < report@.len() && (#[trigger] report@[k])@ == key;
        assert(held[k] == key);
    }
}

/// Some reports name a document exactly if one of them holds its key.
proof fn lemma_is_reported(reports: Seq<Vec<String>>, document: Document)
    requires
        document.key is Some,
    ensures
        is_reported(reports, document) <==> update::is_reported(
            reports_view(reports),
            document@.key->0,
        ),
{
    let held = reports_view(reports);
    if is_reported(reports, document) {
        let r = choose|r: int|
            0 <= r < reports.len() && names_document((#[trigger] reports[r])@, document);
        lemma_names_document(reports[r], document);
        assert(held[r].contains(document@.key->0));
    }
    if update::is_reported(held, document@.key->0) {
        let r = choose|r: int|
            0 <= r < held.len() && (#[trigger] held[r]).contains(document@.key->0);
        lemma_names_document(reports[r], document);
        assert(names_document(reports[r]@, document));
    }
}

/// Conditions that agree on documents and on what they hold pick the same documents.
proof fn lemma_filter_of_views(
    documents: Seq<Document>,
    p: spec_fn(Document) -> bool,
    q: spec_fn(DocumentView) -> bool,
)
    requires
        forall|d: int| 0 <= d < documents.len() ==> p(#[trigger] documents[d]) == q(documents[d]@),
    ensures
        update::documents_view(documents).filter(q) == update::documents_view(
            documents.filter(p),
        ),
    decreases documents.len(),
{
    reveal(Seq::filter);
    let views = update::documents_view(documents);
    if documents.len() == 0 {
        assert(views.filter(q) =~= update::documents_view(documents.filter(p)));
    } else {
        let rest = documents.drop_last();
        assert forall|d: int| 0 <= d < rest.len() implies p(#[trigger] rest[d]) == q(rest[d]@) by {
            assert(rest[d] == documents[d]);
        }
        lemma_filter_of_views(rest, p, q);
        assert(views.drop_last() =~= update::documents_view(rest));
        assert(documents[documents.len() - 1] == documents.last());
        assert(update::documents_view(rest.filter(p).push(documents.last()))
            =~= update::documents_view(rest.filter(p)).push(documents.last()@));
    }
}

/// The run and the command after so many reports.
proof fn lemma_states<'a>(
    documents: &'a [Document],
    calls: Seq<(&mut UpdateRun<'a>, &mut AqlBuilder)>,
    runs: Seq<UpdateRun<'a>>,
    commands: Seq<AqlBuilder>,
    reports: Seq<Vec<String>>,
    answers: Seq<bool>,
    n: int,
)
    requires
        calls.len() == reports.len(),
        runs.len() == commands.len() == reports.len() + 1,
        answers.len() == reports.len(),
        runs[0]@ == UpdateRunView::started(update::documents_view(documents@)),
        commands[0].kind is List,
        0 <= n <= reports.len(),
        forall|r: int|
            0 <= r < reports.len() ==> #[trigger] call_ensures(
                UpdateRun::<'a>::on_results,
                (calls[r].0, &reports[r], calls[r].1),
                answers[r],
            ) && *calls[r].0 == runs[r] && *final(calls[r].0) == runs[r + 1] && *calls[r].1
                == commands[r] && *final(calls[r].1) == commands[r + 1],
    ensures
        runs[n]@ == UpdateRunView::started(update::documents_view(documents@)).after_all(
            reports_view(reports.take(n)),
        ),
        commands[n].kind is List,
        commands[n].kind@->List_variable == commands[0].kind@->List_variable,
        commands[n] == (AqlBuilder { kind: commands[n].kind, ..commands[0] }),
        n > 0 ==> answers[n - 1] == runs[n]@.is_done(),
        n > 0 && answers[n - 1] ==> commands[n] == commands[n - 1],
        n > 0 && !answers[n - 1] ==> commands[n].kind@->List_items == runs[n]@.unsent(),
    decreases n,
{
    if n == 0 {
        assert(reports_view(reports.take(0)) =~= seq![]);
    } else {
        lemma_states(documents, calls, runs, commands, reports, answers, n - 1);
        let r = n - 1;
        assert(call_ensures(
            UpdateRun::<'a>::on_results,
            (calls[r].0, &reports[r], calls[r].1),
            answers[r],
        ));
        let held = reports_view(reports.take(n));
        assert(held.drop_last() =~= reports_view(reports.take(r)));
        assert(held.last() == text::texts(reports[r]@));
    }
}

/// From its start on, an update that has got some reports is done exactly if every
/// document was named in one of them. If it is not done, the command's list holds the
/// documents that were not named, in the order of the list, and the rest of the
/// command is as it was; if it is done, the command is as it was.
pub proof fn law_update_goes_on_until_all_are_reported<'a>(
    documents: &'a [Document],
    calls: Seq<(&mut UpdateRun<'a>, &mut AqlBuilder)>,
    runs: Seq<UpdateRun<'a>>,
    commands: Seq<AqlBuilder>,
    reports: Seq<Vec<String>>,
    answers: Seq<bool>,
)
    requires
        forall|d: int| 0 <= d < documents@.len() ==> (#[trigger] documents@[d]).key is Some,
        calls.len() == reports.len(),
        runs.len() == commands.len() == reports.len() + 1,
        answers.len() == reports.len() > 0,
        call_ensures(UpdateRun::<'a>::new, (documents,), runs[0]),
        commands[0].kind is List,
        forall|r: int|
            0 <= r < reports.len() ==> #[trigger] call_ensures(
                UpdateRun::<'a>::on_results,
                (calls[r].0, &reports[r], calls[r].1),
                answers[r],
            ) && *calls[r].0 == runs[r] && *final(calls[r].0) == runs[r + 1] && *calls[r].1
                == commands[r] && *final(calls[r].1) == commands[r + 1],
    ensures
        answers.last() <==> forall|d: int|
            0 <= d < documents@.len() ==> is_reported(reports, #[trigger] documents@[d]),
        commands.last() == (AqlBuilder { kind: commands.last().kind, ..commands[0] }),
        answers.last() ==> commands.last() == commands[commands.len() - 2],
        !answers.last() ==> ({
            let left = documents@.filter(|document: Document| !is_reported(reports, document));
            commands.last().kind matches AqlKind::List { variable, items } && variable@
                == commands[0].kind->List_variable@ && items@.len() == left.len() && forall|i: int|
                0 <= i < left.len() ==> (#[trigger] items@[i])@ == left[i].json@
        }),
{
    let n = reports.len() as int;
    let views = update::documents_view(documents@);
    let held = reports_view(reports);
    assert(update::all_keyed(views)) by {
        assert forall|d: int| 0 <= d < views.len() implies (#[trigger] views[d]).key is Some by {
            assert(documents@[d].key is Some);
        }
    }
    lemma_states(documents, calls, runs, commands, reports, answers, n);
    assert(reports.take(n) =~= reports);
    update::law_done_when_all_reported(views, held);
    assert forall|d: int| 0 <= d < documents@.len() implies (is_reported(
        reports,
        #[trigger] documents@[d],
    ) <==> update::is_reported(held, views[d].key->0)) by {
        lemma_is_reported(reports, documents@[d]);
    }
    if answers.last() {
        assert forall|d: int| 0 <= d < documents@.len() implies is_reported(
            reports,
            #[trigger] documents@[d],
        ) by {
            let _ = views[d];
        }
    } else {
        if forall|d: int|
            0 <= d < documents@.len() ==> is_reported(reports, #[trigger] documents@[d]) {
            assert forall|d: int| 0 <= d < views.len() implies exists|i: int|
                0 <= i < held.len() && (#[trigger] held[i]).contains(
                    (#[trigger] views[d]).key->0,
                ) by {
                let _ = documents@[d];
            }
        }
        update::law_unsent_are_the_unreported(views, held);
        let left_views = |document: DocumentView| !update::is_reported(held, document.key->0);
        let left = |document: Document| !is_reported(reports, document);
        lemma_filter_of_views(documents@, left, left_views);
        if let AqlKind::List { variable, items } = commands.last().kind {
            let picked = documents@.filter(left);
            let texts = update::json_texts(update::documents_view(picked));
            assert(text::texts(items@) == texts);
            assert(text::texts(items@).len() == items@.len());
            assert forall|i: int| 0 <= i < picked.len() implies (#[trigger] items@[i])@
                == picked[i].json@ by {
                assert(text::texts(items@)[i] == texts[i]);
            }
        }
    }
}

/// The run of an update that a collection starts is that of its list.
pub proof fn law_collection_starts_the_update<'a>(
    documents: DBCollection,
    list: &'a [Document],
    started: (UpdateRun<'a>, AqlBuilder),
    run: UpdateRun<'a>,
)
    requires
        forall|i: int| 0 <= i < list@.len() ==> (#[trigger] list@[i]).key is Some,
        call_ensures(DBCollection::update_list_with_retries, (&documents, list), started),
        call_ensures(UpdateRun::<'a>::new, (list,), run),
    ensures
        started.0@ == run@,
        started.1.kind is List,
{
}

/// Every list of documents with keys can be updated, and every report can be taken.
pub proof fn law_every_report_can_be_taken<'a>(documents: &'a [Document], keys: &Vec<String>)
    ensures
        (forall|d: int| 0 <= d < documents@.len() ==> (#[trigger] documents@[d]).key is Some)
            ==> call_requires(UpdateRun::<'a>::new, (documents,)),
        forall|run: &mut UpdateRun<'a>, aql: &mut AqlBuilder|
            (*aql).kind is List ==> #[trigger] call_requires(
                UpdateRun::<'a>::on_results,
                (run, keys, aql),
            ),
{
    let views = update::documents_view(documents@);
    if forall|d: int| 0 <= d < documents@.len() ==> (#[trigger] documents@[d]).key is Some {
        assert forall|d: int| 0 <= d < views.len() implies (#[trigger] views[d]).key is Some by {
            let _ = documents@[d];
        }
    }
}

} // verus!
