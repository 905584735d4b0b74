//! Updating a list of documents until the server has taken every one.
use crate::aql::AqlBuilder;
use crate::text;
use vstd::hash_set::StringHashSet;
use vstd::prelude::*;

verus! {

/// A document on its way to the server.
pub struct Document {
    /// The document's key, where it has one.
    pub key: Option<String>,
    /// The JSON text of the document.
    pub json: String,
}

/// What a [`Document`] holds.
pub struct DocumentView {
    pub key: Option<Seq<char>>,
    pub json: Seq<char>,
}

impl View for Document {
    type V = DocumentView;

    open spec fn view(&self) -> DocumentView {
        DocumentView {
            key: match self.key {
                Some(key) => Some(key@),
                None => None,
            },
            json: self.json@,
        }
    }
}

/// What a list of documents holds.
pub open spec fn documents_view(documents: Seq<Document>) -> Seq<DocumentView> {
    documents.map_values(|document: Document| document@)
}

/// The JSON texts of some documents.
pub open spec fn json_texts(documents: Seq<DocumentView>) -> Seq<Seq<char>> {
    documents.map_values(|document: DocumentView| document.json)
}

/// Whether every document has a key.
pub open spec fn all_keyed(documents: Seq<DocumentView>) -> bool {
    forall|i: int| 0 <= i < documents.len() ==> (#[trigger] documents[i]).key is Some
}

/// Whether some document has a key.
pub open spec fn has_key(documents: Seq<DocumentView>, key: Seq<char>) -> bool {
    exists|i: int| 0 <= i < documents.len() && (#[trigger] documents[i]).key == Some(key)
}

/// The keys of some documents.
pub open spec fn keys_of(documents: Seq<DocumentView>) -> Set<Seq<char>> {
    Set::new(|key: Seq<char>| has_key(documents, key))
}

/// The JSON texts of the documents, in their order, whose keys are in a set.
pub open spec fn pending(documents: Seq<DocumentView>, keys: Set<Seq<char>>) -> Seq<Seq<char>> {
    json_texts(documents.filter(|document: DocumentView| keys.contains(document.key->0)))
}

/// An update of a list of documents that is under way.
pub struct UpdateRun<'a> {
    documents: &'a [Document],
    /// The keys of the documents that the server has not taken yet.
    active_keys: StringHashSet,
}

/// What an [`UpdateRun`] holds.
pub struct UpdateRunView {
    pub documents: Seq<DocumentView>,
    pub active_keys: Set<Seq<char>>,
}

impl<'a> View for UpdateRun<'a> {
    type V = UpdateRunView;

    closed spec fn view(&self) -> UpdateRunView {
        UpdateRunView {
            documents: documents_view(self.documents@),
            active_keys: self.active_keys@,
        }
    }
}

impl UpdateRunView {
    /// An update of which nothing was done yet.
    pub open spec fn started(documents: Seq<DocumentView>) -> UpdateRunView {
        UpdateRunView { documents, active_keys: keys_of(documents) }
    }

    /// The run after the server reported the keys of documents that it took.
    pub open spec fn after(self, reported: Seq<Seq<char>>) -> UpdateRunView {
        UpdateRunView { active_keys: self.active_keys.difference(reported.to_set()), ..self }
    }

    /// The run after a sequence of reports.
    pub open spec fn after_all(self, reports: Seq<Seq<Seq<char>>>) -> UpdateRunView
        decreases reports.len(),
    {
        if reports.len() == 0 {
            self
        } else {
            self.after_all(reports.drop_last()).after(reports.last())
        }
    }

    /// Whether every document was taken.
    pub open spec fn is_done(self) -> bool {
        self.active_keys.is_empty()
    }

    /// The JSON texts of the documents that have to be sent again.
    pub open spec fn unsent(self) -> Seq<Seq<char>> {
        pending(self.documents, self.active_keys)
    }
}

/// The JSON texts of some documents.
pub(crate) fn copy_json(documents: &[Document]) -> (items: Vec<String>)
    ensures
        text::texts(items@) == json_texts(documents_view(documents@)),
{
    let mut items: Vec<String> = Vec::new();
    let mut i: usize = 0;
    while i < documents.len()
        invariant
            i <= documents.len(),
            items.len() == i,
            forall|j: int| 0 <= j < i ==> items@[j]@ == documents@[j].json@,
        decreases documents.len() - i,
    {
        items.push(documents[i].json.clone());
        i += 1;
    }
    assert(text::texts(items@) =~= json_texts(documents_view(documents@)));
    items
}

impl<'a> UpdateRun<'a> {
    #[verifier::type_invariant]
    spec fn is_valid(self) -> bool {
        all_keyed(documents_view(self.documents@))
    }

    /// Starts an update.
    pub fn new(documents: &'a [Document]) -> (run: UpdateRun<'a>)
        requires
            all_keyed(documents_view(documents@)),
        ensures
            run@ == UpdateRunView::started(documents_view(documents@)),
    {
        let ghost all = documents_view(documents@);
        let mut active_keys = StringHashSet::new();
        let mut i: usize = 0;
        while i < documents.len()
            invariant
                i <= documents.len(),
                all == documents_view(documents@),
                all_keyed(all),
                forall|key: Seq<char>| #[trigger]
                    active_keys@.contains(key) <==> has_key(all.take(i as int), key),
            decreases documents.len() - i,
        {
            assert(all[i as int].key is Some);
            let key = documents[i].key.as_ref().unwrap().clone();
            let ghost before = active_keys@;
            active_keys.insert(key);
            proof {
                let shorter = all.take(i as int);
                let longer = all.take(i + 1);
                assert forall|k: Seq<char>| #[trigger]
                    active_keys@.contains(k) <==> has_key(longer, k) by {
                    if has_key(shorter, k) {
                        let j = choose|j: int|
                            0 <= j < shorter.len() && (#[trigger] shorter[j]).key == Some(k);
                        assert(longer[j] == shorter[j]);
                    }
                    if k == key@ {
                        assert(longer[i as int].key == Some(k));
                    }
                    if has_key(longer, k) && k != key@ {
                        let j = choose|j: int|
                            0 <= j < longer.len() && (#[trigger] longer[j]).key == Some(k);
                        assert(shorter[j] == longer[j]);
                    }
                    assert(before.contains(k) <==> has_key(shorter, k));
                }
            }
            i += 1;
        }
        assert(all.take(all.len() as int) =~= all);
        assert(active_keys@ =~= keys_of(all));
        UpdateRun { documents, active_keys }
    }

    /// Takes the keys of the documents that the server took. Returns whether every
    /// document was taken; if not, the command's list is cut down to those that
    /// were not.
    pub fn on_results(&mut self, keys: &Vec<String>, aql: &mut AqlBuilder) -> (done: bool)
        requires
            old(aql)@.kind is List,
        ensures
            final(self)@ == old(self)@.after(text::texts(keys@)),
            done == final(self)@.is_done(),
            final(aql)@ == (if done {
                old(aql)@
            } else {
                old(aql)@.with_items(final(self)@.unsent())
            }),
            done ==> *final(aql) == *old(aql),
            *final(aql) == (AqlBuilder { kind: final(aql).kind, ..*old(aql) }),
    {
        proof {
            use_type_invariant(&*self);
        }
        let ghost reported = text::texts(keys@);
        let ghost before = self.active_keys@;
        let mut active_keys = StringHashSet::new();
        std::mem::swap(&mut active_keys, &mut self.active_keys);
        let mut i: usize = 0;
        while i < keys.len()
            invariant
                i <= keys.len(),
                reported == text::texts(keys@),
                active_keys@ =~= before.difference(reported.take(i as int).to_set()),
            decreases keys.len() - i,
        {
            active_keys.remove(keys[i].as_str());
            proof {
                let shorter = reported.take(i as int);
                let longer = reported.take(i + 1);
                assert(longer =~= shorter.push(reported[i as int]));
                assert forall|k: Seq<char>|
                    longer.to_set().contains(k) <==> (shorter.to_set().contains(k) || k
                        == reported[i as int]) by {
                    if shorter.contains(k) {
                        let j = choose|j: int| 0 <= j < shorter.len() && shorter[j] == k;
                        assert(longer[j] == k);
                    }
                    assert(longer[i as int] == reported[i as int]);
                }
            }
            i += 1;
        }
        assert(reported.take(reported.len() as int) =~= reported);
        self.active_keys = active_keys;
        assert(self@ == old(self)@.after(reported));
        if self.active_keys.is_empty() {
            true
        } else {
            let items = self.unsent_json();
            aql.set_list(items);
            false
        }
    }

    /// The JSON texts of the documents whose keys are still active.
    fn unsent_json(&self) -> (items: Vec<String>)
        ensures
            text::texts(items@) == self@.unsent(),
    {
        proof {
            use_type_invariant(self);
        }
        let ghost all = self@.documents;
        let ghost keys = self.active_keys@;
        let ghost wanted = |document: DocumentView| keys.contains(document.key->0);
        let mut items: Vec<String> = Vec::new();
        let mut i: usize = 0;
        proof {
            reveal(Seq::filter);
            assert(all.take(0).filter(wanted) =~= seq![]);
        }
        assert(text::texts(items@) =~= json_texts(all.take(0).filter(wanted)));
        while i < self.documents.len()
            invariant
                i <= self.documents.len(),
                all == documents_view(self.documents@),
                all_keyed(all),
                keys == self.active_keys@,
                wanted == (|document: DocumentView| keys.contains(document.key->0)),
                text::texts(items@) == json_texts(all.take(i as int).filter(wanted)),
            decreases self.documents.len() - i,
        {
            let document = &self.documents[i];
            assert(all[i as int] == document@);
            assert(all[i as int].key is Some);
            let ghost earlier = items@;
            if self.active_keys.contains(document.key.as_ref().unwrap().as_str()) {
                items.push(document.json.clone());
                assert(text::texts(items@) =~= text::texts(earlier).push(document@.json));
            }
            proof {
                reveal(Seq::filter);
                let shorter = all.take(i as int);
                let longer = all.take(i + 1);
                assert(longer.drop_last() =~= shorter);
                assert(longer.last() == document@);
                assert(json_texts(shorter.filter(wanted).push(document@)) =~= json_texts(
                    shorter.filter(wanted),
                ).push(document@.json));
            }
            i += 1;
        }
        assert(all.take(all.len() as int) =~= all);
        items
    }
}

/// After any reports a key is active exactly if a document of the list has it and
/// no report named it.
pub proof fn law_active_keys_are_the_unreported(
    documents: Seq<DocumentView>,
    reports: Seq<Seq<Seq<char>>>,
    key: Seq<char>,
)
    ensures
        UpdateRunView::started(documents).after_all(reports).documents == documents,
        UpdateRunView::started(documents).after_all(reports).active_keys.contains(key) <==> (
        has_key(documents, key) && forall|i: int|
            0 <= i < reports.len() ==> !(#[trigger] reports[i]).contains(key)),
    decreases reports.len(),
{
    if reports.len() > 0 {
        let earlier = reports.drop_last();
        law_active_keys_are_the_unreported(documents, earlier, key);
        assert(reports[reports.len() - 1] == reports.last());
        assert forall|i: int| 0 <= i < earlier.len() implies earlier[i] == reports[i] by {}
        if forall|i: int| 0 <= i < earlier.len() ==> !(#[trigger] earlier[i]).contains(key) {
            assert forall|i: int| 0 <= i < reports.len() && !reports.last().contains(
                key,
            ) implies !(#[trigger] reports[i]).contains(key) by {
                if i < earlier.len() {
                    assert(!earlier[i].contains(key));
                }
            }
        } else {
            let j = choose|j: int| 0 <= j < earlier.len() && earlier[j].contains(key);
            assert(reports[j].contains(key));
        }
    }
}

/// An update ends exactly when each document's key has been reported.
pub proof fn law_done_when_all_reported(
    documents: Seq<DocumentView>,
    reports: Seq<Seq<Seq<char>>>,
)
    requires
        all_keyed(documents),
    ensures
        UpdateRunView::started(documents).after_all(reports).is_done() <==> forall|d: int|
            0 <= d < documents.len() ==> exists|i: int|
                0 <= i < reports.len() && (#[trigger] reports[i]).contains(
                    (#[trigger] documents[d]).key->0,
                ),
{
    let active = UpdateRunView::started(documents).after_all(reports).active_keys;
    if active.is_empty() {
        assert forall|d: int| 0 <= d < documents.len() implies exists|i: int|
            0 <= i < reports.len() && (#[trigger] reports[i]).contains(
                (#[trigger] documents[d]).key->0,
            ) by {
            let key = documents[d].key->0;
            assert(documents[d].key == Some(key));
            law_active_keys_are_the_unreported(documents, reports, key);
            assert(!active.contains(key));
        }
    }
    if forall|d: int|
        0 <= d < documents.len() ==> exists|i: int|
            0 <= i < reports.len() && (#[trigger] reports[i]).contains(
                (#[trigger] documents[d]).key->0,
            ) {
        assert forall|key: Seq<char>| !active.contains(key) by {
            law_active_keys_are_the_unreported(documents, reports, key);
            if has_key(documents, key) {
                let d = choose|d: int|
                    0 <= d < documents.len() && (#[trigger] documents[d]).key == Some(key);
                assert(documents[d].key->0 == key);
            }
        }
        assert(active =~= Set::empty());
    }
}

/// Whether some report names a key.
pub open spec fn is_reported(reports: Seq<Seq<Seq<char>>>, key: Seq<char>) -> bool {
    exists|i: int| 0 <= i < reports.len() && (#[trigger] reports[i]).contains(key)
}

/// Two conditions that agree on every element of a sequence pick the same
/// elements.
proof fn lemma_filter_agrees<A>(s: Seq<A>, p: spec_fn(A) -> bool, q: spec_fn(A) -> bool)
    requires
        forall|i: int| 0 <= i < s.len() ==> p(#[trigger] s[i]) == q(s[i]),
    ensures
        s.filter(p) == s.filter(q),
    decreases s.len(),
{
    reveal(Seq::filter);
    if s.len() > 0 {
        assert(s[s.len() - 1] == s.last());
        assert forall|i: int| 0 <= i < s.len() - 1 implies p(#[trigger] s.drop_last()[i]) == q(
            s.drop_last()[i],
        ) by {
            assert(s.drop_last()[i] == s[i]);
        }
        lemma_filter_agrees(s.drop_last(), p, q);
    }
}

/// A condition that holds of every element of a sequence picks them all.
proof fn lemma_filter_all<A>(s: Seq<A>, p: spec_fn(A) -> bool)
    requires
        forall|i: int| 0 <= i < s.len() ==> p(#[trigger] s[i]),
    ensures
        s.filter(p) == s,
    decreases s.len(),
{
    reveal(Seq::filter);
    if s.len() > 0 {
        assert(p(s[s.len() - 1]));
        assert forall|i: int| 0 <= i < s.len() - 1 implies p(#[trigger] s.drop_last()[i]) by {
            assert(s.drop_last()[i] == s[i]);
        }
        lemma_filter_all(s.drop_last(), p);
        assert(s =~= s.drop_last().push(s.last()));
    } else {
        assert(s.filter(p) =~= s);
    }
}

/// Before any report every document is yet to be taken: the first list that is sent
/// holds them all.
pub proof fn law_first_list_is_whole(documents: Seq<DocumentView>)
    requires
        all_keyed(documents),
    ensures
        UpdateRunView::started(documents).unsent() == json_texts(documents),
{
    let keys = keys_of(documents);
    let active = |document: DocumentView| keys.contains(document.key->0);
    assert forall|d: int| 0 <= d < documents.len() implies active(#[trigger] documents[d]) by {
        assert(documents[d].key == Some(documents[d].key->0));
    }
    lemma_filter_all(documents, active);
}

/// What is sent again after any reports are the documents, in the order of the
/// list, whose keys no report named.
pub proof fn law_unsent_are_the_unreported(
    documents: Seq<DocumentView>,
    reports: Seq<Seq<Seq<char>>>,
)
    requires
        all_keyed(documents),
    ensures
        UpdateRunView::started(documents).after_all(reports).unsent() == json_texts(
            documents.filter(
                |document: DocumentView| !is_reported(reports, document.key->0),
            ),
        ),
{
    let run = UpdateRunView::started(documents).after_all(reports);
    law_active_keys_only_shrink(UpdateRunView::started(documents), reports);
    let active = |document: DocumentView| run.active_keys.contains(document.key->0);
    let unreported = |document: DocumentView| !is_reported(reports, document.key->0);
    assert forall|d: int| 0 <= d < documents.len() implies active(#[trigger] documents[d])
        == unreported(documents[d]) by {
        let key = documents[d].key->0;
        assert(documents[d].key == Some(key));
        law_active_keys_are_the_unreported(documents, reports, key);
    }
    lemma_filter_agrees(documents, active, unreported);
}

/// A document that was taken is not sent again: whatever is reported later, no key
/// becomes active.
pub proof fn law_active_keys_only_shrink(run: UpdateRunView, reports: Seq<Seq<Seq<char>>>)
    ensures
        run.after_all(reports).active_keys.subset_of(run.active_keys),
        run.after_all(reports).documents == run.documents,
    decreases reports.len(),
{
    if reports.len() > 0 {
        law_active_keys_only_shrink(run, reports.drop_last());
    }
}

} // verus!
