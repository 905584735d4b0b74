//! The queries of a collection and what their results mean.
use crate::aql;
use crate::aql::AqlBuilder;
use crate::aql::AqlInsert;
use crate::aql::AqlLet;
use crate::aql::AqlLetKind;
use crate::aql::AqlLimit;
use crate::aql::AqlReturn;
use crate::aql::AqlStepView;
use crate::aql::AqlUpdate;
use crate::aql::AqlView;
use crate::aql::AQL_DOCUMENT_ID;
use crate::aql::AQL_NEW_ID;
use crate::json;
use crate::text;
use crate::update;
use crate::update::Document;
use crate::update::UpdateRun;
use crate::update::UpdateRunView;
use vstd::prelude::*;

verus! {

/// The fields that every document has.
pub enum DBDocumentField {
    /// The key that tells a document from the others of its collection.
    Key,
}

impl DBDocumentField {
    /// The name of the property that holds the field.
    pub open spec fn spec_path(self) -> Seq<char> {
        match self {
            DBDocumentField::Key => "_key"@,
        }
    }

    /// The name of the property that holds the field.
    pub fn path(&self) -> (path: &'static str)
        ensures
            path@ == self.spec_path(),
    {
        match self {
            DBDocumentField::Key => "_key",
        }
    }
}

/// The names of the properties to return, where not the whole document is.
pub open spec fn fields_view(return_fields: Option<&Vec<String>>) -> Option<Seq<Seq<char>>> {
    match return_fields {
        Some(names) => Some(text::texts(names@)),
        None => None,
    }
}

/// A command that ends by returning some properties of a variable's document or,
/// where none are named, as `whole` says.
pub open spec fn returning(
    aql: AqlView,
    variable: Seq<char>,
    fields: Option<Seq<Seq<char>>>,
    whole: AqlStepView,
) -> AqlView {
    match fields {
        Some(names) => aql.then_step(AqlStepView::ReturnFields { variable, names }),
        None => aql.then_step(whole),
    }
}

/// Every document of a collection.
pub open spec fn all_query(name: Seq<char>, fields: Option<Seq<Seq<char>>>) -> AqlView {
    returning(
        AqlView::for_in_collection(AQL_DOCUMENT_ID@, name),
        AQL_DOCUMENT_ID@,
        fields,
        AqlStepView::ReturnDocument,
    )
}

/// The documents of a collection, `limit` of them at most, one of whose
/// properties equals a value, given as JSON text.
pub open spec fn many_by_query(
    name: Seq<char>,
    property_path: Seq<char>,
    value: Seq<char>,
    limit: Option<u64>,
    fields: Option<Seq<Seq<char>>>,
) -> AqlView {
    let filtered = AqlView::for_in_collection(AQL_DOCUMENT_ID@, name).then_step(
        AqlStepView::Filter {
            expression: AQL_DOCUMENT_ID@ + "."@ + property_path + " == "@ + value,
        },
    );
    let limited = match limit {
        Some(count) => filtered.then_step(AqlStepView::Limit { offset: None, count }),
        None => filtered,
    };
    returning(limited, AQL_DOCUMENT_ID@, fields, AqlStepView::ReturnDocument)
}

/// The document of a collection that has a key.
pub open spec fn one_by_key_query(
    name: Seq<char>,
    key: Seq<char>,
    fields: Option<Seq<Seq<char>>>,
) -> AqlView {
    many_by_query(name, DBDocumentField::Key.spec_path(), json::json_string(key), Some(1), fields)
}

/// For each key in turn, the document of the collection that has it, held in the
/// variable `o`.
pub open spec fn lookup_query(name: Seq<char>, keys: Seq<Seq<char>>) -> AqlView {
    AqlView::for_in_list(
        AQL_DOCUMENT_ID@,
        keys.map_values(|key: Seq<char>| json::json_string(key)),
    ).then_step(
        AqlStepView::Let {
            variable: "o"@,
            expression: "DOCUMENT("@ + name + ", "@ + AQL_DOCUMENT_ID@ + ")"@,
        },
    )
}

/// For each key in turn, the document that has it, or null.
pub open spec fn many_by_key_query(
    name: Seq<char>,
    keys: Seq<Seq<char>>,
    fields: Option<Seq<Seq<char>>>,
) -> AqlView {
    returning(
        lookup_query(name, keys),
        "o"@,
        fields,
        AqlStepView::ReturnExpression { expression: "o"@ },
    )
}

/// For each key in turn that a document has, that document.
pub open spec fn many_by_key_flattened_query(
    name: Seq<char>,
    keys: Seq<Seq<char>>,
    fields: Option<Seq<Seq<char>>>,
) -> AqlView {
    returning(
        lookup_query(name, keys).then_step(AqlStepView::Filter { expression: "o"@ + " != null"@ }),
        "o"@,
        fields,
        AqlStepView::ReturnExpression { expression: "o"@ },
    )
}

/// Updates each of some documents, passes over those that cannot be updated, and
/// returns the keys of those that were.
pub open spec fn update_list_query(name: Seq<char>, documents: Seq<Seq<char>>) -> AqlView {
    AqlView::for_in_list(AQL_DOCUMENT_ID@, documents).then_step(
        AqlStepView::Update {
            collection: name,
            expression: AQL_DOCUMENT_ID@,
            ignore_errors: true,
        },
    ).then_step(
        AqlStepView::ReturnExpression {
            expression: AQL_NEW_ID@ + "."@ + DBDocumentField::Key.spec_path(),
        },
    )
}

/// Inserts each of some documents.
pub open spec fn insert_many_query(name: Seq<char>, documents: Seq<Seq<char>>) -> AqlView {
    AqlView::for_in_list(AQL_DOCUMENT_ID@, documents).then_step(
        AqlStepView::Insert { collection: name },
    )
}

/// Ends a command by returning some properties of a variable's document, or as
/// `whole` says.
fn add_return(
    aql: &mut AqlBuilder,
    variable: &str,
    return_fields: Option<&Vec<String>>,
    whole: AqlReturn,
)
    ensures
        final(aql)@ == returning(
            old(aql)@,
            variable@,
            fields_view(return_fields),
            aql::AqlStep::Return(whole)@,
        ),
{
    if let Some(names) = return_fields {
        aql.return_step_with_fields(variable, names);
    } else {
        aql.return_step(whole);
    }
}

/// Starts a command that looks up the document of each key.
fn lookup(name: &str, keys: &Vec<String>) -> (aql: AqlBuilder)
    ensures
        aql@ == lookup_query(name@, text::texts(keys@)),
{
    let mut items: Vec<String> = Vec::new();
    let mut i: usize = 0;
    while i < keys.len()
        invariant
            i <= keys.len(),
            items.len() == i,
            forall|j: int| 0 <= j < i ==> items@[j]@ == json::json_string(keys@[j]@),
        decreases keys.len() - i,
    {
        items.push(json::key_json(keys[i].as_str()));
        i += 1;
    }
    proof {
        assert(text::texts(items@) =~= text::texts(keys@).map_values(
            |key: Seq<char>| json::json_string(key),
        ));
    }
    let mut aql = AqlBuilder::new_for_in_list(AQL_DOCUMENT_ID, items);
    let mut expression = String::new();
    expression.append("DOCUMENT(");
    expression.append(name);
    expression.append(", ");
    expression.append(AQL_DOCUMENT_ID);
    expression.append(")");
    assert(expression@ =~= "DOCUMENT("@ + name@ + ", "@ + AQL_DOCUMENT_ID@ + ")"@);
    aql.let_step(
        AqlLet { variable: "o".to_owned(), expression: AqlLetKind::Expression(expression) },
    );
    aql
}

/// A collection of documents, known by its name, and the queries on it.
///
/// Keys are strings. Other values, and documents, come as JSON text. The
/// properties to return come by their names; values nested in them cannot be
/// picked out.
#[derive(Debug, Clone, Copy)]
pub struct DBCollection {
    name: &'static str,
}

impl View for DBCollection {
    type V = Seq<char>;

    /// The collection's name.
    closed spec fn view(&self) -> Seq<char> {
        self.name@
    }
}

impl DBCollection {
    /// The collection of a name.
    pub fn new(name: &'static str) -> (collection: DBCollection)
        ensures
            collection@ == name@,
    {
        DBCollection { name }
    }

    /// Gets the collection name.
    pub fn name(&self) -> (name: &'static str)
        ensures
            name@ == self@,
    {
        self.name
    }

    /// The query that tells whether a document exists, by its key.
    pub fn exists_by_key(&self, key: &str) -> (aql: AqlBuilder)
        ensures
            aql@ == one_by_key_query(self@, key@, None),
    {
        self.get_one_by_key(key, None)
    }

    /// The query that tells whether a document exists, by a single custom
    /// property.
    pub fn exists_by(&self, property_path: &str, value: &str) -> (aql: AqlBuilder)
        ensures
            aql@ == many_by_query(self@, property_path@, value@, Some(1), None),
    {
        self.get_one_by(property_path, value, None)
    }

    /// The query for all documents of the collection. Useful for cache.
    pub fn get_all(&self, return_fields: Option<&Vec<String>>) -> (aql: AqlBuilder)
        ensures
            aql@ == all_query(self@, fields_view(return_fields)),
    {
        let mut aql = AqlBuilder::new_for_in_collection(AQL_DOCUMENT_ID, self.name);
        add_return(&mut aql, AQL_DOCUMENT_ID, return_fields, AqlReturn::new_document());
        aql
    }

    /// The query for a document by its key.
    pub fn get_one_by_key(
        &self,
        key: &str,
        return_fields: Option<&Vec<String>>,
    ) -> (aql: AqlBuilder)
        ensures
            aql@ == one_by_key_query(self@, key@, fields_view(return_fields)),
    {
        let value = json::key_json(key);
        self.get_one_by(DBDocumentField::Key.path(), value.as_str(), return_fields)
    }

    /// The query for a list of documents by their keys.
    pub fn get_many_by_key(
        &self,
        keys: &Vec<String>,
        return_fields: Option<&Vec<String>>,
    ) -> (aql: AqlBuilder)
        ensures
            aql@ == many_by_key_query(
                self@,
                text::texts(keys@),
                fields_view(return_fields),
            ),
    {
        let mut aql = lookup(self.name, keys);
        add_return(&mut aql, "o", return_fields, AqlReturn::new_expression("o".to_owned()));
        aql
    }

    /// The query for a list of documents by their keys filtering those that cannot
    /// be found.
    pub fn get_many_by_key_flattened(
        &self,
        keys: &Vec<String>,
        return_fields: Option<&Vec<String>>,
    ) -> (aql: AqlBuilder)
        ensures
            aql@ == many_by_key_flattened_query(
                self@,
                text::texts(keys@),
                fields_view(return_fields),
            ),
    {
        let mut aql = lookup(self.name, keys);
        aql.filter_step("o".to_owned().concat(" != null"));
        add_return(&mut aql, "o", return_fields, AqlReturn::new_expression("o".to_owned()));
        aql
    }

    /// The query for a document by a single custom property.
    pub fn get_one_by(
        &self,
        property_path: &str,
        value: &str,
        return_fields: Option<&Vec<String>>,
    ) -> (aql: AqlBuilder)
        ensures
            aql@ == many_by_query(
                self@,
                property_path@,
                value@,
                Some(1),
                fields_view(return_fields),
            ),
    {
        self.get_many_by(property_path, value, Some(1), return_fields)
    }

    /// The query for many documents by a single custom property.
    pub fn get_many_by(
        &self,
        property_path: &str,
        value: &str,
        limit: Option<u64>,
        return_fields: Option<&Vec<String>>,
    ) -> (aql: AqlBuilder)
        ensures
            aql@ == many_by_query(
                self@,
                property_path@,
                value@,
                limit,
                fields_view(return_fields),
            ),
    {
        let mut aql = AqlBuilder::new_for_in_collection(AQL_DOCUMENT_ID, self.name);
        let mut expression = String::new();
        expression.append(AQL_DOCUMENT_ID);
        expression.append(".");
        expression.append(property_path);
        expression.append(" == ");
        expression.append(value);
        assert(expression@ =~= AQL_DOCUMENT_ID@ + "."@ + property_path@ + " == "@ + value@);
        aql.filter_step(expression);
        if let Some(count) = limit {
            aql.limit_step(AqlLimit { offset: None, count });
        }
        add_return(&mut aql, AQL_DOCUMENT_ID, return_fields, AqlReturn::new_document());
        aql
    }

    /// The command that updates a list with retries, and the run that looks at the
    /// keys it returns. Every document must have a key.
    pub fn update_list_with_retries<'a>(&self, documents: &'a [Document]) -> (started: (
        UpdateRun<'a>,
        AqlBuilder,
    ))
        requires
            update::all_keyed(update::documents_view(documents@)),
        ensures
            started.0@ == UpdateRunView::started(update::documents_view(documents@)),
            started.1@ == update_list_query(
                self@,
                update::json_texts(update::documents_view(documents@)),
            ),
    {
        let mut aql = AqlBuilder::new_for_in_list(AQL_DOCUMENT_ID, update::copy_json(documents));
        aql.update_step(
            AqlUpdate::new_document(
                self.name,
                AQL_DOCUMENT_ID.to_owned(),
            ).apply_ignore_errors(true),
        );
        let expression = AQL_NEW_ID.to_owned().concat(".").concat(DBDocumentField::Key.path());
        aql.return_step(AqlReturn::new_expression(expression));
        (UpdateRun::new(documents), aql)
    }

    /// The command that inserts many documents.
    pub fn insert_many(&self, documents: &[Document]) -> (aql: AqlBuilder)
        ensures
            aql@ == insert_many_query(
                self@,
                update::json_texts(update::documents_view(documents@)),
            ),
    {
        let mut aql = AqlBuilder::new_for_in_list(AQL_DOCUMENT_ID, update::copy_json(documents));
        aql.insert_step(AqlInsert::new_document(self.name));
        aql
    }
}

/// The document that a query for one document found: the last of its results.
pub fn take_one<D>(results: Vec<D>) -> (one: Option<D>)
    ensures
        one == (if results@.len() == 0 {
            None
        } else {
            Some(results@.last())
        }),
{
    let mut results = results;
    results.pop()
}

/// Whether a query for one document found it.
pub fn is_found<D>(results: Vec<D>) -> (found: bool)
    ensures
        found == (results@.len() > 0),
{
    take_one(results).is_some()
}

/// The list that leaves out what cannot be found is asked for like the list that
/// does not, with a filter between the lookup and the return.
pub proof fn law_flattened_filters_missing(
    name: Seq<char>,
    keys: Seq<Seq<char>>,
    fields: Option<Seq<Seq<char>>>,
)
    ensures
        ({
            let plain = many_by_key_query(name, keys, fields);
            let flattened = many_by_key_flattened_query(name, keys, fields);
            let filter = AqlStepView::Filter { expression: "o"@ + " != null"@ };
            flattened == AqlView { steps: plain.steps.insert(1, filter), ..plain }
        }),
{
    let plain = many_by_key_query(name, keys, fields);
    let flattened = many_by_key_flattened_query(name, keys, fields);
    let filter = AqlStepView::Filter { expression: "o"@ + " != null"@ };
    assert(plain.steps.len() == 2);
    assert(flattened.steps =~= plain.steps.insert(1, filter));
}

/// What stands before and after the value in the text of a query by one property.
proof fn lemma_many_by_query_text(
    name: Seq<char>,
    property_path: Seq<char>,
    value: Seq<char>,
    limit: Option<u64>,
    fields: Option<Seq<Seq<char>>>,
)
    ensures
        many_by_query(name, property_path, value, limit, fields).query() == many_by_head(
            name,
            property_path,
        ) + value + many_by_tail(limit, fields),
{
    let aql = many_by_query(name, property_path, value, limit, fields);
    let steps = aql.steps;
    let filter = steps[0];
    reveal_with_fuel(aql::steps_text, 4);
    if limit is Some {
        assert(steps.drop_last().drop_last() =~= seq![filter]);
        assert(steps.drop_last().last() == steps[1]);
    } else {
        assert(steps.drop_last() =~= seq![filter]);
    }
    assert(seq![filter].drop_last() =~= Seq::<AqlStepView>::empty());
    assert(aql.query() =~= many_by_head(name, property_path) + value + many_by_tail(limit, fields));
}

/// The text before the value of a query by one property.
spec fn many_by_head(name: Seq<char>, property_path: Seq<char>) -> Seq<char> {
    "FOR "@ + AQL_DOCUMENT_ID@ + " IN "@ + name + " "@ + "FILTER "@ + AQL_DOCUMENT_ID@ + "."@
        + property_path + " == "@
}

/// The text after the value of a query by one property.
spec fn many_by_tail(limit: Option<u64>, fields: Option<Seq<Seq<char>>>) -> Seq<char> {
    (match limit {
        Some(count) => " "@ + "LIMIT "@ + text::decimal(count as nat),
        None => seq![],
    }) + " "@ + aql::step_text(
        match fields {
            Some(names) => AqlStepView::ReturnFields { variable: AQL_DOCUMENT_ID@, names },
            None => AqlStepView::ReturnDocument,
        },
    )
}

/// Different keys are asked for by different query texts.
pub proof fn law_query_by_key_tells_keys_apart(
    name: Seq<char>,
    key: Seq<char>,
    other: Seq<char>,
    fields: Option<Seq<Seq<char>>>,
)
    ensures
        one_by_key_query(name, key, fields).query() == one_by_key_query(
            name,
            other,
            fields,
        ).query() ==> key == other,
{
    let path = DBDocumentField::Key.spec_path();
    let (a, b) = (json::json_string(key), json::json_string(other));
    lemma_many_by_query_text(name, path, a, Some(1), fields);
    lemma_many_by_query_text(name, path, b, Some(1), fields);
    let (head, tail) = (many_by_head(name, path), many_by_tail(Some(1), fields));
    if head + a + tail == head + b + tail {
        let n = (head + a + tail).len() - tail.len();
        assert(a =~= (head + a + tail).subrange(head.len() as int, n));
        assert(b =~= (head + b + tail).subrange(head.len() as int, n));
        json::lemma_json_string_injective(key, other);
    }
}

} // verus!
