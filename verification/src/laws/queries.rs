//! Laws of AQL commands, the queries of a collection and their texts.
use crate::aql;
use crate::aql::AqlBuilder;
use crate::aql::AqlInsert;
use crate::aql::AqlKind;
use crate::aql::AqlLet;
use crate::aql::AqlLetKind;
use crate::aql::AqlLimit;
use crate::aql::AqlReturn;
use crate::aql::AqlStep;
use crate::aql::AqlStepView;
use crate::aql::AqlUpdate;
use crate::aql::AqlView;
use crate::collection;
use crate::collection::DBCollection;
use crate::collection::DBDocumentField;
use crate::json;
use crate::text;
use crate::update;
use crate::update::Document;
use crate::update::UpdateRun;
use vstd::prelude::*;

verus! {

/// What the strings of a list hold, joined by commas.
pub open spec fn list_text(strings: Seq<String>) -> Seq<char> {
    text::joined(Seq::new(strings.len(), |i: int| strings[i]@))
}

/// An object that repeats properties of the document that a variable holds.
pub open spec fn object_text(variable: Seq<char>, names: Seq<String>) -> Seq<char> {
    "{"@ + text::joined(
        Seq::new(names.len(), |i: int| names[i]@ + ": "@ + variable + "."@ + names[i]@),
    ) + "}"@
}

/// The text of a command without steps is the head of its loop, whatever the settings.
pub proof fn law_text_of_a_bare_loop(aql: AqlBuilder, query: String)
    requires
        aql.steps@.len() == 0,
        call_ensures(AqlBuilder::build_query, (&aql,), query),
    ensures
        match aql.kind {
            AqlKind::Collection { variable, collection } => query@ == "FOR "@ + variable@ + " IN "@
                + collection@,
            AqlKind::List { variable, items } => query@ == "FOR "@ + variable@ + " IN ["@
                + list_text(items@) + "]"@,
        },
{
    assert(aql@.steps =~= seq![]);
    assert(query@ =~= aql::kind_text(aql.kind@));
    if let AqlKind::List { variable, items } = aql.kind {
        assert(text::texts(items@) =~= Seq::new(items@.len(), |i: int| items@[i]@));
    }
}

/// One more step lengthens the text of a command by a space and the step's clause,
/// whatever the settings.
pub proof fn law_text_of_one_more_step(
    shorter: AqlBuilder,
    longer: AqlBuilder,
    step: AqlStep,
    short_query: String,
    long_query: String,
)
    requires
        longer.kind == shorter.kind,
        longer.steps@ == shorter.steps@.push(step),
        call_ensures(AqlBuilder::build_query, (&shorter,), short_query),
        call_ensures(AqlBuilder::build_query, (&longer,), long_query),
    ensures
        match step {
            AqlStep::Let(AqlLet { variable, expression: AqlLetKind::Expression(expression) }) =>
            long_query@ == short_query@ + " LET "@ + variable@ + " = "@ + expression@,
            AqlStep::Filter(expression) => long_query@ == short_query@ + " FILTER "@ + expression@,
            AqlStep::Limit(AqlLimit { offset: None, count }) => long_query@ == short_query@
                + " LIMIT "@ + text::decimal(count as nat),
            AqlStep::Limit(AqlLimit { offset: Some(offset), count }) => long_query@ == short_query@
                + " LIMIT "@ + text::decimal(offset as nat) + ", "@ + text::decimal(count as nat),
            AqlStep::Update(AqlUpdate { collection, expression, ignore_errors: false }) =>
            long_query@ == short_query@ + " UPDATE i WITH "@ + expression@ + " IN "@ + collection@,
            AqlStep::Update(AqlUpdate { collection, expression, ignore_errors: true }) =>
            long_query@ == short_query@ + " UPDATE i WITH "@ + expression@ + " IN "@ + collection@
                + " OPTIONS { ignoreErrors: true }"@,
            AqlStep::Insert(AqlInsert { collection }) => long_query@ == short_query@
                + " INSERT i INTO "@ + collection@,
            AqlStep::Return(AqlReturn::Document) => long_query@ == short_query@ + " RETURN i"@,
            AqlStep::Return(AqlReturn::Expression(expression)) => long_query@ == short_query@
                + " RETURN "@ + expression@,
            AqlStep::Return(AqlReturn::Fields { variable, names }) => long_query@ == short_query@
                + " RETURN "@ + object_text(variable@, names@),
        },
{
    assert(longer@.steps =~= shorter@.steps.push(step@));
    lemma_one_more_step(shorter@, longer@, step@);
    let x = short_query@;
    let space = " "@;
    lemma_words();
    match step {
        AqlStep::Let(AqlLet { variable, expression: AqlLetKind::Expression(expression) }) => {
            lemma_regroup(x, space, "LET "@, variable@, " = "@, expression@);
        },
        AqlStep::Filter(expression) => {
            lemma_regroup_one(x, space, "FILTER "@, expression@);
        },
        AqlStep::Limit(AqlLimit { offset: None, count }) => {
            lemma_regroup_one(x, space, "LIMIT "@, text::decimal(count as nat));
        },
        AqlStep::Limit(AqlLimit { offset: Some(offset), count }) => {
            let (first, second) = (text::decimal(offset as nat), text::decimal(count as nat));
            lemma_regroup(x, space, "LIMIT "@, first, ", "@, second);
        },
        AqlStep::Update(AqlUpdate { collection, expression, ignore_errors }) => {
            let head = "UPDATE "@ + "i"@ + " WITH "@;
            let options = " OPTIONS { ignoreErrors: true }"@;
            let clause = head + expression@ + " IN "@ + collection@;
            lemma_regroup(x, space, head, expression@, " IN "@, collection@);
            if ignore_errors {
                assert(x + space + (clause + options) =~= x + space + clause + options);
            } else {
                assert(clause + Seq::<char>::empty() =~= clause);
            }
        },
        AqlStep::Insert(AqlInsert { collection }) => {
            lemma_regroup_one(x, space, "INSERT "@ + "i"@ + " INTO "@, collection@);
        },
        AqlStep::Return(AqlReturn::Document) => {
            assert(x + space + ("RETURN "@ + "i"@) =~= x + (space + ("RETURN "@ + "i"@)));
        },
        AqlStep::Return(AqlReturn::Expression(expression)) => {
            lemma_regroup_one(x, space, "RETURN "@, expression@);
        },
        AqlStep::Return(AqlReturn::Fields { variable, names }) => {
            lemma_object_text(x, variable@, names@);
        },
    }
}

/// The same in what the commands hold.
proof fn lemma_one_more_step(shorter: AqlView, longer: AqlView, step: AqlStepView)
    requires
        longer.kind == shorter.kind,
        longer.steps =~= shorter.steps.push(step),
    ensures
        longer.query() == shorter.query() + " "@ + aql::step_text(step),
{
    assert(longer.steps.drop_last() =~= shorter.steps);
    assert(longer.query() =~= shorter.query() + " "@ + aql::step_text(step));
}

/// The clause that returns some properties, behind a text.
proof fn lemma_object_text(x: Seq<char>, variable: Seq<char>, names: Seq<String>)
    ensures
        x + " "@ + aql::step_text(
            AqlStepView::ReturnFields { variable, names: text::texts(names) },
        ) == x + " RETURN "@ + object_text(variable, names),
{
    lemma_words();
    let parts = Seq::new(
        names.len(),
        |i: int| names[i]@ + ": "@ + variable + "."@ + names[i]@,
    );
    assert(aql::field_texts(variable, text::texts(names)) =~= parts);
    let (ret, open, joined, close) = ("RETURN "@, "{"@, text::joined(parts), "}"@);
    assert(x + " "@ + (ret + open + joined + close) =~= x + (" "@ + ret) + (open + joined + close));
}

/// Four texts behind a text and a space, with the first two put together.
proof fn lemma_regroup(
    x: Seq<char>,
    space: Seq<char>,
    word: Seq<char>,
    a: Seq<char>,
    b: Seq<char>,
    c: Seq<char>,
)
    ensures
        x + space + (word + a + b + c) == x + (space + word) + a + b + c,
{
    assert(x + space + (word + a + b + c) =~= x + (space + word) + a + b + c);
}

/// Two texts behind a text and a space, with the first two put together.
proof fn lemma_regroup_one(x: Seq<char>, space: Seq<char>, word: Seq<char>, a: Seq<char>)
    ensures
        x + space + (word + a) == x + (space + word) + a,
{
    assert(x + space + (word + a) =~= x + (space + word) + a);
}

/// The words of the query writer, put together.
proof fn lemma_words()
    ensures
        " LET "@ == " "@ + "LET "@,
        " FILTER "@ == " "@ + "FILTER "@,
        " LIMIT "@ == " "@ + "LIMIT "@,
        " UPDATE i WITH "@ == " "@ + ("UPDATE "@ + "i"@ + " WITH "@),
        " INSERT i INTO "@ == " "@ + ("INSERT "@ + "i"@ + " INTO "@),
        " RETURN i"@ == " "@ + ("RETURN "@ + "i"@),
        " RETURN "@ == " "@ + "RETURN "@,
        "RETURN {"@ == "RETURN "@ + "{"@,
{
    reveal_strlit(" LET ");
    reveal_strlit(" ");
    reveal_strlit("LET ");
    reveal_strlit(" FILTER ");
    reveal_strlit("FILTER ");
    reveal_strlit(" LIMIT ");
    reveal_strlit("LIMIT ");
    reveal_strlit(" UPDATE i WITH ");
    reveal_strlit("UPDATE ");
    reveal_strlit("i");
    reveal_strlit(" WITH ");
    reveal_strlit(" INSERT i INTO ");
    reveal_strlit("INSERT ");
    reveal_strlit(" INTO ");
    reveal_strlit(" RETURN i");
    reveal_strlit("RETURN ");
    reveal_strlit(" RETURN ");
    reveal_strlit("RETURN {");
    reveal_strlit("{");
}

/// Whether a command binds no variable and has every setting off.
pub open spec fn is_plain(aql: AqlBuilder) -> bool {
    &&& aql.vars@.len() == 0
    &&& aql.batch_size is None
    &&& !aql.full_count
    &&& !aql.handle_write_conflicts
}

/// A new loop over a collection has that variable and that collection, no steps, and
/// every setting off.
pub proof fn law_new_loop_over_a_collection(variable: &str, collection: &str, aql: AqlBuilder)
    requires
        call_ensures(AqlBuilder::new_for_in_collection, (variable, collection), aql),
    ensures
        aql.kind matches AqlKind::Collection { variable: v, collection: c } && v@ == variable@
            && c@ == collection@,
        aql.steps@.len() == 0,
        is_plain(aql),
{
    assert(aql@.steps.len() == aql.steps@.len());
    assert(aql@.vars.len() == aql.vars@.len());
}

/// A new loop over values has that variable and those values in their order, no steps,
/// and every setting off.
pub proof fn law_new_loop_over_values(variable: &str, items: Vec<String>, aql: AqlBuilder)
    requires
        call_ensures(AqlBuilder::new_for_in_list, (variable, items), aql),
    ensures
        aql.kind matches AqlKind::List { variable: v, items: list } && v@ == variable@
            && list@.len() == items@.len() && forall|i: int|
            0 <= i < items@.len() ==> (#[trigger] list@[i])@ == items@[i]@,
        aql.steps@.len() == 0,
        is_plain(aql),
{
    assert(aql@.steps.len() == aql.steps@.len());
    assert(aql@.vars.len() == aql.vars@.len());
    if let AqlKind::List { variable: v, items: list } = aql.kind {
        lemma_same_texts(list@, items@);
    }
}

/// Lists of strings that hold the same texts hold the same at each place.
proof fn lemma_same_texts(a: Seq<String>, b: Seq<String>)
    requires
        text::texts(a) == text::texts(b),
    ensures
        a.len() == b.len(),
        forall|i: int| 0 <= i < b.len() ==> (#[trigger] a[i])@ == b[i]@,
{
    assert(text::texts(a).len() == a.len());
    assert forall|i: int| 0 <= i < b.len() implies (#[trigger] a[i])@ == b[i]@ by {
        assert(text::texts(a)[i] == text::texts(b)[i]);
    }
}

/// Other values take the place of the old ones, and nothing else changes.
pub proof fn law_values_are_replaced(aql: &mut AqlBuilder, items: Vec<String>)
    requires
        old(aql).kind is List,
        call_ensures(AqlBuilder::set_list, (aql, items), ()),
    ensures
        final(aql).kind matches AqlKind::List { variable: v, items: list }
            && old(aql).kind->List_variable@ == v@ && list@.len() == items@.len() && forall|i: int|
            0 <= i < items@.len() ==> (#[trigger] list@[i])@ == items@[i]@,
        *final(aql) == (AqlBuilder { kind: final(aql).kind, ..*old(aql) }),
{
    if let AqlKind::List { variable: v, items: list } = final(aql).kind {
        lemma_same_texts(list@, items@);
    }
}

/// A `LET` step goes behind the others, and nothing else changes.
pub proof fn law_let_step_goes_last(aql: &mut AqlBuilder, step: AqlLet)
    requires
        call_ensures(AqlBuilder::let_step, (aql, step), ()),
    ensures
        final(aql).steps@ == old(aql).steps@.push(AqlStep::Let(step)),
        *final(aql) == (AqlBuilder { steps: final(aql).steps, ..*old(aql) }),
{
}

/// A `FILTER` step goes behind the others, and nothing else changes.
pub proof fn law_filter_step_goes_last(aql: &mut AqlBuilder, expression: String)
    requires
        call_ensures(AqlBuilder::filter_step, (aql, expression), ()),
    ensures
        final(aql).steps@ == old(aql).steps@.push(AqlStep::Filter(expression)),
        *final(aql) == (AqlBuilder { steps: final(aql).steps, ..*old(aql) }),
{
}

/// A `LIMIT` step goes behind the others, and nothing else changes.
pub proof fn law_limit_step_goes_last(aql: &mut AqlBuilder, step: AqlLimit)
    requires
        call_ensures(AqlBuilder::limit_step, (aql, step), ()),
    ensures
        final(aql).steps@ == old(aql).steps@.push(AqlStep::Limit(step)),
        *final(aql) == (AqlBuilder { steps: final(aql).steps, ..*old(aql) }),
{
}

/// An `UPDATE` step goes behind the others, and nothing else changes.
pub proof fn law_update_step_goes_last(aql: &mut AqlBuilder, step: AqlUpdate)
    requires
        call_ensures(AqlBuilder::update_step, (aql, step), ()),
    ensures
        final(aql).steps@ == old(aql).steps@.push(AqlStep::Update(step)),
        *final(aql) == (AqlBuilder { steps: final(aql).steps, ..*old(aql) }),
{
}

/// An `INSERT` step goes behind the others, and nothing else changes.
pub proof fn law_insert_step_goes_last(aql: &mut AqlBuilder, step: AqlInsert)
    requires
        call_ensures(AqlBuilder::insert_step, (aql, step), ()),
    ensures
        final(aql).steps@ == old(aql).steps@.push(AqlStep::Insert(step)),
        *final(aql) == (AqlBuilder { steps: final(aql).steps, ..*old(aql) }),
{
}

/// A `RETURN` step goes behind the others, and nothing else changes.
pub proof fn law_return_step_goes_last(aql: &mut AqlBuilder, step: AqlReturn)
    requires
        call_ensures(AqlBuilder::return_step, (aql, step), ()),
    ensures
        final(aql).steps@ == old(aql).steps@.push(AqlStep::Return(step)),
        *final(aql) == (AqlBuilder { steps: final(aql).steps, ..*old(aql) }),
{
}

/// A `RETURN` step of some properties goes behind the others, with the variable and
/// the names in their order, and nothing else changes.
pub proof fn law_return_step_with_fields_goes_last(
    aql: &mut AqlBuilder,
    variable: &str,
    names: &Vec<String>,
)
    requires
        call_ensures(AqlBuilder::return_step_with_fields, (aql, variable, names), ()),
    ensures
        final(aql).steps@.len() == old(aql).steps@.len() + 1,
        final(aql).steps@.drop_last() == old(aql).steps@,
        final(aql).steps@.last() matches AqlStep::Return(
            AqlReturn::Fields { variable: v, names: list },
        ) && v@ == variable@ && list@.len() == names@.len() && forall|i: int|
            0 <= i < names@.len() ==> (#[trigger] list@[i])@ == names@[i]@,
        *final(aql) == (AqlBuilder { steps: final(aql).steps, ..*old(aql) }),
{
    assert(final(aql)@.steps.len() == final(aql).steps@.len());
    assert(old(aql)@.steps.len() == old(aql).steps@.len());
    let last = final(aql).steps@.last();
    assert(final(aql)@.steps.last() == last@);
    if let AqlStep::Return(AqlReturn::Fields { variable: v, names: list }) = last {
        lemma_same_texts(list@, names@);
    }
}

/// An update stops at an error unless it is told to pass over it.
pub proof fn law_update_heeds_errors(
    collection: &str,
    expression: String,
    ignore_errors: bool,
    update: AqlUpdate,
    told: AqlUpdate,
)
    requires
        call_ensures(AqlUpdate::new_document, (collection, expression), update),
        call_ensures(AqlUpdate::apply_ignore_errors, (update, ignore_errors), told),
    ensures
        !update.ignore_errors,
        told.ignore_errors == ignore_errors,
        update.collection@ == collection@ && update.expression@ == expression@,
        told.collection@ == collection@ && told.expression@ == expression@,
{
}

/// A clause behind the text of a command.
proof fn lemma_then_step(aql: AqlView, step: AqlStepView)
    ensures
        aql.then_step(step).query() == aql.query() + " "@ + aql::step_text(step),
{
    lemma_one_more_step(aql, aql.then_step(step), step);
}

/// The head of a loop over a collection.
proof fn lemma_loop_over_collection(name: Seq<char>)
    ensures
        AqlView::for_in_collection("i"@, name).query() == "FOR i IN "@ + name,
{
    let aql = AqlView::for_in_collection("i"@, name);
    assert(aql.query() =~= "FOR "@ + "i"@ + " IN "@ + name);
    reveal_strlit("FOR ");
    reveal_strlit("i");
    reveal_strlit(" IN ");
    reveal_strlit("FOR i IN ");
    assert("FOR i IN "@ =~= "FOR "@ + "i"@ + " IN "@);
}

/// The head of a loop over values.
proof fn lemma_loop_over_values(items: Seq<Seq<char>>)
    ensures
        AqlView::for_in_list("i"@, items).query() == "FOR i IN ["@ + text::joined(items) + "]"@,
{
    let aql = AqlView::for_in_list("i"@, items);
    assert(aql.query() =~= "FOR "@ + "i"@ + " IN ["@ + text::joined(items) + "]"@);
    reveal_strlit("FOR ");
    reveal_strlit("i");
    reveal_strlit(" IN [");
    reveal_strlit("FOR i IN [");
    assert("FOR i IN ["@ =~= "FOR "@ + "i"@ + " IN ["@);
}

/// The clause that ends a query: an object of the named properties or, where none are
/// named, the whole document.
pub open spec fn return_text(
    variable: Seq<char>,
    return_fields: Option<&Vec<String>>,
) -> Seq<char> {
    match return_fields {
        Some(names) => " RETURN "@ + object_text(variable, names@),
        None => " RETURN "@ + variable,
    }
}

/// A returning command's text.
proof fn lemma_returning(
    aql: AqlView,
    variable: Seq<char>,
    return_fields: Option<&Vec<String>>,
    whole: AqlStepView,
)
    requires
        aql::step_text(whole) == "RETURN "@ + variable,
    ensures
        collection::returning(
            aql,
            variable,
            collection::fields_view(return_fields),
            whole,
        ).query() == aql.query() + return_text(variable, return_fields),
{
    let x = aql.query();
    lemma_words();
    match return_fields {
        Some(names) => {
            lemma_then_step(
                aql,
                AqlStepView::ReturnFields { variable, names: text::texts(names@) },
            );
            lemma_object_text(x, variable, names@);
            assert(x + " RETURN "@ + object_text(variable, names@) =~= x + (" RETURN "@
                + object_text(variable, names@)));
        },
        None => {
            lemma_then_step(aql, whole);
            assert(x + " "@ + ("RETURN "@ + variable) =~= x + ((" "@ + "RETURN "@) + variable));
        },
    }
}

/// The query for all documents runs over the collection and returns each.
pub proof fn law_text_of_get_all(
    name: &'static str,
    documents: DBCollection,
    return_fields: Option<&Vec<String>>,
    aql: AqlBuilder,
    query: String,
)
    requires
        call_ensures(DBCollection::new, (name,), documents),
        call_ensures(DBCollection::get_all, (&documents, return_fields), aql),
        call_ensures(AqlBuilder::build_query, (&aql,), query),
    ensures
        query@ == "FOR i IN "@ + name@ + return_text("i"@, return_fields),
        is_plain(aql),
{
    lemma_loop_over_collection(name@);
    lemma_returning(
        AqlView::for_in_collection("i"@, name@),
        "i"@,
        return_fields,
        AqlStepView::ReturnDocument,
    );
    assert(aql@.vars.len() == aql.vars@.len());
}

/// The `LIMIT` clause of a query, where it has one.
pub open spec fn limit_text(limit: Option<u64>) -> Seq<char> {
    match limit {
        Some(count) => " LIMIT "@ + text::decimal(count as nat),
        None => seq![],
    }
}

/// The text of a query by one property.
proof fn lemma_many_by(
    name: Seq<char>,
    property_path: Seq<char>,
    value: Seq<char>,
    limit: Option<u64>,
    return_fields: Option<&Vec<String>>,
)
    ensures
        collection::many_by_query(
            name,
            property_path,
            value,
            limit,
            collection::fields_view(return_fields),
        ).query() == "FOR i IN "@ + name + " FILTER i."@ + property_path + " == "@ + value
            + limit_text(limit) + return_text("i"@, return_fields),
{
    let start = AqlView::for_in_collection("i"@, name);
    let expression = "i"@ + "."@ + property_path + " == "@ + value;
    let filtered = start.then_step(AqlStepView::Filter { expression });
    lemma_loop_over_collection(name);
    lemma_then_step(start, AqlStepView::Filter { expression });
    let x = "FOR i IN "@ + name;
    assert(filtered.query() == x + " "@ + ("FILTER "@ + expression));
    assert(" FILTER i."@ == " "@ + "FILTER "@ + "i"@ + "."@) by {
        reveal_strlit(" FILTER i.");
        reveal_strlit(" ");
        reveal_strlit("FILTER ");
        reveal_strlit("i");
        reveal_strlit(".");
    }
    let (sp, fi, i, dot, eq) = (" "@, "FILTER "@, "i"@, "."@, " == "@);
    assert(x + sp + (fi + (i + dot + property_path + eq + value)) =~= x + (sp + fi + i + dot)
        + property_path + eq + value);
    let limited = match limit {
        Some(count) => filtered.then_step(AqlStepView::Limit { offset: None, count }),
        None => filtered,
    };
    if let Some(count) = limit {
        lemma_then_step(filtered, AqlStepView::Limit { offset: None, count });
        lemma_words();
        let digits = text::decimal(count as nat);
        let y = filtered.query();
        assert(y + sp + ("LIMIT "@ + digits) =~= y + ((sp + "LIMIT "@) + digits));
    } else {
        assert(filtered.query() + Seq::<char>::empty() =~= filtered.query());
    }
    assert(limited.query() == filtered.query() + limit_text(limit));
    lemma_returning(limited, "i"@, return_fields, AqlStepView::ReturnDocument);
}

/// The query for many documents by a property runs over the collection, compares the
/// property with the value, keeps as many as the limit says, where there is one, and
/// returns each.
pub proof fn law_text_of_get_many_by(
    name: &'static str,
    documents: DBCollection,
    property_path: &str,
    value: &str,
    limit: Option<u64>,
    return_fields: Option<&Vec<String>>,
    aql: AqlBuilder,
    query: String,
)
    requires
        call_ensures(DBCollection::new, (name,), documents),
        call_ensures(
            DBCollection::get_many_by,
            (&documents, property_path, value, limit, return_fields),
            aql,
        ),
        call_ensures(AqlBuilder::build_query, (&aql,), query),
    ensures
        query@ == "FOR i IN "@ + name@ + " FILTER i."@ + property_path@ + " == "@ + value@
            + limit_text(limit) + return_text("i"@, return_fields),
        is_plain(aql),
{
    lemma_many_by(name@, property_path@, value@, limit, return_fields);
    assert(aql@.vars.len() == aql.vars@.len());
}

/// A limited query by a property is the query without a limit and one `LIMIT` step
/// more, which stands between the filter and the return, whatever is returned, and has
/// that count and no offset.
pub proof fn law_limit_is_one_step_more(
    documents: DBCollection,
    property_path: &str,
    value: &str,
    count: u64,
    return_fields: Option<&Vec<String>>,
    unlimited: AqlBuilder,
    limited: AqlBuilder,
)
    requires
        call_ensures(
            DBCollection::get_many_by,
            (&documents, property_path, value, None, return_fields),
            unlimited,
        ),
        call_ensures(
            DBCollection::get_many_by,
            (&documents, property_path, value, Some(count), return_fields),
            limited,
        ),
    ensures
        limited@ == (AqlView {
            steps: unlimited@.steps.insert(1, AqlStepView::Limit { offset: None, count }),
            ..unlimited@
        }),
        limited.steps@.len() == 3 && unlimited.steps@.len() == 2,
        limited.steps@[0] is Filter && limited.steps@[2] is Return,
        limited.steps@[1] matches AqlStep::Limit(step) && step.count == count
            && step.offset is None,
        unlimited.steps@[0] is Filter && unlimited.steps@[1] is Return,
{
    let (l, u) = (limited@.steps, unlimited@.steps);
    assert(l.len() == limited.steps@.len());
    assert(u.len() == unlimited.steps@.len());
    assert(l =~= u.insert(1, AqlStepView::Limit { offset: None, count }));
    assert(l[0] == limited.steps@[0]@ && l[1] == limited.steps@[1]@ && l[2]
        == limited.steps@[2]@);
    assert(u[0] == unlimited.steps@[0]@ && u[1] == unlimited.steps@[1]@);
}

/// The text of a query for one document by a property: one document is kept at most.
proof fn lemma_one_by(
    name: Seq<char>,
    property_path: Seq<char>,
    value: Seq<char>,
    return_fields: Option<&Vec<String>>,
)
    ensures
        collection::many_by_query(
            name,
            property_path,
            value,
            Some(1),
            collection::fields_view(return_fields),
        ).query() == "FOR i IN "@ + name + " FILTER i."@ + property_path + " == "@ + value
            + " LIMIT 1"@ + return_text("i"@, return_fields),
{
    lemma_many_by(name, property_path, value, Some(1), return_fields);
    assert(" LIMIT 1"@ == limit_text(Some(1))) by {
        reveal_strlit(" LIMIT 1");
        reveal_strlit(" LIMIT ");
        assert(text::decimal(1) == seq!['1']);
        assert(" LIMIT 1"@ =~= " LIMIT "@ + seq!['1']);
    }
}

/// The query for one document by a property compares the property with the value and
/// keeps one document at most.
pub proof fn law_text_of_get_one_by(
    name: &'static str,
    documents: DBCollection,
    property_path: &str,
    value: &str,
    return_fields: Option<&Vec<String>>,
    aql: AqlBuilder,
    query: String,
)
    requires
        call_ensures(DBCollection::new, (name,), documents),
        call_ensures(
            DBCollection::get_one_by,
            (&documents, property_path, value, return_fields),
            aql,
        ),
        call_ensures(AqlBuilder::build_query, (&aql,), query),
    ensures
        query@ == "FOR i IN "@ + name@ + " FILTER i."@ + property_path@ + " == "@ + value@
            + " LIMIT 1"@ + return_text("i"@, return_fields),
        is_plain(aql),
{
    lemma_one_by(name@, property_path@, value@, return_fields);
    assert(aql@.vars.len() == aql.vars@.len());
}

/// Whether a document exists, by a property, is asked by the query for one such
/// document.
pub proof fn law_text_of_exists_by(
    name: &'static str,
    documents: DBCollection,
    property_path: &str,
    value: &str,
    aql: AqlBuilder,
    query: String,
)
    requires
        call_ensures(DBCollection::new, (name,), documents),
        call_ensures(DBCollection::exists_by, (&documents, property_path, value), aql),
        call_ensures(AqlBuilder::build_query, (&aql,), query),
    ensures
        query@ == "FOR i IN "@ + name@ + " FILTER i."@ + property_path@ + " == "@ + value@
            + " LIMIT 1 RETURN i"@,
        is_plain(aql),
{
    lemma_one_by(name@, property_path@, value@, None);
    assert(aql@.vars.len() == aql.vars@.len());
    lemma_one_returned(
        "FOR i IN "@ + name@ + " FILTER i."@ + property_path@ + " == "@ + value@,
    );
}

/// The end of a query that keeps and returns one document.
proof fn lemma_one_returned(x: Seq<char>)
    ensures
        x + " LIMIT 1"@ + return_text("i"@, None) == x + " LIMIT 1 RETURN i"@,
{
    reveal_strlit(" LIMIT 1");
    reveal_strlit(" RETURN ");
    reveal_strlit("i");
    reveal_strlit(" LIMIT 1 RETURN i");
    assert(" LIMIT 1 RETURN i"@ =~= " LIMIT 1"@ + (" RETURN "@ + "i"@));
    assert(x + " LIMIT 1"@ + (" RETURN "@ + "i"@) =~= x + (" LIMIT 1"@ + (" RETURN "@ + "i"@)));
}

/// The text of a query for one document by its key.
proof fn lemma_one_by_key(name: Seq<char>, key: Seq<char>, return_fields: Option<&Vec<String>>)
    ensures
        collection::one_by_key_query(
            name,
            key,
            collection::fields_view(return_fields),
        ).query() == "FOR i IN "@ + name + " FILTER i._key == "@ + json::json_string(key)
            + " LIMIT 1"@ + return_text("i"@, return_fields),
{
    let value = json::json_string(key);
    lemma_one_by(name, "_key"@, value, return_fields);
    let x = "FOR i IN "@ + name;
    let (fi, path, eq) = (" FILTER i."@, "_key"@, " == "@);
    assert(" FILTER i._key == "@ == fi + path + eq) by {
        reveal_strlit(" FILTER i._key == ");
        reveal_strlit(" FILTER i.");
        reveal_strlit("_key");
        reveal_strlit(" == ");
        assert(" FILTER i._key == "@ =~= " FILTER i."@ + "_key"@ + " == "@);
    }
    assert(x + fi + path + eq + value =~= x + (fi + path + eq) + value);
}

/// The query for a document by its key compares the key, as JSON, and keeps one
/// document at most.
pub proof fn law_text_of_get_one_by_key(
    name: &'static str,
    documents: DBCollection,
    key: &str,
    return_fields: Option<&Vec<String>>,
    value: String,
    aql: AqlBuilder,
    query: String,
)
    requires
        call_ensures(DBCollection::new, (name,), documents),
        call_ensures(json::key_json, (key,), value),
        call_ensures(DBCollection::get_one_by_key, (&documents, key, return_fields), aql),
        call_ensures(AqlBuilder::build_query, (&aql,), query),
    ensures
        query@ == "FOR i IN "@ + name@ + " FILTER i._key == "@ + value@ + " LIMIT 1"@
            + return_text("i"@, return_fields),
        is_plain(aql),
{
    lemma_one_by_key(name@, key@, return_fields);
    assert(aql@.vars.len() == aql.vars@.len());
}

/// Whether a document exists, by its key, is asked by the query for that document.
pub proof fn law_text_of_exists_by_key(
    name: &'static str,
    documents: DBCollection,
    key: &str,
    value: String,
    aql: AqlBuilder,
    query: String,
)
    requires
        call_ensures(DBCollection::new, (name,), documents),
        call_ensures(json::key_json, (key,), value),
        call_ensures(DBCollection::exists_by_key, (&documents, key), aql),
        call_ensures(AqlBuilder::build_query, (&aql,), query),
    ensures
        query@ == "FOR i IN "@ + name@ + " FILTER i._key == "@ + value@ + " LIMIT 1 RETURN i"@,
        is_plain(aql),
{
    lemma_one_by_key(name@, key@, None);
    assert(aql@.vars.len() == aql.vars@.len());
    lemma_one_returned("FOR i IN "@ + name@ + " FILTER i._key == "@ + value@);
}

/// The keys of a list, each as JSON, joined by commas.
pub open spec fn keys_text(keys: Seq<String>) -> Seq<char> {
    text::joined(Seq::new(keys.len(), |i: int| json::json_string(keys[i]@)))
}

/// The text of a command that looks up the document of each key.
proof fn lemma_lookup(name: Seq<char>, keys: Seq<String>)
    ensures
        collection::lookup_query(name, text::texts(keys)).query() == "FOR i IN ["@ + keys_text(keys)
            + "] LET o = DOCUMENT("@ + name + ", i)"@,
{
    let items = Seq::new(keys.len(), |i: int| json::json_string(keys[i]@));
    assert(text::texts(keys).map_values(|key: Seq<char>| json::json_string(key)) =~= items);
    lemma_loop_over_values(items);
    let start = AqlView::for_in_list("i"@, items);
    let expression = "DOCUMENT("@ + name + ", "@ + "i"@ + ")"@;
    let step = AqlStepView::Let { variable: "o"@, expression };
    lemma_then_step(start, step);
    let x = "FOR i IN ["@ + keys_text(keys);
    let (end, sp, le, o, is, doc, comma, i, close) = (
        "]"@,
        " "@,
        "LET "@,
        "o"@,
        " = "@,
        "DOCUMENT("@,
        ", "@,
        "i"@,
        ")"@,
    );
    assert("] LET o = DOCUMENT("@ == end + sp + le + o + is + doc) by {
        reveal_strlit("] LET o = DOCUMENT(");
        reveal_strlit("]");
        reveal_strlit(" ");
        reveal_strlit("LET ");
        reveal_strlit("o");
        reveal_strlit(" = ");
        reveal_strlit("DOCUMENT(");
        assert("] LET o = DOCUMENT("@ =~= end + sp + le + o + is + doc);
    }
    assert(", i)"@ == comma + i + close) by {
        reveal_strlit(", i)");
        reveal_strlit(", ");
        reveal_strlit("i");
        reveal_strlit(")");
        assert(", i)"@ =~= comma + i + close);
    }
    assert(x + end + sp + (le + o + is + (doc + name + comma + i + close)) =~= x + (end + sp + le
        + o + is + doc) + name + (comma + i + close));
}

/// The query for documents by their keys looks each key up in the collection, in the
/// order of the list, and returns what it finds.
pub proof fn law_text_of_get_many_by_key(
    name: &'static str,
    documents: DBCollection,
    keys: &Vec<String>,
    return_fields: Option<&Vec<String>>,
    aql: AqlBuilder,
    query: String,
)
    requires
        call_ensures(DBCollection::new, (name,), documents),
        call_ensures(DBCollection::get_many_by_key, (&documents, keys, return_fields), aql),
        call_ensures(AqlBuilder::build_query, (&aql,), query),
    ensures
        query@ == "FOR i IN ["@ + keys_text(keys@) + "] LET o = DOCUMENT("@ + name@ + ", i)"@
            + return_text("o"@, return_fields),
        is_plain(aql),
{
    lemma_lookup(name@, keys@);
    lemma_returning(
        collection::lookup_query(name@, text::texts(keys@)),
        "o"@,
        return_fields,
        AqlStepView::ReturnExpression { expression: "o"@ },
    );
    assert(aql@.vars.len() == aql.vars@.len());
}

/// The query that leaves out what cannot be found does the same, but passes over a key
/// that has no document.
pub proof fn law_text_of_get_many_by_key_flattened(
    name: &'static str,
    documents: DBCollection,
    keys: &Vec<String>,
    return_fields: Option<&Vec<String>>,
    aql: AqlBuilder,
    query: String,
)
    requires
        call_ensures(DBCollection::new, (name,), documents),
        call_ensures(
            DBCollection::get_many_by_key_flattened,
            (&documents, keys, return_fields),
            aql,
        ),
        call_ensures(AqlBuilder::build_query, (&aql,), query),
    ensures
        query@ == "FOR i IN ["@ + keys_text(keys@) + "] LET o = DOCUMENT("@ + name@
            + ", i) FILTER o != null"@ + return_text("o"@, return_fields),
        is_plain(aql),
{
    lemma_lookup(name@, keys@);
    let looked_up = collection::lookup_query(name@, text::texts(keys@));
    let step = AqlStepView::Filter { expression: "o"@ + " != null"@ };
    lemma_then_step(looked_up, step);
    lemma_returning(
        looked_up.then_step(step),
        "o"@,
        return_fields,
        AqlStepView::ReturnExpression { expression: "o"@ },
    );
    let x = "FOR i IN ["@ + keys_text(keys@) + "] LET o = DOCUMENT("@ + name@;
    let (end, sp, fi, o, ne) = (", i)"@, " "@, "FILTER "@, "o"@, " != null"@);
    assert(", i) FILTER o != null"@ == end + sp + fi + o + ne) by {
        reveal_strlit(", i) FILTER o != null");
        reveal_strlit(", i)");
        reveal_strlit(" ");
        reveal_strlit("FILTER ");
        reveal_strlit("o");
        reveal_strlit(" != null");
        assert(", i) FILTER o != null"@ =~= end + sp + fi + o + ne);
    }
    assert(x + end + sp + (fi + (o + ne)) =~= x + (end + sp + fi + o + ne));
    assert(aql@.vars.len() == aql.vars@.len());
}

/// The JSON texts of some documents, joined by commas.
pub open spec fn documents_text(documents: Seq<Document>) -> Seq<char> {
    text::joined(Seq::new(documents.len(), |i: int| documents[i].json@))
}

/// The JSON texts of some documents, one by one.
proof fn lemma_json_texts(documents: Seq<Document>)
    ensures
        update::json_texts(update::documents_view(documents)) == Seq::new(
            documents.len(),
            |i: int| documents[i].json@,
        ),
{
    assert(update::json_texts(update::documents_view(documents)) =~= Seq::new(
        documents.len(),
        |i: int| documents[i].json@,
    ));
}

/// The command that updates a list runs over all documents in their order, writes each
/// into the collection, passes over those that cannot be written, and returns the keys
/// of the others.
pub proof fn law_text_of_update_list_with_retries(
    name: &'static str,
    documents: DBCollection,
    list: &[Document],
    started: (UpdateRun, AqlBuilder),
    query: String,
)
    requires
        forall|i: int| 0 <= i < list@.len() ==> (#[trigger] list@[i]).key is Some,
        call_ensures(DBCollection::new, (name,), documents),
        call_ensures(DBCollection::update_list_with_retries, (&documents, list), started),
        call_ensures(AqlBuilder::build_query, (&started.1,), query),
    ensures
        query@ == "FOR i IN ["@ + documents_text(list@) + "] UPDATE i WITH i IN "@ + name@
            + " OPTIONS { ignoreErrors: true } RETURN NEW._key"@,
        is_plain(started.1),
{
    let items = Seq::new(list@.len(), |i: int| list@[i].json@);
    lemma_json_texts(list@);
    lemma_loop_over_values(items);
    let start = AqlView::for_in_list("i"@, items);
    let written = AqlStepView::Update {
        collection: name@,
        expression: "i"@,
        ignore_errors: true,
    };
    let key = "NEW"@ + "."@ + DBDocumentField::Key.spec_path();
    let returned = AqlStepView::ReturnExpression { expression: key };
    lemma_then_step(start, written);
    lemma_then_step(start.then_step(written), returned);
    let x = "FOR i IN ["@ + documents_text(list@);
    let (end, sp, up, i, with, into) = ("]"@, " "@, "UPDATE "@, "i"@, " WITH "@, " IN "@);
    let (options, ret) = (" OPTIONS { ignoreErrors: true }"@, "RETURN "@);
    assert("] UPDATE i WITH i IN "@ == end + sp + up + i + with + i + into) by {
        reveal_strlit("] UPDATE i WITH i IN ");
        reveal_strlit("]");
        reveal_strlit(" ");
        reveal_strlit("UPDATE ");
        reveal_strlit("i");
        reveal_strlit(" WITH ");
        reveal_strlit(" IN ");
        assert("] UPDATE i WITH i IN "@ =~= end + sp + up + i + with + i + into);
    }
    assert(" OPTIONS { ignoreErrors: true } RETURN NEW._key"@ == options + sp + ret + key) by {
        reveal_strlit(" OPTIONS { ignoreErrors: true } RETURN NEW._key");
        reveal_strlit(" OPTIONS { ignoreErrors: true }");
        reveal_strlit(" ");
        reveal_strlit("RETURN ");
        reveal_strlit("NEW");
        reveal_strlit(".");
        reveal_strlit("_key");
        assert(" OPTIONS { ignoreErrors: true } RETURN NEW._key"@ =~= options + sp + ret + key);
    }
    assert(x + end + sp + (up + i + with + i + into + name@ + options) + sp + (ret + key) =~= x + (
    end + sp + up + i + with + i + into) + name@ + (options + sp + ret + key));
    assert(started.1@.vars.len() == started.1.vars@.len());
}

/// The command that updates a list has one `UPDATE` step, which writes into the
/// collection.
pub proof fn law_update_writes_into_its_collection(
    name: &'static str,
    documents: DBCollection,
    list: &[Document],
    started: (UpdateRun, AqlBuilder),
)
    requires
        forall|i: int| 0 <= i < list@.len() ==> (#[trigger] list@[i]).key is Some,
        call_ensures(DBCollection::new, (name,), documents),
        call_ensures(DBCollection::update_list_with_retries, (&documents, list), started),
    ensures
        started.1.steps@.len() == 2,
        started.1.steps@[0] matches AqlStep::Update(step) && step.collection@ == name@
            && step.ignore_errors,
        started.1.steps@[1] is Return,
{
    let steps = started.1@.steps;
    assert(steps.len() == started.1.steps@.len());
    assert(steps[0] == started.1.steps@[0]@ && steps[1] == started.1.steps@[1]@);
}

/// Commands that update the same list in different collections have different texts.
pub proof fn law_update_tells_collections_apart(
    name: &'static str,
    documents: DBCollection,
    other_name: &'static str,
    others: DBCollection,
    list: &[Document],
    started: (UpdateRun, AqlBuilder),
    query: String,
    other_started: (UpdateRun, AqlBuilder),
    other_query: String,
)
    requires
        forall|i: int| 0 <= i < list@.len() ==> (#[trigger] list@[i]).key is Some,
        call_ensures(DBCollection::new, (name,), documents),
        call_ensures(DBCollection::new, (other_name,), others),
        call_ensures(DBCollection::update_list_with_retries, (&documents, list), started),
        call_ensures(DBCollection::update_list_with_retries, (&others, list), other_started),
        call_ensures(AqlBuilder::build_query, (&started.1,), query),
        call_ensures(AqlBuilder::build_query, (&other_started.1,), other_query),
    ensures
        query@ == other_query@ ==> name@ == other_name@,
{
    law_text_of_update_list_with_retries(name, documents, list, started, query);
    law_text_of_update_list_with_retries(other_name, others, list, other_started, other_query);
    if query@ == other_query@ {
        let head = "FOR i IN ["@ + documents_text(list@) + "] UPDATE i WITH i IN "@;
        let tail = " OPTIONS { ignoreErrors: true } RETURN NEW._key"@;
        let n = query@.len() - tail.len();
        assert(name@ =~= query@.subrange(head.len() as int, n));
        assert(other_name@ =~= other_query@.subrange(head.len() as int, n));
    }
}

/// The command that inserts documents runs over all of them in their order and puts
/// each into the collection.
pub proof fn law_text_of_insert_many(
    name: &'static str,
    documents: DBCollection,
    list: &[Document],
    aql: AqlBuilder,
    query: String,
)
    requires
        call_ensures(DBCollection::new, (name,), documents),
        call_ensures(DBCollection::insert_many, (&documents, list), aql),
        call_ensures(AqlBuilder::build_query, (&aql,), query),
    ensures
        query@ == "FOR i IN ["@ + documents_text(list@) + "] INSERT i INTO "@ + name@,
        is_plain(aql),
{
    let items = Seq::new(list@.len(), |i: int| list@[i].json@);
    lemma_json_texts(list@);
    lemma_loop_over_values(items);
    let start = AqlView::for_in_list("i"@, items);
    lemma_then_step(start, AqlStepView::Insert { collection: name@ });
    let x = "FOR i IN ["@ + documents_text(list@);
    let (end, sp, ins, i, into) = ("]"@, " "@, "INSERT "@, "i"@, " INTO "@);
    assert("] INSERT i INTO "@ == end + sp + ins + i + into) by {
        reveal_strlit("] INSERT i INTO ");
        reveal_strlit("]");
        reveal_strlit(" ");
        reveal_strlit("INSERT ");
        reveal_strlit("i");
        reveal_strlit(" INTO ");
        assert("] INSERT i INTO "@ =~= end + sp + ins + i + into);
    }
    assert(x + end + sp + (ins + i + into + name@) =~= x + (end + sp + ins + i + into) + name@);
    assert(aql@.vars.len() == aql.vars@.len());
}

/// A collection keeps its name.
pub proof fn law_name_is_kept(name: &'static str, documents: DBCollection, read: &'static str)
    requires
        call_ensures(DBCollection::new, (name,), documents),
        call_ensures(DBCollection::name, (&documents,), read),
    ensures
        read@ == name@,
{
}

/// The key of a document is its property `_key`.
pub proof fn law_key_is_a_property(path: &'static str)
    requires
        call_ensures(DBDocumentField::path, (&DBDocumentField::Key,), path),
    ensures
        path@ == seq!['_', 'k', 'e', 'y'],
{
    reveal_strlit("_key");
}

/// A query for one document found it exactly if there is a result, and what it found is
/// the last of them.
pub proof fn law_one_document_is_taken<D>(results: Vec<D>, one: Option<D>, found: bool)
    requires
        call_ensures(collection::take_one::<D>, (results,), one),
        call_ensures(collection::is_found::<D>, (results,), found),
    ensures
        found <==> results@.len() > 0,
        one is Some <==> results@.len() > 0,
        one is Some ==> one->0 == results@[results@.len() - 1],
{
}

/// Every list of documents with keys can be updated, and any values can take the place
/// of those that a loop runs over.
pub proof fn law_keyed_documents_can_be_updated(
    documents: DBCollection,
    list: &[Document],
    items: Vec<String>,
)
    ensures
        (forall|i: int| 0 <= i < list@.len() ==> (#[trigger] list@[i]).key is Some)
            ==> call_requires(DBCollection::update_list_with_retries, (&documents, list)),
        forall|aql: &mut AqlBuilder|
            (*aql).kind is List ==> #[trigger] call_requires(AqlBuilder::set_list, (aql, items)),
{
    let views = update::documents_view(list@);
    if forall|i: int| 0 <= i < list@.len() ==> (#[trigger] list@[i]).key is Some {
        assert forall|i: int| 0 <= i < views.len() implies (#[trigger] views[i]).key is Some by {
            let _ = list@[i];
        }
    }
}

} // verus!
