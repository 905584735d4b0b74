//! AQL commands: a `FOR` loop and the steps it runs, and the text of the query.
use crate::text;
use vstd::prelude::*;

verus! {

/// The variable `i`: updates, insertions and returns of a document take the one that it
/// holds.
pub const AQL_DOCUMENT_ID: &'static str = "i";

/// The variable that holds a document as an update or an insertion left it.
pub const AQL_NEW_ID: &'static str = "NEW";

/// What a `FOR` loop runs over.
pub enum AqlKind {
    /// The documents of a collection.
    Collection { variable: String, collection: String },
    /// Values that the query carries, each as JSON text.
    List { variable: String, items: Vec<String> },
}

/// What an [`AqlKind`] holds.
pub enum AqlKindView {
    Collection { variable: Seq<char>, collection: Seq<char> },
    List { variable: Seq<char>, items: Seq<Seq<char>> },
}

impl View for AqlKind {
    type V = AqlKindView;

    open spec fn view(&self) -> AqlKindView {
        match self {
            AqlKind::Collection { variable, collection } => AqlKindView::Collection {
                variable: variable@,
                collection: collection@,
            },
            AqlKind::List { variable, items } => AqlKindView::List {
                variable: variable@,
                items: text::texts(items@),
            },
        }
    }
}

/// What a `LET` step gives to its variable.
pub enum AqlLetKind {
    /// The value of an expression.
    Expression(String),
}

/// A `LET` step.
pub struct AqlLet {
    pub variable: String,
    pub expression: AqlLetKind,
}

/// A `LIMIT` step.
pub struct AqlLimit {
    pub offset: Option<u64>,
    pub count: u64,
}

/// An `UPDATE` step: the document that the variable `i` holds is updated with the
/// value of an expression.
pub struct AqlUpdate {
    pub collection: String,
    pub expression: String,
    pub ignore_errors: bool,
}

impl AqlUpdate {
    /// Updates the document that the variable `i` holds, in a collection, with the
    /// value of an expression; an error stops the query.
    pub fn new_document(collection: &str, expression: String) -> (update: AqlUpdate)
        ensures
            update.collection@ == collection@,
            update.expression@ == expression@,
            !update.ignore_errors,
    {
        AqlUpdate { collection: collection.to_owned(), expression, ignore_errors: false }
    }

    /// Tells whether a document that cannot be updated is passed over.
    pub fn apply_ignore_errors(self, ignore_errors: bool) -> (update: AqlUpdate)
        ensures
            update.collection@ == self.collection@,
            update.expression@ == self.expression@,
            update.ignore_errors == ignore_errors,
    {
        AqlUpdate { collection: self.collection, expression: self.expression, ignore_errors }
    }
}

/// An `INSERT` step: the document that the variable `i` holds goes into a collection.
pub struct AqlInsert {
    pub collection: String,
}

impl AqlInsert {
    /// Inserts the document that the variable `i` holds into a collection.
    pub fn new_document(collection: &str) -> (insert: AqlInsert)
        ensures
            insert.collection@ == collection@,
    {
        AqlInsert { collection: collection.to_owned() }
    }
}

/// A `RETURN` step.
pub enum AqlReturn {
    /// The document that the variable `i` holds.
    Document,
    /// The value of an expression.
    Expression(String),
    /// Some properties of the document that a variable holds.
    Fields { variable: String, names: Vec<String> },
}

impl AqlReturn {
    /// Returns the document that the variable `i` holds.
    pub fn new_document() -> (ret: AqlReturn)
        ensures
            ret is Document,
    {
        AqlReturn::Document
    }

    /// Returns the value of an expression.
    pub fn new_expression(expression: String) -> (ret: AqlReturn)
        ensures
            ret == AqlReturn::Expression(expression),
    {
        AqlReturn::Expression(expression)
    }
}

/// One step of a query.
pub enum AqlStep {
    Let(AqlLet),
    Filter(String),
    Limit(AqlLimit),
    Update(AqlUpdate),
    Insert(AqlInsert),
    Return(AqlReturn),
}

/// What an [`AqlStep`] holds.
pub enum AqlStepView {
    Let { variable: Seq<char>, expression: Seq<char> },
    Filter { expression: Seq<char> },
    Limit { offset: Option<u64>, count: u64 },
    Update { collection: Seq<char>, expression: Seq<char>, ignore_errors: bool },
    Insert { collection: Seq<char> },
    ReturnDocument,
    ReturnExpression { expression: Seq<char> },
    ReturnFields { variable: Seq<char>, names: Seq<Seq<char>> },
}

impl View for AqlStep {
    type V = AqlStepView;

    open spec fn view(&self) -> AqlStepView {
        match self {
            AqlStep::Let(step) => match step.expression {
                AqlLetKind::Expression(expression) => AqlStepView::Let {
                    variable: step.variable@,
                    expression: expression@,
                },
            },
            AqlStep::Filter(expression) => AqlStepView::Filter { expression: expression@ },
            AqlStep::Limit(step) => AqlStepView::Limit { offset: step.offset, count: step.count },
            AqlStep::Update(step) => AqlStepView::Update {
                collection: step.collection@,
                expression: step.expression@,
                ignore_errors: step.ignore_errors,
            },
            AqlStep::Insert(step) => AqlStepView::Insert { collection: step.collection@ },
            AqlStep::Return(AqlReturn::Document) => AqlStepView::ReturnDocument,
            AqlStep::Return(AqlReturn::Expression(expression)) => AqlStepView::ReturnExpression {
                expression: expression@,
            },
            AqlStep::Return(AqlReturn::Fields { variable, names }) => AqlStepView::ReturnFields {
                variable: variable@,
                names: text::texts(names@),
            },
        }
    }
}

/// What a list of steps holds.
pub open spec fn steps_view(steps: Seq<AqlStep>) -> Seq<AqlStepView> {
    steps.map_values(|step: AqlStep| step@)
}

/// What a list of bind variables holds: names, each with a value's JSON text.
pub open spec fn vars_view(vars: Seq<(String, String)>) -> Seq<(Seq<char>, Seq<char>)> {
    vars.map_values(|var: (String, String)| (var.0@, var.1@))
}

/// An AQL command under construction.
pub struct AqlBuilder {
    pub kind: AqlKind,
    pub steps: Vec<AqlStep>,
    /// The bind variables: names, each with the JSON text of its value.
    pub vars: Vec<(String, String)>,
    /// How many results the server sends at once; its own choice if absent.
    pub batch_size: Option<u32>,
    /// Whether the server counts the results that a `LIMIT` step cut off.
    pub full_count: bool,
    /// Whether a query that meets a write conflict is sent again.
    pub handle_write_conflicts: bool,
}

/// What an [`AqlBuilder`] holds.
pub struct AqlView {
    pub kind: AqlKindView,
    pub steps: Seq<AqlStepView>,
    pub vars: Seq<(Seq<char>, Seq<char>)>,
    pub batch_size: Option<u32>,
    pub full_count: bool,
    pub handle_write_conflicts: bool,
}

impl AqlView {
    /// A loop without steps, with nothing bound and every setting off.
    pub open spec fn of_kind(kind: AqlKindView) -> AqlView {
        AqlView {
            kind,
            steps: seq![],
            vars: seq![],
            batch_size: None,
            full_count: false,
            handle_write_conflicts: false,
        }
    }

    /// A loop over a collection.
    pub open spec fn for_in_collection(variable: Seq<char>, collection: Seq<char>) -> AqlView {
        AqlView::of_kind(AqlKindView::Collection { variable, collection })
    }

    /// A loop over values that the query carries.
    pub open spec fn for_in_list(variable: Seq<char>, items: Seq<Seq<char>>) -> AqlView {
        AqlView::of_kind(AqlKindView::List { variable, items })
    }

    /// The same command with one more step at its end.
    pub open spec fn then_step(self, step: AqlStepView) -> AqlView {
        AqlView { steps: self.steps.push(step), ..self }
    }

    /// The same command over other values.
    pub open spec fn with_items(self, items: Seq<Seq<char>>) -> AqlView {
        match self.kind {
            AqlKindView::List { variable, .. } => AqlView {
                kind: AqlKindView::List { variable, items },
                ..self
            },
            AqlKindView::Collection { .. } => self,
        }
    }

    /// The text of the query.
    pub open spec fn query(self) -> Seq<char> {
        kind_text(self.kind) + steps_text(self.steps)
    }
}

impl View for AqlBuilder {
    type V = AqlView;

    open spec fn view(&self) -> AqlView {
        AqlView {
            kind: self.kind@,
            steps: steps_view(self.steps@),
            vars: vars_view(self.vars@),
            batch_size: self.batch_size,
            full_count: self.full_count,
            handle_write_conflicts: self.handle_write_conflicts,
        }
    }
}

/// `FOR <variable> IN <collection or list>`.
pub open spec fn kind_text(kind: AqlKindView) -> Seq<char> {
    match kind {
        AqlKindView::Collection { variable, collection } => "FOR "@ + variable + " IN "@
            + collection,
        AqlKindView::List { variable, items } => "FOR "@ + variable + " IN ["@ + text::joined(items)
            + "]"@,
    }
}

/// The properties of an object that repeats some properties of a variable's
/// document.
pub open spec fn field_texts(variable: Seq<char>, names: Seq<Seq<char>>) -> Seq<Seq<char>> {
    names.map_values(|name: Seq<char>| name + ": "@ + variable + "."@ + name)
}

/// The clause that a step stands for.
pub open spec fn step_text(step: AqlStepView) -> Seq<char> {
    match step {
        AqlStepView::Let { variable, expression } => "LET "@ + variable + " = "@ + expression,
        AqlStepView::Filter { expression } => "FILTER "@ + expression,
        AqlStepView::Limit { offset: None, count } => "LIMIT "@ + text::decimal(count as nat),
        AqlStepView::Limit { offset: Some(offset), count } => "LIMIT "@ + text::decimal(
            offset as nat,
        ) + ", "@ + text::decimal(count as nat),
        AqlStepView::Update { collection, expression, ignore_errors } => "UPDATE "@
            + AQL_DOCUMENT_ID@ + " WITH "@ + expression + " IN "@ + collection + (
        if ignore_errors {
            " OPTIONS { ignoreErrors: true }"@
        } else {
            seq![]
        }),
        AqlStepView::Insert { collection } => "INSERT "@ + AQL_DOCUMENT_ID@ + " INTO "@
            + collection,
        AqlStepView::ReturnDocument => "RETURN "@ + AQL_DOCUMENT_ID@,
        AqlStepView::ReturnExpression { expression } => "RETURN "@ + expression,
        AqlStepView::ReturnFields { variable, names } => "RETURN {"@ + text::joined(
            field_texts(variable, names),
        ) + "}"@,
    }
}

/// The clauses of the steps in their order, a space before each.
pub open spec fn steps_text(steps: Seq<AqlStepView>) -> Seq<char>
    decreases steps.len(),
{
    if steps.len() == 0 {
        seq![]
    } else {
        steps_text(steps.drop_last()) + " "@ + step_text(steps.last())
    }
}

/// Appends the properties of a returned object.
fn write_fields(out: &mut String, variable: &str, names: &Vec<String>)
    ensures
        final(out)@ == old(out)@ + text::joined(field_texts(variable@, text::texts(names@))),
{
    let ghost before = out@;
    let ghost all = field_texts(variable@, text::texts(names@));
    assert(all.take(0) =~= Seq::<Seq<char>>::empty());
    assert(out@ =~= before + text::joined(all.take(0)));
    let mut i: usize = 0;
    while i < names.len()
        invariant
            i <= names.len(),
            all == field_texts(variable@, text::texts(names@)),
            out@ == before + text::joined(all.take(i as int)),
        decreases names.len() - i,
    {
        let mut field = String::new();
        field.append(names[i].as_str());
        field.append(": ");
        field.append(variable);
        field.append(".");
        field.append(names[i].as_str());
        assert(field@ =~= all[i as int]);
        proof {
            text::lemma_joined_take(all, i as int);
        }
        text::write_item(out, i == 0, field.as_str());
        i += 1;
        assert(out@ =~= before + text::joined(all.take(i as int)));
    }
    assert(all.take(all.len() as int) =~= all);
}

/// Appends the clause of a step.
fn write_step(out: &mut String, step: &AqlStep)
    ensures
        final(out)@ == old(out)@ + step_text(step@),
{
    match step {
        AqlStep::Let(step) => {
            out.append("LET ");
            out.append(step.variable.as_str());
            out.append(" = ");
            match &step.expression {
                AqlLetKind::Expression(expression) => out.append(expression.as_str()),
            }
        },
        AqlStep::Filter(expression) => {
            out.append("FILTER ");
            out.append(expression.as_str());
        },
        AqlStep::Limit(step) => {
            out.append("LIMIT ");
            if let Some(offset) = step.offset {
                text::write_decimal(out, offset);
                out.append(", ");
            }
            text::write_decimal(out, step.count);
        },
        AqlStep::Update(step) => {
            out.append("UPDATE ");
            out.append(AQL_DOCUMENT_ID);
            out.append(" WITH ");
            out.append(step.expression.as_str());
            out.append(" IN ");
            out.append(step.collection.as_str());
            if step.ignore_errors {
                out.append(" OPTIONS { ignoreErrors: true }");
            }
        },
        AqlStep::Insert(step) => {
            out.append("INSERT ");
            out.append(AQL_DOCUMENT_ID);
            out.append(" INTO ");
            out.append(step.collection.as_str());
        },
        AqlStep::Return(AqlReturn::Document) => {
            out.append("RETURN ");
            out.append(AQL_DOCUMENT_ID);
        },
        AqlStep::Return(AqlReturn::Expression(expression)) => {
            out.append("RETURN ");
            out.append(expression.as_str());
        },
        AqlStep::Return(AqlReturn::Fields { variable, names }) => {
            out.append("RETURN {");
            write_fields(out, variable.as_str(), names);
            out.append("}");
        },
    }
    assert(out@ =~= old(out)@ + step_text(step@));
}

impl AqlBuilder {
    /// A loop without steps, with nothing bound and every setting off.
    fn of_kind(kind: AqlKind) -> (aql: AqlBuilder)
        ensures
            aql@ == AqlView::of_kind(kind@),
    {
        let aql = AqlBuilder {
            kind,
            steps: Vec::new(),
            vars: Vec::new(),
            batch_size: None,
            full_count: false,
            handle_write_conflicts: false,
        };
        assert(aql@.steps =~= seq![]);
        assert(aql@.vars =~= seq![]);
        aql
    }

    /// A loop over the documents of a collection.
    pub fn new_for_in_collection(variable: &str, collection: &str) -> (aql: AqlBuilder)
        ensures
            aql@ == AqlView::for_in_collection(variable@, collection@),
    {
        AqlBuilder::of_kind(
            AqlKind::Collection {
                variable: variable.to_owned(),
                collection: collection.to_owned(),
            },
        )
    }

    /// A loop over values, each given as JSON text.
    pub fn new_for_in_list(variable: &str, items: Vec<String>) -> (aql: AqlBuilder)
        ensures
            aql@ == AqlView::for_in_list(variable@, text::texts(items@)),
    {
        AqlBuilder::of_kind(AqlKind::List { variable: variable.to_owned(), items })
    }

    /// Replaces the values that the loop runs over.
    pub fn set_list(&mut self, items: Vec<String>)
        requires
            old(self)@.kind is List,
        ensures
            final(self)@ == old(self)@.with_items(text::texts(items@)),
            *final(self) == (AqlBuilder { kind: final(self).kind, ..*old(self) }),
    {
        let variable = match &self.kind {
            AqlKind::Collection { variable, .. } => variable.clone(),
            AqlKind::List { variable, .. } => variable.clone(),
        };
        self.kind = AqlKind::List { variable, items };
    }

    /// Adds a step.
    fn step(&mut self, step: AqlStep)
        ensures
            final(self)@ == old(self)@.then_step(step@),
            final(self).steps@ == old(self).steps@.push(step),
            *final(self) == (AqlBuilder { steps: final(self).steps, ..*old(self) }),
    {
        self.steps.push(step);
        assert(self@.steps =~= old(self)@.steps.push(step@));
    }

    /// Adds a `LET` step.
    pub fn let_step(&mut self, step: AqlLet)
        ensures
            final(self)@ == old(self)@.then_step(AqlStep::Let(step)@),
            final(self).steps@ == old(self).steps@.push(AqlStep::Let(step)),
            *final(self) == (AqlBuilder { steps: final(self).steps, ..*old(self) }),
    {
        self.step(AqlStep::Let(step));
    }

    /// Adds a `FILTER` step.
    pub fn filter_step(&mut self, expression: String)
        ensures
            final(self)@ == old(self)@.then_step(AqlStepView::Filter { expression: expression@ }),
            final(self).steps@ == old(self).steps@.push(AqlStep::Filter(expression)),
            *final(self) == (AqlBuilder { steps: final(self).steps, ..*old(self) }),
    {
        self.step(AqlStep::Filter(expression));
    }

    /// Adds a `LIMIT` step.
    pub fn limit_step(&mut self, step: AqlLimit)
        ensures
            final(self)@ == old(self)@.then_step(AqlStep::Limit(step)@),
            final(self).steps@ == old(self).steps@.push(AqlStep::Limit(step)),
            *final(self) == (AqlBuilder { steps: final(self).steps, ..*old(self) }),
    {
        self.step(AqlStep::Limit(step));
    }

    /// Adds an `UPDATE` step.
    pub fn update_step(&mut self, step: AqlUpdate)
        ensures
            final(self)@ == old(self)@.then_step(AqlStep::Update(step)@),
            final(self).steps@ == old(self).steps@.push(AqlStep::Update(step)),
            *final(self) == (AqlBuilder { steps: final(self).steps, ..*old(self) }),
    {
        self.step(AqlStep::Update(step));
    }

    /// Adds an `INSERT` step.
    pub fn insert_step(&mut self, step: AqlInsert)
        ensures
            final(self)@ == old(self)@.then_step(AqlStep::Insert(step)@),
            final(self).steps@ == old(self).steps@.push(AqlStep::Insert(step)),
            *final(self) == (AqlBuilder { steps: final(self).steps, ..*old(self) }),
    {
        self.step(AqlStep::Insert(step));
    }

    /// Adds a `RETURN` step.
    pub fn return_step(&mut self, step: AqlReturn)
        ensures
            final(self)@ == old(self)@.then_step(AqlStep::Return(step)@),
            final(self).steps@ == old(self).steps@.push(AqlStep::Return(step)),
            *final(self) == (AqlBuilder { steps: final(self).steps, ..*old(self) }),
    {
        self.step(AqlStep::Return(step));
    }

    /// Adds a `RETURN` step that gives some properties of a variable's document.
    pub fn return_step_with_fields(&mut self, variable: &str, names: &Vec<String>)
        ensures
            final(self)@ == old(self)@.then_step(
                AqlStepView::ReturnFields { variable: variable@, names: text::texts(names@) },
            ),
            final(self).steps@.drop_last() == old(self).steps@,
            *final(self) == (AqlBuilder { steps: final(self).steps, ..*old(self) }),
    {
        let names = text::copy_strings(names);
        self.step(AqlStep::Return(AqlReturn::Fields { variable: variable.to_owned(), names }));
    }

    /// Writes the text of the query.
    pub fn build_query(&self) -> (query: String)
        ensures
            query@ == self@.query(),
    {
        let mut out = String::new();
        out.append("FOR ");
        match &self.kind {
            AqlKind::Collection { variable, collection } => {
                out.append(variable.as_str());
                out.append(" IN ");
                out.append(collection.as_str());
            },
            AqlKind::List { variable, items } => {
                out.append(variable.as_str());
                out.append(" IN [");
                text::write_joined(&mut out, items);
                out.append("]");
            },
        }
        let ghost head = kind_text(self.kind@);
        assert(out@ =~= head);
        let ghost all = steps_view(self.steps@);
        assert(all.take(0) =~= Seq::<AqlStepView>::empty());
        let mut i: usize = 0;
        while i < self.steps.len()
            invariant
                i <= self.steps.len(),
                all == steps_view(self.steps@),
                out@ =~= head + steps_text(all.take(i as int)),
            decreases self.steps.len() - i,
        {
            out.append(" ");
            write_step(&mut out, &self.steps[i]);
            proof {
                let longer = all.take(i + 1);
                assert(longer.drop_last() =~= all.take(i as int));
                assert(longer.last() == all[i as int]);
            }
            i += 1;
        }
        assert(all.take(all.len() as int) =~= all);
        out
    }
}

} // verus!
