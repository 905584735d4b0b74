//! Assembling the code of a model: its imports, its database type and its API types.
use crate::text;
use vstd::prelude::*;

verus! {

/// A `use` item of `syn`.
#[verifier::external_type_specification]
#[verifier::external_body]
pub struct ExItemUse(syn::ItemUse);

/// The error type of `syn`.
#[verifier::external_type_specification]
#[verifier::external_body]
pub struct ExSynError(syn::Error);

/// What `syn::parse_str` makes of a text that is to be a `use` item: the item, or the
/// error, leaving aside the spans, which all stand for the place of the macro call.
pub uninterp spec fn parsed_use_item(line: Seq<char>) -> Result<syn::ItemUse, syn::Error>;

/// Calls `syn::parse_str` for a `syn::ItemUse`. The contract claims that the result
/// depends on the text alone.
#[verifier::external_body]
fn parse_use_item(line: &str) -> (item: Result<syn::ItemUse, syn::Error>)
    ensures
        item == parsed_use_item(line@),
{
    syn::parse_str::<syn::ItemUse>(line)
}

/// A set of import paths, in the order in which they were first inserted.
pub struct ImportSet {
    paths: Vec<String>,
}

impl View for ImportSet {
    type V = Seq<Seq<char>>;

    closed spec fn view(&self) -> Seq<Seq<char>> {
        text::texts(self.paths@)
    }
}

/// A list of paths after one was asked for: it stands at the end, unless it was there.
pub open spec fn inserted(paths: Seq<Seq<char>>, path: Seq<char>) -> Seq<Seq<char>> {
    if paths.contains(path) {
        paths
    } else {
        paths.push(path)
    }
}

/// The list of paths after a sequence of requests.
pub open spec fn inserted_all(requests: Seq<Seq<char>>) -> Seq<Seq<char>>
    decreases requests.len(),
{
    if requests.len() == 0 {
        seq![]
    } else {
        inserted(inserted_all(requests.drop_last()), requests.last())
    }
}

/// A request adds its path and keeps the others.
proof fn lemma_inserted_contains(paths: Seq<Seq<char>>, path: Seq<char>)
    ensures
        forall|other: Seq<char>| #[trigger]
            inserted(paths, path).contains(other) <==> paths.contains(other) || other == path,
{
    let after = inserted(paths, path);
    assert forall|other: Seq<char>| #[trigger]
        after.contains(other) <==> paths.contains(other) || other == path by {
        if !paths.contains(path) {
            assert(after[paths.len() as int] == path);
            if paths.contains(other) {
                let i = choose|i: int| 0 <= i < paths.len() && paths[i] == other;
                assert(after[i] == other);
            }
        }
    }
}

impl ImportSet {
    #[verifier::type_invariant]
    spec fn is_valid(self) -> bool {
        text::texts(self.paths@).no_duplicates()
    }

    /// The empty set.
    pub fn new() -> (imports: ImportSet)
        ensures
            imports@ == Seq::<Seq<char>>::empty(),
    {
        let imports = ImportSet { paths: Vec::new() };
        assert(imports@ =~= Seq::<Seq<char>>::empty());
        imports
    }

    /// Whether a path is in the set.
    pub fn contains(&self, path: &String) -> (found: bool)
        ensures
            found == self@.contains(path@),
    {
        let mut i: usize = 0;
        while i < self.paths.len()
            invariant
                i <= self.paths.len(),
                forall|j: int| 0 <= j < i ==> self@[j] != path@,
            decreases self.paths.len() - i,
        {
            if self.paths[i] == *path {
                assert(self@[i as int] == path@);
                return true;
            }
            i += 1;
        }
        assert(self@.len() == self.paths.len());
        false
    }

    /// Adds a path, unless it is there; tells whether it was added.
    pub fn insert(&mut self, path: String) -> (added: bool)
        ensures
            final(self)@ == inserted(old(self)@, path@),
            final(self)@.no_duplicates(),
            added == !old(self)@.contains(path@),
            forall|other: Seq<char>| #[trigger]
                final(self)@.contains(other) <==> old(self)@.contains(other) || other == path@,
    {
        proof {
            use_type_invariant(&*self);
            lemma_inserted_contains(self@, path@);
        }
        if self.contains(&path) {
            false
        } else {
            let mut paths: Vec<String> = Vec::new();
            std::mem::swap(&mut paths, &mut self.paths);
            paths.push(path);
            assert(text::texts(paths@) =~= old(self)@.push(path@));
            self.paths = paths;
            true
        }
    }

    /// The paths.
    pub fn paths(&self) -> (paths: &Vec<String>)
        ensures
            text::texts(paths@) == self@,
            self@.no_duplicates(),
    {
        proof {
            use_type_invariant(self);
        }
        &self.paths
    }
}

/// What a model's attributes ask for.
pub struct ModelOptions {
    /// The names of the API models to build.
    pub build_models: Vec<String>,
    /// Whether the imports are left out.
    pub no_imports: bool,
}

/// The code of a model.
pub struct ModelTokens<T> {
    pub imports: Vec<syn::ItemUse>,
    pub db: T,
    pub models: Vec<T>,
}

/// What to do next for a model.
pub enum ModelAction<E> {
    /// Build the database model.
    BuildDb,
    /// Build the API model of this name.
    BuildApi(String),
    /// Everything is built: put it together.
    Assemble,
    /// Give up.
    Fail(E),
}

/// What a [`ModelAction`] holds.
pub enum ModelActionView<E> {
    BuildDb,
    BuildApi(Seq<char>),
    Assemble,
    Fail(E),
}

impl<E> View for ModelAction<E> {
    type V = ModelActionView<E>;

    open spec fn view(&self) -> ModelActionView<E> {
        match self {
            ModelAction::BuildDb => ModelActionView::BuildDb,
            ModelAction::BuildApi(name) => ModelActionView::BuildApi(name@),
            ModelAction::Assemble => ModelActionView::Assemble,
            ModelAction::Fail(error) => ModelActionView::Fail(*error),
        }
    }
}

/// A model under construction.
pub struct ModelRun<T> {
    pub options: ModelOptions,
    /// The imports that the builders have asked for; a builder adds its own.
    pub imports: ImportSet,
    /// What is built: the database model, then the API models.
    pub built: Vec<T>,
}

/// The text of a `use` item for a path.
pub open spec fn use_line(path: Seq<char>) -> Seq<char> {
    "use "@ + path + ";"@
}

/// What `syn` makes of the `use` items of some paths, in their order.
pub open spec fn parsed_imports(paths: Seq<Seq<char>>) -> Seq<Result<syn::ItemUse, syn::Error>> {
    paths.map_values(|path: Seq<char>| parsed_use_item(use_line(path)))
}

/// Whether every result is a success.
pub open spec fn all_ok<I, E>(results: Seq<Result<I, E>>) -> bool {
    forall|i: int| 0 <= i < results.len() ==> (#[trigger] results[i]) is Ok
}

/// Whether an error is the first of some results.
pub open spec fn is_first_error<I, E>(results: Seq<Result<I, E>>, error: E) -> bool {
    exists|i: int|
        0 <= i < results.len() && #[trigger] results[i] == Err::<I, E>(error) && all_ok(
            results.take(i),
        )
}

/// Whether items are what some results hold, in their order.
pub open spec fn are_values<I, E>(items: Seq<I>, results: Seq<Result<I, E>>) -> bool {
    &&& items.len() == results.len()
    &&& forall|i: int|
        0 <= i < results.len() ==> results[i] == Ok::<I, E>(#[trigger] items[i])
}

/// The values of some results, in their order, or the first error.
pub fn collect_items<I, E>(results: Vec<Result<I, E>>) -> (items: Result<Vec<I>, E>)
    ensures
        items is Ok <==> all_ok(results@),
        items matches Ok(items) ==> are_values(items@, results@),
        items matches Err(error) ==> is_first_error(results@, error),
{
    let ghost all = results@;
    let mut rest = results;
    let mut items: Vec<I> = Vec::new();
    while rest.len() > 0
        invariant
            all == results@,
            items.len() + rest.len() == all.len(),
            rest@ == all.skip(items.len() as int),
            are_values(items@, all.take(items.len() as int)),
        decreases rest.len(),
    {
        let ghost i = items.len() as int;
        let ghost earlier = items@;
        assert(rest@[0] == all[i]);
        match rest.remove(0) {
            Ok(item) => {
                items.push(item);
                proof {
                    assert(rest@ =~= all.skip(i + 1));
                    let longer = all.take(i + 1);
                    assert forall|j: int| 0 <= j < longer.len() implies longer[j] == Ok::<I, E>(
                        #[trigger] items@[j],
                    ) by {
                        if j < i {
                            assert(items@[j] == earlier[j]);
                            assert(longer[j] == all.take(i)[j]);
                        }
                    }
                }
            },
            Err(error) => {
                proof {
                    let shorter = all.take(i);
                    assert forall|j: int| 0 <= j < shorter.len() implies (
                    #[trigger] shorter[j]) is Ok by {
                        let _ = items@[j];
                    }
                    assert(all[i] == Err::<I, E>(error));
                }
                return Err(error);
            },
        }
    }
    proof {
        assert(all.take(all.len() as int) =~= all);
        assert forall|j: int| 0 <= j < all.len() implies (#[trigger] all[j]) is Ok by {
            let _ = items@[j];
        }
    }
    Ok(items)
}

/// The `use` items of some paths, in their order; the error of the first that cannot
/// be parsed, if there is one.
pub fn import_items(paths: &Vec<String>) -> (items: Result<Vec<syn::ItemUse>, syn::Error>)
    ensures
        items is Ok <==> all_ok(parsed_imports(text::texts(paths@))),
        items matches Ok(items) ==> are_values(items@, parsed_imports(text::texts(paths@))),
        items matches Err(error) ==> is_first_error(
            parsed_imports(text::texts(paths@)),
            error,
        ),
{
    let mut parsed: Vec<Result<syn::ItemUse, syn::Error>> = Vec::new();
    let mut i: usize = 0;
    while i < paths.len()
        invariant
            i <= paths.len(),
            parsed.len() == i,
            forall|j: int|
                0 <= j < i ==> #[trigger] parsed@[j] == parsed_use_item(use_line(paths@[j]@)),
        decreases paths.len() - i,
    {
        let line = "use ".to_owned().concat(paths[i].as_str()).concat(";");
        parsed.push(parse_use_item(line.as_str()));
        i += 1;
    }
    assert(parsed@ =~= parsed_imports(text::texts(paths@)));
    collect_items(parsed)
}

/// What is to be done for a model of which so many parts are built.
pub open spec fn next_action<E>(build_models: Seq<Seq<char>>, built: nat) -> ModelActionView<E> {
    if built == 0 {
        ModelActionView::BuildDb
    } else if built <= build_models.len() {
        ModelActionView::BuildApi(build_models[built - 1])
    } else {
        ModelActionView::Assemble
    }
}

/// What is built, and what is to be done, after an attempt to build the next part.
pub open spec fn build_step<T, E>(
    build_models: Seq<Seq<char>>,
    built: Seq<T>,
    outcome: Result<T, E>,
) -> (Seq<T>, ModelActionView<E>) {
    match outcome {
        Ok(tokens) => (built.push(tokens), next_action::<E>(build_models, built.len() + 1)),
        Err(error) => (built, ModelActionView::Fail(error)),
    }
}

/// What is built, and what is to be done, after a sequence of attempts.
pub open spec fn build_steps<T, E>(
    build_models: Seq<Seq<char>>,
    outcomes: Seq<Result<T, E>>,
) -> (Seq<T>, ModelActionView<E>)
    decreases outcomes.len(),
{
    if outcomes.len() == 0 {
        (seq![], next_action::<E>(build_models, 0))
    } else {
        build_step(
            build_models,
            build_steps(build_models, outcomes.drop_last()).0,
            outcomes.last(),
        )
    }
}

/// Starts a model. The first thing to do is to build the database model.
pub fn process_model<T, E>(options: ModelOptions) -> (start: (ModelRun<T>, ModelAction<E>))
    ensures
        start.0.options == options,
        start.0.imports@ == Seq::<Seq<char>>::empty(),
        (start.0.built@, start.1@) == build_steps::<T, E>(start.0.build_models(), seq![]),
{
    let run = ModelRun { options, imports: ImportSet::new(), built: Vec::new() };
    (run, ModelAction::BuildDb)
}

impl<T> ModelRun<T> {
    /// The names of the API models to build.
    pub open spec fn build_models(&self) -> Seq<Seq<char>> {
        text::texts(self.options.build_models@)
    }

    /// Whether everything is built.
    pub open spec fn is_complete(&self) -> bool {
        self.built@.len() == self.build_models().len() + 1
    }

    /// Whether there is something left to build.
    pub open spec fn is_open(&self) -> bool {
        self.built@.len() <= self.build_models().len()
    }

    /// Takes what the last action built, or why it could not.
    pub fn on_built<E>(&mut self, outcome: Result<T, E>) -> (action: ModelAction<E>)
        requires
            old(self).is_open(),
        ensures
            final(self).options == old(self).options,
            final(self).imports == old(self).imports,
            (final(self).built@, action@) == build_step(
                old(self).build_models(),
                old(self).built@,
                outcome,
            ),
    {
        match outcome {
            Ok(tokens) => {
                self.built.push(tokens);
                let built: usize = self.built.len();
                if built <= self.options.build_models.len() {
                    ModelAction::BuildApi(self.options.build_models[built - 1].clone())
                } else {
                    ModelAction::Assemble
                }
            },
            Err(error) => ModelAction::Fail(error),
        }
    }

    /// Whether every import that the code of the model holds can be parsed.
    pub open spec fn imports_parse(&self) -> bool {
        self.options.no_imports || all_ok(parsed_imports(self.imports@))
    }

    /// Whether some code is that of the model: the imports, unless they are left out,
    /// the database model, and the API models in the order of their names.
    pub open spec fn is_code(&self, tokens: ModelTokens<T>) -> bool {
        &&& tokens.db == self.built@[0]
        &&& tokens.models@ == self.built@.skip(1)
        &&& if self.options.no_imports {
            tokens.imports@.len() == 0
        } else {
            are_values(tokens.imports@, parsed_imports(self.imports@))
        }
    }

    /// Puts the code of the model together. Every import must be a path that a `use`
    /// item can have.
    pub fn assemble(self) -> (tokens: ModelTokens<T>)
        requires
            self.is_complete(),
            self.imports_parse(),
        ensures
            self.is_code(tokens),
    {
        if self.options.no_imports {
            self.with_imports(Vec::new())
        } else {
            let imports = import_items(self.imports.paths()).unwrap();
            self.with_imports(imports)
        }
    }

    /// Puts the code of the model together where its imports can be parsed; else gives
    /// the error of the first that cannot.
    pub fn try_assemble(self) -> (tokens: Result<ModelTokens<T>, syn::Error>)
        requires
            self.is_complete(),
        ensures
            tokens is Ok <==> self.imports_parse(),
            tokens matches Ok(tokens) ==> self.is_code(tokens),
            tokens matches Err(error) ==> is_first_error(parsed_imports(self.imports@), error),
    {
        if !self.options.no_imports {
            if let Err(error) = import_items(self.imports.paths()) {
                return Err(error);
            }
        }
        Ok(self.assemble())
    }

    /// Puts the code of the model together under the given imports.
    pub fn with_imports(self, imports: Vec<syn::ItemUse>) -> (tokens: ModelTokens<T>)
        requires
            self.is_complete(),
        ensures
            tokens.imports == imports,
            tokens.db == self.built@[0],
            tokens.models@ == self.built@.skip(1),
    {
        let mut models = self.built;
        let db = models.remove(0);
        assert(models@ =~= self.built@.skip(1));
        ModelTokens { imports, db, models }
    }
}

/// As long as the builders succeed, the database model is built first and then each
/// API model in the order of the names; after the last of them everything that was
/// built is there, in that order, and is put together.
pub proof fn law_models_are_built_in_order<T, E>(
    build_models: Seq<Seq<char>>,
    outcomes: Seq<Result<T, E>>,
)
    requires
        outcomes.len() <= build_models.len() + 1,
        forall|i: int| 0 <= i < outcomes.len() ==> (#[trigger] outcomes[i]) is Ok,
    ensures
        build_steps(build_models, outcomes).0 == outcomes.map_values(
            |outcome: Result<T, E>| outcome->Ok_0,
        ),
        build_steps(build_models, outcomes).1 == (if outcomes.len() == 0 {
            ModelActionView::<E>::BuildDb
        } else if outcomes.len() == build_models.len() + 1 {
            ModelActionView::<E>::Assemble
        } else {
            ModelActionView::<E>::BuildApi(build_models[outcomes.len() - 1])
        }),
    decreases outcomes.len(),
{
    let tokens = |outcome: Result<T, E>| outcome->Ok_0;
    if outcomes.len() == 0 {
        assert(outcomes.map_values(tokens) =~= Seq::<T>::empty());
    } else {
        let earlier = outcomes.drop_last();
        assert forall|i: int| 0 <= i < earlier.len() implies (#[trigger] earlier[i]) is Ok by {
            assert(earlier[i] == outcomes[i]);
        }
        law_models_are_built_in_order(build_models, earlier);
        assert(outcomes[outcomes.len() - 1] is Ok);
        assert(outcomes.map_values(tokens) =~= earlier.map_values(tokens).push(
            tokens(outcomes.last()),
        ));
    }
}

/// The first builder that fails ends the work with its error, and what was built stays
/// as it was.
pub proof fn law_first_error_ends_the_work<T, E>(
    build_models: Seq<Seq<char>>,
    outcomes: Seq<Result<T, E>>,
    error: E,
)
    ensures
        build_steps(build_models, outcomes.push(Err::<T, E>(error))) == (
            build_steps(build_models, outcomes).0,
            ModelActionView::<E>::Fail(error),
        ),
{
    assert(outcomes.push(Err::<T, E>(error)).drop_last() =~= outcomes);
}

/// What was asked for is in the list, nothing else is, and nothing is twice.
proof fn lemma_inserted_all(requests: Seq<Seq<char>>)
    ensures
        inserted_all(requests).no_duplicates(),
        forall|path: Seq<char>| #[trigger]
            inserted_all(requests).contains(path) <==> requests.contains(path),
    decreases requests.len(),
{
    if requests.len() > 0 {
        let earlier = requests.drop_last();
        let last = requests.last();
        lemma_inserted_all(earlier);
        let (before, after) = (inserted_all(earlier), inserted_all(requests));
        lemma_inserted_contains(before, last);
        assert forall|path: Seq<char>| #[trigger]
            after.contains(path) <==> requests.contains(path) by {
            assert(requests[requests.len() - 1] == last);
            if earlier.contains(path) {
                let i = choose|i: int| 0 <= i < earlier.len() && earlier[i] == path;
                assert(requests[i] == path);
            }
            if requests.contains(path) && path != last {
                let i = choose|i: int| 0 <= i < requests.len() && requests[i] == path;
                assert(earlier[i] == path);
            }
            assert(before.contains(path) <==> earlier.contains(path));
        }
    }
}

/// Whether the item at a place is the `use` item of a path.
pub open spec fn is_item_at(
    items: Seq<syn::ItemUse>,
    paths: Seq<Seq<char>>,
    i: int,
    path: Seq<char>,
) -> bool {
    &&& 0 <= i < items.len()
    &&& paths[i] == path
    &&& parsed_use_item(use_line(path)) == Ok::<syn::ItemUse, syn::Error>(items[i])
}

/// However often a path was asked for, one `use` item stands for it; there are as many
/// items as different paths.
pub proof fn law_each_import_gets_one_item(
    requests: Seq<Seq<char>>,
    items: Seq<syn::ItemUse>,
    path: Seq<char>,
)
    requires
        are_values(items, parsed_imports(inserted_all(requests))),
    ensures
        items.len() == requests.to_set().len(),
        requests.contains(path) <==> exists|i: int| #[trigger]
            is_item_at(items, inserted_all(requests), i, path),
        forall|i: int, j: int|
            #[trigger] is_item_at(items, inserted_all(requests), i, path) && #[trigger] is_item_at(
                items,
                inserted_all(requests),
                j,
                path,
            ) ==> i == j,
{
    let paths = inserted_all(requests);
    lemma_inserted_all(requests);
    paths.unique_seq_to_set();
    assert(paths.to_set() =~= requests.to_set()) by {
        assert forall|p: Seq<char>| paths.to_set().contains(p) <==> requests.to_set().contains(
            p,
        ) by {
            assert(paths.contains(p) <==> requests.contains(p));
        }
    }
    assert(paths.contains(path) <==> requests.contains(path));
    if paths.contains(path) {
        let i = choose|i: int| 0 <= i < paths.len() && paths[i] == path;
        assert(parsed_imports(paths)[i] == Ok::<syn::ItemUse, syn::Error>(items[i]));
        assert(is_item_at(items, paths, i, path));
    }
}

/// Sequences that hold the values of the same keys, each key once, hold the same values
/// up to their order.
proof fn lemma_values_up_to_order<K, V>(
    keys: Seq<K>,
    values: Seq<V>,
    other_keys: Seq<K>,
    other_values: Seq<V>,
    value: spec_fn(K) -> V,
)
    requires
        keys.no_duplicates(),
        other_keys.no_duplicates(),
        forall|key: K| #[trigger] keys.contains(key) <==> other_keys.contains(key),
        values == keys.map_values(value),
        other_values == other_keys.map_values(value),
    ensures
        values.to_multiset() == other_values.to_multiset(),
    decreases keys.len(),
{
    broadcast use vstd::seq_lib::group_to_multiset_ensures;

    if keys.len() == 0 {
        if other_keys.len() > 0 {
            assert(other_keys.contains(other_keys[0]));
            assert(keys.contains(other_keys[0]));
        }
        assert(values =~= other_values);
    } else {
        let last = keys.last();
        assert(keys[keys.len() - 1] == last);
        assert(keys.contains(last));
        let k = choose|k: int| 0 <= k < other_keys.len() && other_keys[k] == last;
        let rest = keys.drop_last();
        let other_rest = other_keys.remove(k);
        assert forall|i: int, j: int|
            0 <= i < other_rest.len() && 0 <= j < other_rest.len() && i != j implies other_rest[i]
            != other_rest[j] by {
            let (x, y) = (
                if i < k {
                    i
                } else {
                    i + 1
                },
                if j < k {
                    j
                } else {
                    j + 1
                },
            );
            assert(other_rest[i] == other_keys[x] && other_rest[j] == other_keys[y]);
        }
        assert forall|key: K| #[trigger] rest.contains(key) <==> other_rest.contains(key) by {
            assert(keys.contains(key) <==> other_keys.contains(key));
            if rest.contains(key) {
                let i = choose|i: int| 0 <= i < rest.len() && rest[i] == key;
                assert(keys[i] == key);
                assert(keys.contains(key));
                let j = choose|j: int| 0 <= j < other_keys.len() && other_keys[j] == key;
                assert(j != k);
                let x = if j < k {
                    j
                } else {
                    j - 1
                };
                assert(other_rest[x] == key);
            }
            if other_rest.contains(key) {
                let j = choose|j: int| 0 <= j < other_rest.len() && other_rest[j] == key;
                let x = if j < k {
                    j
                } else {
                    j + 1
                };
                assert(other_keys[x] == key);
                assert(x != k);
                assert(key != last);
                assert(other_keys.contains(key));
                let i = choose|i: int| 0 <= i < keys.len() && keys[i] == key;
                assert(rest[i] == key);
            }
        }
        let rest_values = rest.map_values(value);
        let other_rest_values = other_rest.map_values(value);
        lemma_values_up_to_order(rest, rest_values, other_rest, other_rest_values, value);
        assert(values =~= rest_values.push(value(last)));
        assert(other_rest_values =~= other_values.remove(k));
        assert(other_values[k] == value(last));
        assert(other_rest_values.to_multiset().insert(value(last)) =~= other_values.to_multiset());
    }
}

/// Two complete models with the same options, the same built parts and the same imports
/// asked for, in whatever order and however often, have the same code up to the order
/// of the `use` items.
pub proof fn law_code_is_settled_up_to_import_order<T>(
    a: ModelRun<T>,
    b: ModelRun<T>,
    a_requests: Seq<Seq<char>>,
    b_requests: Seq<Seq<char>>,
    a_tokens: ModelTokens<T>,
    b_tokens: ModelTokens<T>,
)
    requires
        a.is_complete(),
        b.is_complete(),
        a.options.no_imports == b.options.no_imports,
        a.build_models() == b.build_models(),
        a.built@ == b.built@,
        a.imports@ == inserted_all(a_requests),
        b.imports@ == inserted_all(b_requests),
        a_requests.to_set() == b_requests.to_set(),
        a.is_code(a_tokens),
        b.is_code(b_tokens),
    ensures
        a_tokens.db == b_tokens.db,
        a_tokens.models@ == b_tokens.models@,
        a_tokens.imports@.to_multiset() == b_tokens.imports@.to_multiset(),
{
    if a.options.no_imports {
        assert(a_tokens.imports@ =~= b_tokens.imports@);
    } else {
        lemma_inserted_all(a_requests);
        lemma_inserted_all(b_requests);
        let item = |path: Seq<char>| parsed_use_item(use_line(path))->Ok_0;
        assert forall|path: Seq<char>| #[trigger]
            a.imports@.contains(path) <==> b.imports@.contains(path) by {
            assert(a_requests.contains(path) <==> a_requests.to_set().contains(path));
            assert(b_requests.contains(path) <==> b_requests.to_set().contains(path));
        }
        assert(a_tokens.imports@ =~= a.imports@.map_values(item)) by {
            assert forall|i: int| 0 <= i < a.imports@.len() implies a_tokens.imports@[i] == item(
                a.imports@[i],
            ) by {
                assert(parsed_imports(a.imports@)[i] == Ok::<syn::ItemUse, syn::Error>(
                    a_tokens.imports@[i],
                ));
            }
        }
        assert(b_tokens.imports@ =~= b.imports@.map_values(item)) by {
            assert forall|i: int| 0 <= i < b.imports@.len() implies b_tokens.imports@[i] == item(
                b.imports@[i],
            ) by {
                assert(parsed_imports(b.imports@)[i] == Ok::<syn::ItemUse, syn::Error>(
                    b_tokens.imports@[i],
                ));
            }
        }
        lemma_values_up_to_order(
            a.imports@,
            a_tokens.imports@,
            b.imports@,
            b_tokens.imports@,
            item,
        );
    }
}

} // verus!
