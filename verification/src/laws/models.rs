//! Laws of assembling the code of a model.
use crate::model;
use crate::model::ImportSet;
use crate::model::ModelAction;
use crate::model::ModelOptions;
use crate::model::ModelRun;
use crate::model::ModelTokens;
use crate::text;
use vstd::prelude::*;

verus! {

/// Whether a list of strings holds a text.
pub open spec fn has_text(strings: Seq<String>, path: Seq<char>) -> bool {
    exists|i: int| 0 <= i < strings.len() && (#[trigger] strings[i])@ == path
}

/// A list of strings holds a text exactly if it is among what they hold.
proof fn lemma_has_text(strings: Seq<String>, path: Seq<char>)
    ensures
        has_text(strings, path) <==> text::texts(strings).contains(path),
{
    let held = text::texts(strings);
    if has_text(strings, path) {
        let i = choose|i: int| 0 <= i < strings.len() && (#[trigger] strings[i])@ == path;
        assert(held[i] == path);
    }
    if held.contains(path) {
        let i = choose|i: int| 0 <= i < held.len() && held[i] == path;
        assert(strings[i]@ == path);
    }
}

/// A new set of imports has no path.
pub proof fn law_new_import_set_is_empty(imports: ImportSet, paths: &Vec<String>)
    requires
        call_ensures(ImportSet::new, (), imports),
        call_ensures(ImportSet::paths, (&imports,), paths),
    ensures
        paths@.len() == 0,
{
    assert(text::texts(paths@).len() == paths@.len());
}

/// A path is found exactly if it is one of the set's paths.
pub proof fn law_path_is_found(
    imports: ImportSet,
    paths: &Vec<String>,
    path: &String,
    found: bool,
)
    requires
        call_ensures(ImportSet::paths, (&imports,), paths),
        call_ensures(ImportSet::contains, (&imports, path), found),
    ensures
        found <==> has_text(paths@, path@),
{
    lemma_has_text(paths@, path@);
}

/// A path that is asked for goes behind the others if it is new; else nothing changes.
pub proof fn law_path_is_inserted_once(
    imports: &mut ImportSet,
    path: String,
    added: bool,
    before: &Vec<String>,
    after: &Vec<String>,
)
    requires
        call_ensures(ImportSet::insert, (imports, path), added),
        call_ensures(ImportSet::paths, (&*old(imports),), before),
        call_ensures(ImportSet::paths, (&*final(imports),), after),
    ensures
        added <==> !has_text(before@, path@),
        after@.len() == before@.len() + (if added {
            1int
        } else {
            0
        }),
        forall|i: int| 0 <= i < before@.len() ==> (#[trigger] after@[i])@ == before@[i]@,
        added ==> after@.last()@ == path@,
{
    lemma_has_text(before@, path@);
    let (b, a) = (text::texts(before@), text::texts(after@));
    assert(b.len() == before@.len() && a.len() == after@.len());
    assert forall|i: int| 0 <= i < before@.len() implies (#[trigger] after@[i])@ == before@[i]@ by {
        assert(a[i] == b[i]);
    }
    if added {
        assert(a.last() == path@);
    }
}

/// A set's paths are all different.
pub proof fn law_paths_are_different(imports: ImportSet, paths: &Vec<String>)
    requires
        call_ensures(ImportSet::paths, (&imports,), paths),
    ensures
        forall|i: int, j: int|
            0 <= i < j < paths@.len() ==> (#[trigger] paths@[i])@ != (#[trigger] paths@[j])@,
{
    let held = text::texts(paths@);
    assert forall|i: int, j: int| 0 <= i < j < paths@.len() implies (#[trigger] paths@[i])@ != (
    #[trigger] paths@[j])@ by {
        assert(held[i] != held[j]);
    }
}

/// What a set holds after so many requests.
proof fn lemma_requested(
    calls: Seq<&mut ImportSet>,
    sets: Seq<ImportSet>,
    requests: Seq<String>,
    added: Seq<bool>,
    n: int,
)
    requires
        calls.len() == added.len() == requests.len(),
        sets.len() == requests.len() + 1,
        sets[0]@ == Seq::<Seq<char>>::empty(),
        forall|r: int|
            0 <= r < requests.len() ==> #[trigger] call_ensures(
                ImportSet::insert,
                (calls[r], requests[r]),
                added[r],
            ) && *calls[r] == sets[r] && *final(calls[r]) == sets[r + 1],
        0 <= n <= requests.len(),
    ensures
        sets[n]@ == model::inserted_all(text::texts(requests.take(n))),
        forall|path: Seq<char>| #[trigger]
            sets[n]@.contains(path) <==> text::texts(requests.take(n)).contains(path),
    decreases n,
{
    let held = text::texts(requests.take(n));
    if n == 0 {
        assert(held =~= Seq::<Seq<char>>::empty());
    } else {
        lemma_requested(calls, sets, requests, added, n - 1);
        assert(call_ensures(
            ImportSet::insert,
            (calls[n - 1], requests[n - 1]),
            added[n - 1],
        ));
        let earlier = text::texts(requests.take(n - 1));
        let last = requests[n - 1]@;
        assert(held =~= earlier.push(last));
        assert(held.drop_last() =~= earlier);
        assert forall|path: Seq<char>| #[trigger]
            sets[n]@.contains(path) <==> held.contains(path) by {
            assert(sets[n]@.contains(path) <==> sets[n - 1]@.contains(path) || path == last);
            assert(sets[n - 1]@.contains(path) <==> earlier.contains(path));
            assert(held[n - 1] == last);
            if earlier.contains(path) {
                let i = choose|i: int| 0 <= i < earlier.len() && earlier[i] == path;
                assert(held[i] == path);
            }
            if held.contains(path) && path != last {
                let i = choose|i: int| 0 <= i < held.len() && held[i] == path;
                assert(earlier[i] == path);
            }
        }
    }
}

/// The complete model that is put together holds its database model, and its API models
/// in their order, whatever is done about the imports.
proof fn lemma_parts<T>(run: ModelRun<T>, tokens: ModelTokens<T>)
    requires
        run.built@.len() == run.options.build_models@.len() + 1,
        run.is_code(tokens),
    ensures
        tokens.db == run.built@[0],
        tokens.models@.len() == run.options.build_models@.len(),
        forall|i: int| 0 <= i < tokens.models@.len() ==> #[trigger] tokens.models@[i]
            == run.built@[i + 1],
{
}

/// The code of a model that does without imports has none, and has the database model
/// and the API models as they were built.
pub proof fn law_code_without_imports<T>(
    run: ModelRun<T>,
    tokens: ModelTokens<T>,
    tried: Result<ModelTokens<T>, syn::Error>,
)
    requires
        run.built@.len() == run.options.build_models@.len() + 1,
        run.options.no_imports,
        call_ensures(ModelRun::<T>::assemble, (run,), tokens),
        call_ensures(ModelRun::<T>::try_assemble, (run,), tried),
    ensures
        tokens.imports@.len() == 0,
        tokens.db == run.built@[0],
        tokens.models@.len() == run.options.build_models@.len(),
        forall|i: int| 0 <= i < tokens.models@.len() ==> #[trigger] tokens.models@[i]
            == run.built@[i + 1],
        tried is Ok,
        tried->Ok_0.imports@.len() == 0,
        tried->Ok_0.db == tokens.db,
        tried->Ok_0.models@ == tokens.models@,
{
    lemma_parts(run, tokens);
    lemma_parts(run, tried->Ok_0);
}

/// The code of a model with imports, however many API models it has, has the parsed
/// `use` item of each of the set's paths, in their order and no others, and has the
/// database model and the API models as they were built.
pub proof fn law_code_with_imports<T>(
    run: ModelRun<T>,
    paths: &Vec<String>,
    tokens: ModelTokens<T>,
)
    requires
        run.built@.len() == run.options.build_models@.len() + 1,
        !run.options.no_imports,
        call_ensures(ImportSet::paths, (&run.imports,), paths),
        forall|i: int|
            0 <= i < paths@.len() ==> model::parsed_use_item(
                "use "@ + (#[trigger] paths@[i])@ + ";"@,
            ) is Ok,
        call_ensures(ModelRun::<T>::assemble, (run,), tokens),
    ensures
        tokens.imports@.len() == paths@.len(),
        forall|i: int|
            0 <= i < paths@.len() ==> model::parsed_use_item(
                "use "@ + (#[trigger] paths@[i])@ + ";"@,
            ) == Ok::<syn::ItemUse, syn::Error>(tokens.imports@[i]),
        tokens.db == run.built@[0],
        tokens.models@.len() == run.options.build_models@.len(),
        forall|i: int| 0 <= i < tokens.models@.len() ==> #[trigger] tokens.models@[i]
            == run.built@[i + 1],
{
    lemma_parts(run, tokens);
    lemma_items(paths@, run.imports@, tokens.imports@);
}

/// Items that are the values of the parsed `use` items of some paths, one by one.
proof fn lemma_items(paths: Seq<String>, held: Seq<Seq<char>>, items: Seq<syn::ItemUse>)
    requires
        text::texts(paths) == held,
        model::are_values(items, model::parsed_imports(held)),
    ensures
        items.len() == paths.len(),
        forall|i: int|
            0 <= i < paths.len() ==> model::parsed_use_item("use "@ + (#[trigger] paths[i])@ + ";"@)
                == Ok::<syn::ItemUse, syn::Error>(items[i]),
{
    assert(held.len() == paths.len());
    assert forall|i: int| 0 <= i < paths.len() implies model::parsed_use_item(
        "use "@ + (#[trigger] paths[i])@ + ";"@,
    ) == Ok::<syn::ItemUse, syn::Error>(items[i]) by {
        assert(held[i] == paths[i]@);
        assert(model::parsed_imports(held)[i] == Ok::<syn::ItemUse, syn::Error>(items[i]));
    }
}

/// However often the paths were asked for, the code of a model with imports has as many
/// `use` items as there are different paths, and the item of every path that was asked
/// for.
pub proof fn law_code_imports_what_was_asked_for<T>(
    imports: ImportSet,
    calls: Seq<&mut ImportSet>,
    sets: Seq<ImportSet>,
    requests: Seq<String>,
    added: Seq<bool>,
    run: ModelRun<T>,
    tokens: ModelTokens<T>,
    k: int,
)
    requires
        call_ensures(ImportSet::new, (), imports),
        calls.len() == added.len() == requests.len(),
        sets.len() == requests.len() + 1,
        sets[0] == imports,
        forall|r: int|
            0 <= r < requests.len() ==> #[trigger] call_ensures(
                ImportSet::insert,
                (calls[r], requests[r]),
                added[r],
            ) && *calls[r] == sets[r] && *final(calls[r]) == sets[r + 1],
        run.imports == sets.last(),
        run.built@.len() == run.options.build_models@.len() + 1,
        !run.options.no_imports,
        forall|r: int|
            0 <= r < requests.len() ==> model::parsed_use_item(
                "use "@ + (#[trigger] requests[r])@ + ";"@,
            ) is Ok,
        call_ensures(ModelRun::<T>::assemble, (run,), tokens),
        0 <= k < requests.len(),
    ensures
        tokens.imports@.len() == requests.map_values(|s: String| s@).to_set().len(),
        tokens.imports@.contains(
            model::parsed_use_item("use "@ + requests[k]@ + ";"@)->Ok_0,
        ),
{
    let n = requests.len() as int;
    let asked = text::texts(requests);
    lemma_requested(calls, sets, requests, added, n);
    assert(requests.take(n) =~= requests);
    assert(model::all_ok(model::parsed_imports(run.imports@))) by {
        let parsed = model::parsed_imports(run.imports@);
        assert forall|i: int| 0 <= i < parsed.len() implies (#[trigger] parsed[i]) is Ok by {
            let path = run.imports@[i];
            assert(run.imports@.contains(path));
            let r = choose|r: int| 0 <= r < asked.len() && asked[r] == path;
            assert(requests[r]@ == path);
        }
    }
    model::law_each_import_gets_one_item(asked, tokens.imports@, requests[k]@);
    assert(asked[k] == requests[k]@);
    let i = choose|i: int| #[trigger]
        model::is_item_at(tokens.imports@, model::inserted_all(asked), i, requests[k]@);
    assert(tokens.imports@[i] == model::parsed_use_item("use "@ + requests[k]@ + ";"@)->Ok_0);
}

/// With imports, an attempt succeeds exactly if each of the set's paths can be parsed,
/// and then gives what `assemble` gives; else it gives the error of the first path that
/// cannot.
pub proof fn law_attempt_fails_at_the_first_bad_import<T>(
    run: ModelRun<T>,
    paths: &Vec<String>,
    tried: Result<ModelTokens<T>, syn::Error>,
)
    requires
        run.built@.len() == run.options.build_models@.len() + 1,
        !run.options.no_imports,
        call_ensures(ImportSet::paths, (&run.imports,), paths),
        call_ensures(ModelRun::<T>::try_assemble, (run,), tried),
    ensures
        tried is Ok <==> forall|i: int|
            0 <= i < paths@.len() ==> model::parsed_use_item(
                "use "@ + (#[trigger] paths@[i])@ + ";"@,
            ) is Ok,
        tried matches Ok(tokens) ==> tokens.imports@.len() == paths@.len() && tokens.db
            == run.built@[0] && tokens.models@ == run.built@.skip(1),
        tried matches Ok(tokens) ==> forall|i: int|
            0 <= i < paths@.len() ==> model::parsed_use_item(
                "use "@ + (#[trigger] paths@[i])@ + ";"@,
            ) == Ok::<syn::ItemUse, syn::Error>(tokens.imports@[i]),
        tried matches Err(error) ==> exists|k: int|
            0 <= k < paths@.len() && model::parsed_use_item(
                "use "@ + (#[trigger] paths@[k])@ + ";"@,
            ) == Err::<syn::ItemUse, syn::Error>(error) && forall|i: int|
                0 <= i < k ==> model::parsed_use_item(
                    "use "@ + (#[trigger] paths@[i])@ + ";"@,
                ) is Ok,
{
    let parsed = model::parsed_imports(run.imports@);
    assert(parsed.len() == paths@.len());
    assert forall|i: int| 0 <= i < paths@.len() implies parsed[i] == model::parsed_use_item(
        "use "@ + (#[trigger] paths@[i])@ + ";"@,
    ) by {
        assert(run.imports@[i] == paths@[i]@);
    }
    match tried {
        Ok(tokens) => {
            lemma_items(paths@, run.imports@, tokens.imports@);
        },
        Err(error) => {
            let k = choose|k: int|
                0 <= k < parsed.len() && #[trigger] parsed[k] == Err::<syn::ItemUse, syn::Error>(
                    error,
                ) && model::all_ok(parsed.take(k));
            assert forall|i: int| 0 <= i < k implies model::parsed_use_item(
                "use "@ + (#[trigger] paths@[i])@ + ";"@,
            ) is Ok by {
                assert(parsed.take(k)[i] is Ok);
            }
            let _ = paths@[k];
        },
    }
}

/// Results become their values, in their order, if all are successes, and else the
/// first error.
pub proof fn law_first_error_is_kept<I, E>(results: Vec<Result<I, E>>, items: Result<Vec<I>, E>)
    requires
        call_ensures(model::collect_items::<I, E>, (results,), items),
    ensures
        items is Ok <==> forall|i: int| 0 <= i < results@.len() ==> #[trigger] results@[i] is Ok,
        items matches Ok(values) ==> values@.len() == results@.len() && forall|i: int|
            0 <= i < results@.len() ==> #[trigger] results@[i] == Ok::<I, E>(values@[i]),
        items matches Err(error) ==> exists|k: int|
            0 <= k < results@.len() && #[trigger] results@[k] == Err::<I, E>(error) && forall|i: int|
                0 <= i < k ==> #[trigger] results@[i] is Ok,
{
    match items {
        Ok(values) => {
            assert forall|i: int| 0 <= i < results@.len() implies #[trigger] results@[i] == Ok::<
                I,
                E,
            >(values@[i]) by {
                let _ = values@[i];
            }
        },
        Err(error) => {
            let k = choose|k: int|
                0 <= k < results@.len() && #[trigger] results@[k] == Err::<I, E>(error)
                    && model::all_ok(results@.take(k));
            assert forall|i: int| 0 <= i < k implies #[trigger] results@[i] is Ok by {
                assert(results@.take(k)[i] is Ok);
            }
        },
    }
}

/// Paths become their `use` items, in their order, if all can be parsed, and else the
/// error of the first that cannot.
pub proof fn law_paths_become_use_items(
    paths: &Vec<String>,
    items: Result<Vec<syn::ItemUse>, syn::Error>,
)
    requires
        call_ensures(model::import_items, (paths,), items),
    ensures
        items is Ok <==> forall|i: int|
            0 <= i < paths@.len() ==> model::parsed_use_item(
                "use "@ + (#[trigger] paths@[i])@ + ";"@,
            ) is Ok,
        items matches Ok(values) ==> values@.len() == paths@.len() && forall|i: int|
            0 <= i < paths@.len() ==> model::parsed_use_item(
                "use "@ + (#[trigger] paths@[i])@ + ";"@,
            ) == Ok::<syn::ItemUse, syn::Error>(values@[i]),
        items matches Err(error) ==> exists|k: int|
            0 <= k < paths@.len() && model::parsed_use_item(
                "use "@ + (#[trigger] paths@[k])@ + ";"@,
            ) == Err::<syn::ItemUse, syn::Error>(error) && forall|i: int|
                0 <= i < k ==> model::parsed_use_item(
                    "use "@ + (#[trigger] paths@[i])@ + ";"@,
                ) is Ok,
{
    let held = text::texts(paths@);
    let parsed = model::parsed_imports(held);
    assert(parsed.len() == paths@.len());
    assert forall|i: int| 0 <= i < paths@.len() implies parsed[i] == model::parsed_use_item(
        "use "@ + (#[trigger] paths@[i])@ + ";"@,
    ) by {
        assert(held[i] == paths@[i]@);
    }
    match items {
        Ok(values) => {
            lemma_items(paths@, held, values@);
        },
        Err(error) => {
            let k = choose|k: int|
                0 <= k < parsed.len() && #[trigger] parsed[k] == Err::<syn::ItemUse, syn::Error>(
                    error,
                ) && model::all_ok(parsed.take(k));
            assert forall|i: int| 0 <= i < k implies model::parsed_use_item(
                "use "@ + (#[trigger] paths@[i])@ + ";"@,
            ) is Ok by {
                assert(parsed.take(k)[i] is Ok);
            }
            let _ = paths@[k];
        },
    }
}

/// Given imports go into the code as they are, beside the models as they were built.
pub proof fn law_given_imports_are_kept<T>(
    run: ModelRun<T>,
    imports: Vec<syn::ItemUse>,
    tokens: ModelTokens<T>,
)
    requires
        run.built@.len() == run.options.build_models@.len() + 1,
        call_ensures(ModelRun::<T>::with_imports, (run, imports), tokens),
    ensures
        tokens.imports@ == imports@,
        tokens.db == run.built@[0],
        tokens.models@.len() == run.options.build_models@.len(),
        forall|i: int| 0 <= i < tokens.models@.len() ==> #[trigger] tokens.models@[i]
            == run.built@[i + 1],
{
}

/// A model starts with its options, without imports and with nothing built; the first
/// thing to do is to build the database model.
pub proof fn law_model_starts_with_nothing_built<T, E>(
    options: ModelOptions,
    start: (ModelRun<T>, ModelAction<E>),
    paths: &Vec<String>,
)
    requires
        call_ensures(model::process_model::<T, E>, (options,), start),
        call_ensures(ImportSet::paths, (&start.0.imports,), paths),
    ensures
        start.0.options == options,
        paths@.len() == 0,
        start.0.built@.len() == 0,
        start.1 is BuildDb,
{
    assert(text::texts(paths@).len() == paths@.len());
}

/// What a builder made goes behind what was built. After it the API model of the next
/// name is to be built or, where every name has had its turn, everything is put
/// together.
pub proof fn law_built_part_is_kept<T, E>(run: &mut ModelRun<T>, part: T, action: ModelAction<E>)
    requires
        old(run).built@.len() <= old(run).options.build_models@.len(),
        call_ensures(ModelRun::<T>::on_built::<E>, (run, Ok::<T, E>(part)), action),
    ensures
        final(run).built@ == old(run).built@.push(part),
        final(run).options == old(run).options,
        final(run).imports == old(run).imports,
        old(run).built@.len() < old(run).options.build_models@.len() ==> (action matches
            ModelAction::BuildApi(name) && name@
            == old(run).options.build_models@[old(run).built@.len() as int]@),
        old(run).built@.len() == old(run).options.build_models@.len() ==> action is Assemble,
{
}

/// A builder that fails ends the work with its error, and what was built stays as it
/// was.
pub proof fn law_failed_part_ends_the_work<T, E>(
    run: &mut ModelRun<T>,
    error: E,
    action: ModelAction<E>,
)
    requires
        old(run).built@.len() <= old(run).options.build_models@.len(),
        call_ensures(ModelRun::<T>::on_built::<E>, (run, Err::<T, E>(error)), action),
    ensures
        action == ModelAction::<E>::Fail(error),
        final(run).built@ == old(run).built@,
        final(run).options == old(run).options,
        final(run).imports == old(run).imports,
{
}

/// As long as something is left to build, what was built can be taken.
pub proof fn law_every_part_can_be_taken<T, E>(outcome: Result<T, E>)
    ensures
        forall|run: &mut ModelRun<T>|
            (*run).built@.len() <= (*run).options.build_models@.len() ==> #[trigger] call_requires(
                ModelRun::<T>::on_built::<E>,
                (run, outcome),
            ),
{
}

/// Every complete model can be put together under given imports, or tried to be put
/// together under its own; where it has no imports, or all of them can be parsed, it
/// can be put together.
pub proof fn law_every_complete_model_can_be_assembled<T>(
    run: ModelRun<T>,
    imports: Vec<syn::ItemUse>,
    paths: &Vec<String>,
)
    requires
        run.built@.len() == run.options.build_models@.len() + 1,
        call_ensures(ImportSet::paths, (&run.imports,), paths),
    ensures
        call_requires(ModelRun::<T>::with_imports, (run, imports)),
        call_requires(ModelRun::<T>::try_assemble, (run,)),
        run.options.no_imports || (forall|i: int|
            0 <= i < paths@.len() ==> model::parsed_use_item(
                "use "@ + (#[trigger] paths@[i])@ + ";"@,
            ) is Ok) ==> call_requires(ModelRun::<T>::assemble, (run,)),
{
    let parsed = model::parsed_imports(run.imports@);
    assert forall|i: int| 0 <= i < paths@.len() implies parsed[i] == model::parsed_use_item(
        "use "@ + (#[trigger] paths@[i])@ + ";"@,
    ) by {
        assert(run.imports@[i] == paths@[i]@);
    }
    if forall|i: int|
        0 <= i < paths@.len() ==> model::parsed_use_item("use "@ + (#[trigger] paths@[i])@ + ";"@)
            is Ok {
        assert forall|i: int| 0 <= i < parsed.len() implies (#[trigger] parsed[i]) is Ok by {
            assert(run.imports@.len() == paths@.len());
            let _ = paths@[i];
        }
    }
}

} // verus!
