//! What holds of every run of the engine, proved of the model.
use vstd::prelude::*;
use crate::invariants::{
    lemma_commit_wf, lemma_contains_push, lemma_earlier_files_sound, lemma_file_run,
    lemma_index_of_unique, lemma_recorded_push, lemma_run_distinct, lemma_run_keeps_names,
    lemma_step_distinct, lemma_unknown_name,
};
use crate::model::{
    all_files_sound, all_sound, distinct_names, index_of, knows, placeholders_born,
    placeholders_born_in_run, recorded, replay, symbol_table, target, EngineView, FileScript,
    Progress, Request,
};
use crate::objects::{EntityTag, EntityView, NameView, ObjectView};

verus! {

/// A name with a schema and the same name without one are two names,
/// whatever the schema is.
pub proof fn a_schema_makes_another_name(schema: Seq<char>, name: Seq<char>)
    ensures
        (NameView { schema: Some(schema), name }) != (NameView { schema: None, name }),
{
}

/// A name with a schema and the same name without one are two keys: what
/// is asked for the one leaves the other as known or unknown as it was.
pub proof fn a_schema_makes_another_key(
    before: Progress,
    request: Request,
    schema: Seq<char>,
    name: Seq<char>,
)
    requires
        request matches Request::Define(object) ==> object.name == (NameView { schema: None, name }),
        request matches Request::Depend(other, _) ==> other == (NameView { schema: None, name }),
    ensures
        knows(before.step(request).objects, NameView { schema: Some(schema), name }) <==> knows(
            before.objects,
            NameView { schema: Some(schema), name },
        ),
{
    let key = NameView { schema: Some(schema), name };
    let after = before.step(request);
    if knows(before.objects, key) {
        let i = index_of(before.objects, key);
        an_object_changes_only_by_upgrade(before, request, i);
        assert(after.objects[i].name == key);
    }
    if knows(after.objects, key) {
        let i = index_of(after.objects, key);
        if i < before.objects.len() {
            an_object_changes_only_by_upgrade(before, request, i);
            assert(before.objects[i].name == key);
        }
    }
}

/// In an arena without a repeated name, the symbol table is one to one: it
/// takes the name of each object to the position of that object, and each
/// name it knows to an object of that name.
pub proof fn symbol_table_is_one_to_one(objects: Seq<ObjectView>)
    requires
        distinct_names(objects),
    ensures
        forall|i: int|
            #![trigger objects[i]]
            0 <= i < objects.len() ==> symbol_table(objects).dom().contains(objects[i].name)
                && symbol_table(objects)[objects[i].name] == i,
        forall|name: NameView|
            #![trigger symbol_table(objects).dom().contains(name)]
            symbol_table(objects).dom().contains(name) ==> symbol_table(objects)[name]
                < objects.len() && objects[symbol_table(objects)[name] as int].name == name,
{
    assert forall|i: int| #![trigger objects[i]] 0 <= i < objects.len() implies symbol_table(
        objects,
    ).dom().contains(objects[i].name) && symbol_table(objects)[objects[i].name] == i by {
        lemma_index_of_unique(objects, i);
    }
}

/// The identity that answers a definition resolves to an object of the name
/// that was defined, then and after any requests that follow.
pub proof fn definition_resolves_to_its_name(
    start: Progress,
    object: ObjectView,
    later: Seq<Request>,
)
    requires
        start.define(object).fault is None,
    ensures
        ({
            let id = target(start.objects, object.name);
            let end = start.define(object).run(later);
            id < end.objects.len() && end.objects[id as int].name == object.name
        }),
{
    lemma_run_keeps_names(start.define(object), later);
}

/// The identity that answers a reference resolves to an object of the name
/// that was referenced, then and after any requests that follow.
pub proof fn reference_resolves_to_its_name(
    start: Progress,
    name: NameView,
    expected: EntityTag,
    later: Seq<Request>,
)
    ensures
        ({
            let id = target(start.objects, name);
            let end = start.depend(name, expected).run(later);
            id < end.objects.len() && end.objects[id as int].name == name
        }),
{
    lemma_run_keeps_names(start.depend(name, expected), later);
}

/// An identity that the engine has issued is never invalidated or given to
/// another name: whatever file is processed next, the identity resolves to
/// an object of the same name, changed at most by an upgrade.
pub proof fn identities_survive_files(
    engine: EngineView,
    file: Seq<char>,
    requests: Seq<Request>,
    id: int,
)
    requires
        0 <= id < engine.objects.len(),
    ensures
        id < engine.record(file, requests).objects.len(),
        engine.record(file, requests).objects[id].name == engine.objects[id].name,
{
    lemma_run_keeps_names(engine.opened(file), requests);
}

/// At every point of a run, a name has at most one object: two positions of
/// the arena that hold the same name are one position. So a name never has
/// two concrete objects.
pub proof fn one_object_per_name(start: Progress, requests: Seq<Request>, i: int, j: int)
    requires
        distinct_names(start.objects),
        0 <= i < start.run(requests).objects.len(),
        0 <= j < start.run(requests).objects.len(),
        start.run(requests).objects[i].name == start.run(requests).objects[j].name,
    ensures
        i == j,
{
    lemma_run_distinct(start, requests);
    let objects = start.run(requests).objects;
    if i < j {
        assert(objects[i].name != objects[j].name);
    } else if j < i {
        assert(objects[j].name != objects[i].name);
    }
}

/// Two references to one name in a row are answered with one identity, and
/// the second changes nothing.
pub proof fn reference_twice_is_reference_once(
    start: Progress,
    name: NameView,
    expected: EntityTag,
)
    ensures
        ({
            let once = start.depend(name, expected);
            &&& target(once.objects, name) == target(start.objects, name)
            &&& once.depend(name, expected) == once
        }),
{
    let once = start.depend(name, expected);
    if !knows(start.objects, name) {
        lemma_unknown_name(start.objects, name);
        let n = start.objects.len() as int;
        assert(once.objects[n].name == name);
        let i = index_of(once.objects, name);
        if i < n {
            assert(once.objects[i] == start.objects[i]);
        }
    }
}

/// A reference checks no kind: a name that is known keeps its object,
/// whatever kind the reference expects and whatever the object is.
pub proof fn a_reference_checks_no_kind(start: Progress, i: int, expected: EntityTag)
    requires
        distinct_names(start.objects),
        0 <= i < start.objects.len(),
    ensures
        start.depend(start.objects[i].name, expected) == start,
        target(start.objects, start.objects[i].name) == i,
{
    lemma_index_of_unique(start.objects, i);
}

/// A request that meets a fault changes nothing: the arena and the lists
/// are as they were before the request.
pub proof fn a_fault_changes_nothing(before: Progress, request: Request)
    requires
        before.step(request).fault is Some,
    ensures
        before.step(request).objects == before.objects,
        before.step(request).batch == before.batch,
{
}

/// A placeholder that is defined with an entity of the kind that it expects
/// becomes that entity under the identity that it had: no fault is raised,
/// no object is added, and the identity is a creation of the file.
pub proof fn upgrade_keeps_the_identity(start: Progress, i: int, entity: EntityView)
    requires
        distinct_names(start.objects),
        0 <= i < start.objects.len(),
        start.objects[i].entity == (EntityView::Placeholder { expected: entity.tag() }),
    ensures
        ({
            let object = ObjectView { name: start.objects[i].name, entity };
            let after = start.define(object);
            &&& after.fault is None
            &&& target(start.objects, object.name) == i
            &&& after.objects == start.objects.update(i, object)
            &&& after.batch.creations == start.batch.creations.push(i as nat)
            &&& after.batch.dependencies == start.batch.dependencies
        }),
{
    lemma_index_of_unique(start.objects, i);
}

/// A placeholder that a reference brings into being, and that is then
/// defined with an entity of the kind that the reference expected, is
/// concrete under the identity that answered the reference.
pub proof fn reference_then_definition(start: Progress, name: NameView, entity: EntityView)
    requires
        distinct_names(start.objects),
        start.fault is None,
        !knows(start.objects, name),
    ensures
        ({
            let referenced = start.depend(name, entity.tag());
            let object = ObjectView { name, entity };
            let defined = referenced.define(object);
            &&& defined.fault is None
            &&& target(referenced.objects, name) == target(start.objects, name)
            &&& defined.objects.len() == referenced.objects.len()
            &&& defined.objects[target(start.objects, name) as int] == object
        }),
{
    let referenced = start.depend(name, entity.tag());
    lemma_step_distinct(start, Request::Depend(name, entity.tag()));
    upgrade_keeps_the_identity(referenced, start.objects.len() as int, entity);
}

/// A request changes an object in one way only: a placeholder becomes an
/// entity of the kind that it expected, under the same name. Every other
/// object stays as it is.
pub proof fn an_object_changes_only_by_upgrade(before: Progress, request: Request, i: int)
    requires
        0 <= i < before.objects.len(),
    ensures
        ({
            let was = before.objects[i];
            let is = before.step(request).objects[i];
            &&& i < before.step(request).objects.len()
            &&& is.name == was.name
            &&& is.entity == was.entity || was.entity == (EntityView::Placeholder {
                expected: is.entity.tag(),
            })
        }),
{
}

/// The lists of an open file only grow: what a file has listed stays
/// listed, in the same place.
pub proof fn lists_only_grow(start: Progress, requests: Seq<Request>)
    ensures
        start.batch.creations.is_prefix_of(start.run(requests).batch.creations),
        start.batch.dependencies.is_prefix_of(start.run(requests).batch.dependencies),
        start.run(requests).batch.file == start.batch.file,
        start.run(requests).batch.base == start.batch.base,
    decreases requests.len(),
{
    if requests.len() > 0 {
        lists_only_grow(start, requests.drop_last());
    }
}

/// The lists of a processed file are frozen: a later file changes neither
/// them nor the name of the file.
pub proof fn history_is_frozen(
    engine: EngineView,
    file: Seq<char>,
    requests: Seq<Request>,
    earlier: int,
)
    requires
        engine.wf(),
        0 <= earlier < engine.files.len(),
    ensures
        engine.record(file, requests).files[earlier] == engine.files[earlier],
        engine.record(file, requests).creations[earlier] == engine.creations[earlier],
        engine.record(file, requests).dependencies[earlier] == engine.dependencies[earlier],
{
}

/// Between two files, the lists of creations hold the identities of the
/// concrete objects, and no others.
pub proof fn creations_are_the_concrete_objects(engine: EngineView, id: nat)
    requires
        engine.wf(),
    ensures
        recorded(engine.creations, id) <==> id < engine.objects.len()
            && engine.objects[id as int].entity.is_concrete(),
{
    if id < engine.objects.len() {
        assert(engine.objects[id as int] == engine.objects[id as int]);
    }
}

/// Between two files, every placeholder stands in a list of dependencies.
pub proof fn placeholders_are_dependencies(engine: EngineView, id: nat)
    requires
        engine.wf(),
        id < engine.objects.len(),
        !engine.objects[id as int].entity.is_concrete(),
    ensures
        recorded(engine.dependencies, id),
{
    assert(engine.objects[id as int] == engine.objects[id as int]);
}

/// A file of sound requests keeps a valid engine valid, whether it is
/// committed or meets a fault.
pub proof fn record_keeps_valid(engine: EngineView, file: Seq<char>, requests: Seq<Request>)
    requires
        engine.wf(),
        all_sound(requests),
    ensures
        engine.record(file, requests).wf(),
{
    lemma_file_run(engine, file, requests);
    let done = engine.opened(file).run(requests);
    if done.fault is None {
        lemma_commit_wf(engine, done);
    }
}

/// Every run of sound files leaves a valid engine.
pub proof fn replay_is_valid(files: Seq<FileScript>)
    requires
        all_files_sound(files),
    ensures
        replay(files).wf(),
    decreases files.len(),
{
    if files.len() == 0 {
        let engine = EngineView::empty();
        assert forall|id: nat| !recorded(engine.creations, id) by {}
        assert forall|id: nat| !recorded(engine.dependencies, id) by {}
    } else {
        lemma_earlier_files_sound(files);
        replay_is_valid(files.drop_last());
        record_keeps_valid(replay(files.drop_last()), files.last().file, files.last().requests);
    }
}

/// The dependencies of an open file are the placeholders that its requests
/// have brought into being, beside those it listed before.
pub proof fn file_dependencies_are_the_placeholders_born(
    start: Progress,
    requests: Seq<Request>,
    id: nat,
)
    ensures
        start.run(requests).batch.dependencies.contains(id) <==> start.batch.dependencies.contains(
            id,
        ) || placeholders_born(start, requests).contains(id),
    decreases requests.len(),
{
    if requests.len() > 0 {
        file_dependencies_are_the_placeholders_born(start, requests.drop_last(), id);
        let before = start.run(requests.drop_last());
        lemma_contains_push(before.batch.dependencies, before.objects.len(), id);
    }
}

/// At the end of every run of sound files, the lists of creations hold the
/// identities of the objects that are concrete, and the lists of
/// dependencies hold the identities of the placeholders that references
/// brought into being, and no others.
pub proof fn lists_of_a_run(files: Seq<FileScript>, id: nat)
    requires
        all_files_sound(files),
    ensures
        recorded(replay(files).creations, id) <==> id < replay(files).objects.len() && replay(
            files,
        ).objects[id as int].entity.is_concrete(),
        recorded(replay(files).dependencies, id) <==> placeholders_born_in_run(files).contains(id),
    decreases files.len(),
{
    replay_is_valid(files);
    creations_are_the_concrete_objects(replay(files), id);
    if files.len() > 0 {
        lemma_earlier_files_sound(files);
        lists_of_a_run(files.drop_last(), id);
        let engine = replay(files.drop_last());
        let start = engine.opened(files.last().file);
        let done = start.run(files.last().requests);
        if done.fault is None {
            lemma_recorded_push(engine.dependencies, done.batch.dependencies, id);
            file_dependencies_are_the_placeholders_born(start, files.last().requests, id);
            assert(start.batch.dependencies.len() == 0);
        }
    }
}

} // verus!
