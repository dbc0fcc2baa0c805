//! Why the engine stays valid: what each request keeps, proved of the model.
use vstd::prelude::*;
use crate::model::{
    all_files_sound, all_sound, coherent, distinct_names, index_of, knows, listed, recorded,
    symbol_table, target, BatchView, EngineView, FileScript, Progress, Request,
};
use crate::objects::{EntityView, NameView, ObjectView};

verus! {

/// In an arena without a repeated name, the object that has a name is found
/// at one position only.
pub proof fn lemma_index_of_unique(objects: Seq<ObjectView>, i: int)
    requires
        distinct_names(objects),
        0 <= i < objects.len(),
    ensures
        knows(objects, objects[i].name),
        index_of(objects, objects[i].name) == i,
        target(objects, objects[i].name) == i,
        symbol_table(objects)[objects[i].name] == i,
{
    let j = index_of(objects, objects[i].name);
    assert(0 <= j < objects.len() && objects[j].name == objects[i].name);
    if j < i {
        assert(objects[j].name != objects[i].name);
    } else if i < j {
        assert(objects[i].name != objects[j].name);
    }
}

/// An unknown name is the name of no object.
pub proof fn lemma_unknown_name(objects: Seq<ObjectView>, name: NameView)
    requires
        !knows(objects, name),
    ensures
        forall|i: int| 0 <= i < objects.len() ==> (#[trigger] objects[i]).name != name,
{
}

/// A list with one more item holds what it held, and that item.
pub proof fn lemma_contains_push(list: Seq<nat>, item: nat, x: nat)
    ensures
        list.push(item).contains(x) <==> list.contains(x) || x == item,
{
    if list.contains(x) {
        let k = choose|k: int| 0 <= k < list.len() && list[k] == x;
        assert(list.push(item)[k] == x);
    }
    if x == item {
        assert(list.push(item)[list.len() as int] == x);
    }
}

/// A history with one more list holds what it held, and what that list
/// holds.
pub proof fn lemma_recorded_push(lists: Seq<Seq<nat>>, list: Seq<nat>, id: nat)
    ensures
        recorded(lists.push(list), id) <==> recorded(lists, id) || list.contains(id),
{
    let longer = lists.push(list);
    if recorded(lists, id) {
        let f = choose|f: int| 0 <= f < lists.len() && (#[trigger] lists[f]).contains(id);
        assert(longer[f].contains(id));
    }
    if list.contains(id) {
        assert(longer[lists.len() as int].contains(id));
    }
    if recorded(longer, id) {
        let f = choose|f: int| 0 <= f < longer.len() && (#[trigger] longer[f]).contains(id);
        if f < lists.len() {
            assert(lists[f].contains(id));
        }
    }
}

/// Answering one request is a run of one step.
pub proof fn lemma_run_one(start: Progress, request: Request)
    ensures
        start.run(seq![request]) == start.step(request),
{
    assert(seq![request].drop_last() =~= Seq::<Request>::empty());
    assert(start.run(Seq::<Request>::empty()) == start);
}

/// After a fault nothing changes any more.
pub proof fn lemma_run_stopped(start: Progress, requests: Seq<Request>)
    requires
        start.fault is Some,
    ensures
        start.run(requests) == start,
    decreases requests.len(),
{
    if requests.len() > 0 {
        lemma_run_stopped(start, requests.drop_last());
    }
}

/// A run of two sequences in a row is the run of the second from where the
/// run of the first ended. Where the first ends in a fault, that is where
/// the whole ends.
pub proof fn lemma_run_append(start: Progress, first: Seq<Request>, second: Seq<Request>)
    ensures
        start.run(first + second) == start.run(first).run(second),
        start.run(first).fault is Some ==> start.run(first + second) == start.run(first),
    decreases second.len(),
{
    if second.len() == 0 {
        assert(first + second =~= first);
    } else {
        assert((first + second).drop_last() =~= first + second.drop_last());
        lemma_run_append(start, first, second.drop_last());
    }
    if start.run(first).fault is Some {
        lemma_run_stopped(start.run(first), second);
    }
}

/// A sound request keeps the arena, the history and the lists of the open
/// file fitting together.
pub proof fn lemma_step_coherent(
    creations: Seq<Seq<nat>>,
    dependencies: Seq<Seq<nat>>,
    before: Progress,
    request: Request,
)
    requires
        coherent(creations, dependencies, before.objects, before.batch),
        request.sound(),
    ensures
        coherent(creations, dependencies, before.step(request).objects, before.step(request).batch),
{
    let after = before.step(request);
    let n = before.objects.len() as int;
    match request {
        _ if after.objects == before.objects && after.batch == before.batch => {
            // A known name was referenced, or the request met a fault.
            assert forall|i: int| #![trigger after.objects[i]] 0 <= i < n implies listed(
                creations,
                dependencies,
                after.objects,
                after.batch,
                i,
            ) by {
                assert(listed(creations, dependencies, before.objects, before.batch, i));
            }
        },
        Request::Define(object) => {
            if !knows(before.objects, object.name) {
                // A new object, listed as created.
                lemma_unknown_name(before.objects, object.name);
                assert forall|i: int| #![trigger after.objects[i]] 0 <= i <= n implies listed(
                    creations,
                    dependencies,
                    after.objects,
                    after.batch,
                    i,
                ) by {
                    lemma_contains_push(before.batch.creations, n as nat, i as nat);
                    if i < n {
                        assert(listed(creations, dependencies, before.objects, before.batch, i));
                    }
                }
            } else {
                // A placeholder, replaced in place and listed as created.
                let at = index_of(before.objects, object.name);
                assert(!before.batch.creations.contains(at as nat));
                assert(listed(creations, dependencies, before.objects, before.batch, at));
                assert forall|i: int| #![trigger after.objects[i]] 0 <= i < n implies listed(
                    creations,
                    dependencies,
                    after.objects,
                    after.batch,
                    i,
                ) by {
                    lemma_contains_push(before.batch.creations, at as nat, i as nat);
                    assert(listed(creations, dependencies, before.objects, before.batch, i));
                }
                assert forall|i: int, j: int| 0 <= i < j < n implies (#[trigger] after.objects[i]).name
                    != (#[trigger] after.objects[j]).name by {
                    assert(before.objects[i].name != before.objects[j].name);
                }
            }
        },
        Request::Depend(name, _) => {
            // A new placeholder, listed as a dependency.
            lemma_unknown_name(before.objects, name);
            assert forall|i: int| #![trigger after.objects[i]] 0 <= i <= n implies listed(
                creations,
                dependencies,
                after.objects,
                after.batch,
                i,
            ) by {
                lemma_contains_push(before.batch.dependencies, n as nat, i as nat);
                if i < n {
                    assert(listed(creations, dependencies, before.objects, before.batch, i));
                }
            }
        },
        _ => {},
    }
}

/// Whether the object at a position is as it was in the arena `origin`, but
/// for a placeholder that the file has replaced: it has the same name, and,
/// where the file lists it as created, `origin` held the placeholder that
/// expected its kind.
pub open spec fn kept(origin: Seq<ObjectView>, now: Progress, i: int) -> bool {
    &&& now.objects[i].name == origin[i].name
    &&& if now.batch.creations.contains(i as nat) {
        origin[i].entity == (EntityView::Placeholder { expected: now.objects[i].entity.tag() })
    } else {
        now.objects[i].entity == origin[i].entity
    }
}

/// Whether a file that was opened on the arena `origin` can have come this
/// far: every object of `origin` is still there, as [`kept`] says.
pub open spec fn unfolds(origin: Seq<ObjectView>, now: Progress) -> bool {
    &&& now.batch.base == origin.len()
    &&& origin.len() <= now.objects.len()
    &&& forall|i: int| #![trigger now.objects[i]] 0 <= i < origin.len() ==> kept(origin, now, i)
}

/// A sound request leaves the objects that were there before the file as
/// [`unfolds`] says.
pub proof fn lemma_step_unfolds(
    creations: Seq<Seq<nat>>,
    dependencies: Seq<Seq<nat>>,
    origin: Seq<ObjectView>,
    before: Progress,
    request: Request,
)
    requires
        coherent(creations, dependencies, before.objects, before.batch),
        unfolds(origin, before),
        request.sound(),
    ensures
        unfolds(origin, before.step(request)),
{
    let after = before.step(request);
    match request {
        Request::Define(object) => {
            if before.fault is Some {
            } else if !knows(before.objects, object.name) {
                // A new object: none of those that were there is touched.
                assert forall|i: int| #![trigger after.objects[i]] 0 <= i < origin.len() implies kept(
                    origin,
                    after,
                    i,
                ) by {
                    assert(kept(origin, before, i));
                    lemma_contains_push(before.batch.creations, before.objects.len(), i as nat);
                }
            } else if after.fault is None {
                // A placeholder is replaced: the file did not list it so far.
                let at = index_of(before.objects, object.name);
                assert(!before.batch.creations.contains(at as nat));
                assert forall|i: int| #![trigger after.objects[i]] 0 <= i < origin.len() implies kept(
                    origin,
                    after,
                    i,
                ) by {
                    assert(kept(origin, before, i));
                    lemma_contains_push(before.batch.creations, at as nat, i as nat);
                }
            }
        },
        _ => {
            // The lists of creations stay, and so does every object that was
            // there.
            assert forall|i: int| #![trigger after.objects[i]] 0 <= i < origin.len() implies kept(
                origin,
                after,
                i,
            ) by {
                assert(kept(origin, before, i));
            }
        },
    }
}

/// Sound requests keep the arena, the history and the lists of the open
/// file fitting together, and leave the objects that were there before the
/// file as [`unfolds`] says.
pub proof fn lemma_run_unfolds(
    creations: Seq<Seq<nat>>,
    dependencies: Seq<Seq<nat>>,
    origin: Seq<ObjectView>,
    start: Progress,
    requests: Seq<Request>,
)
    requires
        coherent(creations, dependencies, start.objects, start.batch),
        unfolds(origin, start),
        all_sound(requests),
    ensures
        coherent(creations, dependencies, start.run(requests).objects, start.run(requests).batch),
        unfolds(origin, start.run(requests)),
    decreases requests.len(),
{
    if requests.len() > 0 {
        let before = start.run(requests.drop_last());
        lemma_run_unfolds(creations, dependencies, origin, start, requests.drop_last());
        lemma_step_coherent(creations, dependencies, before, requests.last());
        lemma_step_unfolds(creations, dependencies, origin, before, requests.last());
    }
}

/// An engine that is consistent with the lists of an open file is valid
/// once the file is committed.
pub proof fn lemma_commit_wf(engine: EngineView, done: Progress)
    requires
        engine.with_objects(done.objects).consistent(done.batch),
    ensures
        engine.committed(done).wf(),
{
    let after = engine.committed(done);
    let fresh = BatchView::fresh(Seq::empty(), after.objects.len());
    assert forall|id: nat| #[trigger] recorded(after.creations, id) implies id < fresh.base
        && after.objects[id as int].entity.is_concrete() by {
        lemma_recorded_push(engine.creations, done.batch.creations, id);
    }
    assert forall|id: nat| #[trigger] recorded(after.dependencies, id) implies id < fresh.base by {
        lemma_recorded_push(engine.dependencies, done.batch.dependencies, id);
    }
    assert forall|i: int| #![trigger after.objects[i]] 0 <= i < after.objects.len() implies listed(
        after.creations,
        after.dependencies,
        after.objects,
        fresh,
        i,
    ) by {
        assert(listed(engine.creations, engine.dependencies, done.objects, done.batch, i));
        lemma_recorded_push(engine.creations, done.batch.creations, i as nat);
        lemma_recorded_push(engine.dependencies, done.batch.dependencies, i as nat);
    }
}

/// An engine that is consistent with the lists of an open file is valid
/// once the file is rolled back.
pub proof fn lemma_rollback_wf(engine: EngineView, now: Progress)
    requires
        engine.with_objects(now.objects).consistent(now.batch),
    ensures
        engine.with_objects(now.rolled_back()).wf(),
{
    let after = engine.with_objects(now.rolled_back());
    let fresh = BatchView::fresh(Seq::empty(), after.objects.len());
    assert forall|i: int, j: int| 0 <= i < j < after.objects.len() implies (
    #[trigger] after.objects[i]).name != (#[trigger] after.objects[j]).name by {
        assert(now.objects[i].name != now.objects[j].name);
    }
    assert forall|id: nat| #[trigger] recorded(after.creations, id) implies id < fresh.base
        && after.objects[id as int].entity.is_concrete() by {
        assert(!now.batch.creations.contains(id));
    }
    assert forall|i: int| #![trigger after.objects[i]] 0 <= i < after.objects.len() implies listed(
        after.creations,
        after.dependencies,
        after.objects,
        fresh,
        i,
    ) by {
        assert(listed(engine.creations, engine.dependencies, now.objects, now.batch, i));
        assert(!now.batch.dependencies.contains(i as nat));
    }
}

/// What a file leaves where it is processed on a valid engine, with sound
/// requests: an engine that is consistent with the lists of the file, and
/// that the rollback of the file turns into the engine that was there before.
pub proof fn lemma_file_run(engine: EngineView, file: Seq<char>, requests: Seq<Request>)
    requires
        engine.wf(),
        all_sound(requests),
    ensures
        engine.with_objects(engine.opened(file).run(requests).objects).consistent(
            engine.opened(file).run(requests).batch,
        ),
        engine.opened(file).run(requests).rolled_back() == engine.objects,
{
    let start = engine.opened(file);
    let done = start.run(requests);
    assert(start.batch.creations.len() == 0);
    assert(unfolds(engine.objects, start));
    lemma_run_unfolds(engine.creations, engine.dependencies, engine.objects, start, requests);
    assert(done.rolled_back() =~= engine.objects) by {
        assert forall|i: int| 0 <= i < engine.objects.len() implies done.rolled_back()[i]
            == engine.objects[i] by {
            assert(kept(engine.objects, done, i));
        }
    }
}

/// Requests drop no object and rename none.
pub proof fn lemma_run_keeps_names(start: Progress, requests: Seq<Request>)
    ensures
        start.objects.len() <= start.run(requests).objects.len(),
        forall|i: int|
            0 <= i < start.objects.len() ==> (#[trigger] start.run(requests).objects[i]).name
                == start.objects[i].name,
    decreases requests.len(),
{
    if requests.len() > 0 {
        lemma_run_keeps_names(start, requests.drop_last());
        let before = start.run(requests.drop_last());
        let after = before.step(requests.last());
        assert forall|i: int| 0 <= i < start.objects.len() implies (#[trigger] after.objects[i]).name
            == start.objects[i].name by {
            assert(before.objects[i].name == start.objects[i].name);
        }
    }
}

/// No request gives a name a second object.
pub proof fn lemma_step_distinct(before: Progress, request: Request)
    requires
        distinct_names(before.objects),
    ensures
        distinct_names(before.step(request).objects),
{
    let after = before.step(request);
    if before.fault is None {
        match request {
            Request::Define(object) => {
                if !knows(before.objects, object.name) {
                    lemma_unknown_name(before.objects, object.name);
                } else {
                    assert forall|i: int, j: int| 0 <= i < j < after.objects.len() implies (
                    #[trigger] after.objects[i]).name != (#[trigger] after.objects[j]).name by {
                        assert(before.objects[i].name != before.objects[j].name);
                    }
                }
            },
            Request::Depend(name, _) => {
                if !knows(before.objects, name) {
                    lemma_unknown_name(before.objects, name);
                }
            },
            _ => {},
        }
    }
}

/// No run gives a name a second object.
pub proof fn lemma_run_distinct(start: Progress, requests: Seq<Request>)
    requires
        distinct_names(start.objects),
    ensures
        distinct_names(start.run(requests).objects),
    decreases requests.len(),
{
    if requests.len() > 0 {
        lemma_run_distinct(start, requests.drop_last());
        lemma_step_distinct(start.run(requests.drop_last()), requests.last());
    }
}

/// The files of a run without its last file are sound where the files of
/// the run are.
pub proof fn lemma_earlier_files_sound(files: Seq<FileScript>)
    requires
        all_files_sound(files),
        files.len() > 0,
    ensures
        all_files_sound(files.drop_last()),
        all_sound(files.last().requests),
{
    assert forall|k: int| 0 <= k < files.drop_last().len() implies all_sound(
        (#[trigger] files.drop_last()[k]).requests,
    ) by {
        assert(files.drop_last()[k] == files[k]);
    }
}

} // verus!
