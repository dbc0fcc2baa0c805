//! The mathematical model of the engine.
//!
//! A statement reaches the engine as a sequence of [`Request`]s. The model
//! says what each request does to the arena and to the lists of the file
//! being processed ([`Progress::step`]), what a file does to the run-wide
//! history ([`EngineView::record`]), and when engine and lists fit together
//! ([`coherent`]).
use vstd::prelude::*;
use crate::ast::Unsupported;
use crate::objects::{EntityTag, EntityView, NameView, ObjectView};

verus! {

/// The mathematical value of a fault. Every fault names the file in which
/// it was met.
pub enum ErrorView {
    /// A name list of another length than one or two.
    MalformedName { file: Seq<char>, parts: Seq<Seq<char>> },
    /// A definition of another kind than an earlier reference expected.
    TypeConflict { file: Seq<char>, name: NameView, expected: EntityTag, actual: EntityTag },
    /// A second definition of a name that is already defined.
    Redefinition { file: Seq<char>, name: NameView, previous: EntityTag, new: EntityTag },
    /// A statement that is recognised and refused.
    UnsupportedStatement { file: Seq<char>, statement: Unsupported },
}

/// What a statement asks of the engine.
pub enum Request {
    /// Register the definition of an object.
    Define(ObjectView),
    /// Register a reference to a name, expected to be of the given kind.
    Depend(NameView, EntityTag),
    /// Stop: a name list has the parts given, which make no name.
    Malformed(Seq<Seq<char>>),
    /// Stop: the statement is recognised and refused.
    Refuse(Unsupported),
}

impl Request {
    /// A request is sound unless it defines a placeholder: a placeholder
    /// stands for what has not been defined.
    pub open spec fn sound(self) -> bool {
        self matches Request::Define(object) ==> object.entity.is_concrete()
    }
}

/// Whether every request of a sequence is sound.
pub open spec fn all_sound(requests: Seq<Request>) -> bool {
    forall|k: int| 0 <= k < requests.len() ==> (#[trigger] requests[k]).sound()
}

/// The lists of the file being processed.
pub struct BatchView {
    /// The name of the file.
    pub file: Seq<char>,
    /// The number of objects that the arena held when the file was opened.
    pub base: nat,
    /// The identities that the file has defined, in order.
    pub creations: Seq<nat>,
    /// The identities that the file was first to reference, in order.
    pub dependencies: Seq<nat>,
}

impl BatchView {
    /// The lists of a file that has asked nothing yet.
    pub open spec fn fresh(file: Seq<char>, base: nat) -> BatchView {
        BatchView { file, base, creations: Seq::empty(), dependencies: Seq::empty() }
    }
}

/// Whether some object of the arena has the name.
pub open spec fn knows(objects: Seq<ObjectView>, name: NameView) -> bool {
    exists|i: int| 0 <= i < objects.len() && (#[trigger] objects[i]).name == name
}

/// The position of an object with the name, where the arena knows the name.
pub open spec fn index_of(objects: Seq<ObjectView>, name: NameView) -> int {
    choose|i: int| 0 <= i < objects.len() && (#[trigger] objects[i]).name == name
}

/// The symbol table: from each known name to the identity of its object.
pub open spec fn symbol_table(objects: Seq<ObjectView>) -> Map<NameView, nat> {
    Map::new(|name: NameView| knows(objects, name), |name: NameView| index_of(objects, name) as nat)
}

/// The identity that a request for the name is answered with: that of the
/// object that has the name, or the next free one.
pub open spec fn target(objects: Seq<ObjectView>, name: NameView) -> nat {
    if knows(objects, name) {
        index_of(objects, name) as nat
    } else {
        objects.len()
    }
}

/// No two objects of the arena have the same name.
pub open spec fn distinct_names(objects: Seq<ObjectView>) -> bool {
    forall|i: int, j: int|
        0 <= i < j < objects.len() ==> (#[trigger] objects[i]).name != (#[trigger] objects[j]).name
}

/// How far the processing of a file has come: the arena, the lists of the
/// file, and the fault that stopped it, if one did.
pub struct Progress {
    pub objects: Seq<ObjectView>,
    pub batch: BatchView,
    pub fault: Option<ErrorView>,
}

impl Progress {
    /// The same progress, stopped by a fault.
    pub open spec fn stopped(self, fault: ErrorView) -> Progress {
        Progress { objects: self.objects, batch: self.batch, fault: Some(fault) }
    }

    /// The same progress with another arena and one more creation.
    pub open spec fn created(self, objects: Seq<ObjectView>, id: nat) -> Progress {
        Progress {
            objects,
            batch: BatchView {
                file: self.batch.file,
                base: self.batch.base,
                creations: self.batch.creations.push(id),
                dependencies: self.batch.dependencies,
            },
            fault: None,
        }
    }

    /// Registers a definition.
    ///
    /// An unknown name gets a new object. A placeholder is replaced in place
    /// where the definition has the kind that the placeholder expects; both
    /// are creations of the file. Any other definition of a known name is a
    /// fault and changes nothing.
    pub open spec fn define(self, object: ObjectView) -> Progress {
        if !knows(self.objects, object.name) {
            self.created(self.objects.push(object), self.objects.len())
        } else {
            let i = index_of(self.objects, object.name);
            match self.objects[i].entity {
                EntityView::Placeholder { expected } => {
                    if expected == object.entity.tag() {
                        self.created(self.objects.update(i, object), i as nat)
                    } else {
                        self.stopped(
                            ErrorView::TypeConflict {
                                file: self.batch.file,
                                name: object.name,
                                expected,
                                actual: object.entity.tag(),
                            },
                        )
                    }
                },
                existing => self.stopped(
                    ErrorView::Redefinition {
                        file: self.batch.file,
                        name: object.name,
                        previous: existing.tag(),
                        new: object.entity.tag(),
                    },
                ),
            }
        }
    }

    /// Registers a reference.
    ///
    /// A known name is left as it is, whatever its kind. An unknown name
    /// gets a placeholder that expects the kind, and the placeholder is a
    /// dependency of the file.
    pub open spec fn depend(self, name: NameView, expected: EntityTag) -> Progress {
        if knows(self.objects, name) {
            self
        } else {
            Progress {
                objects: self.objects.push(
                    ObjectView { name, entity: EntityView::Placeholder { expected } },
                ),
                batch: BatchView {
                    file: self.batch.file,
                    base: self.batch.base,
                    creations: self.batch.creations,
                    dependencies: self.batch.dependencies.push(self.objects.len()),
                },
                fault: None,
            }
        }
    }

    /// Answers one request. After a fault nothing is answered any more.
    pub open spec fn step(self, request: Request) -> Progress {
        if self.fault is Some {
            self
        } else {
            match request {
                Request::Define(object) => self.define(object),
                Request::Depend(name, expected) => self.depend(name, expected),
                Request::Malformed(parts) => self.stopped(
                    ErrorView::MalformedName { file: self.batch.file, parts },
                ),
                Request::Refuse(statement) => self.stopped(
                    ErrorView::UnsupportedStatement { file: self.batch.file, statement },
                ),
            }
        }
    }

    /// Answers the requests in order, up to the first fault.
    pub open spec fn run(self, requests: Seq<Request>) -> Progress
        decreases requests.len(),
    {
        if requests.len() == 0 {
            self
        } else {
            self.run(requests.drop_last()).step(requests.last())
        }
    }

    /// The arena as it was when the file was opened: the objects that the
    /// file added are dropped, and the placeholders that it replaced are
    /// placeholders again.
    pub open spec fn rolled_back(self) -> Seq<ObjectView> {
        Seq::new(
            self.batch.base,
            |i: int|
                if self.batch.creations.contains(i as nat) {
                    ObjectView {
                        name: self.objects[i].name,
                        entity: EntityView::Placeholder { expected: self.objects[i].entity.tag() },
                    }
                } else {
                    self.objects[i]
                },
        )
    }
}

/// Whether an identity stands in one of the lists.
pub open spec fn recorded(lists: Seq<Seq<nat>>, id: nat) -> bool {
    exists|f: int| 0 <= f < lists.len() && (#[trigger] lists[f]).contains(id)
}

/// Whether an identity may stand among the creations of the open file: its
/// object is concrete and is not listed as created in the history; where the
/// object was there before the file, it was a placeholder then, so the
/// history lists it as a dependency.
pub open spec fn creation_fits(
    creations: Seq<Seq<nat>>,
    dependencies: Seq<Seq<nat>>,
    objects: Seq<ObjectView>,
    batch: BatchView,
    id: nat,
) -> bool {
    &&& id < objects.len()
    &&& objects[id as int].entity.is_concrete()
    &&& !recorded(creations, id)
    &&& id < batch.base ==> recorded(dependencies, id)
}

/// Whether the object at a position is listed: a concrete object as created,
/// a placeholder as a dependency, in the history or by the open file.
pub open spec fn listed(
    creations: Seq<Seq<nat>>,
    dependencies: Seq<Seq<nat>>,
    objects: Seq<ObjectView>,
    batch: BatchView,
    i: int,
) -> bool {
    if objects[i].entity.is_concrete() {
        recorded(creations, i as nat) || batch.creations.contains(i as nat)
    } else {
        recorded(dependencies, i as nat) || batch.dependencies.contains(i as nat)
    }
}

/// Whether an arena, the history of the files before and the lists of the
/// open file fit together.
///
/// * No two objects have the same name.
/// * The history speaks of objects that were there when the file was
///   opened; what it lists as created is concrete.
/// * The file lists nothing twice as created, and what it lists is as
///   [`creation_fits`] says.
/// * What the file lists as a dependency was added by the file.
/// * Every object is listed, as [`listed`] says.
pub open spec fn coherent(
    creations: Seq<Seq<nat>>,
    dependencies: Seq<Seq<nat>>,
    objects: Seq<ObjectView>,
    batch: BatchView,
) -> bool {
    &&& distinct_names(objects)
    &&& batch.base <= objects.len()
    &&& forall|id: nat| #[trigger]
        recorded(creations, id) ==> id < batch.base && objects[id as int].entity.is_concrete()
    &&& forall|id: nat| #[trigger] recorded(dependencies, id) ==> id < batch.base
    &&& batch.creations.no_duplicates()
    &&& forall|k: int|
        0 <= k < batch.creations.len() ==> creation_fits(
            creations,
            dependencies,
            objects,
            batch,
            #[trigger] batch.creations[k],
        )
    &&& forall|k: int|
        0 <= k < batch.dependencies.len() ==> batch.base <= (#[trigger] batch.dependencies[k])
            < objects.len()
    &&& forall|i: int|
        #![trigger objects[i]]
        0 <= i < objects.len() ==> listed(creations, dependencies, objects, batch, i)
}

/// The mathematical value of the engine between two files: the arena and
/// the history of the files processed so far.
pub struct EngineView {
    /// The names of the files, in the order in which they were processed.
    pub files: Seq<Seq<char>>,
    /// The arena.
    pub objects: Seq<ObjectView>,
    /// For each file, the identities that it defined.
    pub creations: Seq<Seq<nat>>,
    /// For each file, the identities that it was first to reference.
    pub dependencies: Seq<Seq<nat>>,
}

impl EngineView {
    /// The engine before the first file.
    pub open spec fn empty() -> EngineView {
        EngineView {
            files: Seq::empty(),
            objects: Seq::empty(),
            creations: Seq::empty(),
            dependencies: Seq::empty(),
        }
    }

    /// The progress of a file that was just opened.
    pub open spec fn opened(self, file: Seq<char>) -> Progress {
        Progress { objects: self.objects, batch: BatchView::fresh(file, self.objects.len()), fault: None }
    }

    /// The engine after a file was processed without fault: the arena is the
    /// one that the file left, and the lists of the file are appended to the
    /// history.
    pub open spec fn committed(self, done: Progress) -> EngineView {
        EngineView {
            files: self.files.push(done.batch.file),
            objects: done.objects,
            creations: self.creations.push(done.batch.creations),
            dependencies: self.dependencies.push(done.batch.dependencies),
        }
    }

    /// The engine with another arena and the same history.
    pub open spec fn with_objects(self, objects: Seq<ObjectView>) -> EngineView {
        EngineView {
            files: self.files,
            objects,
            creations: self.creations,
            dependencies: self.dependencies,
        }
    }

    /// Processes one file, given by its name and by the requests that its
    /// statements make. Without fault, the file is committed. With a fault,
    /// the engine stays as it was.
    pub open spec fn record(self, file: Seq<char>, requests: Seq<Request>) -> EngineView {
        let done = self.opened(file).run(requests);
        if done.fault is Some {
            self
        } else {
            self.committed(done)
        }
    }

    /// The fault that stops a file, if one does.
    pub open spec fn fault_of(self, file: Seq<char>, requests: Seq<Request>) -> Option<ErrorView> {
        self.opened(file).run(requests).fault
    }

    /// The validity of the engine together with the lists of an open file.
    pub open spec fn consistent(self, batch: BatchView) -> bool {
        &&& self.files.len() == self.creations.len()
        &&& self.files.len() == self.dependencies.len()
        &&& coherent(self.creations, self.dependencies, self.objects, batch)
    }

    /// The validity of the engine between two files.
    pub open spec fn wf(self) -> bool {
        self.consistent(BatchView::fresh(Seq::empty(), self.objects.len()))
    }
}

/// A file as the engine sees it: its name and the requests that its
/// statements make.
pub struct FileScript {
    pub file: Seq<char>,
    pub requests: Seq<Request>,
}

/// The engine after the files were processed in order, from the empty
/// engine. A file that meets a fault leaves nothing.
pub open spec fn replay(files: Seq<FileScript>) -> EngineView
    decreases files.len(),
{
    if files.len() == 0 {
        EngineView::empty()
    } else {
        replay(files.drop_last()).record(files.last().file, files.last().requests)
    }
}

/// The identities of the placeholders that the requests bring into being:
/// each reference to a name that is unknown when the reference is made adds
/// the next free identity.
pub open spec fn placeholders_born(start: Progress, requests: Seq<Request>) -> Set<nat>
    decreases requests.len(),
{
    if requests.len() == 0 {
        Set::empty()
    } else {
        let earlier = placeholders_born(start, requests.drop_last());
        let now = start.run(requests.drop_last());
        match requests.last() {
            Request::Depend(name, _) => if now.fault is None && !knows(now.objects, name) {
                earlier.insert(now.objects.len())
            } else {
                earlier
            },
            _ => earlier,
        }
    }
}

/// The identities of the placeholders that the files of a run bring into
/// being. A file that meets a fault leaves nothing, so it adds none.
pub open spec fn placeholders_born_in_run(files: Seq<FileScript>) -> Set<nat>
    decreases files.len(),
{
    if files.len() == 0 {
        Set::empty()
    } else {
        let earlier = placeholders_born_in_run(files.drop_last());
        let engine = replay(files.drop_last());
        let start = engine.opened(files.last().file);
        if start.run(files.last().requests).fault is Some {
            earlier
        } else {
            earlier.union(placeholders_born(start, files.last().requests))
        }
    }
}

/// Whether every request of every file is sound.
pub open spec fn all_files_sound(files: Seq<FileScript>) -> bool {
    forall|k: int| 0 <= k < files.len() ==> all_sound((#[trigger] files[k]).requests)
}

} // verus!
