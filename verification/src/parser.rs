//! The resolution engine: the arena of objects, the placeholder protocol,
//! the conflict rules and the bookkeeping of what each file creates and
//! depends on.
use vstd::prelude::*;
use crate::ast::{RangeVar, Statement, Unsupported};
use crate::invariants::{
    lemma_commit_wf, lemma_contains_push, lemma_file_run, lemma_index_of_unique,
    lemma_rollback_wf, lemma_step_coherent,
};
use crate::statements::{lemma_statements_sound, statements_script};
use crate::model::{
    distinct_names, knows, symbol_table, target, BatchView, EngineView, ErrorView, Progress,
    Request,
};
use crate::objects::{
    clone_opt_string, clone_strings, ids_view, names_view, objects_view, opt_chars, Entity,
    EntityTag, EntityView, NameView, Object, ObjectId, ObjectView, QualifiedName,
};

verus! {

/// The identity of a processed file: its position in the order of
/// processing.
#[derive(Clone, Copy, Debug, PartialEq, Eq, PartialOrd, Ord, Hash, Structural)]
pub struct FileId(pub usize);

/// A fault. Every fault is fatal to the run, and names the file in which it
/// was met.
#[derive(Debug, PartialEq, Eq)]
pub enum Error {
    /// A name list of another length than one or two.
    MalformedName { file: String, parts: Vec<String> },
    /// A definition of another kind than an earlier reference expected.
    TypeConflict { file: String, name: QualifiedName, expected: EntityTag, actual: EntityTag },
    /// A second definition of a name that is already defined.
    Redefinition { file: String, name: QualifiedName, previous: EntityTag, new: EntityTag },
    /// A statement that is recognised and refused.
    UnsupportedStatement { file: String, statement: Unsupported },
}

impl View for Error {
    type V = ErrorView;

    open spec fn view(&self) -> ErrorView {
        match *self {
            Error::MalformedName { file, parts } => ErrorView::MalformedName {
                file: file@,
                parts: names_view(parts@),
            },
            Error::TypeConflict { file, name, expected, actual } => ErrorView::TypeConflict {
                file: file@,
                name: name@,
                expected,
                actual,
            },
            Error::Redefinition { file, name, previous, new } => ErrorView::Redefinition {
                file: file@,
                name: name@,
                previous,
                new,
            },
            Error::UnsupportedStatement { file, statement } => ErrorView::UnsupportedStatement {
                file: file@,
                statement,
            },
        }
    }
}

/// The fault that a result carries, if it carries one.
pub open spec fn fault_of<T>(result: Result<T, Error>) -> Option<ErrorView> {
    match result {
        Ok(_) => None,
        Err(e) => Some(e@),
    }
}

/// The creations and dependencies of the file that is being processed.
///
/// The lists are threaded through the processing of the file, and appended
/// to the history of the engine when the file is done.
#[derive(Debug)]
pub struct FileBatch {
    file: String,
    base: usize,
    creations: Vec<ObjectId>,
    dependencies: Vec<ObjectId>,
}

impl View for FileBatch {
    type V = BatchView;

    closed spec fn view(&self) -> BatchView {
        BatchView {
            file: self.file@,
            base: self.base as nat,
            creations: ids_view(self.creations@),
            dependencies: ids_view(self.dependencies@),
        }
    }
}

impl FileBatch {
    /// The name of the file.
    pub fn file(&self) -> (r: &String)
        ensures
            r@ == self@.file,
    {
        &self.file
    }

    /// The identities that the file has defined so far, in order.
    pub fn creations(&self) -> (r: &Vec<ObjectId>)
        ensures
            ids_view(r@) == self@.creations,
    {
        &self.creations
    }

    /// The identities that the file was first to reference so far, in order.
    pub fn dependencies(&self) -> (r: &Vec<ObjectId>)
        ensures
            ids_view(r@) == self@.dependencies,
    {
        &self.dependencies
    }

    /// The fault of meeting, in the file, a statement that is refused.
    pub fn unsupported(&self, statement: Unsupported) -> (e: Error)
        ensures
            e@ == (ErrorView::UnsupportedStatement { file: self@.file, statement }),
    {
        Error::UnsupportedStatement { file: self.file.clone(), statement }
    }
}

/// The engine: the arena of all known objects, and for each processed file
/// what it created and what it depends on.
#[derive(Debug)]
pub struct SchemaParser {
    files: Vec<String>,
    objects: Vec<Object>,
    creations: Vec<Vec<ObjectId>>,
    dependencies: Vec<Vec<ObjectId>>,
}

impl View for SchemaParser {
    type V = EngineView;

    closed spec fn view(&self) -> EngineView {
        EngineView {
            files: names_view(self.files@),
            objects: objects_view(self.objects@),
            creations: self.creations@.map_values(|ids: Vec<ObjectId>| ids_view(ids@)),
            dependencies: self.dependencies@.map_values(|ids: Vec<ObjectId>| ids_view(ids@)),
        }
    }
}

/// The name that a relation is given by.
pub open spec fn range_var_view(var: RangeVar) -> NameView {
    NameView { schema: opt_chars(var.schemaname), name: var.relname@ }
}

/// The name that a list of parts gives: a list of one part is a name without
/// a schema, a list of two parts is a schema and a name, and any other list
/// gives no name.
pub open spec fn name_of_parts(parts: Seq<String>) -> Option<NameView> {
    if parts.len() == 1 {
        Some(NameView { schema: None, name: parts[0]@ })
    } else if parts.len() == 2 {
        Some(NameView { schema: Some(parts[0]@), name: parts[1]@ })
    } else {
        None
    }
}

/// The name of a relation.
pub fn range_var_name(var: &RangeVar) -> (r: QualifiedName)
    ensures
        r@ == range_var_view(*var),
{
    QualifiedName { schema_name: clone_opt_string(&var.schemaname), name: var.relname.clone() }
}

/// Makes a qualified name of a list of name parts.
///
/// One part is a name, two parts are a schema and a name. A list of any
/// other length is a fault: nothing is cut off and nothing is made up.
pub fn schema_qualified_name(batch: &FileBatch, name: &Vec<String>) -> (r: Result<
    QualifiedName,
    Error,
>)
    ensures
        match name_of_parts(name@) {
            Some(n) => r matches Ok(q) && q@ == n,
            None => r matches Err(e) && e@ == (ErrorView::MalformedName {
                file: batch@.file,
                parts: names_view(name@),
            }),
        },
{
    if name.len() == 1 {
        Ok(QualifiedName { schema_name: None, name: name[0].clone() })
    } else if name.len() == 2 {
        Ok(QualifiedName { schema_name: Some(name[0].clone()), name: name[1].clone() })
    } else {
        Err(Error::MalformedName { file: batch.file.clone(), parts: clone_strings(name) })
    }
}

/// How far the engine has come with an open file.
pub open spec fn progress(engine: EngineView, batch: BatchView, fault: Option<ErrorView>) -> Progress {
    Progress { objects: engine.objects, batch, fault }
}

/// Whether the engine has answered the requests: it went from one state to
/// the other by answering them in order up to the first fault, it is
/// consistent, and its history is what it was.
pub open spec fn answers(
    before: EngineView,
    batch_before: BatchView,
    after: EngineView,
    batch_after: BatchView,
    fault: Option<ErrorView>,
    requests: Seq<Request>,
) -> bool {
    &&& after.consistent(batch_after)
    &&& after == before.with_objects(after.objects)
    &&& progress(after, batch_after, fault) == progress(before, batch_before, None).run(requests)
}

impl SchemaParser {
    /// An engine that knows no object and has processed no file.
    pub fn new() -> (r: Self)
        ensures
            r@ == EngineView::empty(),
            r@.wf(),
    {
        let r = SchemaParser {
            files: Vec::new(),
            objects: Vec::new(),
            creations: Vec::new(),
            dependencies: Vec::new(),
        };
        assert(r@.files =~= Seq::empty());
        assert(r@.objects =~= Seq::empty());
        assert(r@.creations =~= Seq::empty());
        assert(r@.dependencies =~= Seq::empty());
        r
    }

    /// Opens the lists of a file. Nothing is recorded of the file until it
    /// is done.
    pub fn open_file(&self, file: String) -> (batch: FileBatch)
        ensures
            batch@ == BatchView::fresh(file@, self@.objects.len()),
            self@.wf() ==> self@.consistent(batch@),
    {
        let batch = FileBatch {
            file,
            base: self.objects.len(),
            creations: Vec::new(),
            dependencies: Vec::new(),
        };
        assert(batch@.creations =~= Seq::empty());
        assert(batch@.dependencies =~= Seq::empty());
        batch
    }

    /// Looks a name up in the symbol table: the identity of the object that
    /// has the name, if the name is known.
    pub fn find(&self, name: &QualifiedName) -> (r: Option<ObjectId>)
        ensures
            r is Some <==> knows(self@.objects, name@),
            r matches Some(id) ==> id@ < self@.objects.len() && self@.objects[id@ as int].name
                == name@,
            distinct_names(self@.objects) ==> (r matches Some(id) ==> symbol_table(
                self@.objects,
            )[name@] == id@),
    {
        let mut i: usize = 0;
        while i < self.objects.len()
            invariant
                i <= self.objects.len(),
                forall|k: int| 0 <= k < i ==> (#[trigger] self@.objects[k]).name != name@,
            decreases self.objects.len() - i,
        {
            if self.objects[i].name == *name {
                assert(self@.objects[i as int].name == name@);
                proof {
                    if distinct_names(self@.objects) {
                        lemma_index_of_unique(self@.objects, i as int);
                    }
                }
                return Some(ObjectId(i));
            }
            i = i + 1;
        }
        None
    }

    /// The arena: every known object, at the position that its identity
    /// names.
    pub fn objects(&self) -> (r: &Vec<Object>)
        ensures
            objects_view(r@) == self@.objects,
    {
        &self.objects
    }

    /// The names of the processed files, in the order of processing.
    pub fn files(&self) -> (r: &Vec<String>)
        ensures
            names_view(r@) == self@.files,
    {
        &self.files
    }

    /// The name of a processed file.
    pub fn get_file(&self, id: FileId) -> (r: &String)
        requires
            id.0 < self@.files.len(),
        ensures
            r@ == self@.files[id.0 as int],
    {
        &self.files[id.0]
    }

    /// The identities that a processed file defined, in order.
    pub fn creations(&self, id: FileId) -> (r: &Vec<ObjectId>)
        requires
            id.0 < self@.creations.len(),
        ensures
            ids_view(r@) == self@.creations[id.0 as int],
    {
        &self.creations[id.0]
    }

    /// The identities that a processed file was first to reference, in
    /// order.
    pub fn dependencies(&self, id: FileId) -> (r: &Vec<ObjectId>)
        requires
            id.0 < self@.dependencies.len(),
        ensures
            ids_view(r@) == self@.dependencies[id.0 as int],
    {
        &self.dependencies[id.0]
    }

    /// The object behind an identity.
    pub fn get_object(&self, id: ObjectId) -> (object: &Object)
        requires
            id@ < self@.objects.len(),
        ensures
            object@ == self@.objects[id@ as int],
    {
        &self.objects[id.0]
    }

    /// Checks a definition against what is known under its name.
    ///
    /// Only a placeholder that expects the kind of the definition can be
    /// replaced. A placeholder that expects another kind is a type conflict;
    /// anything else is a redefinition.
    pub fn assert_can_replace(batch: &FileBatch, existing: &Object, new: &Object) -> (r: Result<
        (),
        Error,
    >)
        requires
            existing@.name == new@.name,
        ensures
            match existing@.entity {
                EntityView::Placeholder { expected } => if expected == new@.entity.tag() {
                    r is Ok
                } else {
                    r matches Err(e) && e@ == (ErrorView::TypeConflict {
                        file: batch@.file,
                        name: new@.name,
                        expected,
                        actual: new@.entity.tag(),
                    })
                },
                known => r matches Err(e) && e@ == (ErrorView::Redefinition {
                    file: batch@.file,
                    name: new@.name,
                    previous: known.tag(),
                    new: new@.entity.tag(),
                }),
            },
    {
        let new_tag = new.entity.tag();
        match &existing.entity {
            Entity::Placeholder(tag) => {
                if *tag != new_tag {
                    Err(
                        Error::TypeConflict {
                            file: batch.file.clone(),
                            name: existing.name.clone(),
                            expected: *tag,
                            actual: new_tag,
                        },
                    )
                } else {
                    Ok(())
                }
            },
            e => Err(
                Error::Redefinition {
                    file: batch.file.clone(),
                    name: existing.name.clone(),
                    previous: e.tag(),
                    new: new_tag,
                },
            ),
        }
    }

    /// Registers the definition of an object and returns its identity.
    ///
    /// An unknown name gets a new object. A placeholder is replaced in place,
    /// under the identity it had, where the definition has the kind that the
    /// placeholder expects. Either way the identity is listed as a creation of
    /// the file. Any other definition of a known name is a fault, and changes
    /// nothing.
    pub fn create_object(&mut self, batch: &mut FileBatch, object: Object) -> (r: Result<
        ObjectId,
        Error,
    >)
        requires
            old(self)@.consistent(old(batch)@),
            object@.entity.is_concrete(),
        ensures
            final(self)@.consistent(final(batch)@),
            final(self)@ == old(self)@.with_objects(final(self)@.objects),
            progress(final(self)@, final(batch)@, fault_of(r)) == progress(
                old(self)@,
                old(batch)@,
                None,
            ).define(object@),
            r matches Ok(id) ==> {
                &&& id@ == target(old(self)@.objects, object@.name)
                &&& id@ < final(self)@.objects.len()
                &&& final(self)@.objects[id@ as int] == object@
            },
    {
        let ghost before = progress(self@, batch@, None);
        proof {
            lemma_step_coherent(
                self@.creations,
                self@.dependencies,
                before,
                Request::Define(object@),
            );
        }
        match self.find(&object.name) {
            Some(id) => {
                match Self::assert_can_replace(batch, &self.objects[id.0], &object) {
                    Err(e) => Err(e),
                    Ok(()) => {
                        self.objects[id.0] = object;
                        batch.creations.push(id);
                        assert(self@.objects =~= before.objects.update(id@ as int, object@));
                        assert(batch@.creations =~= before.batch.creations.push(id@));
                        Ok(id)
                    },
                }
            },
            None => {
                let id = ObjectId(self.objects.len());
                self.objects.push(object);
                batch.creations.push(id);
                assert(self@.objects =~= before.objects.push(object@));
                assert(batch@.creations =~= before.batch.creations.push(id@));
                Ok(id)
            },
        }
    }

    /// Registers a reference to a name and returns the identity of the name.
    ///
    /// A known name keeps its object, whatever the kind of the object: a
    /// reference checks no kind. An unknown name gets a placeholder that
    /// expects the kind, and the placeholder is listed as a dependency of the
    /// file.
    pub fn register_dep(&mut self, batch: &mut FileBatch, name: QualifiedName, tag: EntityTag) -> (id:
        ObjectId)
        requires
            old(self)@.consistent(old(batch)@),
        ensures
            final(self)@.consistent(final(batch)@),
            final(self)@ == old(self)@.with_objects(final(self)@.objects),
            progress(final(self)@, final(batch)@, None) == progress(
                old(self)@,
                old(batch)@,
                None,
            ).depend(name@, tag),
            id@ == target(old(self)@.objects, name@),
            id@ < final(self)@.objects.len(),
            final(self)@.objects[id@ as int].name == name@,
    {
        let ghost before = progress(self@, batch@, None);
        proof {
            lemma_step_coherent(
                self@.creations,
                self@.dependencies,
                before,
                Request::Depend(name@, tag),
            );
        }
        match self.find(&name) {
            Some(id) => id,
            None => {
                let id = ObjectId(self.objects.len());
                self.objects.push(Object { name, entity: Entity::Placeholder(tag) });
                batch.dependencies.push(id);
                assert(self@.objects =~= before.objects.push(
                    ObjectView { name: name@, entity: EntityView::Placeholder { expected: tag } },
                ));
                assert(batch@.dependencies =~= before.batch.dependencies.push(id@));
                id
            },
        }
    }

    /// Closes a file that was processed without fault: its name and its two
    /// lists are appended to the history, and the position they have there
    /// is the identity of the file.
    pub fn insert_file(&mut self, batch: FileBatch) -> (id: FileId)
        requires
            old(self)@.consistent(batch@),
        ensures
            final(self)@ == old(self)@.committed(progress(old(self)@, batch@, None)),
            final(self)@.wf(),
            id.0 == old(self)@.files.len(),
    {
        proof {
            lemma_commit_wf(self@, progress(self@, batch@, None));
        }
        let ghost before = self@;
        let FileBatch { file, base: _, creations, dependencies } = batch;
        self.files.push(file);
        self.creations.push(creations);
        self.dependencies.push(dependencies);
        assert(self@.files =~= before.files.push(batch@.file));
        assert(self@.creations =~= before.creations.push(batch@.creations));
        assert(self@.dependencies =~= before.dependencies.push(batch@.dependencies));
        FileId(self.files.len() - 1)
    }

    /// Takes back what an open file has done: the objects that the file
    /// added are dropped, and the placeholders that it replaced are
    /// placeholders again. Nothing of the file is recorded.
    pub fn rollback(&mut self, batch: FileBatch)
        requires
            old(self)@.consistent(batch@),
        ensures
            final(self)@ == old(self)@.with_objects(
                progress(old(self)@, batch@, None).rolled_back(),
            ),
            final(self)@.wf(),
    {
        let ghost before = progress(self@, batch@, None);
        proof {
            lemma_rollback_wf(self@, before);
        }
        let mut k: usize = 0;
        while k < batch.creations.len()
            invariant
                k <= batch.creations.len(),
                before == progress(old(self)@, batch@, None),
                old(self)@.consistent(batch@),
                self@ == old(self)@.with_objects(self@.objects),
                self@.objects.len() == before.objects.len(),
                forall|i: int|
                    0 <= i < before.objects.len() ==> (#[trigger] self@.objects[i]) == if i
                        < batch@.base && before.batch.creations.take(k as int).contains(i as nat) {
                        ObjectView {
                            name: before.objects[i].name,
                            entity: EntityView::Placeholder {
                                expected: before.objects[i].entity.tag(),
                            },
                        }
                    } else {
                        before.objects[i]
                    },
            decreases batch.creations.len() - k,
        {
            let id = batch.creations[k];
            let ghost done = before.batch.creations.take(k as int);
            assert(before.batch.creations[k as int] == id@);
            assert(!done.contains(id@)) by {
                if done.contains(id@) {
                    let j = choose|j: int| 0 <= j < done.len() && done[j] == id@;
                    assert(before.batch.creations[j] == id@);
                }
            }
            assert(before.batch.creations.take(k + 1) =~= done.push(id@));
            assert forall|x: nat| #[trigger]
                done.push(id@).contains(x) <==> done.contains(x) || x == id@ by {
                lemma_contains_push(done, id@, x);
            }
            if id.0 < batch.base {
                assert(id@ < before.objects.len());
                assert(self@.objects[id@ as int] == before.objects[id@ as int]);
                let tag = self.objects[id.0].entity.tag();
                let name = self.objects[id.0].name.clone();
                let ghost objects = self@.objects;
                self.objects[id.0] = Object { name, entity: Entity::Placeholder(tag) };
                assert(self@.objects =~= objects.update(
                    id@ as int,
                    ObjectView {
                        name: before.objects[id@ as int].name,
                        entity: EntityView::Placeholder {
                            expected: before.objects[id@ as int].entity.tag(),
                        },
                    },
                ));
            }
            k = k + 1;
        }
        assert(before.batch.creations.take(k as int) =~= before.batch.creations);
        let ghost mended = self@.objects;
        self.objects.truncate(batch.base);
        assert forall|i: int| 0 <= i < batch@.base implies (#[trigger] self@.objects[i])
            == before.rolled_back()[i] by {
            assert(self@.objects[i] == mended[i]);
        }
        assert(self@.objects =~= before.rolled_back());
    }

    /// Processes one file, given by its name and its statements in source
    /// order.
    ///
    /// The statements are walked into fresh lists. Without fault, the lists
    /// are appended to the history and the file gets the next identity. The
    /// first fault ends the processing, and nothing of the file is kept:
    /// the engine is as it was before the file.
    pub fn parse(&mut self, file: String, ast: Vec<Statement>) -> (r: Result<FileId, Error>)
        requires
            old(self)@.wf(),
        ensures
            final(self)@.wf(),
            final(self)@ == old(self)@.record(file@, statements_script(ast@, ast@.len())),
            fault_of(r) == old(self)@.fault_of(file@, statements_script(ast@, ast@.len())),
            r matches Ok(id) ==> id.0 == old(self)@.files.len(),
    {
        proof {
            lemma_statements_sound(ast@, ast@.len());
            lemma_file_run(self@, file@, statements_script(ast@, ast@.len()));
        }
        let mut batch = self.open_file(file);
        match self.parse_nodes(&mut batch, &ast) {
            Ok(()) => Ok(self.insert_file(batch)),
            Err(e) => {
                self.rollback(batch);
                Err(e)
            },
        }
    }
}

} // verus!
