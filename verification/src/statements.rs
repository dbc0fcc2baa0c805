//! The statement walker: one handler for each statement shape that the
//! engine understands.
//!
//! What a statement asks of the engine is its script, a sequence of
//! requests. Each handler makes the requests of its statement in order and
//! stops at the first fault.
use vstd::prelude::*;
use crate::ast::{
    CollateClause, ColumnDef, Constraint, CreateSchemaStmt, CreateStmt, DefElem, DefineStmt,
    ObjectType, RangeVar, Statement, TableElement, TypeName, Unsupported,
};
use crate::invariants::{lemma_run_append, lemma_run_one};
use crate::model::{all_sound, Progress, Request};
use crate::objects::{
    clone_opt_string, names_view, opt_chars, Entity, EntityTag, EntityView, NameView, Object,
    ObjectView, QualifiedName, Schema,
};
use crate::parser::{
    answers, fault_of, name_of_parts, progress, range_var_name, range_var_view,
    schema_qualified_name, Error, FileBatch, SchemaParser,
};

verus! {

/// The request to reference the name that a list of parts gives; where the
/// list gives no name, the request to stop.
pub open spec fn depend_on_parts(parts: Seq<String>, expected: EntityTag) -> Request {
    match name_of_parts(parts) {
        Some(name) => Request::Depend(name, expected),
        None => Request::Malformed(names_view(parts)),
    }
}

/// The request to define an entity under the name that a list of parts
/// gives; where the list gives no name, the request to stop.
pub open spec fn define_by_parts(parts: Seq<String>, entity: EntityView) -> Request {
    match name_of_parts(parts) {
        Some(name) => Request::Define(ObjectView { name, entity }),
        None => Request::Malformed(names_view(parts)),
    }
}

/// What a column asks: its type, then its collation if it names one. Its
/// constraints ask nothing.
pub open spec fn column_script(def: ColumnDef) -> Seq<Request> {
    seq![depend_on_parts(def.typename.names@, EntityTag::Type)] + collation_script(
        def.coll_clause,
    )
}

/// What a `COLLATE` clause asks, where there is one: its collation is
/// referenced.
pub open spec fn collation_script(clause: Option<CollateClause>) -> Seq<Request> {
    match clause {
        Some(clause) => seq![depend_on_parts(clause.collname@, EntityTag::Collation)],
        None => Seq::empty(),
    }
}

/// What an element of a table asks: a column asks what [`column_script`]
/// says, a `LIKE` clause asks for its source table, and a constraint asks
/// nothing.
pub open spec fn table_element_script(element: TableElement) -> Seq<Request> {
    match element {
        TableElement::ColumnDef(def) => column_script(def),
        TableElement::Constraint(_) => Seq::empty(),
        TableElement::TableLikeClause(clause) => seq![
            Request::Depend(range_var_view(clause.relation), EntityTag::Table),
        ],
    }
}

/// What the first `n` elements of a table ask, in order.
pub open spec fn table_elements_script(elements: Seq<TableElement>, n: nat) -> Seq<Request>
    decreases n,
{
    if n == 0 || n > elements.len() {
        Seq::empty()
    } else {
        table_elements_script(elements, (n - 1) as nat) + table_element_script(elements[n - 1])
    }
}

/// What the first `n` inherited parents of a table ask: each is referenced
/// as a table.
pub open spec fn inherits_script(parents: Seq<RangeVar>, n: nat) -> Seq<Request>
    decreases n,
{
    if n == 0 || n > parents.len() {
        Seq::empty()
    } else {
        inherits_script(parents, (n - 1) as nat).push(
            Request::Depend(range_var_view(parents[n - 1]), EntityTag::Table),
        )
    }
}

/// What the `OF` clause of a table asks, where there is one: its type is
/// referenced.
pub open spec fn of_type_script(of_type: Option<TypeName>) -> Seq<Request> {
    match of_type {
        Some(of_type) => seq![depend_on_parts(of_type.names@, EntityTag::Type)],
        None => Seq::empty(),
    }
}

/// What the tablespace of a table asks, where one is named: it is
/// referenced.
pub open spec fn tablespace_script(tablespace: Option<String>) -> Seq<Request> {
    match tablespace {
        Some(tablespace) => seq![
            Request::Depend(NameView { schema: None, name: tablespace@ }, EntityTag::Tablespace),
        ],
        None => Seq::empty(),
    }
}

/// What `CREATE TABLE` asks: the table is defined; then its `OF` type, its
/// elements, its inherited parents and its tablespace are referenced, in
/// that order.
pub open spec fn table_script(stmt: CreateStmt) -> Seq<Request> {
    seq![
        Request::Define(
            ObjectView { name: range_var_view(stmt.relation), entity: EntityView::Table },
        ),
    ] + of_type_script(stmt.of_typename) + table_elements_script(
        stmt.table_elts@,
        stmt.table_elts@.len(),
    ) + inherits_script(stmt.inh_relations@, stmt.inh_relations@.len()) + tablespace_script(
        stmt.tablespacename,
    )
}

/// The owner that `CREATE SCHEMA` gives: the name of its role, if it names
/// one.
pub open spec fn schema_owner(stmt: CreateSchemaStmt) -> Option<Seq<char>> {
    match stmt.authrole {
        Some(role) => opt_chars(role.rolename),
        None => None,
    }
}

/// What an option of a definition list asks: a `from` option references the
/// name that its argument gives, and any other option asks nothing.
pub open spec fn def_elem_script(elem: DefElem, expected: EntityTag) -> Seq<Request> {
    if elem.defname matches Some(n) && n@ == "from"@ {
        seq![depend_on_parts(elem.arg@, expected)]
    } else {
        Seq::empty()
    }
}

/// What the first `n` options of a definition list ask, in order.
pub open spec fn def_elems_script(elems: Seq<DefElem>, expected: EntityTag, n: nat) -> Seq<Request>
    decreases n,
{
    if n == 0 || n > elems.len() {
        Seq::empty()
    } else {
        def_elems_script(elems, expected, (n - 1) as nat) + def_elem_script(elems[n - 1], expected)
    }
}

/// What a `DEFINE` statement asks. A collation is defined, and its
/// definition list is asked for what it references. Any other kind is
/// refused.
pub open spec fn define_script(stmt: DefineStmt) -> Seq<Request> {
    match stmt.kind {
        ObjectType::Collation => seq![define_by_parts(stmt.defnames@, EntityView::Collation)]
            + def_elems_script(stmt.definition@, EntityTag::Collation, stmt.definition@.len()),
        kind => seq![Request::Refuse(Unsupported::Define(kind))],
    }
}

/// What a statement asks.
///
/// An assignment to a session variable is refused. A statement that the
/// engine does not look at asks nothing.
pub open spec fn node_script(stmt: Statement) -> Seq<Request>
    decreases stmt, 0nat,
{
    match stmt {
        Statement::CreateSchemaStmt(s) => schema_script(s),
        Statement::CreateStmt(s) => table_script(s),
        Statement::DefineStmt(s) => define_script(s),
        Statement::VariableSetStmt => seq![Request::Refuse(Unsupported::VariableSet)],
        Statement::Other => Seq::empty(),
    }
}

/// What `CREATE SCHEMA` asks: first what the statements nested in it ask,
/// then the schema is defined.
pub open spec fn schema_script(stmt: CreateSchemaStmt) -> Seq<Request>
    decreases stmt, 0nat,
{
    statements_script(stmt.schema_elts@, stmt.schema_elts@.len()).push(
        Request::Define(
            ObjectView {
                name: NameView { schema: None, name: stmt.schemaname@ },
                entity: EntityView::Schema { owner: schema_owner(stmt) },
            },
        ),
    )
}

/// What the first `n` statements of a list ask, in order.
pub open spec fn statements_script(stmts: Seq<Statement>, n: nat) -> Seq<Request>
    decreases stmts, n,
{
    if n == 0 || n > stmts.len() {
        Seq::empty()
    } else {
        statements_script(stmts, (n - 1) as nat) + node_script(stmts[n - 1])
    }
}

/// Once a statement of a list has met a fault, the rest of the list changes
/// nothing.
pub proof fn lemma_statements_stop(start: Progress, stmts: Seq<Statement>, i: nat, n: nat)
    requires
        i <= n <= stmts.len(),
        start.run(statements_script(stmts, i)).fault is Some,
    ensures
        start.run(statements_script(stmts, n)) == start.run(statements_script(stmts, i)),
    decreases n,
{
    if i < n {
        lemma_statements_stop(start, stmts, i, (n - 1) as nat);
        lemma_run_append(
            start,
            statements_script(stmts, (n - 1) as nat),
            node_script(stmts[n - 1]),
        );
    }
}

/// Once an element of a table has met a fault, the rest of the elements
/// change nothing.
pub proof fn lemma_table_elements_stop(
    start: Progress,
    elements: Seq<TableElement>,
    i: nat,
    n: nat,
)
    requires
        i <= n <= elements.len(),
        start.run(table_elements_script(elements, i)).fault is Some,
    ensures
        start.run(table_elements_script(elements, n)) == start.run(
            table_elements_script(elements, i),
        ),
    decreases n,
{
    if i < n {
        lemma_table_elements_stop(start, elements, i, (n - 1) as nat);
        lemma_run_append(
            start,
            table_elements_script(elements, (n - 1) as nat),
            table_element_script(elements[n - 1]),
        );
    }
}

/// Once an option of a definition list has met a fault, the rest of the
/// list changes nothing.
pub proof fn lemma_def_elems_stop(
    start: Progress,
    elems: Seq<DefElem>,
    expected: EntityTag,
    i: nat,
    n: nat,
)
    requires
        i <= n <= elems.len(),
        start.run(def_elems_script(elems, expected, i)).fault is Some,
    ensures
        start.run(def_elems_script(elems, expected, n)) == start.run(
            def_elems_script(elems, expected, i),
        ),
    decreases n,
{
    if i < n {
        lemma_def_elems_stop(start, elems, expected, i, (n - 1) as nat);
        lemma_run_append(
            start,
            def_elems_script(elems, expected, (n - 1) as nat),
            def_elem_script(elems[n - 1], expected),
        );
    }
}

/// No element of a table defines anything.
pub proof fn lemma_table_elements_sound(elements: Seq<TableElement>, n: nat)
    ensures
        all_sound(table_elements_script(elements, n)),
    decreases n,
{
    if n > 0 && n <= elements.len() {
        lemma_table_elements_sound(elements, (n - 1) as nat);
    }
}

/// No inherited parent defines anything.
pub proof fn lemma_inherits_sound(parents: Seq<RangeVar>, n: nat)
    ensures
        all_sound(inherits_script(parents, n)),
    decreases n,
{
    if n > 0 && n <= parents.len() {
        lemma_inherits_sound(parents, (n - 1) as nat);
    }
}

/// No option of a definition list defines anything.
pub proof fn lemma_def_elems_sound(elems: Seq<DefElem>, expected: EntityTag, n: nat)
    ensures
        all_sound(def_elems_script(elems, expected, n)),
    decreases n,
{
    if n > 0 && n <= elems.len() {
        lemma_def_elems_sound(elems, expected, (n - 1) as nat);
    }
}

/// No statement defines a placeholder.
pub proof fn lemma_node_sound(stmt: Statement)
    ensures
        all_sound(node_script(stmt)),
    decreases stmt, 0nat,
{
    match stmt {
        Statement::CreateSchemaStmt(s) => {
            lemma_statements_sound(s.schema_elts@, s.schema_elts@.len());
        },
        Statement::CreateStmt(s) => {
            lemma_table_elements_sound(s.table_elts@, s.table_elts@.len());
            lemma_inherits_sound(s.inh_relations@, s.inh_relations@.len());
        },
        Statement::DefineStmt(s) => {
            lemma_def_elems_sound(s.definition@, EntityTag::Collation, s.definition@.len());
        },
        _ => {},
    }
}

/// No statement of a list defines a placeholder.
pub proof fn lemma_statements_sound(stmts: Seq<Statement>, n: nat)
    ensures
        all_sound(statements_script(stmts, n)),
    decreases stmts, n,
{
    if n > 0 && n <= stmts.len() {
        lemma_statements_sound(stmts, (n - 1) as nat);
        lemma_node_sound(stmts[n - 1]);
    }
}

/// A table without columns is accepted: where nothing else is said of it,
/// the table asks for its own definition only.
pub proof fn a_table_may_be_empty(stmt: CreateStmt)
    requires
        stmt.of_typename is None,
        stmt.table_elts@.len() == 0,
        stmt.inh_relations@.len() == 0,
        stmt.tablespacename is None,
    ensures
        table_script(stmt) == seq![
            Request::Define(
                ObjectView { name: range_var_view(stmt.relation), entity: EntityView::Table },
            ),
        ],
{
    assert(table_script(stmt) =~= seq![
        Request::Define(
            ObjectView { name: range_var_view(stmt.relation), entity: EntityView::Table },
        ),
    ]);
}

/// A schema without nested statements is accepted: it asks for its own
/// definition only.
pub proof fn a_schema_may_be_empty(stmt: CreateSchemaStmt)
    requires
        stmt.schema_elts@.len() == 0,
    ensures
        schema_script(stmt) == seq![
            Request::Define(
                ObjectView {
                    name: NameView { schema: None, name: stmt.schemaname@ },
                    entity: EntityView::Schema { owner: schema_owner(stmt) },
                },
            ),
        ],
{
    assert(schema_script(stmt) =~= seq![
        Request::Define(
            ObjectView {
                name: NameView { schema: None, name: stmt.schemaname@ },
                entity: EntityView::Schema { owner: schema_owner(stmt) },
            },
        ),
    ]);
}

impl SchemaParser {
    /// References the name that a list of parts gives.
    fn depend_on(
        &mut self,
        batch: &mut FileBatch,
        parts: &Vec<String>,
        expected: EntityTag,
    ) -> (r: Result<(), Error>)
        requires
            old(self)@.consistent(old(batch)@),
        ensures
            answers(
                old(self)@,
                old(batch)@,
                final(self)@,
                final(batch)@,
                fault_of(r),
                seq![depend_on_parts(parts@, expected)],
            ),
    {
        proof {
            lemma_run_one(progress(self@, batch@, None), depend_on_parts(parts@, expected));
        }
        match schema_qualified_name(batch, parts) {
            Ok(name) => {
                self.register_dep(batch, name, expected);
                Ok(())
            },
            Err(e) => Err(e),
        }
    }

    /// References a relation as a table.
    fn depend_on_table(&mut self, batch: &mut FileBatch, relation: &RangeVar)
        requires
            old(self)@.consistent(old(batch)@),
        ensures
            answers(
                old(self)@,
                old(batch)@,
                final(self)@,
                final(batch)@,
                None,
                seq![Request::Depend(range_var_view(*relation), EntityTag::Table)],
            ),
    {
        proof {
            lemma_run_one(
                progress(self@, batch@, None),
                Request::Depend(range_var_view(*relation), EntityTag::Table),
            );
        }
        self.register_dep(batch, range_var_name(relation), EntityTag::Table);
    }

    /// Handles a constraint. Constraints are read and ask nothing yet.
    pub fn constraint(&mut self, batch: &mut FileBatch, _constraint: &Constraint)
        ensures
            final(self)@ == old(self)@,
            final(batch)@ == old(batch)@,
    {
    }

    /// Handles a column: its type is referenced, its constraints are
    /// handled, and its collation is referenced if it names one.
    pub fn column_def(&mut self, batch: &mut FileBatch, def: &ColumnDef) -> (r: Result<(), Error>)
        requires
            old(self)@.consistent(old(batch)@),
        ensures
            answers(
                old(self)@,
                old(batch)@,
                final(self)@,
                final(batch)@,
                fault_of(r),
                column_script(*def),
            ),
    {
        let ghost start = progress(self@, batch@, None);
        let ghost first = seq![depend_on_parts(def.typename.names@, EntityTag::Type)];
        let ghost second = collation_script(def.coll_clause);
        proof {
            lemma_run_append(start, first, second);
        }
        match self.depend_on(batch, &def.typename.names, EntityTag::Type) {
            Err(e) => {
                return Err(e);
            },
            Ok(()) => {},
        }
        let mut i: usize = 0;
        while i < def.constraints.len()
            invariant
                i <= def.constraints.len(),
                answers(old(self)@, old(batch)@, self@, batch@, None, first),
            decreases def.constraints.len() - i,
        {
            self.constraint(batch, &def.constraints[i]);
            i = i + 1;
        }
        match &def.coll_clause {
            Some(clause) => self.depend_on(batch, &clause.collname, EntityTag::Collation),
            None => Ok(()),
        }
    }

    /// Handles the elements of a table in order.
    fn table_elements(&mut self, batch: &mut FileBatch, elements: &Vec<TableElement>) -> (r:
        Result<(), Error>)
        requires
            old(self)@.consistent(old(batch)@),
        ensures
            answers(
                old(self)@,
                old(batch)@,
                final(self)@,
                final(batch)@,
                fault_of(r),
                table_elements_script(elements@, elements@.len()),
            ),
    {
        let ghost start = progress(self@, batch@, None);
        let mut i: usize = 0;
        while i < elements.len()
            invariant
                i <= elements.len(),
                start == progress(old(self)@, old(batch)@, None),
                answers(
                    old(self)@,
                    old(batch)@,
                    self@,
                    batch@,
                    None,
                    table_elements_script(elements@, i as nat),
                ),
            decreases elements.len() - i,
        {
            proof {
                lemma_run_append(
                    start,
                    table_elements_script(elements@, i as nat),
                    table_element_script(elements@[i as int]),
                );
            }
            let r = match &elements[i] {
                TableElement::ColumnDef(def) => self.column_def(batch, def),
                TableElement::Constraint(constraint) => {
                    self.constraint(batch, constraint);
                    Ok(())
                },
                TableElement::TableLikeClause(clause) => {
                    self.depend_on_table(batch, &clause.relation);
                    Ok(())
                },
            };
            if let Err(e) = r {
                proof {
                    lemma_table_elements_stop(
                        start,
                        elements@,
                        (i + 1) as nat,
                        elements@.len(),
                    );
                }
                return Err(e);
            }
            i = i + 1;
        }
        Ok(())
    }

    /// References each inherited parent as a table.
    fn inherits(&mut self, batch: &mut FileBatch, parents: &Vec<RangeVar>)
        requires
            old(self)@.consistent(old(batch)@),
        ensures
            answers(
                old(self)@,
                old(batch)@,
                final(self)@,
                final(batch)@,
                None,
                inherits_script(parents@, parents@.len()),
            ),
    {
        let ghost start = progress(self@, batch@, None);
        let mut i: usize = 0;
        while i < parents.len()
            invariant
                i <= parents.len(),
                start == progress(old(self)@, old(batch)@, None),
                answers(
                    old(self)@,
                    old(batch)@,
                    self@,
                    batch@,
                    None,
                    inherits_script(parents@, i as nat),
                ),
            decreases parents.len() - i,
        {
            proof {
                let request = Request::Depend(range_var_view(parents@[i as int]), EntityTag::Table);
                lemma_run_append(start, inherits_script(parents@, i as nat), seq![request]);
                assert(inherits_script(parents@, i as nat) + seq![request] =~= inherits_script(
                    parents@,
                    i as nat,
                ).push(request));
            }
            self.depend_on_table(batch, &parents[i]);
            i = i + 1;
        }
    }

    /// Handles `CREATE TABLE`: the table is defined, and what it is made of
    /// is referenced: its `OF` type, the types and collations of its columns,
    /// the source tables of its `LIKE` clauses, its inherited parents and its
    /// tablespace.
    pub fn create_table(&mut self, batch: &mut FileBatch, stmt: &CreateStmt) -> (r: Result<
        (),
        Error,
    >)
        requires
            old(self)@.consistent(old(batch)@),
        ensures
            answers(
                old(self)@,
                old(batch)@,
                final(self)@,
                final(batch)@,
                fault_of(r),
                table_script(*stmt),
            ),
    {
        let ghost start = progress(self@, batch@, None);
        let ghost definition = Request::Define(
            ObjectView { name: range_var_view(stmt.relation), entity: EntityView::Table },
        );
        let ghost table = seq![definition];
        let ghost of_type = of_type_script(stmt.of_typename);
        let ghost elements = table_elements_script(stmt.table_elts@, stmt.table_elts@.len());
        let ghost parents = inherits_script(stmt.inh_relations@, stmt.inh_relations@.len());
        let ghost tablespace = tablespace_script(stmt.tablespacename);
        proof {
            lemma_run_one(start, definition);
            lemma_run_append(start, table, of_type);
            lemma_run_append(start, table + of_type, elements);
            lemma_run_append(start, table + of_type + elements, parents);
            lemma_run_append(start, table + of_type + elements + parents, tablespace);
        }
        // Table creation
        let object = Object { name: range_var_name(&stmt.relation), entity: Entity::Table };
        if let Err(e) = self.create_object(batch, object) {
            return Err(e);
        }
        // 0~1 TYPE OF
        if let Some(of_type) = &stmt.of_typename {
            if let Err(e) = self.depend_on(batch, &of_type.names, EntityTag::Type) {
                return Err(e);
            }
        }
        // 0+ columns, constraints and LIKE clauses
        if let Err(e) = self.table_elements(batch, &stmt.table_elts) {
            return Err(e);
        }
        // 0+ INHERITS
        self.inherits(batch, &stmt.inh_relations);
        // 0~1 tablespace
        if let Some(tablespace) = &stmt.tablespacename {
            let name = QualifiedName::unqualified(tablespace.clone());
            proof {
                lemma_run_one(
                    progress(self@, batch@, None),
                    Request::Depend(name@, EntityTag::Tablespace),
                );
            }
            self.register_dep(batch, name, EntityTag::Tablespace);
        }
        Ok(())
    }

    /// Handles one option of a definition list: a `from` option references
    /// the name that its argument gives, as an object of the kind given.
    pub fn def_elem(&mut self, batch: &mut FileBatch, elem: &DefElem, dep_type: EntityTag) -> (r:
        Result<(), Error>)
        requires
            old(self)@.consistent(old(batch)@),
        ensures
            answers(
                old(self)@,
                old(batch)@,
                final(self)@,
                final(batch)@,
                fault_of(r),
                def_elem_script(*elem, dep_type),
            ),
    {
        let is_from = match &elem.defname {
            Some(n) => *n == "from".to_owned(),
            None => false,
        };
        if is_from {
            self.depend_on(batch, &elem.arg, dep_type)
        } else {
            Ok(())
        }
    }

    /// Handles the options of a definition list in order.
    fn def_elems(&mut self, batch: &mut FileBatch, elems: &Vec<DefElem>, dep_type: EntityTag) -> (r:
        Result<(), Error>)
        requires
            old(self)@.consistent(old(batch)@),
        ensures
            answers(
                old(self)@,
                old(batch)@,
                final(self)@,
                final(batch)@,
                fault_of(r),
                def_elems_script(elems@, dep_type, elems@.len()),
            ),
    {
        let ghost start = progress(self@, batch@, None);
        let mut i: usize = 0;
        while i < elems.len()
            invariant
                i <= elems.len(),
                start == progress(old(self)@, old(batch)@, None),
                answers(
                    old(self)@,
                    old(batch)@,
                    self@,
                    batch@,
                    None,
                    def_elems_script(elems@, dep_type, i as nat),
                ),
            decreases elems.len() - i,
        {
            proof {
                lemma_run_append(
                    start,
                    def_elems_script(elems@, dep_type, i as nat),
                    def_elem_script(elems@[i as int], dep_type),
                );
            }
            if let Err(e) = self.def_elem(batch, &elems[i], dep_type) {
                proof {
                    lemma_def_elems_stop(start, elems@, dep_type, (i + 1) as nat, elems@.len());
                }
                return Err(e);
            }
            i = i + 1;
        }
        Ok(())
    }

    /// Handles a `DEFINE` statement. Only a collation is supported: it is
    /// defined, and the collation that it is made from is referenced. Any
    /// other kind is refused.
    pub fn define_stmt(&mut self, batch: &mut FileBatch, stmt: &DefineStmt) -> (r: Result<
        (),
        Error,
    >)
        requires
            old(self)@.consistent(old(batch)@),
        ensures
            answers(
                old(self)@,
                old(batch)@,
                final(self)@,
                final(batch)@,
                fault_of(r),
                define_script(*stmt),
            ),
    {
        let ghost start = progress(self@, batch@, None);
        match stmt.kind {
            ObjectType::Collation => {
                let ghost definition = define_by_parts(stmt.defnames@, EntityView::Collation);
                proof {
                    lemma_run_one(start, definition);
                    lemma_run_append(
                        start,
                        seq![definition],
                        def_elems_script(
                            stmt.definition@,
                            EntityTag::Collation,
                            stmt.definition@.len(),
                        ),
                    );
                }
                let name = match schema_qualified_name(batch, &stmt.defnames) {
                    Ok(name) => name,
                    Err(e) => {
                        return Err(e);
                    },
                };
                if let Err(e) = self.create_object(
                    batch,
                    Object { name, entity: Entity::Collation },
                ) {
                    return Err(e);
                }
                // Look for dependencies as a FROM expression
                self.def_elems(batch, &stmt.definition, EntityTag::Collation)
            },
            kind => {
                proof {
                    lemma_run_one(start, Request::Refuse(Unsupported::Define(kind)));
                }
                Err(batch.unsupported(Unsupported::Define(kind)))
            },
        }
    }

    /// Handles one statement, by its shape. An assignment to a session
    /// variable is refused. A statement of any other shape than those handled
    /// is passed over.
    pub fn parse_node(&mut self, batch: &mut FileBatch, node: &Statement) -> (r: Result<(), Error>)
        requires
            old(self)@.consistent(old(batch)@),
        ensures
            answers(
                old(self)@,
                old(batch)@,
                final(self)@,
                final(batch)@,
                fault_of(r),
                node_script(*node),
            ),
        decreases node, 0nat,
    {
        match node {
            Statement::CreateSchemaStmt(s) => self.create_schema(batch, s),
            Statement::CreateStmt(s) => self.create_table(batch, s),
            // Only supports CREATE COLLATION
            Statement::DefineStmt(s) => self.define_stmt(batch, s),
            Statement::VariableSetStmt => {
                proof {
                    lemma_run_one(
                        progress(self@, batch@, None),
                        Request::Refuse(Unsupported::VariableSet),
                    );
                }
                Err(batch.unsupported(Unsupported::VariableSet))
            },
            Statement::Other => Ok(()),
        }
    }

    /// Handles the statements of a list in order, up to the first fault.
    pub fn parse_nodes(&mut self, batch: &mut FileBatch, nodes: &Vec<Statement>) -> (r: Result<
        (),
        Error,
    >)
        requires
            old(self)@.consistent(old(batch)@),
        ensures
            answers(
                old(self)@,
                old(batch)@,
                final(self)@,
                final(batch)@,
                fault_of(r),
                statements_script(nodes@, nodes@.len()),
            ),
        decreases nodes, 0nat,
    {
        let ghost start = progress(self@, batch@, None);
        let mut i: usize = 0;
        while i < nodes.len()
            invariant
                i <= nodes.len(),
                start == progress(old(self)@, old(batch)@, None),
                answers(
                    old(self)@,
                    old(batch)@,
                    self@,
                    batch@,
                    None,
                    statements_script(nodes@, i as nat),
                ),
            decreases nodes.len() - i,
        {
            proof {
                lemma_run_append(
                    start,
                    statements_script(nodes@, i as nat),
                    node_script(nodes@[i as int]),
                );
            }
            if let Err(e) = self.parse_node(batch, &nodes[i]) {
                proof {
                    lemma_statements_stop(start, nodes@, (i + 1) as nat, nodes@.len());
                }
                return Err(e);
            }
            i = i + 1;
        }
        Ok(())
    }

    /// Handles `CREATE SCHEMA`: the statements nested in it are handled
    /// first, then the schema is defined, with its owner if it has one.
    pub fn create_schema(&mut self, batch: &mut FileBatch, stmt: &CreateSchemaStmt) -> (r: Result<
        (),
        Error,
    >)
        requires
            old(self)@.consistent(old(batch)@),
        ensures
            answers(
                old(self)@,
                old(batch)@,
                final(self)@,
                final(batch)@,
                fault_of(r),
                schema_script(*stmt),
            ),
        decreases stmt, 1nat,
    {
        let ghost start = progress(self@, batch@, None);
        let ghost nested = statements_script(stmt.schema_elts@, stmt.schema_elts@.len());
        let ghost definition = Request::Define(
            ObjectView {
                name: NameView { schema: None, name: stmt.schemaname@ },
                entity: EntityView::Schema { owner: schema_owner(*stmt) },
            },
        );
        proof {
            lemma_run_append(start, nested, seq![definition]);
            assert(nested + seq![definition] =~= nested.push(definition));
        }
        // 0+ schema elements
        if let Err(e) = self.parse_nodes(batch, &stmt.schema_elts) {
            return Err(e);
        }
        let owner: Option<String> = match &stmt.authrole {
            Some(role) => clone_opt_string(&role.rolename),
            None => None,
        };
        // Schema creation
        let name = QualifiedName::unqualified(stmt.schemaname.clone());
        proof {
            lemma_run_one(progress(self@, batch@, None), definition);
        }
        match self.create_object(batch, Object { name, entity: Entity::Schema(Schema { owner }) }) {
            Ok(_) => Ok(()),
            Err(e) => Err(e),
        }
    }
}

} // verus!
