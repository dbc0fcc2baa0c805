//! The statement shapes that the engine reads.
//!
//! A syntax front end parses a file's text and hands the engine one
//! [`Statement`] per top-level statement. Only what the engine reads is
//! modeled: names, name lists and the nesting of statements.
use vstd::prelude::*;

verus! {

/// A possibly schema-qualified relation name.
#[derive(Debug)]
pub struct RangeVar {
    pub schemaname: Option<String>,
    pub relname: String,
}

/// The name of a type, as the list of its parts.
#[derive(Debug)]
pub struct TypeName {
    pub names: Vec<String>,
}

/// A `COLLATE` clause: the name of a collation, as the list of its parts.
#[derive(Debug)]
pub struct CollateClause {
    pub collname: Vec<String>,
}

/// A role; the role may be given by a keyword rather than by name.
#[derive(Debug)]
pub struct RoleSpec {
    pub rolename: Option<String>,
}

/// A constraint on a column or a table. Nothing of it is read yet.
#[derive(Debug)]
pub struct Constraint {
}

/// A column of a table: its type, its constraints and its collation.
#[derive(Debug)]
pub struct ColumnDef {
    pub typename: TypeName,
    pub constraints: Vec<Constraint>,
    pub coll_clause: Option<CollateClause>,
}

/// A `LIKE` clause: the table whose columns are copied.
#[derive(Debug)]
pub struct TableLikeClause {
    pub relation: RangeVar,
}

/// What may stand between the brackets of `CREATE TABLE`.
#[derive(Debug)]
pub enum TableElement {
    ColumnDef(ColumnDef),
    Constraint(Constraint),
    TableLikeClause(TableLikeClause),
}

/// `CREATE TABLE`.
#[derive(Debug)]
pub struct CreateStmt {
    pub relation: RangeVar,
    pub of_typename: Option<TypeName>,
    pub table_elts: Vec<TableElement>,
    pub inh_relations: Vec<RangeVar>,
    pub tablespacename: Option<String>,
}

/// `CREATE SCHEMA`, with the statements nested in it.
#[derive(Debug)]
pub struct CreateSchemaStmt {
    pub schemaname: String,
    pub authrole: Option<RoleSpec>,
    pub schema_elts: Vec<Statement>,
}

/// What a generic `DEFINE` statement defines.
#[derive(Clone, Copy, Debug, PartialEq, Eq, Hash, Structural)]
pub enum ObjectType {
    Aggregate,
    Collation,
    Operator,
    TsConfiguration,
    TsDictionary,
    TsParser,
    TsTemplate,
    Type,
    Other,
}

/// One option of a definition list. `arg` holds the parts of the name that
/// the option's argument gives; it is empty where the argument is absent or
/// is no name.
#[derive(Debug)]
pub struct DefElem {
    pub defname: Option<String>,
    pub arg: Vec<String>,
}

/// A generic `DEFINE` statement: a kind, a name and a definition list.
#[derive(Debug)]
pub struct DefineStmt {
    pub kind: ObjectType,
    pub defnames: Vec<String>,
    pub definition: Vec<DefElem>,
}

/// A top-level statement, or one nested in a schema.
#[derive(Debug)]
pub enum Statement {
    CreateSchemaStmt(CreateSchemaStmt),
    CreateStmt(CreateStmt),
    DefineStmt(DefineStmt),
    /// An assignment to a session variable: recognised, and refused.
    VariableSetStmt,
    /// Any statement that the engine does not look at.
    Other,
}

/// A statement shape that the engine recognises and refuses.
#[derive(Clone, Copy, Debug, PartialEq, Eq, Hash, Structural)]
pub enum Unsupported {
    /// An assignment to a session variable.
    VariableSet,
    /// A `DEFINE` statement of a kind other than a collation.
    Define(ObjectType),
}

} // verus!
