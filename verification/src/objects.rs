//! The data model: qualified names, the entity catalog and objects.
use vstd::prelude::*;
use vstd::std_specs::cmp::PartialEqSpecImpl;

verus! {

/// What an optional string holds, as an optional sequence of characters.
pub open spec fn opt_chars(s: Option<String>) -> Option<Seq<char>> {
    match s {
        Some(v) => Some(v@),
        None => None,
    }
}

/// Copies an optional string.
pub fn clone_opt_string(s: &Option<String>) -> (r: Option<String>)
    ensures
        opt_chars(r) == opt_chars(*s),
{
    match s {
        Some(v) => Some(v.clone()),
        None => None,
    }
}

/// Whether two optional strings hold the same characters.
pub fn opt_string_eq(a: &Option<String>, b: &Option<String>) -> (r: bool)
    ensures
        r == (opt_chars(*a) == opt_chars(*b)),
{
    match (a, b) {
        (Some(x), Some(y)) => *x == *y,
        (None, None) => true,
        _ => false,
    }
}

/// What a list of strings holds, as a list of character sequences.
pub open spec fn names_view(parts: Seq<String>) -> Seq<Seq<char>> {
    parts.map_values(|s: String| s@)
}

/// Copies a list of strings.
pub fn clone_strings(parts: &Vec<String>) -> (r: Vec<String>)
    ensures
        names_view(r@) == names_view(parts@),
{
    let mut r: Vec<String> = Vec::new();
    let mut i: usize = 0;
    while i < parts.len()
        invariant
            i <= parts.len(),
            r@.len() == i,
            forall|k: int| 0 <= k < i ==> (#[trigger] r@[k])@ == parts@[k]@,
        decreases parts.len() - i,
    {
        r.push(parts[i].clone());
        i = i + 1;
    }
    assert(names_view(r@) =~= names_view(parts@));
    r
}

/// The mathematical value of a [`QualifiedName`]: the pair of its optional
/// schema and its name, as character sequences.
pub struct NameView {
    pub schema: Option<Seq<char>>,
    pub name: Seq<char>,
}

/// A schema-aware identifier, the key under which an object is known.
///
/// Two names are equal exactly when both parts are equal: an absent schema is
/// never read as some default schema. Names are ordered by schema first and
/// by name second.
#[derive(Debug, Eq, Ord, Hash)]
pub struct QualifiedName {
    pub schema_name: Option<String>,
    pub name: String,
}

impl View for QualifiedName {
    type V = NameView;

    open spec fn view(&self) -> NameView {
        NameView { schema: opt_chars(self.schema_name), name: self.name@ }
    }
}

impl PartialEq for QualifiedName {
    fn eq(&self, other: &Self) -> (r: bool) {
        self.name == other.name && opt_string_eq(&self.schema_name, &other.schema_name)
    }
}

impl PartialEqSpecImpl for QualifiedName {
    open spec fn obeys_eq_spec() -> bool {
        true
    }

    open spec fn eq_spec(&self, other: &Self) -> bool {
        self@ == other@
    }
}

impl Clone for QualifiedName {
    fn clone(&self) -> (r: Self)
        ensures
            r@ == self@,
    {
        QualifiedName { schema_name: clone_opt_string(&self.schema_name), name: self.name.clone() }
    }
}

impl QualifiedName {
    /// A one-part name: no schema.
    pub fn unqualified(name: String) -> (r: Self)
        ensures
            r@ == (NameView { schema: None, name: name@ }),
    {
        QualifiedName { schema_name: None, name }
    }

    /// A two-part name, `schema.name`.
    pub fn qualified(schema: String, name: String) -> (r: Self)
        ensures
            r@ == (NameView { schema: Some(schema@), name: name@ }),
    {
        QualifiedName { schema_name: Some(schema), name }
    }
}

/// The kind of an entity, without what the entity carries.
///
/// It is what the conflict rules compare: a definition must have the kind
/// that an earlier reference expected.
#[derive(Clone, Copy, Debug, PartialEq, Eq, Hash, Structural)]
pub enum EntityTag {
    Schema,
    Table,
    ForeignServer,
    ForeignTable,
    Function,
    MaterializedView,
    Tablespace,
    Type,
    View,
    Collation,
    Placeholder,
}

/// What is recorded of a schema.
#[derive(Debug, Eq)]
pub struct Schema {
    pub owner: Option<String>,
}

/// The kinds of object the engine understands.
///
/// `Collation` is recognised but not modeled beyond being a valid target of
/// a reference. `Placeholder` stands for an object that has been referenced
/// but not yet defined; it carries the kind its referrer expected.
#[derive(Debug, Eq)]
pub enum Entity {
    Schema(Schema),
    Table,
    ForeignServer,
    ForeignTable,
    Function,
    MaterializedView,
    Tablespace,
    Type,
    View,
    Collation,
    Placeholder(EntityTag),
}

/// The mathematical value of an [`Entity`].
pub enum EntityView {
    Schema { owner: Option<Seq<char>> },
    Table,
    ForeignServer,
    ForeignTable,
    Function,
    MaterializedView,
    Tablespace,
    Type,
    View,
    Collation,
    Placeholder { expected: EntityTag },
}

impl EntityView {
    /// The kind of the entity.
    pub open spec fn tag(self) -> EntityTag {
        match self {
            EntityView::Schema { .. } => EntityTag::Schema,
            EntityView::Table => EntityTag::Table,
            EntityView::ForeignServer => EntityTag::ForeignServer,
            EntityView::ForeignTable => EntityTag::ForeignTable,
            EntityView::Function => EntityTag::Function,
            EntityView::MaterializedView => EntityTag::MaterializedView,
            EntityView::Tablespace => EntityTag::Tablespace,
            EntityView::Type => EntityTag::Type,
            EntityView::View => EntityTag::View,
            EntityView::Collation => EntityTag::Collation,
            EntityView::Placeholder { .. } => EntityTag::Placeholder,
        }
    }

    /// A concrete entity is any entity but a placeholder.
    pub open spec fn is_concrete(self) -> bool {
        !(self is Placeholder)
    }
}

impl View for Schema {
    type V = Option<Seq<char>>;

    open spec fn view(&self) -> Option<Seq<char>> {
        opt_chars(self.owner)
    }
}

impl PartialEq for Schema {
    fn eq(&self, other: &Self) -> (r: bool) {
        opt_string_eq(&self.owner, &other.owner)
    }
}

impl PartialEqSpecImpl for Schema {
    open spec fn obeys_eq_spec() -> bool {
        true
    }

    open spec fn eq_spec(&self, other: &Self) -> bool {
        self@ == other@
    }
}

impl Clone for Schema {
    fn clone(&self) -> (r: Self)
        ensures
            r@ == self@,
    {
        Schema { owner: clone_opt_string(&self.owner) }
    }
}

impl View for Entity {
    type V = EntityView;

    open spec fn view(&self) -> EntityView {
        match *self {
            Entity::Schema(s) => EntityView::Schema { owner: s@ },
            Entity::Table => EntityView::Table,
            Entity::ForeignServer => EntityView::ForeignServer,
            Entity::ForeignTable => EntityView::ForeignTable,
            Entity::Function => EntityView::Function,
            Entity::MaterializedView => EntityView::MaterializedView,
            Entity::Tablespace => EntityView::Tablespace,
            Entity::Type => EntityView::Type,
            Entity::View => EntityView::View,
            Entity::Collation => EntityView::Collation,
            Entity::Placeholder(t) => EntityView::Placeholder { expected: t },
        }
    }
}

impl Entity {
    /// The kind of the entity.
    pub fn tag(&self) -> (t: EntityTag)
        ensures
            t == self@.tag(),
    {
        match self {
            Entity::Schema(_) => EntityTag::Schema,
            Entity::Table => EntityTag::Table,
            Entity::ForeignServer => EntityTag::ForeignServer,
            Entity::ForeignTable => EntityTag::ForeignTable,
            Entity::Function => EntityTag::Function,
            Entity::MaterializedView => EntityTag::MaterializedView,
            Entity::Tablespace => EntityTag::Tablespace,
            Entity::Type => EntityTag::Type,
            Entity::View => EntityTag::View,
            Entity::Collation => EntityTag::Collation,
            Entity::Placeholder(_) => EntityTag::Placeholder,
        }
    }

    /// Whether the entity is anything but a placeholder.
    pub fn is_concrete(&self) -> (r: bool)
        ensures
            r == self@.is_concrete(),
    {
        match self {
            Entity::Placeholder(_) => false,
            _ => true,
        }
    }
}

impl PartialEq for Entity {
    fn eq(&self, other: &Self) -> (r: bool) {
        match (self, other) {
            (Entity::Schema(a), Entity::Schema(b)) => *a == *b,
            (Entity::Placeholder(a), Entity::Placeholder(b)) => *a == *b,
            (Entity::Schema(_), _) => false,
            (_, Entity::Schema(_)) => false,
            (Entity::Placeholder(_), _) => false,
            (_, Entity::Placeholder(_)) => false,
            (a, b) => a.tag() == b.tag(),
        }
    }
}

impl PartialEqSpecImpl for Entity {
    open spec fn obeys_eq_spec() -> bool {
        true
    }

    open spec fn eq_spec(&self, other: &Self) -> bool {
        self@ == other@
    }
}

impl Clone for Entity {
    fn clone(&self) -> (r: Self)
        ensures
            r@ == self@,
    {
        match self {
            Entity::Schema(s) => Entity::Schema(s.clone()),
            Entity::Table => Entity::Table,
            Entity::ForeignServer => Entity::ForeignServer,
            Entity::ForeignTable => Entity::ForeignTable,
            Entity::Function => Entity::Function,
            Entity::MaterializedView => Entity::MaterializedView,
            Entity::Tablespace => Entity::Tablespace,
            Entity::Type => Entity::Type,
            Entity::View => Entity::View,
            Entity::Collation => Entity::Collation,
            Entity::Placeholder(t) => Entity::Placeholder(*t),
        }
    }
}

/// The stable identity of an object: its position in the arena.
///
/// An identity is issued once per distinct name and is never reused or
/// invalidated, also when the object behind it is upgraded in place.
#[derive(Clone, Copy, Debug, PartialEq, Eq, PartialOrd, Ord, Hash, Structural)]
pub struct ObjectId(pub usize);

impl View for ObjectId {
    type V = nat;

    open spec fn view(&self) -> nat {
        self.0 as nat
    }
}

/// What a list of identities holds, as a list of positions.
pub open spec fn ids_view(ids: Seq<ObjectId>) -> Seq<nat> {
    ids.map_values(|id: ObjectId| id@)
}

/// The mathematical value of an [`Object`].
pub struct ObjectView {
    pub name: NameView,
    pub entity: EntityView,
}

/// What the arena stores under one identity: a name and what is currently
/// known of the entity behind it.
#[derive(Debug, Eq)]
pub struct Object {
    pub name: QualifiedName,
    pub entity: Entity,
}

impl View for Object {
    type V = ObjectView;

    open spec fn view(&self) -> ObjectView {
        ObjectView { name: self.name@, entity: self.entity@ }
    }
}

/// What a list of objects holds, as a list of their values.
pub open spec fn objects_view(objects: Seq<Object>) -> Seq<ObjectView> {
    objects.map_values(|o: Object| o@)
}

impl PartialEq for Object {
    fn eq(&self, other: &Self) -> (r: bool) {
        self.name == other.name && self.entity == other.entity
    }
}

impl PartialEqSpecImpl for Object {
    open spec fn obeys_eq_spec() -> bool {
        true
    }

    open spec fn eq_spec(&self, other: &Self) -> bool {
        self@ == other@
    }
}

impl Clone for Object {
    fn clone(&self) -> (r: Self)
        ensures
            r@ == self@,
    {
        Object { name: self.name.clone(), entity: self.entity.clone() }
    }
}

} // verus!
