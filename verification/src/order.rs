//! The order of qualified names.
//!
//! Names are ordered by schema first and by name second; a name without a
//! schema stands before every name with one. Strings are ordered as the
//! standard library orders them: lexicographically, by the bytes of their
//! UTF-8 form.
use core::cmp::Ordering;
use vstd::prelude::*;
use vstd::std_specs::cmp::PartialOrdSpecImpl;
use vstd::utf8::{encode_utf8, encode_utf8_decode_utf8};
use crate::objects::{opt_chars, NameView, QualifiedName};

verus! {

/// How one value stands to another in an order.
#[derive(Clone, Copy, Debug, PartialEq, Eq, Structural)]
pub enum Rank {
    Before,
    Same,
    After,
}

/// Whether two byte strings hold the same bytes at every position before
/// `k`, and both reach that far.
pub open spec fn agree_up_to(a: Seq<u8>, b: Seq<u8>, k: int) -> bool {
    &&& 0 <= k <= a.len()
    &&& k <= b.len()
    &&& forall|j: int| 0 <= j < k ==> a[j] == b[j]
}

/// Whether `a` stands before `b` in lexicographic order: at the first
/// position where they part, `a` has ended or holds the smaller byte.
pub open spec fn bytes_before(a: Seq<u8>, b: Seq<u8>) -> bool {
    exists|k: int| #[trigger] agree_up_to(a, b, k) && k < b.len() && (k == a.len() || a[k] < b[k])
}

/// How the byte string `a` stands to `b` in lexicographic order.
pub open spec fn bytes_rank(a: Seq<u8>, b: Seq<u8>) -> Rank {
    if bytes_before(a, b) {
        Rank::Before
    } else if bytes_before(b, a) {
        Rank::After
    } else {
        Rank::Same
    }
}

/// How one string stands to another: as their UTF-8 forms do.
pub open spec fn chars_rank(a: Seq<char>, b: Seq<char>) -> Rank {
    bytes_rank(encode_utf8(a), encode_utf8(b))
}

/// How one schema stands to another: no schema stands before any schema.
pub open spec fn schema_rank(a: Option<Seq<char>>, b: Option<Seq<char>>) -> Rank {
    match (a, b) {
        (None, None) => Rank::Same,
        (None, Some(_)) => Rank::Before,
        (Some(_), None) => Rank::After,
        (Some(x), Some(y)) => chars_rank(x, y),
    }
}

/// How one name stands to another: the schemas decide, and where they are
/// the same, the names do.
pub open spec fn name_rank(a: NameView, b: NameView) -> Rank {
    match schema_rank(a.schema, b.schema) {
        Rank::Same => chars_rank(a.name, b.name),
        decided => decided,
    }
}

/// Two byte strings that part at `k` part nowhere else.
pub proof fn lemma_parting_decides(a: Seq<u8>, b: Seq<u8>, k: int)
    requires
        agree_up_to(a, b, k),
        k == a.len() || k == b.len() || a[k] != b[k],
    ensures
        bytes_before(a, b) <==> k < b.len() && (k == a.len() || a[k] < b[k]),
        bytes_before(b, a) <==> k < a.len() && (k == b.len() || b[k] < a[k]),
{
    assert(agree_up_to(b, a, k));
    if bytes_before(a, b) {
        let m = choose|m: int| #[trigger]
            agree_up_to(a, b, m) && m < b.len() && (m == a.len() || a[m] < b[m]);
        if m < k {
            assert(a[m] == b[m]);
        } else if k < m {
            assert(a[k] == b[k]);
        }
    }
    if bytes_before(b, a) {
        let m = choose|m: int| #[trigger]
            agree_up_to(b, a, m) && m < a.len() && (m == b.len() || b[m] < a[m]);
        if m < k {
            assert(b[m] == a[m]);
        } else if k < m {
            assert(b[k] == a[k]);
        }
    }
}

/// Where two byte strings part, looking from position `i` on.
pub proof fn lemma_parting_exists(a: Seq<u8>, b: Seq<u8>, i: int) -> (k: int)
    requires
        agree_up_to(a, b, i),
    ensures
        agree_up_to(a, b, k),
        k == a.len() || k == b.len() || a[k] != b[k],
    decreases a.len() - i,
{
    if i == a.len() || i == b.len() || a[i] != b[i] {
        i
    } else {
        lemma_parting_exists(a, b, i + 1)
    }
}

/// Two byte strings rank the same exactly when they are the same.
pub proof fn bytes_rank_same_iff_equal(a: Seq<u8>, b: Seq<u8>)
    ensures
        bytes_rank(a, b) == Rank::Same <==> a == b,
{
    let k = lemma_parting_exists(a, b, 0);
    lemma_parting_decides(a, b, k);
    if bytes_rank(a, b) == Rank::Same {
        assert(a =~= b);
    }
    if a == b {
        lemma_parting_decides(a, b, a.len() as int);
    }
}

/// Turning two byte strings round turns their rank round.
pub proof fn bytes_rank_turns(a: Seq<u8>, b: Seq<u8>)
    ensures
        bytes_rank(a, b) == Rank::Before <==> bytes_rank(b, a) == Rank::After,
        bytes_rank(a, b) == Rank::Same <==> bytes_rank(b, a) == Rank::Same,
{
    let k = lemma_parting_exists(a, b, 0);
    lemma_parting_decides(a, b, k);
}

/// What stands before something that stands before a third stands before
/// the third.
pub proof fn bytes_before_is_transitive(a: Seq<u8>, b: Seq<u8>, c: Seq<u8>)
    requires
        bytes_before(a, b),
        bytes_before(b, c),
    ensures
        bytes_before(a, c),
{
    let k = choose|k: int| #[trigger]
        agree_up_to(a, b, k) && k < b.len() && (k == a.len() || a[k] < b[k]);
    let m = choose|m: int| #[trigger]
        agree_up_to(b, c, m) && m < c.len() && (m == b.len() || b[m] < c[m]);
    if k <= m {
        assert(agree_up_to(a, c, k));
    } else {
        assert(agree_up_to(a, c, m));
    }
}

/// The order of names is a total order: two names rank the same exactly
/// when they are the same name, turning them round turns their rank round,
/// and what stands before something that stands before a third stands
/// before the third.
pub proof fn names_are_totally_ordered(a: NameView, b: NameView, c: NameView)
    ensures
        name_rank(a, b) == Rank::Same <==> a == b,
        name_rank(a, b) == Rank::Before <==> name_rank(b, a) == Rank::After,
        name_rank(a, b) == Rank::Before && name_rank(b, c) == Rank::Before ==> name_rank(a, c)
            == Rank::Before,
{
    lemma_schema_rank(a.schema, b.schema);
    lemma_schema_rank(b.schema, c.schema);
    lemma_schema_rank(a.schema, c.schema);
    lemma_chars_rank(a.name, b.name);
    lemma_chars_rank(b.name, c.name);
    lemma_chars_rank(a.name, c.name);
    if name_rank(a, b) == Rank::Before && name_rank(b, c) == Rank::Before {
        if schema_rank(a.schema, b.schema) == Rank::Before && schema_rank(b.schema, c.schema)
            == Rank::Before {
            lemma_schema_before(a.schema, b.schema, c.schema);
        } else if schema_rank(a.schema, b.schema) == Rank::Same && schema_rank(b.schema, c.schema)
            == Rank::Same {
            lemma_chars_before(a.name, b.name, c.name);
        }
    }
}

/// Two strings rank the same exactly when they are the same, and turning
/// them round turns their rank round.
pub proof fn lemma_chars_rank(a: Seq<char>, b: Seq<char>)
    ensures
        chars_rank(a, b) == Rank::Same <==> a == b,
        chars_rank(a, b) == Rank::Before <==> chars_rank(b, a) == Rank::After,
        chars_rank(a, b) == Rank::Same <==> chars_rank(b, a) == Rank::Same,
{
    bytes_rank_same_iff_equal(encode_utf8(a), encode_utf8(b));
    bytes_rank_turns(encode_utf8(a), encode_utf8(b));
    encode_utf8_decode_utf8(a);
    encode_utf8_decode_utf8(b);
}

/// The order of strings is transitive.
pub proof fn lemma_chars_before(a: Seq<char>, b: Seq<char>, c: Seq<char>)
    requires
        chars_rank(a, b) == Rank::Before,
        chars_rank(b, c) == Rank::Before,
    ensures
        chars_rank(a, c) == Rank::Before,
{
    bytes_before_is_transitive(encode_utf8(a), encode_utf8(b), encode_utf8(c));
}

/// Two schemas rank the same exactly when they are the same, and turning
/// them round turns their rank round.
pub proof fn lemma_schema_rank(a: Option<Seq<char>>, b: Option<Seq<char>>)
    ensures
        schema_rank(a, b) == Rank::Same <==> a == b,
        schema_rank(a, b) == Rank::Before <==> schema_rank(b, a) == Rank::After,
        schema_rank(a, b) == Rank::Same <==> schema_rank(b, a) == Rank::Same,
{
    match (a, b) {
        (Some(x), Some(y)) => {
            lemma_chars_rank(x, y);
        },
        _ => {},
    }
}

/// The order of schemas is transitive.
pub proof fn lemma_schema_before(
    a: Option<Seq<char>>,
    b: Option<Seq<char>>,
    c: Option<Seq<char>>,
)
    requires
        schema_rank(a, b) == Rank::Before,
        schema_rank(b, c) == Rank::Before,
    ensures
        schema_rank(a, c) == Rank::Before,
{
    match (a, b, c) {
        (Some(x), Some(y), Some(z)) => {
            lemma_chars_before(x, y, z);
        },
        _ => {},
    }
}

/// Compares two strings as the standard library does.
pub fn rank_strings(a: &String, b: &String) -> (r: Rank)
    ensures
        r == chars_rank(a@, b@),
{
    let x = a.as_str().as_bytes();
    let y = b.as_str().as_bytes();
    let mut i: usize = 0;
    while i < x.len() && i < y.len()
        invariant
            x@ == encode_utf8(a@),
            y@ == encode_utf8(b@),
            agree_up_to(x@, y@, i as int),
        decreases x.len() - i,
    {
        if x[i] != y[i] {
            proof {
                lemma_parting_decides(x@, y@, i as int);
            }
            if x[i] < y[i] {
                return Rank::Before;
            } else {
                return Rank::After;
            }
        }
        i = i + 1;
    }
    proof {
        lemma_parting_decides(x@, y@, i as int);
    }
    if i < y.len() {
        Rank::Before
    } else if i < x.len() {
        Rank::After
    } else {
        Rank::Same
    }
}

/// Compares two optional schemas.
pub fn rank_schemas(a: &Option<String>, b: &Option<String>) -> (r: Rank)
    ensures
        r == schema_rank(opt_chars(*a), opt_chars(*b)),
{
    match (a, b) {
        (None, None) => Rank::Same,
        (None, Some(_)) => Rank::Before,
        (Some(_), None) => Rank::After,
        (Some(x), Some(y)) => rank_strings(x, y),
    }
}

impl QualifiedName {
    /// How this name stands to another in the order of names.
    pub fn rank(&self, other: &QualifiedName) -> (r: Rank)
        ensures
            r == name_rank(self@, other@),
    {
        match rank_schemas(&self.schema_name, &other.schema_name) {
            Rank::Same => rank_strings(&self.name, &other.name),
            decided => decided,
        }
    }
}

impl PartialOrd for QualifiedName {
    fn partial_cmp(&self, other: &Self) -> (r: Option<Ordering>) {
        match self.rank(other) {
            Rank::Before => Some(Ordering::Less),
            Rank::Same => Some(Ordering::Equal),
            Rank::After => Some(Ordering::Greater),
        }
    }
}

impl PartialOrdSpecImpl for QualifiedName {
    open spec fn obeys_partial_cmp_spec() -> bool {
        true
    }

    open spec fn partial_cmp_spec(&self, other: &Self) -> Option<Ordering> {
        match name_rank(self@, other@) {
            Rank::Before => Some(Ordering::Less),
            Rank::Same => Some(Ordering::Equal),
            Rank::After => Some(Ordering::Greater),
        }
    }
}

} // verus!
