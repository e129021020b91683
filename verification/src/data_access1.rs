//! The filter expression core: a client-supplied tree of predicate nodes is
//! checked against a catalog of field metadata (permitted operations, field
//! types, nullability) and rendered into one SQL-style predicate string.
//!
//! Data flows one way: a tree is validated once against the read-only catalog
//! and then rendered once; neither step mutates the tree or the catalog.
use vstd::prelude::*;
use vstd::string::StringExecFns;

use crate::text::{
    dec_digits, escape_like, escape_quotes, slice_join_bracket, spec_escaped, spec_join,
    spec_like_escaped, u64_string, views,
};

verus! {

/// Why a filter tree was rejected. Each variant carries the name of the
/// offending field where the check that produced it knows that name,
/// together with the rejected operation kind or the field's declared type.
#[derive(Debug, Clone, PartialEq)]
pub enum DataAccessErr {
    /// A leaf names a field that the catalog does not contain.
    UnknownField(String),
    /// The leaf's operation is not permitted for the field: its category is
    /// missing from the field's whitelist, or a null test was applied to a
    /// field that is not nullable. Carries the field name and the rejected
    /// operation kind.
    InvalidOperation(String, OperationKind),
    /// The leaf's literal kind is incompatible with the field's declared
    /// type. Carries the field name and the declared type.
    TypeErr(String, FieldType),
    /// The tree is deeper or larger than the caller-supplied bound allows.
    LimitExceeded,
}

/// The kind of operation a leaf performs, as an error names it: one of the
/// whitelist categories, or the specially treated null test.
#[derive(Debug, Clone, Copy, PartialEq, Eq, Structural)]
pub enum OperationKind {
    Equal,
    Cmp,
    In,
    Like,
    Nullable,
}

/// The operation categories that a field's whitelist can name.
#[derive(Debug, Clone, Copy, PartialEq, Eq, Structural)]
pub enum Operation {
    Equal,
    Cmp,
    In,
    Like,
}

/// How a branch node joins its children.
#[derive(Debug, Clone, Copy, PartialEq, Eq, Structural)]
pub enum Logical {
    And,
    Or,
}

/// A null test on a field.
#[derive(Debug, Clone, Copy, PartialEq, Eq, Structural)]
pub enum Nullable {
    IsNull,
    IsNotNull,
}

/// An order comparison of a field against a literal.
#[derive(Debug, Clone, Copy, PartialEq, Eq, Structural)]
pub enum Cmp {
    Gt,
    GtEq,
    Lt,
    LtEq,
}

/// A membership test of a field against a literal list.
#[derive(Debug, Clone, Copy, PartialEq, Eq, Structural)]
pub enum In {
    In,
    NotIn,
}

/// An equality test of a field against a literal.
#[derive(Debug, Clone, Copy, PartialEq, Eq, Structural)]
pub enum Eq {
    Eq,
    NotEq,
}

/// A pattern match of a field against a substring literal.
#[derive(Debug, Clone, Copy, PartialEq, Eq, Structural)]
pub enum Like {
    StartWith,
    Contains,
    EndWith,
}

/// A reference to a queryable field, by name.
#[derive(Debug, Clone, PartialEq)]
pub struct Field(pub String);

/// A string literal. It is rendered quoted, with embedded quote characters
/// escaped; inside a LIKE pattern the wildcard characters are escaped too.
#[derive(Debug, Clone, PartialEq)]
pub struct StrValue(pub String);

/// A scalar literal in a leaf. Numeric kinds render bare; string kinds render
/// quoted and escaped; the `Current*` kinds render as the caller-supplied
/// placeholder token, since their concrete value depends on request context.
///
/// `Num` carries the decimal text of the number (produced at the wire
/// boundary from the numeric literal); it renders bare, exactly as given.
#[derive(Debug, Clone, PartialEq)]
pub enum Value {
    Id(u64),
    Int(u64),
    Num(String),
    Str(StrValue),
    DateTime(StrValue),
    UnixTimestamp(u64),
    CurrentUserId,
    CurrentDate,
    CurrentTime,
}

/// A homogeneous list literal in a membership test.
#[derive(Debug, Clone, PartialEq)]
pub enum ListValue {
    Id(Vec<u64>),
    Int(Vec<u64>),
    Num(Vec<String>),
    Str(Vec<StrValue>),
    DateTime(Vec<StrValue>),
    UnixTimestamp(Vec<u64>),
}

/// The declared type of a queryable field. `Id` fields are meant for
/// equality and membership tests only; `Enum` fields accept `Int` or `Str`
/// literals, whichever encoding the stored values use.
#[derive(Debug, Clone, PartialEq)]
pub enum FieldType {
    Str,
    Int,
    Num,
    DateTime,
    UnixTimestamp,
    Id,
    Enum(String),
}

impl FieldType {
    /// A copy of this field type, equal to the original.
    pub fn duplicate(&self) -> (r: FieldType)
        ensures
            r == *self,
    {
        match self {
            FieldType::Str => FieldType::Str,
            FieldType::Int => FieldType::Int,
            FieldType::Num => FieldType::Num,
            FieldType::DateTime => FieldType::DateTime,
            FieldType::UnixTimestamp => FieldType::UnixTimestamp,
            FieldType::Id => FieldType::Id,
            FieldType::Enum(s) => FieldType::Enum(s.clone()),
        }
    }
}

/// Catalog metadata for one queryable field: display text, nullability, the
/// declared type, and the whitelist of permitted operation categories.
#[derive(Debug, Clone, PartialEq)]
pub struct FieldInfo {
    pub name: String,
    pub text: String,
    pub nullable: bool,
    pub type_: FieldType,
    pub operation: Vec<Operation>,
}

/// A filter expression tree. `Logical` is the only branch node; every other
/// variant is a leaf that names one field and one literal.
#[derive(Debug, PartialEq)]
pub enum FilterNode {
    Logical(Logical, Vec<FilterNode>),
    Nullable(Nullable, Field),
    Equal(Eq, Field, Value),
    Cmp(Cmp, Field, Value),
    In(In, Field, ListValue),
    Like(Like, Field, StrValue),
}

impl Value {
    /// The compatibility table between a scalar literal kind and a field
    /// type. Any pair not listed here is a type mismatch.
    pub open spec fn compatible(self, ft: FieldType) -> bool {
        match self {
            Value::Id(_) | Value::CurrentUserId => ft is Id,
            Value::CurrentDate | Value::CurrentTime => ft is DateTime || ft is UnixTimestamp,
            Value::Int(_) => ft is Int || ft is Enum,
            Value::Num(_) => ft is Num,
            Value::Str(_) => ft is Str || ft is Enum,
            Value::DateTime(_) => ft is DateTime,
            Value::UnixTimestamp(_) => ft is UnixTimestamp,
        }
    }

    /// Checks this literal's kind against the declared field type.
    /// The error names the declared type; it carries no field name, since
    /// the validator, which knows the field, attaches that.
    pub fn chekc_type(&self, ftype: &FieldType) -> (r: Result<(), DataAccessErr>)
        ensures
            r is Ok <==> self.compatible(*ftype),
            r is Err ==> (r->Err_0 matches DataAccessErr::TypeErr(s, ft) && s@
                == Seq::<char>::empty() && ft == *ftype),
    {
        match (self, ftype) {
            (Value::Id(_), FieldType::Id)
            | (Value::CurrentUserId, FieldType::Id)
            | (Value::CurrentDate, FieldType::DateTime)
            | (Value::CurrentDate, FieldType::UnixTimestamp)
            | (Value::CurrentTime, FieldType::DateTime)
            | (Value::CurrentTime, FieldType::UnixTimestamp)
            | (Value::Int(_), FieldType::Int)
            | (Value::Int(_), FieldType::Enum(_))
            | (Value::Num(_), FieldType::Num)
            | (Value::Str(_), FieldType::Str)
            | (Value::Str(_), FieldType::Enum(_))
            | (Value::DateTime(_), FieldType::DateTime)
            | (Value::UnixTimestamp(_), FieldType::UnixTimestamp) => Ok(()),
            _ => Err(DataAccessErr::TypeErr(String::new(), ftype.duplicate())),
        }
    }
}

impl ListValue {
    /// The compatibility table between a list literal's element kind and a
    /// field type; it follows the scalar table element-wise.
    pub open spec fn compatible(self, ft: FieldType) -> bool {
        match self {
            ListValue::Id(_) => ft is Id,
            ListValue::Int(_) => ft is Int || ft is Enum,
            ListValue::Num(_) => ft is Num,
            ListValue::Str(_) => ft is Str || ft is Enum,
            ListValue::DateTime(_) => ft is DateTime,
            ListValue::UnixTimestamp(_) => ft is UnixTimestamp,
        }
    }

    /// Checks this list literal's element kind against the declared field
    /// type, as [`Value::chekc_type`] does for scalars.
    pub fn chekc_type(&self, ft: &FieldType) -> (r: Result<(), DataAccessErr>)
        ensures
            r is Ok <==> self.compatible(*ft),
            r is Err ==> (r->Err_0 matches DataAccessErr::TypeErr(s, t) && s@
                == Seq::<char>::empty() && t == *ft),
    {
        match (self, ft) {
            (ListValue::Id(_), FieldType::Id)
            | (ListValue::Int(_), FieldType::Int)
            | (ListValue::Int(_), FieldType::Enum(_))
            | (ListValue::Num(_), FieldType::Num)
            | (ListValue::Str(_), FieldType::Str)
            | (ListValue::Str(_), FieldType::Enum(_))
            | (ListValue::DateTime(_), FieldType::DateTime)
            | (ListValue::UnixTimestamp(_), FieldType::UnixTimestamp) => Ok(()),
            _ => Err(DataAccessErr::TypeErr(String::new(), ft.duplicate())),
        }
    }
}

impl FilterNode {
    /// Whether this node's operation is permitted for the field described by
    /// `info`: branch nodes always are; a null test needs a nullable field;
    /// every other leaf needs its category in the field's whitelist.
    pub open spec fn op_permitted(self, info: FieldInfo) -> bool {
        match self {
            FilterNode::Logical(_, _) => true,
            FilterNode::Nullable(_, _) => info.nullable,
            FilterNode::Equal(_, _, _) => info.operation@.contains(Operation::Equal),
            FilterNode::Cmp(_, _, _) => info.operation@.contains(Operation::Cmp),
            FilterNode::In(_, _, _) => info.operation@.contains(Operation::In),
            FilterNode::Like(_, _, _) => info.operation@.contains(Operation::Like),
        }
    }

    /// The kind of operation this node performs, for a leaf.
    pub open spec fn op_kind(self) -> Option<OperationKind> {
        match self {
            FilterNode::Logical(_, _) => None,
            FilterNode::Nullable(_, _) => Some(OperationKind::Nullable),
            FilterNode::Equal(_, _, _) => Some(OperationKind::Equal),
            FilterNode::Cmp(_, _, _) => Some(OperationKind::Cmp),
            FilterNode::In(_, _, _) => Some(OperationKind::In),
            FilterNode::Like(_, _, _) => Some(OperationKind::Like),
        }
    }

    /// Checks this node's operation against the field's whitelist (a set
    /// membership test) or, for a null test, against the nullable flag.
    /// The error names the field and the rejected operation kind.
    pub fn check_operation(&self, info: &FieldInfo) -> (r: Result<(), DataAccessErr>)
        ensures
            r is Ok <==> self.op_permitted(*info),
            r is Err ==> self.op_kind() is Some && r->Err_0 == DataAccessErr::InvalidOperation(
                info.name,
                self.op_kind()->Some_0,
            ),
    {
        let ope = match self {
            FilterNode::Cmp(..) => Operation::Cmp,
            FilterNode::Equal(..) => Operation::Equal,
            FilterNode::In(..) => Operation::In,
            FilterNode::Like(..) => Operation::Like,
            FilterNode::Logical(..) => {
                return Ok(());
            },
            FilterNode::Nullable(..) => {
                if info.nullable {
                    return Ok(());
                } else {
                    return Err(
                        DataAccessErr::InvalidOperation(info.name.clone(), OperationKind::Nullable),
                    );
                }
            },
        };
        let kind = match ope {
            Operation::Equal => OperationKind::Equal,
            Operation::Cmp => OperationKind::Cmp,
            Operation::In => OperationKind::In,
            Operation::Like => OperationKind::Like,
        };
        if contains_operation(&info.operation, ope) {
            Ok(())
        } else {
            Err(DataAccessErr::InvalidOperation(info.name.clone(), kind))
        }
    }
}

/// Whether the whitelist contains the category.
fn contains_operation(ops: &Vec<Operation>, op: Operation) -> (r: bool)
    ensures
        r == ops@.contains(op),
{
    let mut i: usize = 0;
    while i < ops.len()
        invariant
            i <= ops.len(),
            forall|j: int| 0 <= j < i ==> ops@[j] != op,
        decreases ops.len() - i,
    {
        if ops[i] == op {
            return true;
        }
        i = i + 1;
    }
    false
}

/// The first catalog entry with the given name, scanning front to back.
pub open spec fn lookup_in(entries: Seq<FieldInfo>, n: Seq<char>) -> Option<FieldInfo>
    decreases entries.len(),
{
    if entries.len() == 0 {
        None
    } else if entries[0].name@ == n {
        Some(entries[0])
    } else {
        lookup_in(entries.drop_first(), n)
    }
}

/// The last entry of `infos` carrying the given name, if any: the entry that
/// a catalog built from `infos` associates with that name.
pub open spec fn catalog_lookup(infos: Seq<FieldInfo>, n: Seq<char>) -> Option<FieldInfo>
    decreases infos.len(),
{
    if infos.len() == 0 {
        None
    } else if infos.last().name@ == n {
        Some(infos.last())
    } else {
        catalog_lookup(infos.drop_last(), n)
    }
}

/// The field catalog: per-field metadata under unique field names, built
/// once and read-only afterwards.
#[derive(Debug, Clone)]
pub struct FieldInfoMap {
    pub entries: Vec<FieldInfo>,
}

impl FieldInfoMap {
    /// Unique keys: no two entries share a field name.
    pub open spec fn wf(self) -> bool {
        forall|i: int, j: int|
            0 <= i < j < self.entries@.len() ==> self.entries@[i].name@ != self.entries@[j].name@
    }

    /// The metadata the catalog holds under this field name, if any.
    pub open spec fn spec_lookup(self, n: Seq<char>) -> Option<FieldInfo> {
        lookup_in(self.entries@, n)
    }

    /// Looks a field up by name. `None` signals an unknown field.
    pub fn lookup(&self, name: &String) -> (r: Option<&FieldInfo>)
        ensures
            match r {
                Some(info) => self.spec_lookup(name@) == Some(*info),
                None => self.spec_lookup(name@) is None,
            },
    {
        proof {
            assert(self.entries@.skip(0) =~= self.entries@);
        }
        let mut i: usize = 0;
        while i < self.entries.len()
            invariant
                i <= self.entries@.len(),
                lookup_in(self.entries@, name@) == lookup_in(
                    self.entries@.skip(i as int),
                    name@,
                ),
            decreases self.entries@.len() - i,
        {
            proof {
                assert(self.entries@.skip(i as int)[0] == self.entries@[i as int]);
                assert(self.entries@.skip(i as int).drop_first() =~= self.entries@.skip(
                    i as int + 1,
                ));
            }
            if self.entries[i].name == *name {
                return Some(&self.entries[i]);
            }
            i = i + 1;
        }
        proof {
            assert(self.entries@.skip(self.entries@.len() as int) =~= Seq::<FieldInfo>::empty());
        }
        None
    }
}

/// Appending an entry to a catalog leaves every other name's lookup alone;
/// the new name resolves to the appended entry only if it was absent.
proof fn lemma_lookup_in_push(entries: Seq<FieldInfo>, x: FieldInfo, n: Seq<char>)
    ensures
        lookup_in(entries.push(x), n) == if lookup_in(entries, n) is Some {
            lookup_in(entries, n)
        } else if x.name@ == n {
            Some(x)
        } else {
            None::<FieldInfo>
        },
    decreases entries.len(),
{
    let p = entries.push(x);
    if entries.len() == 0 {
        assert(p =~= seq![x]);
    } else {
        assert(p[0] == entries[0]);
        assert(p.drop_first() =~= entries.drop_first().push(x));
        lemma_lookup_in_push(entries.drop_first(), x, n);
        if entries[0].name@ == n {
            assert(lookup_in(p, n) == Some(entries[0]));
            assert(lookup_in(entries, n) == Some(entries[0]));
        } else {
            assert(lookup_in(p, n) == lookup_in(p.drop_first(), n));
            assert(lookup_in(entries, n) == lookup_in(entries.drop_first(), n));
        }
    }
}

/// Putting an entry in front of the remaining input: every name already
/// resolved by the later entries keeps its association; otherwise the new
/// entry's own name resolves to it.
proof fn lemma_catalog_lookup_prepend(infos: Seq<FieldInfo>, x: FieldInfo, n: Seq<char>)
    ensures
        catalog_lookup(seq![x] + infos, n) == if catalog_lookup(infos, n) is Some {
            catalog_lookup(infos, n)
        } else if x.name@ == n {
            Some(x)
        } else {
            None::<FieldInfo>
        },
    decreases infos.len(),
{
    let p = seq![x] + infos;
    if infos.len() == 0 {
        assert(p =~= seq![x]);
    } else {
        assert(p.last() == infos.last());
        assert(p.drop_last() =~= seq![x] + infos.drop_last());
        lemma_catalog_lookup_prepend(infos.drop_last(), x, n);
        if infos.last().name@ == n {
            assert(catalog_lookup(p, n) == Some(infos.last()));
            assert(catalog_lookup(infos, n) == Some(infos.last()));
        } else {
            assert(catalog_lookup(p, n) == catalog_lookup(p.drop_last(), n));
            assert(catalog_lookup(infos, n) == catalog_lookup(infos.drop_last(), n));
        }
    }
}

/// If no entry carries the name, no index does either.
proof fn lemma_lookup_in_none(entries: Seq<FieldInfo>, n: Seq<char>)
    requires
        lookup_in(entries, n) is None,
    ensures
        forall|i: int| 0 <= i < entries.len() ==> entries[i].name@ != n,
    decreases entries.len(),
{
    if entries.len() > 0 {
        lemma_lookup_in_none(entries.drop_first(), n);
        assert(forall|i: int|
            1 <= i < entries.len() ==> entries[i] == entries.drop_first()[i - 1]);
    }
}

/// Builds the catalog from a list of field descriptions. When two
/// descriptions share a name, the later one wins, and the result always has
/// unique keys.
pub fn field_info_map(infos: Vec<FieldInfo>) -> (m: FieldInfoMap)
    ensures
        m.wf(),
        forall|n: Seq<char>| m.spec_lookup(n) == catalog_lookup(infos@, n),
{
    let ghost orig = infos@;
    let mut infos = infos;
    let mut m = FieldInfoMap { entries: Vec::new() };
    proof {
        assert(orig.take(orig.len() as int) =~= orig);
    }
    while infos.len() > 0
        invariant
            infos@.len() <= orig.len(),
            infos@ == orig.take(infos@.len() as int),
            m.wf(),
            forall|n: Seq<char>| m.spec_lookup(n) == catalog_lookup(orig.skip(infos@.len() as int), n),
        decreases infos@.len(),
    {
        let ghost k = infos@.len() - 1;
        let ghost pre = m.entries@;
        let ghost suffix = orig.skip(k + 1);
        let ghost before = infos@;
        proof {
            assert forall|n: Seq<char>| lookup_in(pre, n) == catalog_lookup(suffix, n) by {
                assert(m.spec_lookup(n) == catalog_lookup(orig.skip(infos@.len() as int), n));
                assert(m.entries@ == pre);
                assert(orig.skip(infos@.len() as int) == orig.skip(k + 1));
            }
        }
        let info = infos.pop().unwrap();
        proof {
            assert(before.len() == k + 1);
            assert(before[k] == orig.take(k + 1)[k]);
            assert(info == orig[k]);
            assert(infos@ =~= orig.take(k + 1).subrange(0, k));
            assert(infos@ =~= orig.take(infos@.len() as int));
        }
        let absent = m.lookup(&info.name).is_none();
        if absent {
            proof {
                lemma_lookup_in_none(pre, info.name@);
            }
            m.entries.push(info);
            assert(m.wf());
        }
        proof {
            assert(orig.skip(k) =~= seq![orig[k]] + suffix);
            assert forall|n: Seq<char>| m.spec_lookup(n) == catalog_lookup(orig.skip(k), n) by {
                assert(before.len() == k + 1);
                assert(orig.skip(before.len() as int) == orig.skip(k + 1));
                assert(lookup_in(pre, n) == catalog_lookup(orig.skip(before.len() as int), n));
                assert(lookup_in(pre, n) == catalog_lookup(suffix, n));
                lemma_catalog_lookup_prepend(suffix, orig[k], n);
                assert(catalog_lookup(orig.skip(k), n) == catalog_lookup(seq![orig[k]] + suffix, n));
                if absent {
                    lemma_lookup_in_push(pre, orig[k], n);
                    assert(m.entries@ == pre.push(orig[k]));
                } else {
                    assert(m.entries@ == pre);
                    assert(lookup_in(pre, info.name@) is Some);
                }
            }
        }
    }
    proof {
        assert(orig.skip(0) =~= orig);
    }
    m
}

/// What validating one leaf yields: the field must be known to the catalog,
/// the operation permitted for it, and the literal's kind compatible with
/// the field's declared type — checked in that order, so the first failure
/// names the error.
pub open spec fn spec_validate_leaf(
    n: FilterNode,
    f: Field,
    catalog: FieldInfoMap,
) -> Result<(), DataAccessErr> {
    match catalog.spec_lookup(f.0@) {
        None => Err(DataAccessErr::UnknownField(f.0)),
        Some(info) => if !n.op_permitted(info) {
            Err(DataAccessErr::InvalidOperation(info.name, n.op_kind()->Some_0))
        } else {
            match n {
                FilterNode::Equal(_, _, v) => if v.compatible(info.type_) {
                    Ok(())
                } else {
                    Err(DataAccessErr::TypeErr(info.name, info.type_))
                },
                FilterNode::Cmp(_, _, v) => if v.compatible(info.type_) {
                    Ok(())
                } else {
                    Err(DataAccessErr::TypeErr(info.name, info.type_))
                },
                FilterNode::In(_, _, lv) => if lv.compatible(info.type_) {
                    Ok(())
                } else {
                    Err(DataAccessErr::TypeErr(info.name, info.type_))
                },
                _ => Ok(()),
            }
        },
    }
}

/// What validating a tree yields: a branch node is always permitted and its
/// children are validated depth-first, the first failure short-circuiting;
/// a leaf is checked against the catalog. A branch with no children is
/// deliberately accepted (it renders as the vacuous group `()`).
pub open spec fn spec_validate(n: FilterNode, catalog: FieldInfoMap) -> Result<(), DataAccessErr>
    decreases n,
{
    match n {
        FilterNode::Logical(_, cs) => spec_validate_children(cs@, catalog),
        FilterNode::Nullable(_, f) => spec_validate_leaf(n, f, catalog),
        FilterNode::Equal(_, f, _) => spec_validate_leaf(n, f, catalog),
        FilterNode::Cmp(_, f, _) => spec_validate_leaf(n, f, catalog),
        FilterNode::In(_, f, _) => spec_validate_leaf(n, f, catalog),
        FilterNode::Like(_, f, _) => spec_validate_leaf(n, f, catalog),
    }
}

/// Validates children in order; the first failure is the result.
pub open spec fn spec_validate_children(
    s: Seq<FilterNode>,
    catalog: FieldInfoMap,
) -> Result<(), DataAccessErr>
    decreases s,
{
    if s.len() == 0 {
        Ok(())
    } else {
        match spec_validate(s[0], catalog) {
            Err(e) => Err(e),
            Ok(u) => spec_validate_children(s.drop_first(), catalog),
        }
    }
}

/// Validates one leaf against the catalog.
fn validate_leaf(node: &FilterNode, catalog: &FieldInfoMap) -> (r: Result<(), DataAccessErr>)
    requires
        !(node is Logical),
    ensures
        r == spec_validate(*node, *catalog),
{
    let f: &Field = match node {
        FilterNode::Nullable(_, f) => f,
        FilterNode::Equal(_, f, _) => f,
        FilterNode::Cmp(_, f, _) => f,
        FilterNode::In(_, f, _) => f,
        FilterNode::Like(_, f, _) => f,
        FilterNode::Logical(_, _) => {
            // Excluded by the precondition.
            return Ok(());
        },
    };
    match catalog.lookup(&f.0) {
        None => Err(DataAccessErr::UnknownField(f.0.clone())),
        Some(info) => {
            match node.check_operation(info) {
                Err(e) => Err(e),
                Ok(u) => {
                    let tr: Result<(), DataAccessErr> = match node {
                        FilterNode::Equal(_, _, v) => v.chekc_type(&info.type_),
                        FilterNode::Cmp(_, _, v) => v.chekc_type(&info.type_),
                        FilterNode::In(_, _, lv) => lv.chekc_type(&info.type_),
                        _ => Ok(()),
                    };
                    match tr {
                        Ok(u2) => Ok(()),
                        Err(e) => Err(
                            DataAccessErr::TypeErr(info.name.clone(), info.type_.duplicate()),
                        ),
                    }
                },
            }
        },
    }
}

/// Validates a filter tree against the catalog: every leaf's field must be
/// in the catalog, its operation whitelisted (or the field nullable, for a
/// null test), and its literal's kind compatible with the field's type.
/// Traversal is depth-first and stops at the first failure. Neither the
/// tree nor the catalog is changed.
pub fn validate(node: &FilterNode, catalog: &FieldInfoMap) -> (r: Result<(), DataAccessErr>)
    ensures
        r == spec_validate(*node, *catalog),
    decreases *node,
{
    broadcast use vstd::std_specs::vec::axiom_vec_decreases_to_view;

    match node {
        FilterNode::Logical(op, children) => {
            proof {
                assert(children@.skip(0) =~= children@);
            }
            let mut i: usize = 0;
            while i < children.len()
                invariant
                    i <= children@.len(),
                    *node == FilterNode::Logical(*op, *children),
                    spec_validate_children(children@, *catalog) == spec_validate_children(
                        children@.skip(i as int),
                        *catalog,
                    ),
                decreases children@.len() - i,
            {
                proof {
                    assert(decreases_to!(*node => node->Logical_1));
                    assert(node->Logical_1 == *children);
                    assert(decreases_to!(*children => children@));
                    assert(decreases_to!(children@ => children@[i as int]));
                    assert(children@.skip(i as int)[0] == children@[i as int]);
                    assert(children@.skip(i as int).drop_first() =~= children@.skip(i as int + 1));
                }
                let r = validate(&children[i], catalog);
                match r {
                    Err(e) => {
                        return Err(e);
                    },
                    Ok(u) => {},
                }
                i = i + 1;
            }
            proof {
                assert(children@.skip(children@.len() as int) =~= Seq::<FilterNode>::empty());
            }
            Ok(())
        },
        _ => validate_leaf(node, catalog),
    }
}

/// The number of nodes in the tree.
pub open spec fn spec_count(n: FilterNode) -> nat
    decreases n,
{
    match n {
        FilterNode::Logical(_, cs) => 1 + spec_count_children(cs@),
        _ => 1,
    }
}

/// The number of nodes in a sequence of trees.
pub open spec fn spec_count_children(s: Seq<FilterNode>) -> nat
    decreases s,
{
    if s.len() == 0 {
        0
    } else {
        spec_count(s[0]) + spec_count_children(s.drop_first())
    }
}

/// The number of levels of the tree: one for a leaf, one more than the
/// deepest child for a branch.
pub open spec fn spec_depth(n: FilterNode) -> nat
    decreases n,
{
    match n {
        FilterNode::Logical(_, cs) => 1 + spec_depth_children(cs@),
        _ => 1,
    }
}

/// The deepest depth among a sequence of trees, zero when there are none.
pub open spec fn spec_depth_children(s: Seq<FilterNode>) -> nat
    decreases s,
{
    if s.len() == 0 {
        0
    } else if spec_depth(s[0]) >= spec_depth_children(s.drop_first()) {
        spec_depth(s[0])
    } else {
        spec_depth_children(s.drop_first())
    }
}

/// What bounded validation yields, together with the node budget it leaves:
/// it is validation as [`spec_validate`] has it, except that a node met when
/// the budget is exhausted or below the depth floor yields `LimitExceeded`.
pub open spec fn spec_validate_bounded(
    n: FilterNode,
    catalog: FieldInfoMap,
    depth: nat,
    budget: nat,
) -> (Result<(), DataAccessErr>, nat)
    decreases n,
{
    if budget == 0 {
        (Err(DataAccessErr::LimitExceeded), 0)
    } else if depth == 0 {
        (Err(DataAccessErr::LimitExceeded), (budget - 1) as nat)
    } else {
        match n {
            FilterNode::Logical(_, cs) => spec_validate_bounded_children(
                cs@,
                catalog,
                (depth - 1) as nat,
                (budget - 1) as nat,
            ),
            FilterNode::Nullable(_, f) => (spec_validate_leaf(n, f, catalog), (budget - 1) as nat),
            FilterNode::Equal(_, f, _) => (spec_validate_leaf(n, f, catalog), (budget - 1) as nat),
            FilterNode::Cmp(_, f, _) => (spec_validate_leaf(n, f, catalog), (budget - 1) as nat),
            FilterNode::In(_, f, _) => (spec_validate_leaf(n, f, catalog), (budget - 1) as nat),
            FilterNode::Like(_, f, _) => (spec_validate_leaf(n, f, catalog), (budget - 1) as nat),
        }
    }
}

/// Bounded validation of children in order, threading the node budget; the
/// first failure is the result.
pub open spec fn spec_validate_bounded_children(
    s: Seq<FilterNode>,
    catalog: FieldInfoMap,
    depth: nat,
    budget: nat,
) -> (Result<(), DataAccessErr>, nat)
    decreases s,
{
    if s.len() == 0 {
        (Ok(()), budget)
    } else {
        let first = spec_validate_bounded(s[0], catalog, depth, budget);
        if first.0 is Err {
            first
        } else {
            spec_validate_bounded_children(s.drop_first(), catalog, depth, first.1)
        }
    }
}

/// Bounded validation: as [`validate`], but the traversal refuses to visit
/// more than `max_nodes` nodes or to descend below `max_depth` levels, so an
/// adversarially deep or wide tree is rejected with `LimitExceeded` instead
/// of being walked in full.
pub fn validate_bounded(
    node: &FilterNode,
    catalog: &FieldInfoMap,
    max_depth: u64,
    max_nodes: u64,
) -> (r: Result<(), DataAccessErr>)
    ensures
        r == spec_validate_bounded(*node, *catalog, max_depth as nat, max_nodes as nat).0,
{
    let rb = validate_bounded_rec(node, catalog, max_depth, max_nodes);
    rb.0
}

/// The recursive worker behind [`validate_bounded`].
fn validate_bounded_rec(
    node: &FilterNode,
    catalog: &FieldInfoMap,
    depth: u64,
    budget: u64,
) -> (rb: (Result<(), DataAccessErr>, u64))
    ensures
        rb.0 == spec_validate_bounded(*node, *catalog, depth as nat, budget as nat).0,
        rb.1 as nat == spec_validate_bounded(*node, *catalog, depth as nat, budget as nat).1,
    decreases *node,
{
    broadcast use vstd::std_specs::vec::axiom_vec_decreases_to_view;

    if budget == 0 {
        return (Err(DataAccessErr::LimitExceeded), 0);
    }
    if depth == 0 {
        return (Err(DataAccessErr::LimitExceeded), budget - 1);
    }
    match node {
        FilterNode::Logical(op, children) => {
            proof {
                assert(children@.skip(0) =~= children@);
            }
            let ghost d = (depth - 1) as nat;
            let mut b: u64 = budget - 1;
            let ghost whole = spec_validate_bounded_children(
                children@,
                *catalog,
                d,
                (budget - 1) as nat,
            );
            let mut i: usize = 0;
            while i < children.len()
                invariant
                    i <= children@.len(),
                    *node == FilterNode::Logical(*op, *children),
                    d == (depth - 1) as nat,
                    depth >= 1,
                    budget >= 1,
                    whole == spec_validate_bounded_children(
                        children@,
                        *catalog,
                        d,
                        (budget - 1) as nat,
                    ),
                    whole == spec_validate_bounded_children(
                        children@.skip(i as int),
                        *catalog,
                        d,
                        b as nat,
                    ),
                decreases children@.len() - i,
            {
                proof {
                    assert(decreases_to!(*node => node->Logical_1));
                    assert(node->Logical_1 == *children);
                    assert(decreases_to!(*children => children@));
                    assert(decreases_to!(children@ => children@[i as int]));
                    assert(children@.skip(i as int)[0] == children@[i as int]);
                    assert(children@.skip(i as int).drop_first() =~= children@.skip(i as int + 1));
                }
                let rb = validate_bounded_rec(&children[i], catalog, depth - 1, b);
                proof {
                    assert(spec_validate_bounded(*node, *catalog, depth as nat, budget as nat)
                        == whole);
                    assert(spec_validate_bounded_children(
                        children@.skip(i as int),
                        *catalog,
                        d,
                        b as nat,
                    ) == if spec_validate_bounded(children@[i as int], *catalog, d, b as nat).0
                        is Err {
                        spec_validate_bounded(children@[i as int], *catalog, d, b as nat)
                    } else {
                        spec_validate_bounded_children(
                            children@.skip(i as int + 1),
                            *catalog,
                            d,
                            spec_validate_bounded(children@[i as int], *catalog, d, b as nat).1,
                        )
                    });
                }
                match rb.0 {
                    Err(e) => {
                        return (Err(e), rb.1);
                    },
                    Ok(u) => {},
                }
                b = rb.1;
                i = i + 1;
            }
            proof {
                assert(children@.skip(children@.len() as int) =~= Seq::<FilterNode>::empty());
            }
            (Ok(()), b)
        },
        _ => {
            let r = validate_leaf(node, catalog);
            (r, budget - 1)
        },
    }
}

/// Every tree has at least one node and one level.
proof fn lemma_measures_positive(n: FilterNode)
    ensures
        spec_count(n) >= 1,
        spec_depth(n) >= 1,
{
}

/// On a tree within the limits, bounded validation agrees with validation,
/// and — when validation succeeds — consumes exactly one budget unit per
/// node.
pub proof fn lemma_validate_bounded_agrees(
    n: FilterNode,
    catalog: FieldInfoMap,
    depth: nat,
    budget: nat,
)
    requires
        spec_depth(n) <= depth,
        spec_count(n) <= budget,
    ensures
        spec_validate_bounded(n, catalog, depth, budget).0 == spec_validate(n, catalog),
        spec_validate(n, catalog) is Ok ==> spec_validate_bounded(n, catalog, depth, budget).1
            == budget - spec_count(n),
    decreases n,
{
    lemma_measures_positive(n);
    match n {
        FilterNode::Logical(_, cs) => {
            lemma_validate_bounded_children_agree(
                cs@,
                catalog,
                (depth - 1) as nat,
                (budget - 1) as nat,
            );
        },
        _ => {},
    }
}

/// The children version of [`lemma_validate_bounded_agrees`].
proof fn lemma_validate_bounded_children_agree(
    s: Seq<FilterNode>,
    catalog: FieldInfoMap,
    depth: nat,
    budget: nat,
)
    requires
        spec_depth_children(s) <= depth,
        spec_count_children(s) <= budget,
    ensures
        spec_validate_bounded_children(s, catalog, depth, budget).0 == spec_validate_children(
            s,
            catalog,
        ),
        spec_validate_children(s, catalog) is Ok ==> spec_validate_bounded_children(
            s,
            catalog,
            depth,
            budget,
        ).1 == budget - spec_count_children(s),
    decreases s,
{
    if s.len() > 0 {
        lemma_measures_positive(s[0]);
        lemma_validate_bounded_agrees(s[0], catalog, depth, budget);
        if spec_validate(s[0], catalog) is Ok {
            lemma_validate_bounded_children_agree(
                s.drop_first(),
                catalog,
                depth,
                (budget - spec_count(s[0])) as nat,
            );
        }
    }
}

/// The tokens that stand in for the contextual value kinds
/// (`CurrentUserId`, `CurrentDate`, `CurrentTime`). Their resolution depends
/// on the request context and the target dialect, so the caller supplies
/// them; this core never invents a literal for them.
#[derive(Debug, Clone)]
pub struct Placeholders {
    pub current_user_id: String,
    pub current_date: String,
    pub current_time: String,
}

impl StrValue {
    /// The literal with quote delimiters doubled, ready to stand between
    /// quotes.
    pub fn escaped(&self) -> (r: String)
        ensures
            r@ == spec_escaped(self.0@),
    {
        escape_quotes(self.0.as_str())
    }

    /// The literal escaped for a LIKE pattern: quote delimiters doubled and
    /// the wildcards `%` and `_` (and `\` itself) preceded by `\`, so the
    /// pattern matches the literal text and nothing else.
    pub fn escaped_like(&self) -> (r: String)
        ensures
            r@ == spec_like_escaped(self.0@),
    {
        escape_like(self.0.as_str())
    }

    /// The literal quoted and escaped, as it stands in a predicate.
    pub fn quoted(&self) -> (r: String)
        ensures
            r@ == "'"@ + spec_escaped(self.0@) + "'"@,
    {
        let mut r = String::new();
        r.append("'");
        let e = self.escaped();
        r.append(e.as_str());
        r.append("'");
        proof {
            assert(r@ =~= "'"@ + spec_escaped(self.0@) + "'"@);
        }
        r
    }
}

/// The separator a branch operator puts between its rendered children.
pub open spec fn logical_sep(op: Logical) -> Seq<char> {
    match op {
        Logical::And => " AND "@,
        Logical::Or => " OR "@,
    }
}

/// The rendered text of a null test operator.
pub open spec fn nullable_tok(op: Nullable) -> Seq<char> {
    match op {
        Nullable::IsNull => " IS NULL"@,
        Nullable::IsNotNull => " IS NOT NULL"@,
    }
}

/// The rendered text of an equality operator, with surrounding spaces.
pub open spec fn eq_tok(op: Eq) -> Seq<char> {
    match op {
        Eq::Eq => " = "@,
        Eq::NotEq => " <> "@,
    }
}

/// The rendered text of an order operator, with surrounding spaces.
pub open spec fn cmp_tok(op: Cmp) -> Seq<char> {
    match op {
        Cmp::Gt => " > "@,
        Cmp::GtEq => " >= "@,
        Cmp::Lt => " < "@,
        Cmp::LtEq => " <= "@,
    }
}

/// The rendered text of a membership operator, with a leading space.
pub open spec fn in_tok(op: In) -> Seq<char> {
    match op {
        In::In => " IN"@,
        In::NotIn => " NOT IN"@,
    }
}

impl Logical {
    /// The separator this operator puts between its rendered children.
    pub fn separator(&self) -> (r: &'static str)
        ensures
            r@ == logical_sep(*self),
    {
        match self {
            Logical::And => " AND ",
            Logical::Or => " OR ",
        }
    }
}

impl Value {
    /// What this literal renders to: numeric kinds bare, string kinds quoted
    /// and escaped, contextual kinds as the caller's placeholder token.
    pub open spec fn spec_render(self, ph: Placeholders) -> Seq<char> {
        match self {
            Value::Id(n) => dec_digits(n as nat),
            Value::Int(n) => dec_digits(n as nat),
            Value::UnixTimestamp(n) => dec_digits(n as nat),
            Value::Num(t) => t@,
            Value::Str(s) => "'"@ + spec_escaped(s.0@) + "'"@,
            Value::DateTime(s) => "'"@ + spec_escaped(s.0@) + "'"@,
            Value::CurrentUserId => ph.current_user_id@,
            Value::CurrentDate => ph.current_date@,
            Value::CurrentTime => ph.current_time@,
        }
    }

    /// Renders this literal.
    pub fn render(&self, ph: &Placeholders) -> (r: String)
        ensures
            r@ == self.spec_render(*ph),
    {
        match self {
            Value::Id(n) => u64_string(*n),
            Value::Int(n) => u64_string(*n),
            Value::UnixTimestamp(n) => u64_string(*n),
            Value::Num(t) => t.clone(),
            Value::Str(s) => s.quoted(),
            Value::DateTime(s) => s.quoted(),
            Value::CurrentUserId => ph.current_user_id.clone(),
            Value::CurrentDate => ph.current_date.clone(),
            Value::CurrentTime => ph.current_time.clone(),
        }
    }
}

/// The rendered texts of the numbers of a list, element-wise.
pub open spec fn dec_parts(s: Seq<u64>) -> Seq<Seq<char>> {
    s.map_values(|n: u64| dec_digits(n as nat))
}

/// The views of the numeric texts of a list, element-wise.
pub open spec fn text_parts(s: Seq<String>) -> Seq<Seq<char>> {
    s.map_values(|t: String| t@)
}

/// The quoted, escaped texts of the string literals of a list, element-wise.
pub open spec fn quoted_parts(s: Seq<StrValue>) -> Seq<Seq<char>> {
    s.map_values(|sv: StrValue| "'"@ + spec_escaped(sv.0@) + "'"@)
}

/// One more number adds one more rendered text.
proof fn lemma_dec_parts_push(s: Seq<u64>, x: u64)
    ensures
        dec_parts(s.push(x)) == dec_parts(s).push(dec_digits(x as nat)),
{
    assert(dec_parts(s.push(x)) =~= dec_parts(s).push(dec_digits(x as nat)));
}

/// One more text adds one more view.
proof fn lemma_text_parts_push(s: Seq<String>, x: String)
    ensures
        text_parts(s.push(x)) == text_parts(s).push(x@),
{
    assert(text_parts(s.push(x)) =~= text_parts(s).push(x@));
}

/// One more string literal adds one more quoted text.
proof fn lemma_quoted_parts_push(s: Seq<StrValue>, x: StrValue)
    ensures
        quoted_parts(s.push(x)) == quoted_parts(s).push("'"@ + spec_escaped(x.0@) + "'"@),
{
    assert(quoted_parts(s.push(x)) =~= quoted_parts(s).push("'"@ + spec_escaped(x.0@) + "'"@));
}

/// Renders each number of the list as its own string.
fn u64_strings(v: &Vec<u64>) -> (r: Vec<String>)
    ensures
        views(r@) == dec_parts(v@),
{
    let mut r: Vec<String> = Vec::new();
    let mut i: usize = 0;
    while i < v.len()
        invariant
            i <= v@.len(),
            views(r@) == dec_parts(v@.take(i as int)),
        decreases v@.len() - i,
    {
        let ghost r0 = r@;
        let s = u64_string(v[i]);
        let ghost sv = s;
        r.push(s);
        proof {
            crate::text::lemma_views_push(r0, sv);
            assert(v@.take(i as int + 1) =~= v@.take(i as int).push(v@[i as int]));
            lemma_dec_parts_push(v@.take(i as int), v@[i as int]);
        }
        i = i + 1;
    }
    proof {
        assert(v@.take(v@.len() as int) =~= v@);
    }
    r
}

/// Copies the numeric texts of the list, one string each.
fn text_strings(v: &Vec<String>) -> (r: Vec<String>)
    ensures
        views(r@) == text_parts(v@),
{
    let mut r: Vec<String> = Vec::new();
    let mut i: usize = 0;
    while i < v.len()
        invariant
            i <= v@.len(),
            views(r@) == text_parts(v@.take(i as int)),
        decreases v@.len() - i,
    {
        let ghost r0 = r@;
        let s = v[i].clone();
        let ghost sv = s;
        r.push(s);
        proof {
            crate::text::lemma_views_push(r0, sv);
            assert(v@.take(i as int + 1) =~= v@.take(i as int).push(v@[i as int]));
            lemma_text_parts_push(v@.take(i as int), v@[i as int]);
        }
        i = i + 1;
    }
    proof {
        assert(v@.take(v@.len() as int) =~= v@);
    }
    r
}

/// Renders each string literal of the list quoted and escaped.
fn quoted_strings(v: &Vec<StrValue>) -> (r: Vec<String>)
    ensures
        views(r@) == quoted_parts(v@),
{
    let mut r: Vec<String> = Vec::new();
    let mut i: usize = 0;
    while i < v.len()
        invariant
            i <= v@.len(),
            views(r@) == quoted_parts(v@.take(i as int)),
        decreases v@.len() - i,
    {
        let ghost r0 = r@;
        let s = v[i].quoted();
        let ghost sv = s;
        r.push(s);
        proof {
            crate::text::lemma_views_push(r0, sv);
            assert(v@.take(i as int + 1) =~= v@.take(i as int).push(v@[i as int]));
            lemma_quoted_parts_push(v@.take(i as int), v@[i as int]);
        }
        i = i + 1;
    }
    proof {
        assert(v@.take(v@.len() as int) =~= v@);
    }
    r
}

impl ListValue {
    /// The rendered texts of this list's elements, in order.
    pub open spec fn parts(self) -> Seq<Seq<char>> {
        match self {
            ListValue::Id(v) => dec_parts(v@),
            ListValue::Int(v) => dec_parts(v@),
            ListValue::UnixTimestamp(v) => dec_parts(v@),
            ListValue::Num(v) => text_parts(v@),
            ListValue::Str(v) => quoted_parts(v@),
            ListValue::DateTime(v) => quoted_parts(v@),
        }
    }

    /// What this list renders to: the elements comma-joined inside one pair
    /// of parentheses.
    pub open spec fn spec_render(self) -> Seq<char> {
        "("@ + spec_join(self.parts(), ", "@) + ")"@
    }

    /// Renders this list literal.
    pub fn render(&self) -> (r: String)
        ensures
            r@ == self.spec_render(),
    {
        let parts: Vec<String> = match self {
            ListValue::Id(v) => u64_strings(v),
            ListValue::Int(v) => u64_strings(v),
            ListValue::UnixTimestamp(v) => u64_strings(v),
            ListValue::Num(v) => text_strings(v),
            ListValue::Str(v) => quoted_strings(v),
            ListValue::DateTime(v) => quoted_strings(v),
        };
        slice_join_bracket(&parts, ", ")
    }
}

/// What a LIKE pattern renders to between its quotes: the escaped literal
/// with a `%` wildcard on the sides the operator leaves open.
pub open spec fn like_pattern(op: Like, s: Seq<char>) -> Seq<char> {
    match op {
        Like::StartWith => spec_like_escaped(s) + "%"@,
        Like::Contains => "%"@ + spec_like_escaped(s) + "%"@,
        Like::EndWith => "%"@ + spec_like_escaped(s),
    }
}

/// The rendered texts of the children of a branch node, in order.
pub open spec fn rendered_children(s: Seq<FilterNode>, ph: Placeholders) -> Seq<Seq<char>>
    decreases s,
{
    if s.len() == 0 {
        Seq::empty()
    } else {
        seq![spec_render_node(s[0], ph)] + rendered_children(s.drop_first(), ph)
    }
}

/// Rendering one more child appends its rendered text.
pub proof fn lemma_rendered_children_push(s: Seq<FilterNode>, x: FilterNode, ph: Placeholders)
    ensures
        rendered_children(s.push(x), ph) == rendered_children(s, ph).push(
            spec_render_node(x, ph),
        ),
    decreases s.len(),
{
    let p = s.push(x);
    if s.len() == 0 {
        assert(p =~= seq![x]);
        assert(p.drop_first() =~= Seq::<FilterNode>::empty());
        assert(rendered_children(Seq::<FilterNode>::empty(), ph) == Seq::<Seq<char>>::empty());
        assert(rendered_children(s, ph) == Seq::<Seq<char>>::empty());
        assert(rendered_children(p, ph) == seq![spec_render_node(x, ph)] + Seq::<Seq<
            char,
        >>::empty());
        assert(rendered_children(p, ph) =~= rendered_children(s, ph).push(
            spec_render_node(x, ph),
        ));
    } else {
        assert(p[0] == s[0]);
        assert(p.drop_first() =~= s.drop_first().push(x));
        lemma_rendered_children_push(s.drop_first(), x, ph);
        assert(rendered_children(p, ph) == seq![spec_render_node(s[0], ph)] + rendered_children(
            p.drop_first(),
            ph,
        ));
        assert(rendered_children(s, ph) == seq![spec_render_node(s[0], ph)] + rendered_children(
            s.drop_first(),
            ph,
        ));
        assert(rendered_children(p, ph) =~= rendered_children(s, ph).push(
            spec_render_node(x, ph),
        ));
    }
}

/// What a filter node renders to. A branch joins its children's texts with
/// the operator's separator inside one pair of parentheses; a leaf renders
/// its field name bare, its operator token, and its literal.
pub open spec fn spec_render_node(n: FilterNode, ph: Placeholders) -> Seq<char>
    decreases n,
{
    match n {
        FilterNode::Logical(op, cs) => "("@ + spec_join(
            rendered_children(cs@, ph),
            logical_sep(op),
        ) + ")"@,
        FilterNode::Nullable(op, f) => f.0@ + nullable_tok(op),
        FilterNode::Equal(op, f, v) => f.0@ + eq_tok(op) + v.spec_render(ph),
        FilterNode::Cmp(op, f, v) => f.0@ + cmp_tok(op) + v.spec_render(ph),
        FilterNode::In(op, f, lv) => f.0@ + in_tok(op) + lv.spec_render(),
        FilterNode::Like(op, f, s) => f.0@ + " LIKE '"@ + like_pattern(op, s.0@) + "'"@,
    }
}

impl FilterNode {
    /// Renders this (already validated) tree into one predicate string.
    /// Rendering is total: it never fails on its own.
    pub fn render(&self, ph: &Placeholders) -> (r: String)
        ensures
            r@ == spec_render_node(*self, *ph),
        decreases *self,
    {
        broadcast use vstd::std_specs::vec::axiom_vec_decreases_to_view;

        match self {
            FilterNode::Logical(op, children) => {
                let mut parts: Vec<String> = Vec::new();
                let mut i: usize = 0;
                while i < children.len()
                    invariant
                        i <= children@.len(),
                        *self == FilterNode::Logical(*op, *children),
                        views(parts@) == rendered_children(children@.take(i as int), *ph),
                    decreases children@.len() - i,
                {
                    proof {
                        assert(*self == FilterNode::Logical(*op, *children));
                        assert(decreases_to!(*self => self->Logical_1));
                        assert(self->Logical_1 == *children);
                        assert(decreases_to!(*self => *children));
                        assert(decreases_to!(*children => children@));
                        assert(decreases_to!(children@ => children@[i as int]));
                    }
                    let s = children[i].render(ph);
                    let ghost p0 = parts@;
                    let ghost sv = s;
                    parts.push(s);
                    proof {
                        crate::text::lemma_views_push(p0, sv);
                        lemma_rendered_children_push(
                            children@.take(i as int),
                            children@[i as int],
                            *ph,
                        );
                        assert(children@.take(i as int).push(children@[i as int])
                            =~= children@.take(i as int + 1));
                    }
                    i = i + 1;
                }
                proof {
                    assert(children@.take(children@.len() as int) =~= children@);
                }
                let sep = op.separator();
                slice_join_bracket(&parts, sep)
            },
            FilterNode::Nullable(op, f) => {
                let mut r = String::new();
                r.append(f.0.as_str());
                match op {
                    Nullable::IsNull => r.append(" IS NULL"),
                    Nullable::IsNotNull => r.append(" IS NOT NULL"),
                }
                proof {
                    assert(r@ =~= spec_render_node(*self, *ph));
                }
                r
            },
            FilterNode::Equal(op, f, v) => {
                let mut r = String::new();
                r.append(f.0.as_str());
                match op {
                    Eq::Eq => r.append(" = "),
                    Eq::NotEq => r.append(" <> "),
                }
                let vs = v.render(ph);
                r.append(vs.as_str());
                proof {
                    assert(r@ =~= spec_render_node(*self, *ph));
                }
                r
            },
            FilterNode::Cmp(op, f, v) => {
                let mut r = String::new();
                r.append(f.0.as_str());
                match op {
                    Cmp::Gt => r.append(" > "),
                    Cmp::GtEq => r.append(" >= "),
                    Cmp::Lt => r.append(" < "),
                    Cmp::LtEq => r.append(" <= "),
                }
                let vs = v.render(ph);
                r.append(vs.as_str());
                proof {
                    assert(r@ =~= spec_render_node(*self, *ph));
                }
                r
            },
            FilterNode::In(op, f, lv) => {
                let mut r = String::new();
                r.append(f.0.as_str());
                match op {
                    In::In => r.append(" IN"),
                    In::NotIn => r.append(" NOT IN"),
                }
                let ls = lv.render();
                r.append(ls.as_str());
                proof {
                    assert(r@ =~= spec_render_node(*self, *ph));
                }
                r
            },
            FilterNode::Like(op, f, s) => {
                let mut r = String::new();
                r.append(f.0.as_str());
                r.append(" LIKE '");
                let e = s.escaped_like();
                match op {
                    Like::StartWith => {
                        r.append(e.as_str());
                        r.append("%");
                    },
                    Like::Contains => {
                        r.append("%");
                        r.append(e.as_str());
                        r.append("%");
                    },
                    Like::EndWith => {
                        r.append("%");
                        r.append(e.as_str());
                    },
                }
                r.append("'");
                proof {
                    assert(r@ =~= spec_render_node(*self, *ph));
                }
                r
            },
        }
    }
}

/// A branch with three children renders as its children's texts joined by
/// the operator's separator inside one pair of parentheses.
pub proof fn lemma_render_logical_three(op: Logical, v: Vec<FilterNode>, ph: Placeholders)
    requires
        v@.len() == 3,
    ensures
        spec_render_node(FilterNode::Logical(op, v), ph) == "("@ + spec_render_node(v@[0], ph)
            + logical_sep(op) + spec_render_node(v@[1], ph) + logical_sep(op) + spec_render_node(
            v@[2],
            ph,
        ) + ")"@,
{
    let r0 = spec_render_node(v@[0], ph);
    let r1 = spec_render_node(v@[1], ph);
    let r2 = spec_render_node(v@[2], ph);
    let sep = logical_sep(op);
    let s0 = Seq::<FilterNode>::empty();
    let s1 = s0.push(v@[0]);
    let s2 = s1.push(v@[1]);
    let s3 = s2.push(v@[2]);
    assert(s3 =~= v@);
    assert(rendered_children(s0, ph) == Seq::<Seq<char>>::empty());
    lemma_rendered_children_push(s0, v@[0], ph);
    lemma_rendered_children_push(s1, v@[1], ph);
    lemma_rendered_children_push(s2, v@[2], ph);
    let parts = rendered_children(v@, ph);
    assert(parts =~= seq![r0, r1, r2]);
    assert(seq![r0, r1, r2].drop_first() =~= seq![r1, r2]);
    assert(seq![r1, r2].drop_first() =~= seq![r2]);
    assert(spec_join(seq![r2], sep) == r2);
    assert(spec_join(seq![r1, r2], sep) == r1 + sep + spec_join(seq![r2], sep));
    assert(spec_join(seq![r0, r1, r2], sep) == r0 + sep + spec_join(seq![r1, r2], sep));
    assert("("@ + spec_join(parts, sep) + ")"@ =~= "("@ + r0 + sep + r1 + sep + r2 + ")"@);
}

/// An equality leaf with an integer literal renders as the bare field name,
/// the operator token, and the bare decimal digits — unquoted.
pub proof fn lemma_render_equal_int(op: Eq, f: Field, n: u64, ph: Placeholders)
    ensures
        spec_render_node(FilterNode::Equal(op, f, Value::Int(n)), ph) == f.0@ + eq_tok(op)
            + dec_digits(n as nat),
{
}

/// An equality leaf with a string literal renders as the bare field name,
/// the operator token, and the literal quoted with its embedded quote
/// characters escaped.
pub proof fn lemma_render_equal_str(op: Eq, f: Field, s: StrValue, ph: Placeholders)
    ensures
        spec_render_node(FilterNode::Equal(op, f, Value::Str(s)), ph) == f.0@ + eq_tok(op) + "'"@
            + spec_escaped(s.0@) + "'"@,
{
    assert(f.0@ + eq_tok(op) + ("'"@ + spec_escaped(s.0@) + "'"@) =~= f.0@ + eq_tok(op) + "'"@
        + spec_escaped(s.0@) + "'"@);
}

/// A membership leaf over a three-element integer list renders as the bare
/// field name, the operator token, and the comma-joined bare decimals in
/// parentheses.
pub proof fn lemma_render_in_int_list(op: In, f: Field, v: Vec<u64>, ph: Placeholders)
    requires
        v@.len() == 3,
    ensures
        spec_render_node(FilterNode::In(op, f, ListValue::Int(v)), ph) == f.0@ + in_tok(op) + "("@
            + dec_digits(v@[0] as nat) + ", "@ + dec_digits(v@[1] as nat) + ", "@ + dec_digits(
            v@[2] as nat,
        ) + ")"@,
{
    let r0 = dec_digits(v@[0] as nat);
    let r1 = dec_digits(v@[1] as nat);
    let r2 = dec_digits(v@[2] as nat);
    let sep = ", "@;
    let parts = dec_parts(v@);
    assert(parts =~= seq![r0, r1, r2]);
    assert(seq![r0, r1, r2].drop_first() =~= seq![r1, r2]);
    assert(seq![r1, r2].drop_first() =~= seq![r2]);
    assert(spec_join(seq![r2], sep) == r2);
    assert(spec_join(seq![r1, r2], sep) == r1 + sep + spec_join(seq![r2], sep));
    assert(spec_join(seq![r0, r1, r2], sep) == r0 + sep + spec_join(seq![r1, r2], sep));
    assert(f.0@ + in_tok(op) + ("("@ + spec_join(parts, sep) + ")"@) =~= f.0@ + in_tok(op) + "("@
        + r0 + sep + r1 + sep + r2 + ")"@);
}

/// A null test validates against the nullable flag alone: with the field in
/// the catalog, it fails — with `InvalidOperation` — exactly when the field
/// is not nullable, whatever the operation whitelist says.
pub proof fn lemma_validate_nullable(op: Nullable, f: Field, catalog: FieldInfoMap)
    requires
        catalog.spec_lookup(f.0@) is Some,
    ensures
        ({
            let r = spec_validate(FilterNode::Nullable(op, f), catalog);
            let info = catalog.spec_lookup(f.0@)->Some_0;
            &&& r is Ok <==> info.nullable
            &&& !info.nullable ==> r == Err::<(), DataAccessErr>(DataAccessErr::InvalidOperation(
                info.name,
                OperationKind::Nullable,
            ))
        }),
{
}

/// An equality test with a string literal, on a field whose whitelist does
/// permit equality, fails — with `TypeErr` — exactly when the field's type
/// is neither `Str` nor `Enum`.
pub proof fn lemma_validate_equal_str(op: Eq, f: Field, s: StrValue, catalog: FieldInfoMap)
    requires
        catalog.spec_lookup(f.0@) is Some,
        catalog.spec_lookup(f.0@)->Some_0.operation@.contains(Operation::Equal),
    ensures
        ({
            let r = spec_validate(FilterNode::Equal(op, f, Value::Str(s)), catalog);
            let info = catalog.spec_lookup(f.0@)->Some_0;
            &&& r is Ok <==> (info.type_ is Str || info.type_ is Enum)
            &&& !(info.type_ is Str || info.type_ is Enum) ==> r == Err::<(), DataAccessErr>(
                DataAccessErr::TypeErr(info.name, info.type_),
            )
        }),
{
}

/// The deliberate policy for a branch with no children: it passes
/// validation and renders as the vacuous group `()`.
pub proof fn lemma_empty_logical(op: Logical, v: Vec<FilterNode>, catalog: FieldInfoMap, ph: Placeholders)
    requires
        v@.len() == 0,
    ensures
        spec_validate(FilterNode::Logical(op, v), catalog) is Ok,
        spec_render_node(FilterNode::Logical(op, v), ph) == "()"@,
{
    assert(rendered_children(v@, ph) == Seq::<Seq<char>>::empty());
    assert(spec_join(Seq::<Seq<char>>::empty(), logical_sep(op)) == Seq::<char>::empty());
    reveal_strlit("(");
    reveal_strlit(")");
    reveal_strlit("()");
    assert("("@ + Seq::<char>::empty() + ")"@ =~= "()"@);
}

} // verus!
