//! The earlier, flat variant of the filter expression model: one enum holds
//! both the branch and the leaf forms, fields render bracket-delimited, and
//! every node is parenthesized on its own. The newer model in
//! [`crate::data_access1`] supersedes it and adds validation against a field
//! catalog; this one is kept for callers of the old shape.
use vstd::prelude::*;
use vstd::string::StringExecFns;

use crate::text::{
    dec_digits, dec_int, i64_string, quote_wrap, slice_join_bracket, spec_escaped, spec_join,
    u64_string, views,
};

verus! {

/// A reference to a queryable field, by name. It renders bracket-delimited,
/// so the name cannot collide with a reserved word.
#[derive(Debug, Clone, PartialEq)]
pub struct Field(pub String);

/// What a field reference renders to.
pub open spec fn field_text(f: Field) -> Seq<char> {
    "["@ + f.0@ + "]"@
}

impl Field {
    /// Renders this field reference, bracket-delimited.
    pub fn render(&self) -> (r: String)
        ensures
            r@ == field_text(*self),
    {
        let mut r = String::new();
        r.append("[");
        r.append(self.0.as_str());
        r.append("]");
        proof {
            assert(r@ =~= field_text(*self));
        }
        r
    }
}

/// A scalar literal in a leaf. `Num` carries the decimal text of the
/// number, produced at the wire boundary; it renders bare.
#[derive(Debug, Clone, PartialEq)]
pub enum ValueNode {
    Str(String),
    Int(i64),
    Num(String),
    DateTime(String),
    UnixTimestamp(u64),
    CurrentUserId,
    CurrentTime,
    CurrentDate,
}

/// What a scalar literal renders to: numeric kinds bare, string kinds
/// quoted with embedded quotes escaped, contextual kinds as fixed `@`
/// tokens.
pub open spec fn value_text(v: ValueNode) -> Seq<char> {
    match v {
        ValueNode::Str(s) => "'"@ + spec_escaped(s@) + "'"@,
        ValueNode::DateTime(s) => "'"@ + spec_escaped(s@) + "'"@,
        ValueNode::Int(i) => dec_int(i as int),
        ValueNode::Num(t) => t@,
        ValueNode::UnixTimestamp(u) => dec_digits(u as nat),
        ValueNode::CurrentUserId => "@CurrentUserId"@,
        ValueNode::CurrentTime => "@CurrentTime"@,
        ValueNode::CurrentDate => "@CurrentDate"@,
    }
}

impl ValueNode {
    /// Renders this scalar literal.
    pub fn render(&self) -> (r: String)
        ensures
            r@ == value_text(*self),
    {
        match self {
            ValueNode::Str(s) => quote_wrap(s.as_str()),
            ValueNode::DateTime(s) => quote_wrap(s.as_str()),
            ValueNode::Int(i) => i64_string(*i),
            ValueNode::Num(t) => t.clone(),
            ValueNode::UnixTimestamp(u) => u64_string(*u),
            ValueNode::CurrentUserId => {
                let mut r = String::new();
                r.append("@CurrentUserId");
                r
            },
            ValueNode::CurrentTime => {
                let mut r = String::new();
                r.append("@CurrentTime");
                r
            },
            ValueNode::CurrentDate => {
                let mut r = String::new();
                r.append("@CurrentDate");
                r
            },
        }
    }
}

/// A homogeneous list literal in a membership test. `NumList` carries the
/// decimal texts of its numbers.
#[derive(Debug, Clone, PartialEq)]
pub enum ListNode {
    StrList(Vec<String>),
    IntList(Vec<i64>),
    NumList(Vec<String>),
}

/// The quoted, escaped texts of a list of strings, element-wise.
pub open spec fn str_parts(s: Seq<String>) -> Seq<Seq<char>> {
    s.map_values(|t: String| "'"@ + spec_escaped(t@) + "'"@)
}

/// The decimal texts of a list of integers, element-wise.
pub open spec fn int_parts(s: Seq<i64>) -> Seq<Seq<char>> {
    s.map_values(|i: i64| dec_int(i as int))
}

/// The views of a list of numeric texts, element-wise.
pub open spec fn num_parts(s: Seq<String>) -> Seq<Seq<char>> {
    s.map_values(|t: String| t@)
}

/// What a list literal renders to: its elements comma-joined inside one
/// pair of parentheses.
pub open spec fn list_text(l: ListNode) -> Seq<char> {
    let parts = match l {
        ListNode::StrList(v) => str_parts(v@),
        ListNode::IntList(v) => int_parts(v@),
        ListNode::NumList(v) => num_parts(v@),
    };
    "("@ + spec_join(parts, ", "@) + ")"@
}

/// One more string adds one more quoted text.
proof fn lemma_str_parts_push(s: Seq<String>, x: String)
    ensures
        str_parts(s.push(x)) == str_parts(s).push("'"@ + spec_escaped(x@) + "'"@),
{
    assert(str_parts(s.push(x)) =~= str_parts(s).push("'"@ + spec_escaped(x@) + "'"@));
}

/// One more integer adds one more decimal text.
proof fn lemma_int_parts_push(s: Seq<i64>, x: i64)
    ensures
        int_parts(s.push(x)) == int_parts(s).push(dec_int(x as int)),
{
    assert(int_parts(s.push(x)) =~= int_parts(s).push(dec_int(x as int)));
}

/// One more numeric text adds one more view.
proof fn lemma_num_parts_push(s: Seq<String>, x: String)
    ensures
        num_parts(s.push(x)) == num_parts(s).push(x@),
{
    assert(num_parts(s.push(x)) =~= num_parts(s).push(x@));
}

impl ListNode {
    /// Renders this list literal.
    pub fn render(&self) -> (r: String)
        ensures
            r@ == list_text(*self),
    {
        let parts: Vec<String> = match self {
            ListNode::StrList(v) => {
                let mut r: Vec<String> = Vec::new();
                let mut i: usize = 0;
                while i < v.len()
                    invariant
                        i <= v@.len(),
                        views(r@) == str_parts(v@.take(i as int)),
                    decreases v@.len() - i,
                {
                    let ghost r0 = r@;
                    let s = quote_wrap(v[i].as_str());
                    let ghost sv = s;
                    r.push(s);
                    proof {
                        crate::text::lemma_views_push(r0, sv);
                        assert(v@.take(i as int + 1) =~= v@.take(i as int).push(v@[i as int]));
                        lemma_str_parts_push(v@.take(i as int), v@[i as int]);
                    }
                    i = i + 1;
                }
                proof {
                    assert(v@.take(v@.len() as int) =~= v@);
                }
                r
            },
            ListNode::IntList(v) => {
                let mut r: Vec<String> = Vec::new();
                let mut i: usize = 0;
                while i < v.len()
                    invariant
                        i <= v@.len(),
                        views(r@) == int_parts(v@.take(i as int)),
                    decreases v@.len() - i,
                {
                    let ghost r0 = r@;
                    let s = i64_string(v[i]);
                    let ghost sv = s;
                    r.push(s);
                    proof {
                        crate::text::lemma_views_push(r0, sv);
                        assert(v@.take(i as int + 1) =~= v@.take(i as int).push(v@[i as int]));
                        lemma_int_parts_push(v@.take(i as int), v@[i as int]);
                    }
                    i = i + 1;
                }
                proof {
                    assert(v@.take(v@.len() as int) =~= v@);
                }
                r
            },
            ListNode::NumList(v) => {
                let mut r: Vec<String> = Vec::new();
                let mut i: usize = 0;
                while i < v.len()
                    invariant
                        i <= v@.len(),
                        views(r@) == num_parts(v@.take(i as int)),
                    decreases v@.len() - i,
                {
                    let ghost r0 = r@;
                    let s = v[i].clone();
                    let ghost sv = s;
                    r.push(s);
                    proof {
                        crate::text::lemma_views_push(r0, sv);
                        assert(v@.take(i as int + 1) =~= v@.take(i as int).push(v@[i as int]));
                        lemma_num_parts_push(v@.take(i as int), v@[i as int]);
                    }
                    i = i + 1;
                }
                proof {
                    assert(v@.take(v@.len() as int) =~= v@);
                }
                r
            },
        };
        slice_join_bracket(&parts, ", ")
    }
}

/// A filter node of the flat model: the branch forms carry their children
/// directly, every other form is a leaf over one field.
#[derive(Debug, PartialEq)]
pub enum LogicalNode {
    And(Vec<LogicalNode>),
    Or(Vec<LogicalNode>),
    IsNull(Field),
    IsNotNull(Field),
    Eq(Field, ValueNode),
    NotEq(Field, ValueNode),
    Gt(Field, ValueNode),
    Gte(Field, ValueNode),
    Lt(Field, ValueNode),
    Lte(Field, ValueNode),
    In(Field, ListNode),
    NotIn(Field, ListNode),
}

/// The rendered texts of a sequence of nodes, in order.
pub open spec fn rendered_nodes(s: Seq<LogicalNode>) -> Seq<Seq<char>>
    decreases s,
{
    if s.len() == 0 {
        Seq::empty()
    } else {
        seq![node_text(s[0])] + rendered_nodes(s.drop_first())
    }
}

/// What a node of the flat model renders to: every node inside its own pair
/// of parentheses, fields bracket-delimited.
pub open spec fn node_text(n: LogicalNode) -> Seq<char>
    decreases n,
{
    match n {
        LogicalNode::And(v) => "("@ + spec_join(rendered_nodes(v@), " AND "@) + ")"@,
        LogicalNode::Or(v) => "("@ + spec_join(rendered_nodes(v@), " OR "@) + ")"@,
        LogicalNode::IsNull(f) => "("@ + field_text(f) + " IS NULL)"@,
        LogicalNode::IsNotNull(f) => "("@ + field_text(f) + " IS NOT NULL)"@,
        LogicalNode::Eq(f, v) => "("@ + field_text(f) + " = "@ + value_text(v) + ")"@,
        LogicalNode::NotEq(f, v) => "("@ + field_text(f) + " <> "@ + value_text(v) + ")"@,
        LogicalNode::Gt(f, v) => "("@ + field_text(f) + " > "@ + value_text(v) + ")"@,
        LogicalNode::Gte(f, v) => "("@ + field_text(f) + " >= "@ + value_text(v) + ")"@,
        LogicalNode::Lt(f, v) => "("@ + field_text(f) + " < "@ + value_text(v) + ")"@,
        LogicalNode::Lte(f, v) => "("@ + field_text(f) + " <= "@ + value_text(v) + ")"@,
        LogicalNode::In(f, l) => "("@ + field_text(f) + " IN"@ + list_text(l) + ")"@,
        LogicalNode::NotIn(f, l) => "("@ + field_text(f) + " NOT IN"@ + list_text(l) + ")"@,
    }
}

/// Rendering one more node appends its text.
proof fn lemma_rendered_nodes_push(s: Seq<LogicalNode>, x: LogicalNode)
    ensures
        rendered_nodes(s.push(x)) == rendered_nodes(s).push(node_text(x)),
    decreases s.len(),
{
    let p = s.push(x);
    if s.len() == 0 {
        assert(p =~= seq![x]);
        assert(p.drop_first() =~= Seq::<LogicalNode>::empty());
        assert(rendered_nodes(Seq::<LogicalNode>::empty()) == Seq::<Seq<char>>::empty());
        assert(rendered_nodes(s) == Seq::<Seq<char>>::empty());
        assert(rendered_nodes(p) == seq![node_text(x)] + Seq::<Seq<char>>::empty());
        assert(rendered_nodes(p) =~= rendered_nodes(s).push(node_text(x)));
    } else {
        assert(p[0] == s[0]);
        assert(p.drop_first() =~= s.drop_first().push(x));
        lemma_rendered_nodes_push(s.drop_first(), x);
        assert(rendered_nodes(p) == seq![node_text(s[0])] + rendered_nodes(p.drop_first()));
        assert(rendered_nodes(s) == seq![node_text(s[0])] + rendered_nodes(s.drop_first()));
        assert(rendered_nodes(p) =~= rendered_nodes(s).push(node_text(x)));
    }
}

/// Renders the children of a branch: their texts joined with the separator
/// inside one pair of parentheses.
fn render_node_list(v: &Vec<LogicalNode>, sep: &str) -> (r: String)
    ensures
        r@ == "("@ + spec_join(rendered_nodes(v@), sep@) + ")"@,
    decreases v@,
{
    broadcast use vstd::std_specs::vec::axiom_vec_decreases_to_view;

    let mut parts: Vec<String> = Vec::new();
    let mut i: usize = 0;
    while i < v.len()
        invariant
            i <= v@.len(),
            views(parts@) == rendered_nodes(v@.take(i as int)),
        decreases v@.len() - i,
    {
        proof {
            assert(decreases_to!(v@ => v@[i as int]));
        }
        let s = v[i].render();
        let ghost p0 = parts@;
        let ghost sv = s;
        parts.push(s);
        proof {
            crate::text::lemma_views_push(p0, sv);
            lemma_rendered_nodes_push(v@.take(i as int), v@[i as int]);
            assert(v@.take(i as int).push(v@[i as int]) =~= v@.take(i as int + 1));
        }
        i = i + 1;
    }
    proof {
        assert(v@.take(v@.len() as int) =~= v@);
    }
    slice_join_bracket(&parts, sep)
}

impl LogicalNode {
    /// Renders this tree into one predicate string.
    pub fn render(&self) -> (r: String)
        ensures
            r@ == node_text(*self),
        decreases *self,
    {
        broadcast use vstd::std_specs::vec::axiom_vec_decreases_to_view;

        match self {
            LogicalNode::And(v) => {
                proof {
                    assert(decreases_to!(*self => self->And_0));
                    assert(self->And_0 == *v);
                    assert(decreases_to!(*v => v@));
                }
                render_node_list(v, " AND ")
            },
            LogicalNode::Or(v) => {
                proof {
                    assert(decreases_to!(*self => self->Or_0));
                    assert(self->Or_0 == *v);
                    assert(decreases_to!(*v => v@));
                }
                render_node_list(v, " OR ")
            },
            LogicalNode::IsNull(f) => {
                let mut r = String::new();
                r.append("(");
                let ft = f.render();
                r.append(ft.as_str());
                r.append(" IS NULL)");
                proof {
                    assert(r@ =~= node_text(*self));
                }
                r
            },
            LogicalNode::IsNotNull(f) => {
                let mut r = String::new();
                r.append("(");
                let ft = f.render();
                r.append(ft.as_str());
                r.append(" IS NOT NULL)");
                proof {
                    assert(r@ =~= node_text(*self));
                }
                r
            },
            LogicalNode::Eq(f, v) => {
                let r = render_leaf(f, " = ", v);
                proof {
                    assert(r@ =~= node_text(*self));
                }
                r
            },
            LogicalNode::NotEq(f, v) => {
                let r = render_leaf(f, " <> ", v);
                proof {
                    assert(r@ =~= node_text(*self));
                }
                r
            },
            LogicalNode::Gt(f, v) => {
                let r = render_leaf(f, " > ", v);
                proof {
                    assert(r@ =~= node_text(*self));
                }
                r
            },
            LogicalNode::Gte(f, v) => {
                let r = render_leaf(f, " >= ", v);
                proof {
                    assert(r@ =~= node_text(*self));
                }
                r
            },
            LogicalNode::Lt(f, v) => {
                let r = render_leaf(f, " < ", v);
                proof {
                    assert(r@ =~= node_text(*self));
                }
                r
            },
            LogicalNode::Lte(f, v) => {
                let r = render_leaf(f, " <= ", v);
                proof {
                    assert(r@ =~= node_text(*self));
                }
                r
            },
            LogicalNode::In(f, l) => {
                let mut r = String::new();
                r.append("(");
                let ft = f.render();
                r.append(ft.as_str());
                r.append(" IN");
                let lt = l.render();
                r.append(lt.as_str());
                r.append(")");
                proof {
                    assert(r@ =~= node_text(*self));
                }
                r
            },
            LogicalNode::NotIn(f, l) => {
                let mut r = String::new();
                r.append("(");
                let ft = f.render();
                r.append(ft.as_str());
                r.append(" NOT IN");
                let lt = l.render();
                r.append(lt.as_str());
                r.append(")");
                proof {
                    assert(r@ =~= node_text(*self));
                }
                r
            },
        }
    }
}

/// Renders one comparison leaf: the bracketed field, the operator token,
/// the literal, all parenthesized.
fn render_leaf(f: &Field, tok: &str, v: &ValueNode) -> (r: String)
    ensures
        r@ == "("@ + field_text(*f) + tok@ + value_text(*v) + ")"@,
{
    let mut r = String::new();
    r.append("(");
    let ft = f.render();
    r.append(ft.as_str());
    r.append(tok);
    let vt = v.render();
    r.append(vt.as_str());
    r.append(")");
    proof {
        assert(r@ =~= "("@ + field_text(*f) + tok@ + value_text(*v) + ")"@);
    }
    r
}

/// A table filter's configuration: which field it applies to.
#[derive(Debug, Clone, PartialEq)]
pub struct TblFilterConfig {
    pub field: String,
}

/// Field metadata of the flat model: a name and its declared type.
pub struct FieldInfo {
    pub name: String,
    pub type_: FieldType,
}

/// The declared type of a field in the flat model.
pub enum FieldType {
    Int(Int),
    Str(Str),
}

/// The marker trait of the flat model's field type tags.
pub trait FieldType_ {

}

impl FieldType_ for () {

}

/// The integer field type tag.
pub struct Int;

impl FieldType_ for Int {

}

/// The string field type tag.
pub struct Str;

impl FieldType_ for Str {

}

} // verus!
