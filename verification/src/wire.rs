//! The wire shape of a filter tree: a JSON-like document of plain parts,
//! and the reading of a [`FilterNode`] tree out of it.
//!
//! A branch arrives as `[op, [child, ...]]`, a null test as `[op, field]`,
//! any other leaf as `[op, field, literal]`; a scalar literal is an object
//! `{"type": tag}` or `{"type": tag, "value": payload}`, and a list literal
//! an object with the element kind as its one key. Parsing the document
//! text into [`JsonValue`] is the caller's affair; this module decides what
//! the document means.
use vstd::prelude::*;
use vstd::string::StringExecFns;

use crate::data_access1::{
    Cmp, Field, FilterNode, In, Like, ListValue, Logical, Nullable, StrValue, Value,
};
use crate::text::chars_vec;

verus! {

/// A JSON-like wire document of plain parts. A number carries its literal
/// digits as text.
#[derive(Debug, PartialEq)]
pub enum JsonValue {
    Null,
    Bool(bool),
    Num(String),
    Str(String),
    Array(Vec<JsonValue>),
    Object(Vec<(String, JsonValue)>),
}

/// Whether the character is a decimal digit.
pub open spec fn is_digit(c: char) -> bool {
    48 <= c as u32 <= 57
}

/// The value of a decimal digit character.
pub open spec fn digit_val(c: char) -> u64
    recommends
        is_digit(c),
{
    (c as u32 - 48) as u64
}

/// What reading the remaining digits onto an accumulator yields: `None` on
/// a non-digit or when the value would no longer fit.
pub open spec fn parse_digits(s: Seq<char>, acc: u64) -> Option<u64>
    decreases s.len(),
{
    if s.len() == 0 {
        Some(acc)
    } else if !is_digit(s[0]) {
        None
    } else if acc > (0xffff_ffff_ffff_ffffu64 - digit_val(s[0])) / 10 {
        None
    } else {
        parse_digits(s.drop_first(), (acc * 10 + digit_val(s[0])) as u64)
    }
}

/// The `u64` whose canonical decimal text this is: no sign, no leading
/// zero, within range — exactly what a JSON number for a `u64` looks like.
pub open spec fn spec_parse_u64(s: Seq<char>) -> Option<u64> {
    if s.len() == 0 {
        None
    } else if s.len() > 1 && s[0] == '0' {
        None
    } else {
        parse_digits(s, 0)
    }
}

/// Reads a `u64` from its canonical decimal text.
pub fn parse_u64(s: &String) -> (r: Option<u64>)
    ensures
        r == spec_parse_u64(s@),
{
    let cs = chars_vec(s.as_str());
    if cs.len() == 0 {
        return None;
    }
    if cs.len() > 1 && cs[0] == '0' {
        return None;
    }
    proof {
        assert(cs@.skip(0) =~= cs@);
    }
    let mut acc: u64 = 0;
    let mut i: usize = 0;
    while i < cs.len()
        invariant
            i <= cs@.len(),
            cs@ == s@,
            spec_parse_u64(s@) == parse_digits(cs@.skip(i as int), acc),
        decreases cs@.len() - i,
    {
        proof {
            assert(cs@.skip(i as int)[0] == cs@[i as int]);
            assert(cs@.skip(i as int).drop_first() =~= cs@.skip(i as int + 1));
        }
        let c = cs[i];
        let cu = c as u32;
        if !(48 <= cu && cu <= 57) {
            return None;
        }
        let d = (cu - 48) as u64;
        if acc > (0xffff_ffff_ffff_ffffu64 - d) / 10 {
            return None;
        }
        proof {
            let m: u64 = 0xffff_ffff_ffff_ffffu64;
            vstd::arithmetic::div_mod::lemma_fundamental_div_mod((m - d) as int, 10);
            assert(acc * 10 + d <= m);
        }
        acc = acc * 10 + d;
        i = i + 1;
    }
    proof {
        assert(cs@.skip(cs@.len() as int) =~= Seq::<char>::empty());
    }
    Some(acc)
}

/// Whether the string equals the literal.
fn str_is(s: &String, lit: &str) -> (r: bool)
    ensures
        r == (s@ == lit@),
{
    let l = String::from_str(lit);
    *s == l
}

/// Whether the object's fields carry a scalar literal with this tag and a
/// numeric payload holding this number.
pub open spec fn tagged_num(fields: Seq<(String, JsonValue)>, tag: Seq<char>, n: u64) -> bool {
    &&& fields.len() == 2
    &&& fields[0].0@ == "type"@
    &&& (fields[0].1 matches JsonValue::Str(t) && t@ == tag)
    &&& fields[1].0@ == "value"@
    &&& (fields[1].1 matches JsonValue::Num(d) && spec_parse_u64(d@) == Some(n))
}

/// Whether the object's fields carry a scalar literal with this tag and a
/// string payload holding this text.
pub open spec fn tagged_str(fields: Seq<(String, JsonValue)>, tag: Seq<char>, s: String) -> bool {
    &&& fields.len() == 2
    &&& fields[0].0@ == "type"@
    &&& (fields[0].1 matches JsonValue::Str(t) && t@ == tag)
    &&& fields[1].0@ == "value"@
    &&& (fields[1].1 matches JsonValue::Str(u) && u == s)
}

/// Whether the object's fields carry a payload-less scalar literal with
/// this tag.
pub open spec fn tagged_unit(fields: Seq<(String, JsonValue)>, tag: Seq<char>) -> bool {
    &&& fields.len() == 1
    &&& fields[0].0@ == "type"@
    &&& (fields[0].1 matches JsonValue::Str(t) && t@ == tag)
}

/// Whether the document carries exactly this scalar literal.
pub open spec fn is_value_decoding(j: JsonValue, v: Value) -> bool {
    match j {
        JsonValue::Object(fields) => match v {
            Value::Id(n) => tagged_num(fields@, "Id"@, n),
            Value::Int(n) => tagged_num(fields@, "Int"@, n),
            Value::UnixTimestamp(n) => tagged_num(fields@, "UnixTimestamp"@, n),
            Value::Num(t) => {
                &&& fields@.len() == 2
                &&& fields@[0].0@ == "type"@
                &&& (fields@[0].1 matches JsonValue::Str(tg) && tg@ == "Num"@)
                &&& fields@[1].0@ == "value"@
                &&& (fields@[1].1 matches JsonValue::Num(d) && d == t)
            },
            Value::Str(s) => tagged_str(fields@, "Str"@, s.0),
            Value::DateTime(s) => tagged_str(fields@, "DateTime"@, s.0),
            Value::CurrentUserId => tagged_unit(fields@, "CurrentUserId"@),
            Value::CurrentDate => tagged_unit(fields@, "CurrentDate"@),
            Value::CurrentTime => tagged_unit(fields@, "CurrentTime"@),
        },
        _ => false,
    }
}

/// Whether the document is a well-formed scalar literal.
pub open spec fn well_formed_value(j: JsonValue) -> bool {
    match j {
        JsonValue::Object(fields) => {
            let fs = fields@;
            if fs.len() == 1 {
                fs[0].0@ == "type"@ && (fs[0].1 matches JsonValue::Str(t) && (t@
                    == "CurrentUserId"@ || t@ == "CurrentDate"@ || t@ == "CurrentTime"@))
            } else if fs.len() == 2 {
                &&& fs[0].0@ == "type"@
                &&& fs[1].0@ == "value"@
                &&& (fs[0].1 matches JsonValue::Str(t) && {
                    if t@ == "Id"@ || t@ == "Int"@ || t@ == "UnixTimestamp"@ {
                        fs[1].1 matches JsonValue::Num(d) && spec_parse_u64(d@) is Some
                    } else if t@ == "Num"@ {
                        fs[1].1 is Num
                    } else if t@ == "Str"@ || t@ == "DateTime"@ {
                        fs[1].1 is Str
                    } else {
                        false
                    }
                })
            } else {
                false
            }
        },
        _ => false,
    }
}

/// Reads a scalar literal out of the document.
pub fn decode_value(j: &JsonValue) -> (r: Option<Value>)
    ensures
        r is Some <==> well_formed_value(*j),
        (r matches Some(v) ==> is_value_decoding(*j, v)),
{
    match j {
        JsonValue::Object(fields) => {
            if fields.len() == 1 {
                let (key, tagval) = (&fields[0].0, &fields[0].1);
                if !str_is(key, "type") {
                    return None;
                }
                match tagval {
                    JsonValue::Str(t) => {
                        if str_is(t, "CurrentUserId") {
                            Some(Value::CurrentUserId)
                        } else if str_is(t, "CurrentDate") {
                            Some(Value::CurrentDate)
                        } else if str_is(t, "CurrentTime") {
                            Some(Value::CurrentTime)
                        } else {
                            None
                        }
                    },
                    _ => None,
                }
            } else if fields.len() == 2 {
                let key0 = &fields[0].0;
                let key1 = &fields[1].0;
                if !str_is(key0, "type") || !str_is(key1, "value") {
                    return None;
                }
                let tag = match &fields[0].1 {
                    JsonValue::Str(t) => t,
                    _ => {
                        return None;
                    },
                };
                let payload = &fields[1].1;
                if str_is(tag, "Id") {
                    match payload {
                        JsonValue::Num(d) => match parse_u64(d) {
                            Some(n) => Some(Value::Id(n)),
                            None => None,
                        },
                        _ => None,
                    }
                } else if str_is(tag, "Int") {
                    match payload {
                        JsonValue::Num(d) => match parse_u64(d) {
                            Some(n) => Some(Value::Int(n)),
                            None => None,
                        },
                        _ => None,
                    }
                } else if str_is(tag, "UnixTimestamp") {
                    match payload {
                        JsonValue::Num(d) => match parse_u64(d) {
                            Some(n) => Some(Value::UnixTimestamp(n)),
                            None => None,
                        },
                        _ => None,
                    }
                } else if str_is(tag, "Num") {
                    match payload {
                        JsonValue::Num(d) => Some(Value::Num(d.clone())),
                        _ => None,
                    }
                } else if str_is(tag, "Str") {
                    match payload {
                        JsonValue::Str(s) => Some(Value::Str(StrValue(s.clone()))),
                        _ => None,
                    }
                } else if str_is(tag, "DateTime") {
                    match payload {
                        JsonValue::Str(s) => Some(Value::DateTime(StrValue(s.clone()))),
                        _ => None,
                    }
                } else {
                    None
                }
            } else {
                None
            }
        },
        _ => None,
    }
}

/// Whether the elements are numbers whose texts read as exactly these
/// values.
pub open spec fn num_elems(items: Seq<JsonValue>, ns: Seq<u64>) -> bool {
    &&& items.len() == ns.len()
    &&& forall|i: int|
        0 <= i < ns.len() ==> (#[trigger] items[i] matches JsonValue::Num(d) && spec_parse_u64(d@)
            == Some(ns[i]))
}

/// Whether the elements are strings holding exactly these literals.
pub open spec fn str_elems(items: Seq<JsonValue>, ss: Seq<StrValue>) -> bool {
    &&& items.len() == ss.len()
    &&& forall|i: int|
        0 <= i < ss.len() ==> (#[trigger] items[i] matches JsonValue::Str(u) && u == ss[i].0)
}

/// Whether the elements are numbers holding exactly these texts.
pub open spec fn text_elems(items: Seq<JsonValue>, ts: Seq<String>) -> bool {
    &&& items.len() == ts.len()
    &&& forall|i: int|
        0 <= i < ts.len() ==> (#[trigger] items[i] matches JsonValue::Num(d) && d == ts[i])
}

/// Whether the document carries exactly this list literal: an object with
/// the element kind as its one key and the elements in its array.
pub open spec fn is_list_decoding(j: JsonValue, lv: ListValue) -> bool {
    match j {
        JsonValue::Object(fields) => {
            &&& fields@.len() == 1
            &&& match lv {
                ListValue::Id(ns) => fields@[0].0@ == "Id"@ && (fields@[0].1
                    matches JsonValue::Array(items) && num_elems(items@, ns@)),
                ListValue::Int(ns) => fields@[0].0@ == "Int"@ && (fields@[0].1
                    matches JsonValue::Array(items) && num_elems(items@, ns@)),
                ListValue::UnixTimestamp(ns) => fields@[0].0@ == "UnixTimestamp"@ && (fields@[0].1
                    matches JsonValue::Array(items) && num_elems(items@, ns@)),
                ListValue::Num(ts) => fields@[0].0@ == "Num"@ && (fields@[0].1
                    matches JsonValue::Array(items) && text_elems(items@, ts@)),
                ListValue::Str(ss) => fields@[0].0@ == "Str"@ && (fields@[0].1
                    matches JsonValue::Array(items) && str_elems(items@, ss@)),
                ListValue::DateTime(ss) => fields@[0].0@ == "DateTime"@ && (fields@[0].1
                    matches JsonValue::Array(items) && str_elems(items@, ss@)),
            }
        },
        _ => false,
    }
}

/// Whether every element is a number whose text reads as a `u64`.
pub open spec fn all_num_elems(items: Seq<JsonValue>) -> bool {
    forall|i: int|
        0 <= i < items.len() ==> (#[trigger] items[i] matches JsonValue::Num(d) && spec_parse_u64(
            d@,
        ) is Some)
}

/// Whether every element is a number.
pub open spec fn all_text_elems(items: Seq<JsonValue>) -> bool {
    forall|i: int| 0 <= i < items.len() ==> (#[trigger] items[i]) is Num
}

/// Whether every element is a string.
pub open spec fn all_str_elems(items: Seq<JsonValue>) -> bool {
    forall|i: int| 0 <= i < items.len() ==> (#[trigger] items[i]) is Str
}

/// Whether the document is a well-formed list literal. The element kinds
/// are tried in one fixed order, as the reader tries them.
pub open spec fn well_formed_list(j: JsonValue) -> bool {
    match j {
        JsonValue::Object(fields) => {
            &&& fields@.len() == 1
            &&& (fields@[0].1 matches JsonValue::Array(items) && {
                let key = fields@[0].0@;
                if key == "Id"@ {
                    all_num_elems(items@)
                } else if key == "Int"@ {
                    all_num_elems(items@)
                } else if key == "UnixTimestamp"@ {
                    all_num_elems(items@)
                } else if key == "Num"@ {
                    all_text_elems(items@)
                } else if key == "Str"@ {
                    all_str_elems(items@)
                } else if key == "DateTime"@ {
                    all_str_elems(items@)
                } else {
                    false
                }
            })
        },
        _ => false,
    }
}

/// Reads the numeric elements of a list payload.
fn decode_u64_items(items: &Vec<JsonValue>) -> (r: Option<Vec<u64>>)
    ensures
        r is Some <==> all_num_elems(items@),
        (r matches Some(ns) ==> num_elems(items@, ns@)),
{
    let mut out: Vec<u64> = Vec::new();
    let mut k: usize = 0;
    while k < items.len()
        invariant
            k <= items@.len(),
            out@.len() == k,
            forall|i: int|
                0 <= i < k ==> (#[trigger] items@[i] matches JsonValue::Num(d) && spec_parse_u64(
                    d@,
                ) == Some(out@[i])),
        decreases items@.len() - k,
    {
        match &items[k] {
            JsonValue::Num(d) => {
                match parse_u64(d) {
                    Some(n) => {
                        out.push(n);
                    },
                    None => {
                        return None;
                    },
                }
            },
            _ => {
                return None;
            },
        }
        k = k + 1;
    }
    Some(out)
}

/// Reads the string elements of a list payload.
fn decode_str_items(items: &Vec<JsonValue>) -> (r: Option<Vec<StrValue>>)
    ensures
        r is Some <==> all_str_elems(items@),
        (r matches Some(ss) ==> str_elems(items@, ss@)),
{
    let mut out: Vec<StrValue> = Vec::new();
    let mut k: usize = 0;
    while k < items.len()
        invariant
            k <= items@.len(),
            out@.len() == k,
            forall|i: int|
                0 <= i < k ==> (#[trigger] items@[i] matches JsonValue::Str(u) && u == out@[i].0),
        decreases items@.len() - k,
    {
        match &items[k] {
            JsonValue::Str(u) => {
                out.push(StrValue(u.clone()));
            },
            _ => {
                return None;
            },
        }
        k = k + 1;
    }
    Some(out)
}

/// Reads the numeric texts of a list payload.
fn decode_text_items(items: &Vec<JsonValue>) -> (r: Option<Vec<String>>)
    ensures
        r is Some <==> all_text_elems(items@),
        (r matches Some(ts) ==> text_elems(items@, ts@)),
{
    let mut out: Vec<String> = Vec::new();
    let mut k: usize = 0;
    while k < items.len()
        invariant
            k <= items@.len(),
            out@.len() == k,
            forall|i: int|
                0 <= i < k ==> (#[trigger] items@[i] matches JsonValue::Num(d) && d == out@[i]),
        decreases items@.len() - k,
    {
        match &items[k] {
            JsonValue::Num(d) => {
                out.push(d.clone());
            },
            _ => {
                return None;
            },
        }
        k = k + 1;
    }
    Some(out)
}

/// Reads a list literal out of the document.
pub fn decode_list(j: &JsonValue) -> (r: Option<ListValue>)
    ensures
        r is Some <==> well_formed_list(*j),
        (r matches Some(lv) ==> is_list_decoding(*j, lv)),
{
    match j {
        JsonValue::Object(fields) => {
            if fields.len() != 1 {
                return None;
            }
            let key = &fields[0].0;
            let items = match &fields[0].1 {
                JsonValue::Array(items) => items,
                _ => {
                    return None;
                },
            };
            if str_is(key, "Id") {
                match decode_u64_items(items) {
                    Some(ns) => Some(ListValue::Id(ns)),
                    None => None,
                }
            } else if str_is(key, "Int") {
                match decode_u64_items(items) {
                    Some(ns) => Some(ListValue::Int(ns)),
                    None => None,
                }
            } else if str_is(key, "UnixTimestamp") {
                match decode_u64_items(items) {
                    Some(ns) => Some(ListValue::UnixTimestamp(ns)),
                    None => None,
                }
            } else if str_is(key, "Num") {
                match decode_text_items(items) {
                    Some(ts) => Some(ListValue::Num(ts)),
                    None => None,
                }
            } else if str_is(key, "Str") {
                match decode_str_items(items) {
                    Some(ss) => Some(ListValue::Str(ss)),
                    None => None,
                }
            } else if str_is(key, "DateTime") {
                match decode_str_items(items) {
                    Some(ss) => Some(ListValue::DateTime(ss)),
                    None => None,
                }
            } else {
                None
            }
        },
        _ => None,
    }
}

/// The wire name of a branch operator.
pub open spec fn logical_name(op: Logical) -> Seq<char> {
    match op {
        Logical::And => "And"@,
        Logical::Or => "Or"@,
    }
}

/// The wire name of a null test operator.
pub open spec fn nullable_name(op: Nullable) -> Seq<char> {
    match op {
        Nullable::IsNull => "IsNull"@,
        Nullable::IsNotNull => "IsNotNull"@,
    }
}

/// The wire name of an equality operator.
pub open spec fn eq_name(op: crate::data_access1::Eq) -> Seq<char> {
    match op {
        crate::data_access1::Eq::Eq => "Eq"@,
        crate::data_access1::Eq::NotEq => "NotEq"@,
    }
}

/// The wire name of an order operator.
pub open spec fn cmp_name(op: Cmp) -> Seq<char> {
    match op {
        Cmp::Gt => "Gt"@,
        Cmp::GtEq => "GtEq"@,
        Cmp::Lt => "Lt"@,
        Cmp::LtEq => "LtEq"@,
    }
}

/// The wire name of a membership operator.
pub open spec fn in_name(op: In) -> Seq<char> {
    match op {
        In::In => "In"@,
        In::NotIn => "NotIn"@,
    }
}

/// The wire name of a pattern operator.
pub open spec fn like_name(op: Like) -> Seq<char> {
    match op {
        Like::StartWith => "StartWith"@,
        Like::Contains => "Contains"@,
        Like::EndWith => "EndWith"@,
    }
}

/// Whether the documents carry exactly these trees, pairwise.
pub open spec fn is_nodes_decoding(kids: Seq<JsonValue>, cs: Seq<FilterNode>) -> bool
    decreases cs,
{
    if kids.len() != cs.len() {
        false
    } else if cs.len() == 0 {
        true
    } else {
        is_node_decoding(kids[0], cs[0]) && is_nodes_decoding(kids.drop_first(), cs.drop_first())
    }
}

/// Whether the document carries exactly this tree.
pub open spec fn is_node_decoding(j: JsonValue, n: FilterNode) -> bool
    decreases n,
{
    match n {
        FilterNode::Logical(op, cs) => (j matches JsonValue::Array(items) && items@.len() == 2 && (
        items@[0] matches JsonValue::Str(s) && s@ == logical_name(op)) && (items@[1]
            matches JsonValue::Array(kids) && is_nodes_decoding(kids@, cs@))),
        FilterNode::Nullable(op, f) => (j matches JsonValue::Array(items) && items@.len() == 2 && (
        items@[0] matches JsonValue::Str(s) && s@ == nullable_name(op)) && (items@[1]
            matches JsonValue::Str(fname) && fname == f.0)),
        FilterNode::Equal(op, f, v) => (j matches JsonValue::Array(items) && items@.len() == 3 && (
        items@[0] matches JsonValue::Str(s) && s@ == eq_name(op)) && (items@[1]
            matches JsonValue::Str(fname) && fname == f.0) && is_value_decoding(items@[2], v)),
        FilterNode::Cmp(op, f, v) => (j matches JsonValue::Array(items) && items@.len() == 3 && (
        items@[0] matches JsonValue::Str(s) && s@ == cmp_name(op)) && (items@[1]
            matches JsonValue::Str(fname) && fname == f.0) && is_value_decoding(items@[2], v)),
        FilterNode::In(op, f, lv) => (j matches JsonValue::Array(items) && items@.len() == 3 && (
        items@[0] matches JsonValue::Str(s) && s@ == in_name(op)) && (items@[1]
            matches JsonValue::Str(fname) && fname == f.0) && is_list_decoding(items@[2], lv)),
        FilterNode::Like(op, f, sv) => (j matches JsonValue::Array(items) && items@.len() == 3 && (
        items@[0] matches JsonValue::Str(s) && s@ == like_name(op)) && (items@[1]
            matches JsonValue::Str(fname) && fname == f.0) && (items@[2]
            matches JsonValue::Str(text) && text == sv.0)),
    }
}

/// Whether every document of the sequence is a well-formed tree.
pub open spec fn well_formed_nodes(kids: Seq<JsonValue>) -> bool
    decreases kids,
{
    if kids.len() == 0 {
        true
    } else {
        well_formed_node(kids[0]) && well_formed_nodes(kids.drop_first())
    }
}

/// Whether the document is a well-formed tree. The operator names are
/// tried in one fixed order, as the reader tries them.
pub open spec fn well_formed_node(j: JsonValue) -> bool
    decreases j,
{
    match j {
        JsonValue::Array(items) => {
            if items@.len() == 2 {
                (items@[0] matches JsonValue::Str(s) && {
                    if s@ == "And"@ {
                        items@[1] matches JsonValue::Array(kids) && well_formed_nodes(kids@)
                    } else if s@ == "Or"@ {
                        items@[1] matches JsonValue::Array(kids) && well_formed_nodes(kids@)
                    } else if s@ == "IsNull"@ {
                        items@[1] is Str
                    } else if s@ == "IsNotNull"@ {
                        items@[1] is Str
                    } else {
                        false
                    }
                })
            } else if items@.len() == 3 {
                (items@[0] matches JsonValue::Str(s) && (items@[1] is Str) && {
                    if s@ == "Eq"@ || s@ == "NotEq"@ {
                        well_formed_value(items@[2])
                    } else if s@ == "Gt"@ || s@ == "GtEq"@ || s@ == "Lt"@ || s@ == "LtEq"@ {
                        well_formed_value(items@[2])
                    } else if s@ == "In"@ || s@ == "NotIn"@ {
                        well_formed_list(items@[2])
                    } else if s@ == "StartWith"@ || s@ == "Contains"@ || s@ == "EndWith"@ {
                        items@[2] is Str
                    } else {
                        false
                    }
                })
            } else {
                false
            }
        },
        _ => false,
    }
}

/// Pairwise decodings of all elements make a decoding of the sequences.
proof fn lemma_nodes_decoding_from_pointwise(kids: Seq<JsonValue>, cs: Seq<FilterNode>)
    requires
        kids.len() == cs.len(),
        forall|i: int| 0 <= i < kids.len() ==> #[trigger] is_node_decoding(kids[i], cs[i]),
    ensures
        is_nodes_decoding(kids, cs),
    decreases cs.len(),
{
    if cs.len() > 0 {
        assert(is_node_decoding(kids[0], cs[0]));
        assert forall|i: int|
            0 <= i < kids.drop_first().len() implies #[trigger] is_node_decoding(
            kids.drop_first()[i],
            cs.drop_first()[i],
        ) by {
            assert(kids.drop_first()[i] == kids[i + 1]);
            assert(cs.drop_first()[i] == cs[i + 1]);
        }
        lemma_nodes_decoding_from_pointwise(kids.drop_first(), cs.drop_first());
    }
}

/// Well-formedness of every element makes the sequence well-formed.
proof fn lemma_nodes_wf_from_pointwise(kids: Seq<JsonValue>)
    requires
        forall|i: int| 0 <= i < kids.len() ==> #[trigger] well_formed_node(kids[i]),
    ensures
        well_formed_nodes(kids),
    decreases kids.len(),
{
    if kids.len() > 0 {
        assert(well_formed_node(kids[0]));
        assert forall|i: int|
            0 <= i < kids.drop_first().len() implies #[trigger] well_formed_node(
            kids.drop_first()[i],
        ) by {
            assert(kids.drop_first()[i] == kids[i + 1]);
        }
        lemma_nodes_wf_from_pointwise(kids.drop_first());
    }
}

/// One ill-formed element makes the sequence ill-formed.
proof fn lemma_nodes_wf_break(kids: Seq<JsonValue>, k: int)
    requires
        0 <= k < kids.len(),
        !well_formed_node(kids[k]),
    ensures
        !well_formed_nodes(kids),
    decreases kids.len(),
{
    if k > 0 {
        assert(kids.drop_first()[k - 1] == kids[k]);
        lemma_nodes_wf_break(kids.drop_first(), k - 1);
    }
}

/// Reads the children of a branch out of their documents.
fn decode_children(kids: &Vec<JsonValue>) -> (r: Option<Vec<FilterNode>>)
    ensures
        r is Some <==> well_formed_nodes(kids@),
        (r matches Some(cs) ==> is_nodes_decoding(kids@, cs@)),
    decreases kids@,
{
    broadcast use vstd::std_specs::vec::axiom_vec_decreases_to_view;

    let mut out: Vec<FilterNode> = Vec::new();
    let mut k: usize = 0;
    while k < kids.len()
        invariant
            k <= kids@.len(),
            out@.len() == k,
            forall|i: int| 0 <= i < k ==> #[trigger] is_node_decoding(kids@[i], out@[i]),
            forall|i: int| 0 <= i < k ==> #[trigger] well_formed_node(kids@[i]),
        decreases kids@.len() - k,
    {
        proof {
            assert(decreases_to!(kids@ => kids@[k as int]));
        }
        match from_json(&kids[k]) {
            Some(c) => {
                out.push(c);
            },
            None => {
                proof {
                    lemma_nodes_wf_break(kids@, k as int);
                }
                return None;
            },
        }
        k = k + 1;
    }
    proof {
        lemma_nodes_wf_from_pointwise(kids@);
        lemma_nodes_decoding_from_pointwise(kids@, out@);
    }
    Some(out)
}

/// Reads a filter tree out of the document: `Some` exactly on well-formed
/// documents, and then the one tree the document carries.
pub fn from_json(j: &JsonValue) -> (r: Option<FilterNode>)
    ensures
        r is Some <==> well_formed_node(*j),
        (r matches Some(n) ==> is_node_decoding(*j, n)),
    decreases *j,
{
    broadcast use vstd::std_specs::vec::axiom_vec_decreases_to_view;

    let items = match j {
        JsonValue::Array(items) => items,
        _ => {
            return None;
        },
    };
    if items.len() == 2 {
        let s = match &items[0] {
            JsonValue::Str(s) => s,
            _ => {
                return None;
            },
        };
        if str_is(s, "And") || str_is(s, "Or") {
            let op = if str_is(s, "And") {
                Logical::And
            } else {
                Logical::Or
            };
            match &items[1] {
                JsonValue::Array(kids) => {
                    proof {
                        assert(decreases_to!(*j => j->Array_0));
                        assert(j->Array_0 == *items);
                        assert(decreases_to!(*items => items@));
                        assert(decreases_to!(items@ => items@[1]));
                        assert(items@[1] == JsonValue::Array(*kids));
                        assert(decreases_to!(items@[1] => items@[1]->Array_0));
                        assert(items@[1]->Array_0 == *kids);
                        assert(decreases_to!(*kids => kids@));
                    }
                    match decode_children(kids) {
                        Some(cs) => Some(FilterNode::Logical(op, cs)),
                        None => None,
                    }
                },
                _ => None,
            }
        } else if str_is(s, "IsNull") || str_is(s, "IsNotNull") {
            let op = if str_is(s, "IsNull") {
                Nullable::IsNull
            } else {
                Nullable::IsNotNull
            };
            match &items[1] {
                JsonValue::Str(fname) => Some(
                    FilterNode::Nullable(op, Field(fname.clone())),
                ),
                _ => None,
            }
        } else {
            None
        }
    } else if items.len() == 3 {
        let s = match &items[0] {
            JsonValue::Str(s) => s,
            _ => {
                return None;
            },
        };
        let fname = match &items[1] {
            JsonValue::Str(fname) => fname,
            _ => {
                return None;
            },
        };
        if str_is(s, "Eq") || str_is(s, "NotEq") {
            let op = if str_is(s, "Eq") {
                crate::data_access1::Eq::Eq
            } else {
                crate::data_access1::Eq::NotEq
            };
            match decode_value(&items[2]) {
                Some(v) => Some(FilterNode::Equal(op, Field(fname.clone()), v)),
                None => None,
            }
        } else if str_is(s, "Gt") || str_is(s, "GtEq") || str_is(s, "Lt") || str_is(s, "LtEq") {
            let op = if str_is(s, "Gt") {
                Cmp::Gt
            } else if str_is(s, "GtEq") {
                Cmp::GtEq
            } else if str_is(s, "Lt") {
                Cmp::Lt
            } else {
                Cmp::LtEq
            };
            match decode_value(&items[2]) {
                Some(v) => Some(FilterNode::Cmp(op, Field(fname.clone()), v)),
                None => None,
            }
        } else if str_is(s, "In") || str_is(s, "NotIn") {
            let op = if str_is(s, "In") {
                In::In
            } else {
                In::NotIn
            };
            match decode_list(&items[2]) {
                Some(lv) => Some(FilterNode::In(op, Field(fname.clone()), lv)),
                None => None,
            }
        } else if str_is(s, "StartWith") || str_is(s, "Contains") || str_is(s, "EndWith") {
            let op = if str_is(s, "StartWith") {
                Like::StartWith
            } else if str_is(s, "Contains") {
                Like::Contains
            } else {
                Like::EndWith
            };
            match &items[2] {
                JsonValue::Str(text) => Some(
                    FilterNode::Like(op, Field(fname.clone()), StrValue(text.clone())),
                ),
                _ => None,
            }
        } else {
            None
        }
    } else {
        None
    }
}

} // verus!
