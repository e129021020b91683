use server_rust::data_access::Field;
use server_rust::data_access::ListNode::{IntList, NumList, StrList};
use server_rust::data_access::LogicalNode;
use server_rust::data_access::LogicalNode::{And, Gte, In, IsNull, Lte, NotEq, NotIn, Or};
use server_rust::data_access::ValueNode::{CurrentUserId, Int, Num, Str, UnixTimestamp};

fn eq(
    f: Field,
    v: server_rust::data_access::ValueNode,
) -> LogicalNode {
    LogicalNode::Eq(f, v)
}

#[test]
fn and_or() {
    let root = &And(vec![
        eq(Field("id".to_string()), Int(123)),
        Gte(Field("age".to_string()), Num(format!("{}", 18.0_f64))),
        Or(vec![
            eq(Field("sex".to_string()), Str("female".to_string())),
            And(vec![
                eq(Field("sex".to_string()), Str("male".to_string())),
                Lte(Field("age".to_string()), Num(format!("{}", 30.0_f64))),
            ]),
        ]),
    ]);
    assert_eq!(root.render(), "(([id] = 123) AND ([age] >= 18) AND (([sex] = 'female') OR (([sex] = 'male') AND ([age] <= 30))))");
}

#[test]
fn single() {
    let root = eq(Field("id".to_string()), Str("ABC".to_string()));
    assert_eq!(root.render(), "([id] = 'ABC')");
}

#[test]
fn in_list() {
    let root = In(Field("id".to_string()), IntList(vec![1, 2, 3]));
    assert_eq!(root.render(), "([id] IN(1, 2, 3))");
}

#[test]
fn int_str_list() {
    let root = In(
        Field("id".to_string()),
        StrList(vec!["a".to_string(), "b".to_string()]),
    );
    assert_eq!(root.render(), "([id] IN('a', 'b'))");
}

#[test]
fn not_in_ist() {
    let root = NotIn(Field("id".to_string()), IntList(vec![1, 2, 3]));
    assert_eq!(root.render(), "([id] NOT IN(1, 2, 3))");
}

#[test]
fn flat_negative_int() {
    let root = NotEq(Field("delta".to_string()), Int(-45));
    assert_eq!(root.render(), "([delta] <> -45)");
}

#[test]
fn flat_quote_is_escaped() {
    let root = eq(Field("name".to_string()), Str("O'Brien".to_string()));
    assert_eq!(root.render(), "([name] = 'O''Brien')");
}

#[test]
fn flat_is_null_and_placeholder() {
    let a = IsNull(Field("tag".to_string()));
    assert_eq!(a.render(), "([tag] IS NULL)");
    let b = eq(Field("owner".to_string()), CurrentUserId);
    assert_eq!(b.render(), "([owner] = @CurrentUserId)");
}

#[test]
fn flat_unix_timestamp_and_num_list() {
    let a = Gte(Field("t".to_string()), UnixTimestamp(1700000000));
    assert_eq!(a.render(), "([t] >= 1700000000)");
    let b = In(
        Field("w".to_string()),
        NumList(vec![format!("{}", 1.5_f64), format!("{}", 2.25_f64)]),
    );
    assert_eq!(b.render(), "([w] IN(1.5, 2.25))");
}

#[test]
fn flat_extreme_ints() {
    let min = eq(Field("d".to_string()), Int(i64::MIN));
    assert_eq!(min.render(), "([d] = -9223372036854775808)");
    let max = eq(Field("d".to_string()), Int(i64::MAX));
    assert_eq!(max.render(), "([d] = 9223372036854775807)");
}

#[test]
fn flat_empty_and_group() {
    let root = And(vec![]);
    assert_eq!(root.render(), "()");
}
