use server_rust::data_access1::DataAccessErr;
use server_rust::data_access1::Field;
use server_rust::data_access1::FieldInfo;
use server_rust::data_access1::FieldType;
use server_rust::data_access1::FilterNode;
use server_rust::data_access1::ListValue;
use server_rust::data_access1::Operation;
use server_rust::data_access1::OperationKind;
use server_rust::data_access1::Placeholders;
use server_rust::data_access1::StrValue;
use server_rust::data_access1::Value;
use server_rust::data_access1::field_info_map;
use server_rust::data_access1::validate;
use server_rust::data_access1::validate_bounded;
use server_rust::data_access1 as da;
use server_rust::data_access1::{Cmp, In, Like, Logical, Nullable};

fn ph() -> Placeholders {
    Placeholders {
        current_user_id: "@CurrentUserId".to_string(),
        current_date: "@CurrentDate".to_string(),
        current_time: "@CurrentTime".to_string(),
    }
}

fn field(name: &str) -> Field {
    Field(name.to_string())
}

fn info(name: &str, nullable: bool, type_: FieldType, operation: Vec<Operation>) -> FieldInfo {
    FieldInfo {
        name: name.to_string(),
        text: name.to_string(),
        nullable,
        type_,
        operation,
    }
}

#[test]
fn serde_and_or() {
    let root = &FilterNode::Logical(
        Logical::And,
        vec![
            FilterNode::Equal(da::Eq::Eq, field("id"), Value::Int(123)),
            FilterNode::Cmp(Cmp::GtEq, field("age"), Value::Num(format!("{}", 18.0_f64))),
            FilterNode::Logical(
                Logical::Or,
                vec![
                    FilterNode::Equal(
                        da::Eq::Eq,
                        field("sex"),
                        Value::Str(StrValue("female".to_string())),
                    ),
                    FilterNode::Logical(
                        Logical::And,
                        vec![
                            FilterNode::Equal(
                                da::Eq::Eq,
                                field("sex"),
                                Value::Str(StrValue("male".to_string())),
                            ),
                            FilterNode::Cmp(
                                Cmp::LtEq,
                                field("age"),
                                Value::Num(format!("{}", 30.0_f64)),
                            ),
                        ],
                    ),
                ],
            ),
        ],
    );
    let res = "(id = 123 AND age >= 18 AND (sex = 'female' OR (sex = 'male' AND age <= 30)))";
    assert_eq!(root.render(&ph()), res);
}

#[test]
fn logical_concatenation() {
    let a = FilterNode::Equal(da::Eq::Eq, field("a"), Value::Int(1));
    let b = FilterNode::Equal(da::Eq::NotEq, field("b"), Value::Int(2));
    let c = FilterNode::Cmp(Cmp::Lt, field("c"), Value::Int(3));
    let ra = a.render(&ph());
    let rb = b.render(&ph());
    let rc = c.render(&ph());
    let and = FilterNode::Logical(Logical::And, vec![a, b, c]);
    assert_eq!(
        and.render(&ph()),
        format!("({} AND {} AND {})", ra, rb, rc)
    );
    let a2 = FilterNode::Equal(da::Eq::Eq, field("a"), Value::Int(1));
    let b2 = FilterNode::Equal(da::Eq::NotEq, field("b"), Value::Int(2));
    let c2 = FilterNode::Cmp(Cmp::Lt, field("c"), Value::Int(3));
    let or = FilterNode::Logical(Logical::Or, vec![a2, b2, c2]);
    assert_eq!(or.render(&ph()), format!("({} OR {} OR {})", ra, rb, rc));
}

#[test]
fn equal_int_renders_bare() {
    let n = FilterNode::Equal(da::Eq::Eq, field("count"), Value::Int(42));
    assert_eq!(n.render(&ph()), "count = 42");
}

#[test]
fn equal_str_renders_quoted_and_escaped() {
    let n = FilterNode::Equal(
        da::Eq::Eq,
        field("name"),
        Value::Str(StrValue("it's".to_string())),
    );
    assert_eq!(n.render(&ph()), "name = 'it''s'");
}

#[test]
fn in_and_not_in_lists() {
    let n = FilterNode::In(In::In, field("id"), ListValue::Int(vec![1, 2, 3]));
    assert_eq!(n.render(&ph()), "id IN(1, 2, 3)");
    let m = FilterNode::In(In::NotIn, field("id"), ListValue::Int(vec![1, 2, 3]));
    assert_eq!(m.render(&ph()), "id NOT IN(1, 2, 3)");
    let s = FilterNode::In(
        In::In,
        field("tag"),
        ListValue::Str(vec![StrValue("a".to_string()), StrValue("b".to_string())]),
    );
    assert_eq!(s.render(&ph()), "tag IN('a', 'b')");
}

#[test]
fn like_escapes_wildcards() {
    let n = FilterNode::Like(
        Like::Contains,
        field("title"),
        StrValue("50%_off".to_string()),
    );
    assert_eq!(n.render(&ph()), "title LIKE '%50\\%\\_off%'");
    let s = FilterNode::Like(Like::StartWith, field("title"), StrValue("a_b".to_string()));
    assert_eq!(s.render(&ph()), "title LIKE 'a\\_b%'");
    let e = FilterNode::Like(Like::EndWith, field("title"), StrValue("x%y".to_string()));
    assert_eq!(e.render(&ph()), "title LIKE '%x\\%y'");
}

#[test]
fn like_escapes_quotes_and_backslash() {
    let n = FilterNode::Like(
        Like::Contains,
        field("note"),
        StrValue("a'b\\c".to_string()),
    );
    assert_eq!(n.render(&ph()), "note LIKE '%a''b\\\\c%'");
}

#[test]
fn nullable_rendering() {
    let n = FilterNode::Nullable(Nullable::IsNull, field("tag"));
    assert_eq!(n.render(&ph()), "tag IS NULL");
    let m = FilterNode::Nullable(Nullable::IsNotNull, field("tag"));
    assert_eq!(m.render(&ph()), "tag IS NOT NULL");
}

#[test]
fn placeholders_are_caller_supplied() {
    let n = FilterNode::Equal(da::Eq::Eq, field("owner"), Value::CurrentUserId);
    assert_eq!(n.render(&ph()), "owner = @CurrentUserId");
    let other = Placeholders {
        current_user_id: ":uid".to_string(),
        current_date: ":today".to_string(),
        current_time: ":now".to_string(),
    };
    assert_eq!(n.render(&other), "owner = :uid");
    let d = FilterNode::Cmp(Cmp::Gt, field("born"), Value::CurrentDate);
    assert_eq!(d.render(&other), "born > :today");
}

#[test]
fn empty_logical_group_is_accepted_and_vacuous() {
    // The deliberate policy: a branch with no children passes validation
    // and renders as the vacuous group.
    let n = FilterNode::Logical(Logical::And, vec![]);
    let catalog = field_info_map(vec![]);
    assert_eq!(validate(&n, &catalog), Ok(()));
    assert_eq!(n.render(&ph()), "()");
}

#[test]
fn validate_unknown_field() {
    let catalog = field_info_map(vec![info(
        "id",
        false,
        FieldType::Id,
        vec![Operation::Equal],
    )]);
    let n = FilterNode::Equal(da::Eq::Eq, field("nope"), Value::Int(1));
    assert_eq!(
        validate(&n, &catalog),
        Err(DataAccessErr::UnknownField("nope".to_string()))
    );
}

#[test]
fn validate_operation_whitelist() {
    let catalog = field_info_map(vec![info(
        "age",
        false,
        FieldType::Num,
        vec![Operation::Equal],
    )]);
    let ok = FilterNode::Equal(da::Eq::Eq, field("age"), Value::Num("18".to_string()));
    assert_eq!(validate(&ok, &catalog), Ok(()));
    let cmp = FilterNode::Cmp(Cmp::Gt, field("age"), Value::Num("18".to_string()));
    assert_eq!(
        validate(&cmp, &catalog),
        Err(DataAccessErr::InvalidOperation(
            "age".to_string(),
            OperationKind::Cmp
        ))
    );
}

#[test]
fn validate_nullable_ignores_whitelist() {
    // A null test looks only at the nullable flag, never at the whitelist.
    let yes = field_info_map(vec![info("tag", true, FieldType::Str, vec![])]);
    let no = field_info_map(vec![info(
        "tag",
        false,
        FieldType::Str,
        vec![Operation::Equal, Operation::Cmp, Operation::In, Operation::Like],
    )]);
    let n = FilterNode::Nullable(Nullable::IsNull, field("tag"));
    assert_eq!(validate(&n, &yes), Ok(()));
    assert_eq!(
        validate(&n, &no),
        Err(DataAccessErr::InvalidOperation(
            "tag".to_string(),
            OperationKind::Nullable
        ))
    );
}

#[test]
fn validate_str_needs_str_or_enum() {
    let node = FilterNode::Equal(da::Eq::Eq, field("f"), Value::Str(StrValue("x".to_string())));
    for (type_, fine) in [
        (FieldType::Str, true),
        (FieldType::Enum("color".to_string()), true),
        (FieldType::Int, false),
        (FieldType::Num, false),
        (FieldType::Id, false),
        (FieldType::DateTime, false),
        (FieldType::UnixTimestamp, false),
    ] {
        let catalog = field_info_map(vec![info(
            "f",
            false,
            type_.clone(),
            vec![Operation::Equal],
        )]);
        let r = validate(&node, &catalog);
        if fine {
            assert_eq!(r, Ok(()));
        } else {
            assert_eq!(r, Err(DataAccessErr::TypeErr("f".to_string(), type_)));
        }
    }
}

#[test]
fn validate_int_and_id_compatibility() {
    let enum_catalog = field_info_map(vec![info(
        "color",
        false,
        FieldType::Enum("color".to_string()),
        vec![Operation::Equal],
    )]);
    let int_node = FilterNode::Equal(da::Eq::Eq, field("color"), Value::Int(3));
    assert_eq!(validate(&int_node, &enum_catalog), Ok(()));

    let id_catalog = field_info_map(vec![info(
        "id",
        false,
        FieldType::Id,
        vec![Operation::Equal],
    )]);
    let id_node = FilterNode::Equal(da::Eq::Eq, field("id"), Value::Id(7));
    assert_eq!(validate(&id_node, &id_catalog), Ok(()));
    let cu = FilterNode::Equal(da::Eq::Eq, field("id"), Value::CurrentUserId);
    assert_eq!(validate(&cu, &id_catalog), Ok(()));
    let int_on_id = FilterNode::Equal(da::Eq::Eq, field("id"), Value::Int(7));
    assert_eq!(
        validate(&int_on_id, &id_catalog),
        Err(DataAccessErr::TypeErr("id".to_string(), FieldType::Id))
    );
}

#[test]
fn validate_list_types() {
    let catalog = field_info_map(vec![info(
        "color",
        false,
        FieldType::Enum("color".to_string()),
        vec![Operation::In],
    )]);
    let strs = FilterNode::In(
        In::In,
        field("color"),
        ListValue::Str(vec![StrValue("red".to_string())]),
    );
    assert_eq!(validate(&strs, &catalog), Ok(()));
    let nums = FilterNode::In(In::In, field("color"), ListValue::Num(vec!["1".to_string()]));
    assert_eq!(
        validate(&nums, &catalog),
        Err(DataAccessErr::TypeErr(
            "color".to_string(),
            FieldType::Enum("color".to_string())
        ))
    );
}

#[test]
fn validate_fail_fast_takes_first_error() {
    let catalog = field_info_map(vec![info(
        "id",
        false,
        FieldType::Id,
        vec![Operation::Equal],
    )]);
    let n = FilterNode::Logical(
        Logical::And,
        vec![
            FilterNode::Equal(da::Eq::Eq, field("ghost"), Value::Id(1)),
            FilterNode::Equal(da::Eq::Eq, field("id"), Value::Int(1)),
        ],
    );
    assert_eq!(
        validate(&n, &catalog),
        Err(DataAccessErr::UnknownField("ghost".to_string()))
    );
}

#[test]
fn validate_bounded_limits() {
    let catalog = field_info_map(vec![info(
        "id",
        false,
        FieldType::Id,
        vec![Operation::Equal],
    )]);
    let leaf = FilterNode::Equal(da::Eq::Eq, field("id"), Value::Id(1));
    let tree = FilterNode::Logical(
        Logical::And,
        vec![FilterNode::Logical(
            Logical::Or,
            vec![FilterNode::Equal(da::Eq::Eq, field("id"), Value::Id(1))],
        )],
    );
    // Within the limits, bounded validation agrees with validation.
    assert_eq!(validate_bounded(&leaf, &catalog, 8, 64), Ok(()));
    assert_eq!(validate_bounded(&tree, &catalog, 3, 64), Ok(()));
    // A depth of two cannot hold the three-level tree.
    assert_eq!(
        validate_bounded(&tree, &catalog, 2, 64),
        Err(DataAccessErr::LimitExceeded)
    );
    // A budget of two cannot hold three nodes.
    assert_eq!(
        validate_bounded(&tree, &catalog, 8, 2),
        Err(DataAccessErr::LimitExceeded)
    );
}

#[test]
fn field_info_map_last_entry_wins() {
    let catalog = field_info_map(vec![
        info("f", false, FieldType::Int, vec![Operation::Equal]),
        info("f", false, FieldType::Str, vec![Operation::Equal]),
    ]);
    let s = FilterNode::Equal(da::Eq::Eq, field("f"), Value::Str(StrValue("x".to_string())));
    assert_eq!(validate(&s, &catalog), Ok(()));
    let i = FilterNode::Equal(da::Eq::Eq, field("f"), Value::Int(1));
    assert_eq!(
        validate(&i, &catalog),
        Err(DataAccessErr::TypeErr("f".to_string(), FieldType::Str))
    );
}

#[test]
fn check_operation_and_chekc_type_directly() {
    let fi = info("x", false, FieldType::Int, vec![Operation::Cmp]);
    let cmp = FilterNode::Cmp(Cmp::LtEq, field("x"), Value::Int(1));
    assert!(cmp.check_operation(&fi).is_ok());
    let eq = FilterNode::Equal(da::Eq::Eq, field("x"), Value::Int(1));
    assert_eq!(
        eq.check_operation(&fi),
        Err(DataAccessErr::InvalidOperation(
            "x".to_string(),
            OperationKind::Equal
        ))
    );
    assert!(Value::Int(1).chekc_type(&FieldType::Int).is_ok());
    assert!(Value::Int(1).chekc_type(&FieldType::Str).is_err());
    assert!(Value::CurrentDate.chekc_type(&FieldType::DateTime).is_ok());
    assert!(Value::CurrentDate.chekc_type(&FieldType::UnixTimestamp).is_ok());
    assert!(ListValue::Id(vec![1]).chekc_type(&FieldType::Id).is_ok());
    assert!(ListValue::Id(vec![1]).chekc_type(&FieldType::Int).is_err());
}

#[test]
fn str_value_escaping_helpers() {
    assert_eq!(StrValue("a'b".to_string()).escaped(), "a''b");
    assert_eq!(StrValue("50%_off".to_string()).escaped_like(), "50\\%\\_off");
    assert_eq!(StrValue("plain".to_string()).escaped_like(), "plain");
}

#[test]
fn extreme_and_empty_literals() {
    let big = FilterNode::Equal(da::Eq::Eq, field("id"), Value::Id(u64::MAX));
    assert_eq!(big.render(&ph()), "id = 18446744073709551615");
    let zero = FilterNode::Equal(da::Eq::Eq, field("id"), Value::Id(0));
    assert_eq!(zero.render(&ph()), "id = 0");
    let none = FilterNode::In(In::In, field("id"), ListValue::Int(vec![]));
    assert_eq!(none.render(&ph()), "id IN()");
    let empty_str = FilterNode::Equal(da::Eq::Eq, field("name"), Value::Str(StrValue(String::new())));
    assert_eq!(empty_str.render(&ph()), "name = ''");
}

#[test]
fn numeric_kinds_render_bare() {
    let n = FilterNode::Cmp(Cmp::Gt, field("t"), Value::UnixTimestamp(1700000000));
    assert_eq!(n.render(&ph()), "t > 1700000000");
    let d = FilterNode::Equal(
        da::Eq::Eq,
        field("when"),
        Value::DateTime(StrValue("2024-01-01".to_string())),
    );
    assert_eq!(d.render(&ph()), "when = '2024-01-01'");
    let num = FilterNode::Cmp(Cmp::GtEq, field("w"), Value::Num(format!("{}", 2.5_f64)));
    assert_eq!(num.render(&ph()), "w >= 2.5");
}
