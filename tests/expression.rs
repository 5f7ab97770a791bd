use dynamodb_expression::condition::{equal, greater_than, Comparator, Condition, TypeCode};
use dynamodb_expression::expression::Expression;
use dynamodb_expression::key::{key, Key};
use dynamodb_expression::operand::Operand;
use dynamodb_expression::path::Path;
use dynamodb_expression::table::Table;
use dynamodb_expression::value::{Num, Value};
use dynamodb_expression::{num_set, num_value, ref_value, string_set, string_value};

fn names(e: &Expression) -> Vec<(String, String)> {
    e.names.clone()
}

fn value_tokens(e: &Expression) -> Vec<String> {
    e.values.iter().map(|(t, _)| t.clone()).collect()
}

#[test]
fn display() {
    assert_eq!("=", Comparator::Eq.to_string());
    assert_eq!("<>", Comparator::Ne.to_string());
    assert_eq!("<", Comparator::Lt.to_string());
    assert_eq!("<=", Comparator::Le.to_string());
    assert_eq!(">", Comparator::Gt.to_string());
    assert_eq!(">=", Comparator::Ge.to_string());
}

#[test]
fn simple_query() {
    let e = Expression::builder()
        .with_filter(
            Path::name("name")
                .attribute_exists()
                .and(Path::name("age").greater_than_or_equal(Operand::from_value(num_value(Num::new("2.5").unwrap())))),
        )
        .with_projection(vec![Path::name("name"), Path::name("age")])
        .with_key_condition(Key::from_path(Path::name("id")).equal(Operand::from_value(num_value(Num::from_u32(42)))))
        .build();

    assert_eq!(e.filter.as_deref(), Some("attribute_exists(#0) AND #1 >= :0"));
    assert_eq!(e.projection.as_deref(), Some("#0, #1"));
    assert_eq!(e.key_condition.as_deref(), Some("#2 = :1"));
    assert_eq!(e.condition, None);
    assert_eq!(e.update, None);
    assert_eq!(
        names(&e),
        vec![
            ("#0".to_string(), "name".to_string()),
            ("#1".to_string(), "age".to_string()),
            ("#2".to_string(), "id".to_string()),
        ]
    );
    assert_eq!(value_tokens(&e), vec![":0".to_string(), ":1".to_string()]);
    assert_eq!(e.values[0].1, Value::Num(Num::new("2.5").unwrap()));
    assert_eq!(e.values[1].1, Value::Num(Num::new("42").unwrap()));
}

#[test]
fn scan_input() {
    let e = Expression::builder()
        .with_filter(
            Path::name("#name")
                .begins_with("Wil")
                .and(Path::name("#age").greater_than_or_equal(Operand::from_ref(ref_value("min_age")))),
        )
        .build();
    assert_eq!(e.filter.as_deref(), Some("begins_with(#0, :0) AND #1 >= :min_age"));
    assert_eq!(e.values.len(), 1);
    assert_eq!(e.values[0].1, Value::Str("Wil".to_string()));
}

#[test]
fn put() {
    let e = Expression::builder()
        .with_condition(
            Path::name("#name")
                .attribute_not_exists()
                .or(Operand::size(Path::name("#name")).compare(Comparator::Eq, Operand::from_ref(ref_value("zero")))),
        )
        .build();
    assert_eq!(e.condition.as_deref(), Some("attribute_not_exists(#0) OR size(#0) = :zero"));
    assert_eq!(names(&e), vec![("#0".to_string(), "#name".to_string())]);
    assert!(e.values.is_empty());
}

#[test]
fn shared_name_gets_one_token() {
    let c = Path::name("a")
        .equal(Operand::from_value(string_value("x")))
        .and(Path::name("a").greater_than(Operand::from_value(string_value("y"))));
    let e = Expression::builder().with_condition(c).build();
    assert_eq!(e.condition.as_deref(), Some("#0 = :0 AND #0 > :1"));
    assert_eq!(e.names.len(), 1);
}

#[test]
fn same_set_in_any_order_shares_a_token() {
    let a = string_set(vec!["x".to_string(), "y".to_string()]);
    let b = string_set(vec!["y".to_string(), "x".to_string(), "x".to_string()]);
    let c = num_set(vec![Num::from_u32(1)]);
    assert!(a.same_as(&b));
    assert!(!a.same_as(&c));
    let mut t = Table::new();
    let i = t.value_index(&a);
    let j = t.value_index(&b);
    let k = t.value_index(&c);
    assert_eq!((i, j, k), (0, 0, 1));
}

#[test]
fn tokens_start_at_zero_in_first_use_order() {
    let mut t = Table::new();
    assert_eq!(t.name_index(&"b".to_string()), 0);
    assert_eq!(t.name_index(&"a".to_string()), 1);
    assert_eq!(t.name_index(&"b".to_string()), 0);
    assert_eq!(t.name_index(&"c".to_string()), 2);
    let (names, values) = t.finish();
    let tokens: Vec<&str> = names.iter().map(|(t, _)| t.as_str()).collect();
    assert_eq!(tokens, vec!["#0", "#1", "#2"]);
    assert!(values.is_empty());
}

#[test]
fn fresh_tables_give_the_same_text() {
    let build = || {
        Expression::builder()
            .with_condition(Path::name("k").equal(Operand::from_value(num_value(Num::from_u32(7)))))
            .build()
    };
    let a = build();
    let b = build();
    assert_eq!(a, b);
    assert_eq!(a.condition.as_deref(), Some("#0 = :0"));
}

#[test]
fn every_condition_form() {
    let c = Path::name("a")
        .between(Operand::from_value(num_value(Num::from_u32(1))), Operand::from_value(num_value(Num::from_u32(9))))
        .and(Path::name("b").in_(vec![
            Operand::from_value(string_value("p")),
            Operand::from_value(string_value("q")),
        ]))
        .or(Path::name("c").contains(Operand::from_value(string_value("z"))).not())
        .and(Path::name("d").attribute_type(TypeCode::NumberSet).parenthesize());
    let e = Expression::builder().with_condition(c).build();
    assert_eq!(
        e.condition.as_deref(),
        Some(
            "((#0 BETWEEN :0 AND :1 AND #1 IN (:2,:3)) OR NOT (contains(#2, :4))) AND (attribute_type(#3, :5))"
        )
    );
    assert_eq!(e.values[5].1, Value::Str("NS".to_string()));
}

#[test]
fn comparison_helpers() {
    let c = Condition::Comparison(equal(Operand::from_path(Path::name("a")), Operand::from_path(Path::name("b"))));
    let d = Condition::Comparison(greater_than(
        Operand::from_path(Path::name("a")),
        Operand::from_value(num_value(Num::from_u32(3))),
    ));
    let e = Expression::builder().with_condition(c.and(d)).build();
    assert_eq!(e.condition.as_deref(), Some("#0 = #1 AND #0 > :0"));
}

#[test]
fn key_conditions() {
    let k = key(Path::name("pk"))
        .equal(Operand::from_value(string_value("x")))
        .and(Key::from_path(Path::name("sk")).begins_with("pre"));
    let e = Expression::builder().with_key_condition(k).build();
    assert_eq!(e.key_condition.as_deref(), Some("#0 = :0 AND begins_with(#1, :1)"));
}

#[test]
fn empty_projection_is_empty_text() {
    let e = Expression::builder().with_projection(Vec::new()).build();
    assert_eq!(e.projection.as_deref(), Some(""));
    assert_eq!(e.filter, None);
}

#[test]
fn numbers_are_kept_in_canonical_form() {
    assert_eq!(Num::new("2.50").unwrap().as_str(), "2.5");
    assert_eq!(Num::new("007").unwrap().as_str(), "7");
    assert_eq!(Num::new("-0.000").unwrap().as_str(), "0");
    assert_eq!(Num::new("-012.3400").unwrap().as_str(), "-12.34");
    assert_eq!(Num::new("0.05").unwrap().as_str(), "0.05");
    assert!(Num::new("1e5").is_none());
    assert!(Num::new("5.").is_none());
    assert!(Num::new(".5").is_none());
    assert!(Num::new("+5").is_none());
    assert!(Num::new("").is_none());
    assert!(Num::new("-").is_none());
    assert_eq!(Num::from_u32(4294967295).as_str(), "4294967295");
}

#[test]
fn equal_numbers_share_a_token() {
    let c = Path::name("a")
        .equal(Operand::from_value(num_value(Num::new("2.5").unwrap())))
        .or(Path::name("b").equal(Operand::from_value(num_value(Num::new("2.50").unwrap()))));
    let e = Expression::builder().with_condition(c).build();
    assert_eq!(e.condition.as_deref(), Some("#0 = :0 OR #1 = :0"));
    assert_eq!(e.values.len(), 1);
}

#[test]
fn in_items_number_from_zero() {
    let c = Path::name("a").in_(vec![
        Operand::from_value(string_value("x")),
        Operand::from_value(num_value(Num::from_u32(1))),
        Operand::from_value(string_value("y")),
    ]);
    let e = Expression::builder().with_condition(c).build();
    assert_eq!(e.condition.as_deref(), Some("#0 IN (:0,:1,:2)"));
    assert_eq!(value_tokens(&e), vec![":0".to_string(), ":1".to_string(), ":2".to_string()]);
}

#[test]
fn path_names_take_first_use_rank() {
    let e = Expression::builder()
        .with_projection(vec![Path::parse("a.b[1].a").unwrap()])
        .build();
    assert_eq!(e.projection.as_deref(), Some("#0.#1[1].#0"));
    assert_eq!(
        names(&e),
        vec![("#0".to_string(), "a".to_string()), ("#1".to_string(), "b".to_string())]
    );
}
