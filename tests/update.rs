use dynamodb_expression::expression::Expression;
use dynamodb_expression::operand::Operand;
use dynamodb_expression::path::Path;
use dynamodb_expression::update::{AddAction, DeleteAction, Math, Update};
use dynamodb_expression::value::{Num, Value};
use dynamodb_expression::{num_value, string_set, string_value};

fn p(s: &str) -> Path {
    Path::parse(s).unwrap()
}

#[test]
fn remove_reuses_names() {
    let u = Update::new()
        .with_remove(p("null_field"))
        .with_remove(p("map.list[0]"))
        .with_remove(p("map.null_field"))
        .with_remove(p("map.list[0]"));
    assert_eq!(u.remove.len(), 3);
    let e = Expression::builder().with_update(u).build();
    assert_eq!(e.update.as_deref(), Some("REMOVE #0, #1.#2[0], #1.#0"));
    assert_eq!(e.names.len(), 3);
}

#[test]
fn set_actions() {
    let u = Update::new()
        .with_set(p("s").assign(Operand::from_value(string_value("abcdef"))))
        .with_set(p("n").math().sub(Num::new("3.5").unwrap()).into_action())
        .with_set(p("l").list_append().before().list(Value::List(vec![string_value("A")])).into_action())
        .with_set(p("f").if_not_exists().value(Operand::from_value(string_value("new"))).into_action())
        .with_set(Math::builder(p("t")).src(p("n")).add(Num::from_u32(1)).into_action());
    let e = Expression::builder().with_update(u).build();
    assert_eq!(
        e.update.as_deref(),
        Some("SET #0 = :0, #1 = #1 - :1, #2 = list_append(:2, #2), #3 = if_not_exists(#3, :3), #4 = #1 + :4")
    );
}

#[test]
fn all_clauses_in_order() {
    let u = Update::new()
        .with_delete(DeleteAction::new(p("d"), string_set(vec!["x".to_string()])).unwrap())
        .with_add(AddAction::new(p("a"), num_value(Num::from_u32(2))).unwrap())
        .with_remove(p("r"))
        .with_set(p("s").assign(Operand::from_path(p("a"))))
        .with_set(p("l").list_append().list(Value::List(Vec::new())).into_action());
    let e = Expression::builder().with_update(u).build();
    assert_eq!(
        e.update.as_deref(),
        Some("SET #0 = #1, #2 = list_append(#2, :0) REMOVE #3 ADD #1 :1 DELETE #4 :2")
    );
}

#[test]
fn add_and_delete_refuse_other_values() {
    assert!(AddAction::new(p("a"), string_value("x")).is_none());
    assert!(AddAction::new(p("a"), string_set(vec![])).is_some());
    assert!(DeleteAction::new(p("a"), num_value(Num::from_u32(1))).is_none());
    assert!(DeleteAction::new(p("a"), string_set(vec![])).is_some());
}

#[test]
fn empty_update_is_empty_text() {
    let e = Expression::builder().with_update(Update::new()).build();
    assert_eq!(e.update.as_deref(), Some(""));
}
