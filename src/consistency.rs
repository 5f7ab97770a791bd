//! How the tokens of one compilation relate across clauses and calls.
use vstd::prelude::*;

use crate::condition::{condition_text, items_text, Condition};
use crate::expression::{compile, key_inner, optional_condition_text, optional_projection_text, optional_update_text, Builder};
use crate::update::{
    add_actions_text, delete_actions_text, pair_text, paths_text, set_action_text, set_actions_text,
    source, update_text, AddAction, DeleteAction, SetAction, Update,
};
use crate::path::Path;
use crate::operand::{operand_text, path_text, seg_name, seg_suffix, value_or_ref_text, Operand};
use crate::path::Segment;
use crate::table::{
    add_name, add_value, empty_table, name_token, position, table_wf, value_token, with_item, TableModel,
};
use crate::value::{Value, ValueModel, ValueOrRef};

verus! {

/// Whether `t2` keeps every token of `t` and adds only fresh ones.
pub open spec fn extends(t: TableModel, t2: TableModel) -> bool {
    &&& t.names.len() <= t2.names.len()
    &&& t2.names.subrange(0, t.names.len() as int) == t.names
    &&& t.values.len() <= t2.values.len()
    &&& t2.values.subrange(0, t.values.len() as int) == t.values
    &&& table_wf(t2)
}

proof fn lemma_with_item<A>(s: Seq<A>, x: A)
    requires
        s.no_duplicates(),
    ensures
        with_item(s, x).no_duplicates(),
        s.len() <= with_item(s, x).len(),
        with_item(s, x).subrange(0, s.len() as int) == s,
        position(s, x) < with_item(s, x).len(),
        with_item(s, x)[position(s, x) as int] == x,
        s.contains(x) ==> position(s, x) < s.len() && with_item(s, x) == s,
        !s.contains(x) ==> position(s, x) == s.len() && with_item(s, x) == s.push(x),
{
    if s.contains(x) {
        let i = choose|i: int| 0 <= i < s.len() && s[i] == x;
        assert(s.subrange(0, s.len() as int) =~= s);
    } else {
        assert(s.push(x).subrange(0, s.len() as int) =~= s);
        assert forall|i: int, j: int|
            0 <= i < s.push(x).len() && 0 <= j < s.push(x).len() && i != j implies s.push(x)[i]
            != s.push(x)[j] by {
            if i < s.len() && j < s.len() {
                assert(s.push(x)[i] == s[i]);
                assert(s.push(x)[j] == s[j]);
            } else if i < s.len() {
                assert(s.push(x)[i] == s[i]);
            } else if j < s.len() {
                assert(s.push(x)[j] == s[j]);
            }
        }
    }
}

proof fn lemma_extends_trans(a: TableModel, b: TableModel, c: TableModel)
    requires
        extends(a, b),
        extends(b, c),
    ensures
        extends(a, c),
{
    assert(c.names.subrange(0, a.names.len() as int) =~= b.names.subrange(0, a.names.len() as int));
    assert(c.values.subrange(0, a.values.len() as int) =~= b.values.subrange(
        0,
        a.values.len() as int,
    ));
}

proof fn lemma_extends_refl(t: TableModel)
    requires
        table_wf(t),
    ensures
        extends(t, t),
{
    assert(t.names.subrange(0, t.names.len() as int) =~= t.names);
    assert(t.values.subrange(0, t.values.len() as int) =~= t.values);
}

proof fn lemma_add_name_extends(t: TableModel, n: Seq<char>)
    requires
        table_wf(t),
    ensures
        extends(t, add_name(t, n).0),
{
    lemma_with_item(t.names, n);
    assert(t.values.subrange(0, t.values.len() as int) =~= t.values);
}

proof fn lemma_add_value_extends(t: TableModel, v: ValueModel)
    requires
        table_wf(t),
    ensures
        extends(t, add_value(t, v).0),
{
    lemma_with_item(t.values, v);
    assert(t.names.subrange(0, t.names.len() as int) =~= t.names);
}

proof fn lemma_path_extends(p: Seq<Segment>, t: TableModel)
    requires
        table_wf(t),
    ensures
        extends(t, path_text(p, t).1),
    decreases p.len(),
{
    if p.len() == 0 {
        lemma_extends_refl(t);
    } else {
        lemma_path_extends(p.drop_last(), t);
        let r = path_text(p.drop_last(), t);
        lemma_add_name_extends(r.1, seg_name(p.last()));
        lemma_extends_trans(t, r.1, add_name(r.1, seg_name(p.last())).0);
    }
}

proof fn lemma_value_or_ref_extends(v: ValueOrRef, t: TableModel)
    requires
        table_wf(t),
    ensures
        extends(t, value_or_ref_text(v, t).1),
{
    match v {
        ValueOrRef::Value(x) => lemma_add_value_extends(t, x@),
        ValueOrRef::Ref(_) => lemma_extends_refl(t),
    }
}

proof fn lemma_operand_extends(o: Operand, t: TableModel)
    requires
        table_wf(t),
    ensures
        extends(t, operand_text(o, t).1),
{
    match o {
        Operand::Path(p) => lemma_path_extends(p@, t),
        Operand::Value(v) => lemma_value_or_ref_extends(v, t),
        Operand::Size(p) => lemma_path_extends(p@, t),
    }
}

proof fn lemma_items_extends(items: Seq<Operand>, t: TableModel)
    requires
        table_wf(t),
    ensures
        extends(t, items_text(items, t).1),
    decreases items.len(),
{
    if items.len() == 0 {
        lemma_extends_refl(t);
    } else {
        lemma_items_extends(items.drop_last(), t);
        let r = items_text(items.drop_last(), t);
        lemma_operand_extends(items.last(), r.1);
        lemma_extends_trans(t, r.1, operand_text(items.last(), r.1).1);
    }
}

proof fn lemma_operands_extend(a: Operand, b: Operand, t: TableModel)
    requires
        table_wf(t),
    ensures
        extends(t, operand_text(b, operand_text(a, t).1).1),
{
    lemma_operand_extends(a, t);
    let t1 = operand_text(a, t).1;
    lemma_operand_extends(b, t1);
    lemma_extends_trans(t, t1, operand_text(b, t1).1);
}

/// Writing a condition keeps every token already given out and gives each
/// new name and value one fresh token.
pub proof fn lemma_condition_extends(c: Condition, t: TableModel)
    requires
        table_wf(t),
    ensures
        extends(t, condition_text(c, t).1),
    decreases c,
{
    match c {
        Condition::Comparison(x) => lemma_operands_extend(x.left, x.right, t),
        Condition::Between(x) => {
            lemma_operands_extend(x.op, x.lower, t);
            let t2 = operand_text(x.lower, operand_text(x.op, t).1).1;
            lemma_operand_extends(x.upper, t2);
            lemma_extends_trans(t, t2, operand_text(x.upper, t2).1);
        },
        Condition::In(x) => {
            lemma_operand_extends(x.op, t);
            let t1 = operand_text(x.op, t).1;
            lemma_items_extends(x.items@, t1);
            lemma_extends_trans(t, t1, items_text(x.items@, t1).1);
        },
        Condition::AttributeExists(x) => lemma_path_extends(x.path@, t),
        Condition::AttributeNotExists(x) => lemma_path_extends(x.path@, t),
        Condition::BeginsWith(x) => {
            lemma_path_extends(x.path@, t);
            let t1 = path_text(x.path@, t).1;
            lemma_value_or_ref_extends(x.prefix, t1);
            lemma_extends_trans(t, t1, value_or_ref_text(x.prefix, t1).1);
        },
        Condition::Contains(x) => {
            lemma_path_extends(x.path@, t);
            let t1 = path_text(x.path@, t).1;
            lemma_operand_extends(x.operand, t1);
            lemma_extends_trans(t, t1, operand_text(x.operand, t1).1);
        },
        Condition::AttributeType(x) => {
            lemma_path_extends(x.path@, t);
            let t1 = path_text(x.path@, t).1;
            let v = ValueModel::Str(crate::condition::type_code_text(x.attribute_type));
            lemma_add_value_extends(t1, v);
            lemma_extends_trans(t, t1, add_value(t1, v).0);
        },
        Condition::And(l, r) => {
            lemma_condition_extends(*l, t);
            let t1 = condition_text(*l, t).1;
            lemma_condition_extends(*r, t1);
            lemma_extends_trans(t, t1, condition_text(*r, t1).1);
        },
        Condition::Or(l, r) => {
            lemma_condition_extends(*l, t);
            let t1 = condition_text(*l, t).1;
            lemma_condition_extends(*r, t1);
            lemma_extends_trans(t, t1, condition_text(*r, t1).1);
        },
        Condition::Not(x) => lemma_condition_extends(*x, t),
        Condition::Parenthetical(x) => lemma_condition_extends(*x, t),
    }
}

proof fn lemma_position_kept<A>(s: Seq<A>, s2: Seq<A>, x: A)
    requires
        s.contains(x),
        s.no_duplicates(),
        s2.no_duplicates(),
        s.len() <= s2.len(),
        s2.subrange(0, s.len() as int) == s,
    ensures
        s2.contains(x),
        position(s2, x) == position(s, x),
{
    let i = choose|i: int| 0 <= i < s.len() && s[i] == x;
    assert(s2.subrange(0, s.len() as int)[i] == s2[i]);
    assert(s2.contains(x));
    let j = choose|j: int| 0 <= j < s2.len() && s2[j] == x;
    assert(j == i);
    let k = choose|k: int| 0 <= k < s.len() && s[k] == x;
    assert(k == i);
}

/// When two conditions joined by `AND` use the same attribute name, the
/// table of the whole holds that name once, under the token that the first
/// condition gave it, so both parts are written with that token.
pub proof fn lemma_shared_name_one_token(c1: Condition, c2: Condition, t: TableModel, n: Seq<char>)
    requires
        table_wf(t),
        condition_text(c1, t).1.names.contains(n),
    ensures
        condition_text(Condition::And(Box::new(c1), Box::new(c2)), t).1.names.no_duplicates(),
        position(condition_text(Condition::And(Box::new(c1), Box::new(c2)), t).1.names, n)
            == position(condition_text(c1, t).1.names, n),
{
    lemma_condition_extends(c1, t);
    let t1 = condition_text(c1, t).1;
    lemma_condition_extends(c2, t1);
    let t2 = condition_text(c2, t1).1;
    lemma_position_kept(t1.names, t2.names, n);
}

/// Two values that are the same (sets compared as sets) get the same token:
/// registering the second after the first changes nothing.
pub proof fn lemma_same_value_same_token(t: TableModel, v1: Value, v2: Value)
    requires
        table_wf(t),
        v1@ == v2@,
    ensures
        add_value(add_value(t, v1@).0, v2@).1 == add_value(t, v1@).1,
        add_value(add_value(t, v1@).0, v2@).0 == add_value(t, v1@).0,
{
    lemma_with_item(t.values, v1@);
    let s = with_item(t.values, v1@);
    let i = position(t.values, v1@);
    lemma_with_item(s, v2@);
    assert(s[i as int] == v2@);
    let j = choose|j: int| 0 <= j < s.len() && s[j] == v2@;
    assert(j == i);
}

/// Tokens are numbered from 0 in the order of first use: a name seen before
/// keeps its token and leaves the table as it is; a new name gets the next
/// number and is added at the end.
pub proof fn lemma_name_tokens_first_use(t: TableModel, n: Seq<char>)
    requires
        table_wf(t),
    ensures
        t.names.contains(n) ==> add_name(t, n).0 == t && add_name(t, n).1 < t.names.len(),
        !t.names.contains(n) ==> add_name(t, n).1 == t.names.len() && add_name(t, n).0.names
            == t.names.push(n),
        add_name(t, n).0.names[add_name(t, n).1 as int] == n,
        add_name(empty_table(), n).1 == 0,
{
    lemma_with_item(t.names, n);
    lemma_with_item(empty_table().names, n);
}

/// Value tokens are numbered from 0 in the order of first use, as names are.
pub proof fn lemma_value_tokens_first_use(t: TableModel, v: ValueModel)
    requires
        table_wf(t),
    ensures
        t.values.contains(v) ==> add_value(t, v).0 == t && add_value(t, v).1 < t.values.len(),
        !t.values.contains(v) ==> add_value(t, v).1 == t.values.len() && add_value(t, v).0.values
            == t.values.push(v),
        add_value(t, v).0.values[add_value(t, v).1 as int] == v,
        add_value(empty_table(), v).1 == 0,
{
    lemma_with_item(t.values, v);
    lemma_with_item(empty_table().values, v);
}

/// A condition written against two fresh tables gives the same text and
/// the same tokens each time.
pub proof fn lemma_fresh_tables_agree(c: Condition, t1: TableModel, t2: TableModel)
    requires
        t1.names.len() == 0,
        t1.values.len() == 0,
        t2.names.len() == 0,
        t2.values.len() == 0,
    ensures
        condition_text(c, t1) == condition_text(c, t2),
{
    assert(t1.names =~= t2.names);
    assert(t1.values =~= t2.values);
    assert(t1 == t2);
}


proof fn lemma_paths_extend(ps: Seq<Path>, t: TableModel)
    requires
        table_wf(t),
    ensures
        extends(t, paths_text(ps, t).1),
    decreases ps.len(),
{
    if ps.len() == 0 {
        lemma_extends_refl(t);
    } else {
        lemma_paths_extend(ps.drop_last(), t);
        let r = paths_text(ps.drop_last(), t);
        lemma_path_extends(ps.last()@, r.1);
        lemma_extends_trans(t, r.1, path_text(ps.last()@, r.1).1);
    }
}

proof fn lemma_pair_extends(dst: Path, v: Value, t: TableModel)
    requires
        table_wf(t),
    ensures
        extends(t, pair_text(dst, v, t).1),
{
    lemma_path_extends(dst@, t);
    let t1 = path_text(dst@, t).1;
    lemma_add_value_extends(t1, v@);
    lemma_extends_trans(t, t1, add_value(t1, v@).0);
}

proof fn lemma_path_then_operand(p: Seq<Segment>, o: Operand, t: TableModel)
    requires
        table_wf(t),
    ensures
        extends(t, operand_text(o, path_text(p, t).1).1),
{
    lemma_path_extends(p, t);
    let t1 = path_text(p, t).1;
    lemma_operand_extends(o, t1);
    lemma_extends_trans(t, t1, operand_text(o, t1).1);
}

proof fn lemma_set_action_extends(a: SetAction, t: TableModel)
    requires
        table_wf(t),
    ensures
        extends(t, set_action_text(a, t).1),
{
    match a {
        SetAction::Assign(x) => lemma_path_then_operand(x.dst@, x.value, t),
        SetAction::Math(x) => {
            lemma_path_extends(x.dst@, t);
            let t1 = path_text(x.dst@, t).1;
            lemma_path_extends(source(x.dst, x.src)@, t1);
            let t2 = path_text(source(x.dst, x.src)@, t1).1;
            lemma_value_or_ref_extends(x.num, t2);
            lemma_extends_trans(t, t1, t2);
            lemma_extends_trans(t, t2, value_or_ref_text(x.num, t2).1);
        },
        SetAction::ListAppend(x) => {
            lemma_path_extends(x.dst@, t);
            let t1 = path_text(x.dst@, t).1;
            if x.before {
                lemma_add_value_extends(t1, x.list@);
                let t2 = add_value(t1, x.list@).0;
                lemma_path_extends(source(x.dst, x.src)@, t2);
                lemma_extends_trans(t, t1, t2);
                lemma_extends_trans(t, t2, path_text(source(x.dst, x.src)@, t2).1);
            } else {
                lemma_path_extends(source(x.dst, x.src)@, t1);
                let t2 = path_text(source(x.dst, x.src)@, t1).1;
                lemma_add_value_extends(t2, x.list@);
                lemma_extends_trans(t, t1, t2);
                lemma_extends_trans(t, t2, add_value(t2, x.list@).0);
            }
        },
        SetAction::IfNotExists(x) => {
            lemma_path_extends(x.dst@, t);
            let t1 = path_text(x.dst@, t).1;
            lemma_path_then_operand(source(x.dst, x.src)@, x.default, t1);
            lemma_extends_trans(t, t1, set_action_text(a, t).1);
        },
    }
}

proof fn lemma_set_actions_extend(s: Seq<SetAction>, t: TableModel)
    requires
        table_wf(t),
    ensures
        extends(t, set_actions_text(s, t).1),
    decreases s.len(),
{
    if s.len() == 0 {
        lemma_extends_refl(t);
    } else {
        lemma_set_actions_extend(s.drop_last(), t);
        let r = set_actions_text(s.drop_last(), t);
        lemma_set_action_extends(s.last(), r.1);
        lemma_extends_trans(t, r.1, set_action_text(s.last(), r.1).1);
    }
}

proof fn lemma_add_actions_extend(s: Seq<AddAction>, t: TableModel)
    requires
        table_wf(t),
    ensures
        extends(t, add_actions_text(s, t).1),
    decreases s.len(),
{
    if s.len() == 0 {
        lemma_extends_refl(t);
    } else {
        lemma_add_actions_extend(s.drop_last(), t);
        let r = add_actions_text(s.drop_last(), t);
        lemma_pair_extends(s.last().dst, s.last().value, r.1);
        lemma_extends_trans(t, r.1, pair_text(s.last().dst, s.last().value, r.1).1);
    }
}

proof fn lemma_delete_actions_extend(s: Seq<DeleteAction>, t: TableModel)
    requires
        table_wf(t),
    ensures
        extends(t, delete_actions_text(s, t).1),
    decreases s.len(),
{
    if s.len() == 0 {
        lemma_extends_refl(t);
    } else {
        lemma_delete_actions_extend(s.drop_last(), t);
        let r = delete_actions_text(s.drop_last(), t);
        lemma_pair_extends(s.last().dst, s.last().value, r.1);
        lemma_extends_trans(t, r.1, pair_text(s.last().dst, s.last().value, r.1).1);
    }
}

proof fn lemma_update_extends(u: Update, t: TableModel)
    requires
        table_wf(t),
    ensures
        extends(t, update_text(u, t).1),
{
    lemma_set_actions_extend(u.set@, t);
    let t1 = set_actions_text(u.set@, t).1;
    lemma_paths_extend(u.remove@, t1);
    let t2 = paths_text(u.remove@, t1).1;
    lemma_add_actions_extend(u.add@, t2);
    let t3 = add_actions_text(u.add@, t2).1;
    lemma_delete_actions_extend(u.delete@, t3);
    lemma_extends_trans(t, t1, t2);
    lemma_extends_trans(t, t2, t3);
    lemma_extends_trans(t, t3, delete_actions_text(u.delete@, t3).1);
}

proof fn lemma_optional_condition_extends(c: Option<Condition>, t: TableModel)
    requires
        table_wf(t),
    ensures
        extends(t, optional_condition_text(c, t).1),
{
    match c {
        Some(x) => lemma_condition_extends(x, t),
        None => lemma_extends_refl(t),
    }
}

/// Every clause of one expression keeps the tokens that the clauses before
/// it gave out: a name or value that the condition clause used has, in the
/// final maps, the token that the condition was written with.
pub proof fn lemma_clauses_keep_tokens(b: Builder)
    ensures
        extends(optional_condition_text(b.condition, empty_table()).1, compile(b).1),
{
    let t0 = empty_table();
    assert(table_wf(t0));
    lemma_optional_condition_extends(b.condition, t0);
    let t1 = optional_condition_text(b.condition, t0).1;
    lemma_optional_condition_extends(b.filter, t1);
    let t2 = optional_condition_text(b.filter, t1).1;
    lemma_optional_condition_extends(key_inner(b.key_condition), t2);
    let t3 = optional_condition_text(key_inner(b.key_condition), t2).1;
    match b.projection {
        Some(p) => lemma_paths_extend(p@, t3),
        None => lemma_extends_refl(t3),
    }
    let t4 = optional_projection_text(b.projection, t3).1;
    match b.update {
        Some(u) => lemma_update_extends(u, t4),
        None => lemma_extends_refl(t4),
    }
    lemma_extends_trans(t1, t2, t3);
    lemma_extends_trans(t1, t3, t4);
    lemma_extends_trans(t1, t4, compile(b).1);
}

/// A name that the condition clause used keeps its token through the whole
/// expression: it is registered once, at the same position, in the final
/// name map.
pub proof fn lemma_condition_name_token_kept(b: Builder, n: Seq<char>)
    requires
        optional_condition_text(b.condition, empty_table()).1.names.contains(n),
    ensures
        position(compile(b).1.names, n) == position(
            optional_condition_text(b.condition, empty_table()).1.names,
            n,
        ),
        compile(b).1.names.no_duplicates(),
{
    let t0 = empty_table();
    assert(table_wf(t0));
    lemma_optional_condition_extends(b.condition, t0);
    lemma_clauses_keep_tokens(b);
    let t1 = optional_condition_text(b.condition, t0).1;
    lemma_position_kept(t1.names, compile(b).1.names, n);
}


/// The names `ns` followed by the names of the segments of `p` that are new,
/// in the order of their first use.
pub open spec fn names_after(ns: Seq<Seq<char>>, p: Seq<Segment>) -> Seq<Seq<char>>
    decreases p.len(),
{
    if p.len() == 0 {
        ns
    } else {
        with_item(names_after(ns, p.drop_last()), seg_name(p.last()))
    }
}

/// The text of `p` with each name written as the token of its position in
/// `names`.
pub open spec fn path_text_in(p: Seq<Segment>, names: Seq<Seq<char>>) -> Seq<char>
    decreases p.len(),
{
    if p.len() == 0 {
        Seq::empty()
    } else {
        let piece = name_token(position(names, seg_name(p.last()))) + seg_suffix(p.last());
        if p.len() == 1 {
            piece
        } else {
            path_text_in(p.drop_last(), names) + seq!['.'] + piece
        }
    }
}

proof fn lemma_names_after_contains(ns: Seq<Seq<char>>, p: Seq<Segment>, i: int)
    requires
        0 <= i < p.len(),
    ensures
        names_after(ns, p).contains(seg_name(p[i])),
    decreases p.len(),
{
    let q = p.drop_last();
    let prev = names_after(ns, q);
    lemma_with_item_contains(prev, seg_name(p.last()));
    if i < p.len() - 1 {
        lemma_names_after_contains(ns, q, i);
        assert(q[i] == p[i]);
        lemma_with_item_keeps(prev, seg_name(p.last()), seg_name(p[i]));
    }
}

proof fn lemma_with_item_contains<A>(s: Seq<A>, x: A)
    ensures
        with_item(s, x).contains(x),
{
    if !s.contains(x) {
        assert(s.push(x)[s.len() as int] == x);
    }
}

proof fn lemma_with_item_keeps<A>(s: Seq<A>, x: A, y: A)
    requires
        s.contains(y),
    ensures
        with_item(s, x).contains(y),
{
    if !s.contains(x) {
        let j = choose|j: int| 0 <= j < s.len() && s[j] == y;
        assert(s.push(x)[j] == y);
    }
}

proof fn lemma_names_after_no_dup(ns: Seq<Seq<char>>, p: Seq<Segment>)
    requires
        ns.no_duplicates(),
    ensures
        names_after(ns, p).no_duplicates(),
        ns.len() <= names_after(ns, p).len(),
        names_after(ns, p).subrange(0, ns.len() as int) == ns,
    decreases p.len(),
{
    if p.len() == 0 {
        assert(ns.subrange(0, ns.len() as int) =~= ns);
    } else {
        lemma_names_after_no_dup(ns, p.drop_last());
        let prev = names_after(ns, p.drop_last());
        lemma_with_item(prev, seg_name(p.last()));
        assert(with_item(prev, seg_name(p.last())).subrange(0, ns.len() as int) =~= prev.subrange(
            0,
            ns.len() as int,
        ));
    }
}

proof fn lemma_path_text_in_stable(p: Seq<Segment>, a: Seq<Seq<char>>, b: Seq<Seq<char>>)
    requires
        a.no_duplicates(),
        b.no_duplicates(),
        a.len() <= b.len(),
        b.subrange(0, a.len() as int) == a,
        forall|i: int| 0 <= i < p.len() ==> a.contains(seg_name(#[trigger] p[i])),
    ensures
        path_text_in(p, a) == path_text_in(p, b),
    decreases p.len(),
{
    if p.len() > 0 {
        let q = p.drop_last();
        assert forall|i: int| 0 <= i < q.len() implies a.contains(seg_name(#[trigger] q[i])) by {
            assert(q[i] == p[i]);
        }
        lemma_path_text_in_stable(q, a, b);
        assert(a.contains(seg_name(p[p.len() - 1])));
        lemma_position_kept(a, b, seg_name(p.last()));
    }
}

/// Writing a path through a table: the table's names become its earlier
/// names followed by the path's new names in the order of first use, and
/// every segment is written with the token of its name's position in that
/// final list. From an empty table, the `j`-th distinct name of the path is
/// written `#j` wherever it occurs.
pub proof fn lemma_path_tokens(p: Seq<Segment>, t: TableModel)
    requires
        table_wf(t),
    ensures
        path_text(p, t).1.names == names_after(t.names, p),
        path_text(p, t).1.values == t.values,
        path_text(p, t).0 == path_text_in(p, names_after(t.names, p)),
    decreases p.len(),
{
    if p.len() > 0 {
        let q = p.drop_last();
        lemma_path_tokens(q, t);
        lemma_names_after_no_dup(t.names, q);
        let prev = names_after(t.names, q);
        let n = seg_name(p.last());
        lemma_with_item(prev, n);
        let next = with_item(prev, n);
        lemma_names_after_no_dup(t.names, p);
        assert(next == names_after(t.names, p));
        assert forall|i: int| 0 <= i < q.len() implies prev.contains(seg_name(#[trigger] q[i])) by {
            lemma_names_after_contains(t.names, q, i);
        }
        lemma_path_text_in_stable(q, prev, next);
        lemma_with_item_contains(prev, n);
        assert(next[position(prev, n) as int] == n);
        lemma_position_found_in(next, n, position(prev, n) as int);
    }
}

proof fn lemma_position_found_in<A>(s: Seq<A>, x: A, j: int)
    requires
        s.no_duplicates(),
        0 <= j < s.len(),
        s[j] == x,
    ensures
        position(s, x) == j,
{
    assert(s.contains(x));
    let i = choose|i: int| 0 <= i < s.len() && s[i] == x;
    assert(s[i] == s[j]);
}


/// The comma-separated value tokens `:base` to `:base + k - 1`.
pub open spec fn value_tokens_from(base: nat, k: nat) -> Seq<char>
    decreases k,
{
    if k == 0 {
        Seq::empty()
    } else if k == 1 {
        value_token(base)
    } else {
        value_tokens_from(base, (k - 1) as nat) + ","@ + value_token((base + k - 1) as nat)
    }
}

/// The form of a literal value operand.
pub open spec fn literal_model(o: Operand) -> ValueModel {
    match o {
        Operand::Value(ValueOrRef::Value(x)) => x@,
        _ => ValueModel::Null,
    }
}

/// Whether an operand is a literal value.
pub open spec fn is_literal(o: Operand) -> bool {
    match o {
        Operand::Value(ValueOrRef::Value(_)) => true,
        _ => false,
    }
}

/// Whether every item is a literal value, no two the same, none already in
/// `values`.
pub open spec fn fresh_literals(items: Seq<Operand>, values: Seq<ValueModel>) -> bool {
    &&& forall|i: int| 0 <= i < items.len() ==> is_literal(#[trigger] items[i])
    &&& forall|i: int, j: int| 0 <= i < j < items.len() ==> literal_model(#[trigger] items[i]) != literal_model(#[trigger] items[j])
    &&& forall|i: int| 0 <= i < items.len() ==> !values.contains(literal_model(#[trigger] items[i]))
}

/// Items that are new, distinct literal values take the next value tokens
/// in order: `k` of them written after `n` registered values read
/// `:n,:n+1,...,:n+k-1`, and the table gains them at the end, in order.
/// From an empty table an `IN` list of such values reads `(:0,...,:k-1)`.
pub proof fn lemma_in_items_tokens(items: Seq<Operand>, t: TableModel)
    requires
        table_wf(t),
        fresh_literals(items, t.values),
    ensures
        items_text(items, t).0 == value_tokens_from(t.values.len(), items.len()),
        items_text(items, t).1.names == t.names,
        items_text(items, t).1.values == t.values + items.map_values(|o: Operand| literal_model(o)),
    decreases items.len(),
{
    let ms = items.map_values(|o: Operand| literal_model(o));
    if items.len() == 0 {
        assert(t.values + ms =~= t.values);
    } else {
        let q = items.drop_last();
        let mq = q.map_values(|o: Operand| literal_model(o));
        assert forall|i: int| 0 <= i < q.len() implies is_literal(#[trigger] q[i]) by {
            assert(q[i] == items[i]);
        }
        assert forall|i: int, j: int| 0 <= i < j < q.len() implies literal_model(#[trigger] q[i]) != literal_model(#[trigger] q[j]) by {
            assert(q[i] == items[i]);
            assert(q[j] == items[j]);
        }
        assert forall|i: int| 0 <= i < q.len() implies !t.values.contains(literal_model(#[trigger] q[i])) by {
            assert(q[i] == items[i]);
        }
        lemma_in_items_tokens(q, t);
        let r = items_text(q, t);
        let last = items.last();
        let m = literal_model(last);
        assert(last == items[items.len() - 1]);
        assert(is_literal(last));
        lemma_extends_refl(t);
        lemma_items_extends(q, t);
        assert(!r.1.values.contains(m)) by {
            if r.1.values.contains(m) {
                let k = choose|k: int| 0 <= k < r.1.values.len() && r.1.values[k] == m;
                if k < t.values.len() {
                    assert((t.values + mq)[k] == t.values[k]);
                } else {
                    let j = k - t.values.len();
                    assert((t.values + mq)[k] == mq[j]);
                    assert(q[j] == items[j]);
                    assert(literal_model(items[j]) != literal_model(items[items.len() - 1]));
                }
            }
        }
        lemma_with_item(r.1.values, m);
        assert(mq.push(m) =~= ms);
        assert((t.values + mq).push(m) =~= t.values + ms);
        if items.len() == 1 {
            assert(q.len() == 0);
        }
    }
}

} // verus!
