//! Conditions: comparisons, functions and boolean combinations of them.
use vstd::prelude::*;

use crate::operand::{operand_text, path_text, render_path, render_value_or_ref, value_or_ref_text, Operand};
use crate::path::Path;
use crate::table::{add_value, table_wf, value_token, Table, TableModel};
use crate::value::{Value, ValueModel, ValueOrRef};

verus! {

/// A comparison operator.
#[derive(Debug, Clone, Copy, PartialEq, Eq, Structural, Hash)]
pub enum Comparator {
    /// Equal (`=`)
    Eq,
    /// Not equal (`<>`)
    Ne,
    /// Less than (`<`)
    Lt,
    /// Less than or equal (`<=`)
    Le,
    /// Greater than (`>`)
    Gt,
    /// Greater than or equal (`>=`)
    Ge,
}

/// The text of a comparison operator.
pub open spec fn comparator_text(c: Comparator) -> Seq<char> {
    match c {
        Comparator::Eq => "="@,
        Comparator::Ne => "<>"@,
        Comparator::Lt => "<"@,
        Comparator::Le => "<="@,
        Comparator::Gt => ">"@,
        Comparator::Ge => ">="@,
    }
}

impl Comparator {
    /// The text of this operator.
    pub fn as_str(self) -> (r: &'static str)
        ensures
            r@ == comparator_text(self),
    {
        match self {
            Comparator::Eq => "=",
            Comparator::Ne => "<>",
            Comparator::Lt => "<",
            Comparator::Le => "<=",
            Comparator::Gt => ">",
            Comparator::Ge => ">=",
        }
    }

    /// The text of this operator, as an owned string.
    pub fn to_string(self) -> (r: String)
        ensures
            r@ == comparator_text(self),
    {
        self.as_str().to_owned()
    }
}

/// `left cmp right`.
#[derive(Debug, PartialEq, Eq)]
pub struct Comparison {
    pub left: Operand,
    pub cmp: Comparator,
    pub right: Operand,
}

/// `op BETWEEN lower AND upper`.
#[derive(Debug, PartialEq, Eq)]
pub struct Between {
    pub op: Operand,
    pub lower: Operand,
    pub upper: Operand,
}

/// `op IN (item, ...)`.
#[derive(Debug, PartialEq, Eq)]
pub struct In {
    pub op: Operand,
    pub items: Vec<Operand>,
}

impl In {
    /// `op IN (items...)`.
    pub fn new(op: Operand, items: Vec<Operand>) -> (r: In)
        ensures
            r.op == op,
            r.items@ == items@,
    {
        In { op, items }
    }
}

/// True if the item holds the attribute at `path`.
#[derive(Debug, PartialEq, Eq)]
pub struct AttributeExists {
    pub path: Path,
}

/// True if the item does not hold the attribute at `path`.
#[derive(Debug, PartialEq, Eq)]
pub struct AttributeNotExists {
    pub path: Path,
}

/// True if the string at `path` starts with `prefix`.
#[derive(Debug, PartialEq, Eq)]
pub struct BeginsWith {
    pub path: Path,
    pub prefix: ValueOrRef,
}

/// True if the attribute at `path` holds `operand`.
#[derive(Debug, PartialEq, Eq)]
pub struct Contains {
    pub path: Path,
    pub operand: Operand,
}

/// The kinds of attribute that `attribute_type` tests for.
#[derive(Debug, Clone, Copy, PartialEq, Eq, Structural, Hash)]
pub enum TypeCode {
    String,
    StringSet,
    Number,
    NumberSet,
    Binary,
    BinarySet,
    Boolean,
    Null,
    List,
    Document,
}

/// The store's code of a kind of attribute.
pub open spec fn type_code_text(c: TypeCode) -> Seq<char> {
    match c {
        TypeCode::String => "S"@,
        TypeCode::StringSet => "SS"@,
        TypeCode::Number => "N"@,
        TypeCode::NumberSet => "NS"@,
        TypeCode::Binary => "B"@,
        TypeCode::BinarySet => "BS"@,
        TypeCode::Boolean => "BOOL"@,
        TypeCode::Null => "NULL"@,
        TypeCode::List => "L"@,
        TypeCode::Document => "M"@,
    }
}

impl TypeCode {
    /// The store's code of this kind.
    pub fn as_str(self) -> (r: &'static str)
        ensures
            r@ == type_code_text(self),
    {
        match self {
            TypeCode::String => "S",
            TypeCode::StringSet => "SS",
            TypeCode::Number => "N",
            TypeCode::NumberSet => "NS",
            TypeCode::Binary => "B",
            TypeCode::BinarySet => "BS",
            TypeCode::Boolean => "BOOL",
            TypeCode::Null => "NULL",
            TypeCode::List => "L",
            TypeCode::Document => "M",
        }
    }
}

/// True if the attribute at `path` is of the given kind.
#[derive(Debug, PartialEq, Eq)]
pub struct AttributeType {
    pub path: Path,
    pub attribute_type: TypeCode,
}

/// A condition.
#[derive(Debug, PartialEq, Eq)]
pub enum Condition {
    Comparison(Comparison),
    Between(Between),
    In(In),
    AttributeExists(AttributeExists),
    AttributeNotExists(AttributeNotExists),
    BeginsWith(BeginsWith),
    Contains(Contains),
    AttributeType(AttributeType),
    And(Box<Condition>, Box<Condition>),
    Or(Box<Condition>, Box<Condition>),
    Not(Box<Condition>),
    Parenthetical(Box<Condition>),
}

/// The comma-separated text of a list of operands, and the table after it.
pub open spec fn items_text(items: Seq<Operand>, t: TableModel) -> (Seq<char>, TableModel)
    decreases items.len(),
{
    if items.len() == 0 {
        (Seq::empty(), t)
    } else {
        let r = items_text(items.drop_last(), t);
        let o = operand_text(items.last(), r.1);
        (if items.len() == 1 { o.0 } else { r.0 + ","@ + o.0 }, o.1)
    }
}

/// The text of an operand of `AND` or `OR`: in parentheses when it is
/// itself an `AND` or an `OR`.
pub open spec fn grouped(c: Condition, text: Seq<char>) -> Seq<char> {
    if c is And || c is Or {
        "("@ + text + ")"@
    } else {
        text
    }
}

/// The text of a condition with names and values replaced by tokens, and
/// the table after it. Operands are written, and take their tokens, from
/// left to right.
pub open spec fn condition_text(c: Condition, t: TableModel) -> (Seq<char>, TableModel)
    decreases c,
{
    match c {
        Condition::Comparison(x) => {
            let l = operand_text(x.left, t);
            let r = operand_text(x.right, l.1);
            (l.0 + " "@ + comparator_text(x.cmp) + " "@ + r.0, r.1)
        },
        Condition::Between(x) => {
            let o = operand_text(x.op, t);
            let lo = operand_text(x.lower, o.1);
            let hi = operand_text(x.upper, lo.1);
            (o.0 + " BETWEEN "@ + lo.0 + " AND "@ + hi.0, hi.1)
        },
        Condition::In(x) => {
            let o = operand_text(x.op, t);
            let items = items_text(x.items@, o.1);
            (o.0 + " IN ("@ + items.0 + ")"@, items.1)
        },
        Condition::AttributeExists(x) => {
            let a = path_text(x.path@, t);
            ("attribute_exists("@ + a.0 + ")"@, a.1)
        },
        Condition::AttributeNotExists(x) => {
            let a = path_text(x.path@, t);
            ("attribute_not_exists("@ + a.0 + ")"@, a.1)
        },
        Condition::BeginsWith(x) => {
            let a = path_text(x.path@, t);
            let b = value_or_ref_text(x.prefix, a.1);
            ("begins_with("@ + a.0 + ", "@ + b.0 + ")"@, b.1)
        },
        Condition::Contains(x) => {
            let a = path_text(x.path@, t);
            let b = operand_text(x.operand, a.1);
            ("contains("@ + a.0 + ", "@ + b.0 + ")"@, b.1)
        },
        Condition::AttributeType(x) => {
            let a = path_text(x.path@, t);
            let b = add_value(a.1, ValueModel::Str(type_code_text(x.attribute_type)));
            ("attribute_type("@ + a.0 + ", "@ + value_token(b.1) + ")"@, b.0)
        },
        Condition::And(l, r) => {
            let a = condition_text(*l, t);
            let b = condition_text(*r, a.1);
            (grouped(*l, a.0) + " AND "@ + grouped(*r, b.0), b.1)
        },
        Condition::Or(l, r) => {
            let a = condition_text(*l, t);
            let b = condition_text(*r, a.1);
            (grouped(*l, a.0) + " OR "@ + grouped(*r, b.0), b.1)
        },
        Condition::Not(x) => {
            let a = condition_text(*x, t);
            ("NOT ("@ + a.0 + ")"@, a.1)
        },
        Condition::Parenthetical(x) => {
            let a = condition_text(*x, t);
            ("("@ + a.0 + ")"@, a.1)
        },
    }
}

/// Appends the comma-separated text of `items`.
fn render_items(items: &Vec<Operand>, t: &mut Table, out: &mut String)
    requires
        table_wf(old(t)@),
    ensures
        final(out)@ == old(out)@ + items_text(items@, old(t)@).0,
        final(t)@ == items_text(items@, old(t)@).1,
        table_wf(final(t)@),
{
    let ghost t0 = t@;
    let ghost o0 = out@;
    let n = items.len();
    let mut i: usize = 0;
    assert(items@.subrange(0, 0) =~= Seq::<Operand>::empty());
    while i < n
        invariant
            n == items@.len(),
            i <= n,
            table_wf(t@),
            out@ == o0 + items_text(items@.subrange(0, i as int), t0).0,
            t@ == items_text(items@.subrange(0, i as int), t0).1,
        decreases n - i,
    {
        let ghost q = items@.subrange(0, i + 1);
        assert(q.drop_last() =~= items@.subrange(0, i as int));
        if i > 0 {
            out.append(",");
        }
        let ghost mid = out@;
        items[i].render(t, out);
        assert(out@ =~= o0 + items_text(q, t0).0);
        i = i + 1;
    }
    assert(items@.subrange(0, n as int) =~= items@);
}

/// Appends the text of an operand of `AND` or `OR`.
fn render_grouped(c: &Condition, t: &mut Table, out: &mut String)
    requires
        table_wf(old(t)@),
    ensures
        final(out)@ == old(out)@ + grouped(*c, condition_text(*c, old(t)@).0),
        final(t)@ == condition_text(*c, old(t)@).1,
        table_wf(final(t)@),
    decreases c, 1nat,
{
    let group = match c {
        Condition::And(_, _) => true,
        Condition::Or(_, _) => true,
        _ => false,
    };
    if group {
        out.append("(");
    }
    c.render(t, out);
    if group {
        out.append(")");
    }
    assert(final(out)@ =~= old(out)@ + grouped(*c, condition_text(*c, old(t)@).0));
}

impl Condition {
    /// Appends the text of this condition, with names and values replaced
    /// by tokens.
    #[verifier::spinoff_prover]
    #[verifier::rlimit(50)]
    pub fn render(&self, t: &mut Table, out: &mut String)
        requires
            table_wf(old(t)@),
        ensures
            final(out)@ == old(out)@ + condition_text(*self, old(t)@).0,
            final(t)@ == condition_text(*self, old(t)@).1,
            table_wf(final(t)@),
        decreases self, 0nat,
    {
        let ghost o0 = out@;
        match self {
            Condition::Comparison(x) => {
                x.left.render(t, out);
                out.append(" ");
                out.append(x.cmp.as_str());
                out.append(" ");
                x.right.render(t, out);
                assert(out@ =~= o0 + condition_text(*self, old(t)@).0);
            },
            Condition::Between(x) => {
                x.op.render(t, out);
                out.append(" BETWEEN ");
                x.lower.render(t, out);
                out.append(" AND ");
                x.upper.render(t, out);
                assert(out@ =~= o0 + condition_text(*self, old(t)@).0);
            },
            Condition::In(x) => {
                x.op.render(t, out);
                out.append(" IN (");
                render_items(&x.items, t, out);
                out.append(")");
                assert(out@ =~= o0 + condition_text(*self, old(t)@).0);
            },
            Condition::AttributeExists(x) => {
                out.append("attribute_exists(");
                render_path(&x.path, t, out);
                out.append(")");
                assert(out@ =~= o0 + condition_text(*self, old(t)@).0);
            },
            Condition::AttributeNotExists(x) => {
                out.append("attribute_not_exists(");
                render_path(&x.path, t, out);
                out.append(")");
                assert(out@ =~= o0 + condition_text(*self, old(t)@).0);
            },
            Condition::BeginsWith(x) => {
                out.append("begins_with(");
                render_path(&x.path, t, out);
                out.append(", ");
                render_value_or_ref(&x.prefix, t, out);
                out.append(")");
                assert(out@ =~= o0 + condition_text(*self, old(t)@).0);
            },
            Condition::Contains(x) => {
                out.append("contains(");
                render_path(&x.path, t, out);
                out.append(", ");
                x.operand.render(t, out);
                out.append(")");
                assert(out@ =~= o0 + condition_text(*self, old(t)@).0);
            },
            Condition::AttributeType(x) => {
                out.append("attribute_type(");
                render_path(&x.path, t, out);
                out.append(", ");
                let code = Value::Str(x.attribute_type.as_str().to_owned());
                t.push_value_token(&code, out);
                out.append(")");
                assert(out@ =~= o0 + condition_text(*self, old(t)@).0);
            },
            Condition::And(l, r) => {
                render_grouped(l, t, out);
                out.append(" AND ");
                render_grouped(r, t, out);
                assert(out@ =~= o0 + condition_text(*self, old(t)@).0);
            },
            Condition::Or(l, r) => {
                render_grouped(l, t, out);
                out.append(" OR ");
                render_grouped(r, t, out);
                assert(out@ =~= o0 + condition_text(*self, old(t)@).0);
            },
            Condition::Not(x) => {
                out.append("NOT (");
                x.render(t, out);
                out.append(")");
                assert(out@ =~= o0 + condition_text(*self, old(t)@).0);
            },
            Condition::Parenthetical(x) => {
                out.append("(");
                x.render(t, out);
                out.append(")");
                assert(out@ =~= o0 + condition_text(*self, old(t)@).0);
            },
        }
    }
}

/// The comparison `left = right`.
pub fn equal(left: Operand, right: Operand) -> (r: Comparison)
    ensures
        r == (Comparison { left, cmp: Comparator::Eq, right }),
{
    Comparison { left, cmp: Comparator::Eq, right }
}

/// The comparison `left <> right`.
pub fn not_equal(left: Operand, right: Operand) -> (r: Comparison)
    ensures
        r == (Comparison { left, cmp: Comparator::Ne, right }),
{
    Comparison { left, cmp: Comparator::Ne, right }
}

/// The comparison `left < right`.
pub fn less_than(left: Operand, right: Operand) -> (r: Comparison)
    ensures
        r == (Comparison { left, cmp: Comparator::Lt, right }),
{
    Comparison { left, cmp: Comparator::Lt, right }
}

/// The comparison `left <= right`.
pub fn less_than_or_equal(left: Operand, right: Operand) -> (r: Comparison)
    ensures
        r == (Comparison { left, cmp: Comparator::Le, right }),
{
    Comparison { left, cmp: Comparator::Le, right }
}

/// The comparison `left > right`.
pub fn greater_than(left: Operand, right: Operand) -> (r: Comparison)
    ensures
        r == (Comparison { left, cmp: Comparator::Gt, right }),
{
    Comparison { left, cmp: Comparator::Gt, right }
}

/// The comparison `left >= right`.
pub fn greater_than_or_equal(left: Operand, right: Operand) -> (r: Comparison)
    ensures
        r == (Comparison { left, cmp: Comparator::Ge, right }),
{
    Comparison { left, cmp: Comparator::Ge, right }
}

impl Comparison {
    /// This comparison as a condition.
    pub fn into_condition(self) -> (r: Condition)
        ensures
            r == Condition::Comparison(self),
    {
        Condition::Comparison(self)
    }
}

impl Condition {
    /// `self AND right`.
    pub fn and(self, right: Condition) -> (r: Condition)
        ensures
            r == Condition::And(Box::new(self), Box::new(right)),
    {
        Condition::And(Box::new(self), Box::new(right))
    }

    /// `self OR right`.
    pub fn or(self, right: Condition) -> (r: Condition)
        ensures
            r == Condition::Or(Box::new(self), Box::new(right)),
    {
        Condition::Or(Box::new(self), Box::new(right))
    }

    /// `NOT (self)`.
    pub fn not(self) -> (r: Condition)
        ensures
            r == Condition::Not(Box::new(self)),
    {
        Condition::Not(Box::new(self))
    }

    /// `(self)`.
    pub fn parenthesize(self) -> (r: Condition)
        ensures
            r == Condition::Parenthetical(Box::new(self)),
    {
        Condition::Parenthetical(Box::new(self))
    }
}

impl Path {
    /// True if the item holds this attribute.
    pub fn attribute_exists(self) -> (r: Condition)
        ensures
            r == Condition::AttributeExists(AttributeExists { path: self }),
    {
        Condition::AttributeExists(AttributeExists { path: self })
    }

    /// True if the item does not hold this attribute.
    pub fn attribute_not_exists(self) -> (r: Condition)
        ensures
            r == Condition::AttributeNotExists(AttributeNotExists { path: self }),
    {
        Condition::AttributeNotExists(AttributeNotExists { path: self })
    }

    /// True if the string here starts with `prefix`.
    pub fn begins_with(self, prefix: &str) -> (r: Condition)
        ensures
            r matches Condition::BeginsWith(b) && b.path == self && (b.prefix matches ValueOrRef::Value(
                v,
            ) && v@ == ValueModel::Str(prefix@)),
    {
        Condition::BeginsWith(BeginsWith { path: self, prefix: ValueOrRef::Value(Value::Str(prefix.to_owned())) })
    }

    /// True if the string here starts with the value the caller supplies
    /// under `prefix`.
    pub fn begins_with_ref(self, prefix: ValueOrRef) -> (r: Condition)
        ensures
            r == Condition::BeginsWith(BeginsWith { path: self, prefix }),
    {
        Condition::BeginsWith(BeginsWith { path: self, prefix })
    }

    /// True if what is here lies between `lower` and `upper`.
    pub fn between(self, lower: Operand, upper: Operand) -> (r: Condition)
        ensures
            r == Condition::Between(Between { op: Operand::Path(self), lower, upper }),
    {
        Condition::Between(Between { op: Operand::Path(self), lower, upper })
    }

    /// True if what is here is one of `items`.
    pub fn in_(self, items: Vec<Operand>) -> (r: Condition)
        ensures
            r == Condition::In(In { op: Operand::Path(self), items }),
    {
        Condition::In(In { op: Operand::Path(self), items })
    }

    /// True if the attribute here holds `operand`.
    pub fn contains(self, operand: Operand) -> (r: Condition)
        ensures
            r == Condition::Contains(Contains { path: self, operand }),
    {
        Condition::Contains(Contains { path: self, operand })
    }

    /// True if the attribute here is of the given kind.
    pub fn attribute_type(self, attribute_type: TypeCode) -> (r: Condition)
        ensures
            r == Condition::AttributeType(AttributeType { path: self, attribute_type }),
    {
        Condition::AttributeType(AttributeType { path: self, attribute_type })
    }

    /// The condition `this = right` with this path on the left.
    pub fn equal(self, right: Operand) -> (r: Condition)
        ensures
            r == Condition::Comparison(Comparison { left: Operand::Path(self), cmp: Comparator::Eq, right }),
    {
        Condition::Comparison(equal(Operand::Path(self), right))
    }

    /// The condition `this <> right` with this path on the left.
    pub fn not_equal(self, right: Operand) -> (r: Condition)
        ensures
            r == Condition::Comparison(Comparison { left: Operand::Path(self), cmp: Comparator::Ne, right }),
    {
        Condition::Comparison(not_equal(Operand::Path(self), right))
    }

    /// The condition `this < right` with this path on the left.
    pub fn less_than(self, right: Operand) -> (r: Condition)
        ensures
            r == Condition::Comparison(Comparison { left: Operand::Path(self), cmp: Comparator::Lt, right }),
    {
        Condition::Comparison(less_than(Operand::Path(self), right))
    }

    /// The condition `this <= right` with this path on the left.
    pub fn less_than_or_equal(self, right: Operand) -> (r: Condition)
        ensures
            r == Condition::Comparison(Comparison { left: Operand::Path(self), cmp: Comparator::Le, right }),
    {
        Condition::Comparison(less_than_or_equal(Operand::Path(self), right))
    }

    /// The condition `this > right` with this path on the left.
    pub fn greater_than(self, right: Operand) -> (r: Condition)
        ensures
            r == Condition::Comparison(Comparison { left: Operand::Path(self), cmp: Comparator::Gt, right }),
    {
        Condition::Comparison(greater_than(Operand::Path(self), right))
    }

    /// The condition `this >= right` with this path on the left.
    pub fn greater_than_or_equal(self, right: Operand) -> (r: Condition)
        ensures
            r == Condition::Comparison(Comparison { left: Operand::Path(self), cmp: Comparator::Ge, right }),
    {
        Condition::Comparison(greater_than_or_equal(Operand::Path(self), right))
    }
}

impl Operand {
    /// The condition `self cmp right`.
    pub fn compare(self, cmp: Comparator, right: Operand) -> (r: Condition)
        ensures
            r == Condition::Comparison(Comparison { left: self, cmp, right }),
    {
        Condition::Comparison(Comparison { left: self, cmp, right })
    }
}

} // verus!
