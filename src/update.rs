//! Update actions: SET, REMOVE, ADD and DELETE clauses.
use vstd::prelude::*;

use crate::operand::{operand_text, path_text, render_path, render_value_or_ref, value_or_ref_text, Operand};
use crate::path::Path;
use crate::table::{add_value, table_wf, value_token, Table, TableModel};
use crate::value::{Num, Value, ValueModel, ValueOrRef};

verus! {

/// The operation of a math action.
#[derive(Debug, Clone, Copy, PartialEq, Eq, Structural)]
pub enum MathOp {
    Add,
    Sub,
}

/// `dst = src + num` or `dst = src - num`; `src` defaults to `dst`.
#[derive(Debug, PartialEq, Eq)]
pub struct Math {
    pub dst: Path,
    pub src: Option<Path>,
    pub op: MathOp,
    pub num: ValueOrRef,
}

/// A math action that still needs its operation.
#[derive(Debug, PartialEq, Eq)]
pub struct Builder {
    pub dst: Path,
    pub src: Option<Path>,
}

impl Math {
    /// Starts a math action that assigns to `dst`.
    pub fn builder(dst: Path) -> (r: Builder)
        ensures
            r.dst == dst,
            r.src is None,
    {
        Builder { dst, src: None }
    }
}

impl Builder {
    /// Reads the starting value from `src` rather than the destination.
    pub fn src(self, src: Path) -> (r: Builder)
        ensures
            r.dst == self.dst,
            r.src == Some(src),
    {
        Builder { dst: self.dst, src: Some(src) }
    }

    /// Adds `num`.
    pub fn add(self, num: Num) -> (r: Math)
        ensures
            r.dst == self.dst,
            r.src == self.src,
            r.op == MathOp::Add,
            r.num == ValueOrRef::Value(Value::Num(num)),
    {
        self.with_op(MathOp::Add, num)
    }

    /// Subtracts `num`.
    pub fn sub(self, num: Num) -> (r: Math)
        ensures
            r.dst == self.dst,
            r.src == self.src,
            r.op == MathOp::Sub,
            r.num == ValueOrRef::Value(Value::Num(num)),
    {
        self.with_op(MathOp::Sub, num)
    }

    fn with_op(self, op: MathOp, num: Num) -> (r: Math)
        ensures
            r == (Math { dst: self.dst, src: self.src, op, num: ValueOrRef::Value(Value::Num(num)) }),
    {
        let Builder { dst, src } = self;
        Math { dst, src, op, num: ValueOrRef::Value(Value::Num(num)) }
    }
}

/// `dst = value`.
#[derive(Debug, PartialEq, Eq)]
pub struct Assign {
    pub dst: Path,
    pub value: Operand,
}

/// `dst = list_append(src, list)`, or with `list` first when it goes before.
#[derive(Debug, PartialEq, Eq)]
pub struct ListAppend {
    pub dst: Path,
    pub src: Option<Path>,
    pub before: bool,
    pub list: Value,
}

/// A list append that still needs its list.
#[derive(Debug, PartialEq, Eq)]
pub struct ListAppendBuilder {
    pub dst: Path,
    pub src: Option<Path>,
    pub before: bool,
}

impl ListAppendBuilder {
    /// Reads the list from `src` rather than the destination.
    pub fn src(self, src: Path) -> (r: ListAppendBuilder)
        ensures
            r == (ListAppendBuilder { dst: self.dst, src: Some(src), before: self.before }),
    {
        ListAppendBuilder { dst: self.dst, src: Some(src), before: self.before }
    }

    /// Puts the new items before the existing ones.
    pub fn before(self) -> (r: ListAppendBuilder)
        ensures
            r == (ListAppendBuilder { dst: self.dst, src: self.src, before: true }),
    {
        ListAppendBuilder { dst: self.dst, src: self.src, before: true }
    }

    /// Puts the new items after the existing ones (the default).
    pub fn after(self) -> (r: ListAppendBuilder)
        ensures
            r == (ListAppendBuilder { dst: self.dst, src: self.src, before: false }),
    {
        ListAppendBuilder { dst: self.dst, src: self.src, before: false }
    }

    /// The action that appends `list`.
    pub fn list(self, list: Value) -> (r: ListAppend)
        ensures
            r == (ListAppend { dst: self.dst, src: self.src, before: self.before, list }),
    {
        ListAppend { dst: self.dst, src: self.src, before: self.before, list }
    }
}

/// `dst = if_not_exists(src, default)`.
#[derive(Debug, PartialEq, Eq)]
pub struct IfNotExists {
    pub dst: Path,
    pub src: Option<Path>,
    pub default: Operand,
}

/// An `if_not_exists` action that still needs its default.
#[derive(Debug, PartialEq, Eq)]
pub struct IfNotExistsBuilder {
    pub dst: Path,
    pub src: Option<Path>,
}

impl IfNotExistsBuilder {
    /// Tests `src` rather than the destination.
    pub fn src(self, src: Path) -> (r: IfNotExistsBuilder)
        ensures
            r == (IfNotExistsBuilder { dst: self.dst, src: Some(src) }),
    {
        IfNotExistsBuilder { dst: self.dst, src: Some(src) }
    }

    /// The action with `default` as the value to use when absent.
    pub fn value(self, default: Operand) -> (r: IfNotExists)
        ensures
            r == (IfNotExists { dst: self.dst, src: self.src, default }),
    {
        IfNotExists { dst: self.dst, src: self.src, default }
    }
}

/// One action of a SET clause.
#[derive(Debug, PartialEq, Eq)]
pub enum SetAction {
    Assign(Assign),
    Math(Math),
    ListAppend(ListAppend),
    IfNotExists(IfNotExists),
}

impl Math {
    /// This action as a SET action.
    pub fn into_action(self) -> (r: SetAction)
        ensures
            r == SetAction::Math(self),
    {
        SetAction::Math(self)
    }
}

impl ListAppend {
    /// This action as a SET action.
    pub fn into_action(self) -> (r: SetAction)
        ensures
            r == SetAction::ListAppend(self),
    {
        SetAction::ListAppend(self)
    }
}

impl IfNotExists {
    /// This action as a SET action.
    pub fn into_action(self) -> (r: SetAction)
        ensures
            r == SetAction::IfNotExists(self),
    {
        SetAction::IfNotExists(self)
    }
}

impl Path {
    /// `self = value`.
    pub fn assign(self, value: Operand) -> (r: SetAction)
        ensures
            r == SetAction::Assign(Assign { dst: self, value }),
    {
        SetAction::Assign(Assign { dst: self, value })
    }

    /// Starts a math action on this path.
    pub fn math(self) -> (r: Builder)
        ensures
            r == (Builder { dst: self, src: None }),
    {
        Math::builder(self)
    }

    /// Starts a list append to this path.
    pub fn list_append(self) -> (r: ListAppendBuilder)
        ensures
            r == (ListAppendBuilder { dst: self, src: None, before: false }),
    {
        ListAppendBuilder { dst: self, src: None, before: false }
    }

    /// Starts an `if_not_exists` assignment to this path.
    pub fn if_not_exists(self) -> (r: IfNotExistsBuilder)
        ensures
            r == (IfNotExistsBuilder { dst: self, src: None }),
    {
        IfNotExistsBuilder { dst: self, src: None }
    }
}

/// Whether a value is a number or a set: what ADD accepts.
pub open spec fn addable(v: ValueModel) -> bool {
    v is Num || v is StrSet || v is NumSet || v is BinarySet
}

/// Whether a value is a set: what DELETE accepts.
pub open spec fn deletable(v: ValueModel) -> bool {
    v is StrSet || v is NumSet || v is BinarySet
}

/// `dst value` in an ADD clause.
#[derive(Debug, PartialEq, Eq)]
pub struct AddAction {
    pub dst: Path,
    pub value: Value,
}

/// `dst value` in a DELETE clause.
#[derive(Debug, PartialEq, Eq)]
pub struct DeleteAction {
    pub dst: Path,
    pub value: Value,
}

impl AddAction {
    /// The action that adds `value` to `dst`; there is none unless the value
    /// is a number or a set.
    pub fn new(dst: Path, value: Value) -> (r: Option<AddAction>)
        ensures
            addable(value@) ==> r == Some(AddAction { dst, value }),
            !addable(value@) ==> r is None,
    {
        match value {
            Value::Num(_) | Value::StrSet(_) | Value::NumSet(_) | Value::BinarySet(_) => {
                Some(AddAction { dst, value })
            },
            _ => None,
        }
    }
}

impl DeleteAction {
    /// The action that takes the members of `value` out of the set at `dst`;
    /// there is none unless the value is a set.
    pub fn new(dst: Path, value: Value) -> (r: Option<DeleteAction>)
        ensures
            deletable(value@) ==> r == Some(DeleteAction { dst, value }),
            !deletable(value@) ==> r is None,
    {
        match value {
            Value::StrSet(_) | Value::NumSet(_) | Value::BinarySet(_) => {
                Some(DeleteAction { dst, value })
            },
            _ => None,
        }
    }
}

/// The actions of one update expression.
#[derive(Debug, PartialEq, Eq)]
pub struct Update {
    pub set: Vec<SetAction>,
    pub remove: Vec<Path>,
    pub add: Vec<AddAction>,
    pub delete: Vec<DeleteAction>,
}

/// The path that an action reads: `src`, or else the destination.
pub open spec fn source(dst: Path, src: Option<Path>) -> Path {
    match src {
        Some(p) => p,
        None => dst,
    }
}

/// The text of one SET action, and the table after it. Tokens are taken
/// from left to right.
pub open spec fn set_action_text(a: SetAction, t: TableModel) -> (Seq<char>, TableModel) {
    match a {
        SetAction::Assign(x) => {
            let d = path_text(x.dst@, t);
            let v = operand_text(x.value, d.1);
            (d.0 + " = "@ + v.0, v.1)
        },
        SetAction::Math(x) => {
            let d = path_text(x.dst@, t);
            let s = path_text(source(x.dst, x.src)@, d.1);
            let n = value_or_ref_text(x.num, s.1);
            let op = if x.op == MathOp::Add { " + "@ } else { " - "@ };
            (d.0 + " = "@ + s.0 + op + n.0, n.1)
        },
        SetAction::ListAppend(x) => {
            let d = path_text(x.dst@, t);
            if x.before {
                let l = add_value(d.1, x.list@);
                let s = path_text(source(x.dst, x.src)@, l.0);
                (d.0 + " = list_append("@ + value_token(l.1) + ", "@ + s.0 + ")"@, s.1)
            } else {
                let s = path_text(source(x.dst, x.src)@, d.1);
                let l = add_value(s.1, x.list@);
                (d.0 + " = list_append("@ + s.0 + ", "@ + value_token(l.1) + ")"@, l.0)
            }
        },
        SetAction::IfNotExists(x) => {
            let d = path_text(x.dst@, t);
            let s = path_text(source(x.dst, x.src)@, d.1);
            let v = operand_text(x.default, s.1);
            (d.0 + " = if_not_exists("@ + s.0 + ", "@ + v.0 + ")"@, v.1)
        },
    }
}

/// The text of `dst value`, and the table after it.
pub open spec fn pair_text(dst: Path, v: Value, t: TableModel) -> (Seq<char>, TableModel) {
    let d = path_text(dst@, t);
    let a = add_value(d.1, v@);
    (d.0 + " "@ + value_token(a.1), a.0)
}

/// The `, `-separated texts of SET actions, and the table after them.
pub open spec fn set_actions_text(s: Seq<SetAction>, t: TableModel) -> (Seq<char>, TableModel)
    decreases s.len(),
{
    if s.len() == 0 {
        (Seq::empty(), t)
    } else {
        let r = set_actions_text(s.drop_last(), t);
        let o = set_action_text(s.last(), r.1);
        (if s.len() == 1 { o.0 } else { r.0 + ", "@ + o.0 }, o.1)
    }
}

/// The `, `-separated texts of paths, and the table after them.
pub open spec fn paths_text(s: Seq<Path>, t: TableModel) -> (Seq<char>, TableModel)
    decreases s.len(),
{
    if s.len() == 0 {
        (Seq::empty(), t)
    } else {
        let r = paths_text(s.drop_last(), t);
        let o = path_text(s.last()@, r.1);
        (if s.len() == 1 { o.0 } else { r.0 + ", "@ + o.0 }, o.1)
    }
}

/// The `, `-separated texts of ADD actions, and the table after them.
pub open spec fn add_actions_text(s: Seq<AddAction>, t: TableModel) -> (Seq<char>, TableModel)
    decreases s.len(),
{
    if s.len() == 0 {
        (Seq::empty(), t)
    } else {
        let r = add_actions_text(s.drop_last(), t);
        let o = pair_text(s.last().dst, s.last().value, r.1);
        (if s.len() == 1 { o.0 } else { r.0 + ", "@ + o.0 }, o.1)
    }
}

/// The `, `-separated texts of DELETE actions, and the table after them.
pub open spec fn delete_actions_text(s: Seq<DeleteAction>, t: TableModel) -> (Seq<char>, TableModel)
    decreases s.len(),
{
    if s.len() == 0 {
        (Seq::empty(), t)
    } else {
        let r = delete_actions_text(s.drop_last(), t);
        let o = pair_text(s.last().dst, s.last().value, r.1);
        (if s.len() == 1 { o.0 } else { r.0 + ", "@ + o.0 }, o.1)
    }
}

/// `text` after `sep`, unless `text` is empty.
pub open spec fn joined(text: Seq<char>, sep: Seq<char>) -> Seq<char> {
    if text.len() == 0 {
        Seq::empty()
    } else {
        sep
    }
}

/// The text of an update: its SET, REMOVE, ADD and DELETE clauses in that
/// order, separated by a space, each left out when it has no action; and the
/// table after it.
pub open spec fn update_text(u: Update, t: TableModel) -> (Seq<char>, TableModel) {
    let s = set_actions_text(u.set@, t);
    let c1 = if u.set@.len() == 0 { Seq::empty() } else { "SET "@ + s.0 };
    let r = paths_text(u.remove@, s.1);
    let c2 = if u.remove@.len() == 0 { c1 } else { c1 + joined(c1, " "@) + "REMOVE "@ + r.0 };
    let a = add_actions_text(u.add@, r.1);
    let c3 = if u.add@.len() == 0 { c2 } else { c2 + joined(c2, " "@) + "ADD "@ + a.0 };
    let d = delete_actions_text(u.delete@, a.1);
    let c4 = if u.delete@.len() == 0 { c3 } else { c3 + joined(c3, " "@) + "DELETE "@ + d.0 };
    (c4, d.1)
}

/// Whether no path is removed twice.
pub open spec fn removes_distinct(remove: Seq<Path>) -> bool {
    forall|i: int, j: int| 0 <= i < j < remove.len() ==> remove[i]@ != remove[j]@
}

impl Update {
    /// An update with no actions.
    pub fn new() -> (r: Update)
        ensures
            r.set@.len() == 0,
            r.remove@.len() == 0,
            r.add@.len() == 0,
            r.delete@.len() == 0,
    {
        Update { set: Vec::new(), remove: Vec::new(), add: Vec::new(), delete: Vec::new() }
    }

    /// Adds a SET action.
    pub fn with_set(self, a: SetAction) -> (r: Update)
        ensures
            r.set@ == self.set@.push(a),
            r.remove == self.remove,
            r.add == self.add,
            r.delete == self.delete,
    {
        let mut u = self;
        u.set.push(a);
        u
    }

    /// Adds a REMOVE of `p`, unless the same path is removed already.
    pub fn with_remove(self, p: Path) -> (r: Update)
        requires
            removes_distinct(self.remove@),
        ensures
            removes_distinct(r.remove@),
            (exists|i: int| 0 <= i < self.remove@.len() && self.remove@[i]@ == p@) ==> r.remove@
                == self.remove@,
            !(exists|i: int| 0 <= i < self.remove@.len() && self.remove@[i]@ == p@) ==> r.remove@
                == self.remove@.push(p),
            r.set == self.set,
            r.add == self.add,
            r.delete == self.delete,
    {
        let mut u = self;
        let mut i: usize = 0;
        while i < u.remove.len()
            invariant
                u == self,
                removes_distinct(self.remove@),
                i <= u.remove@.len(),
                forall|k: int| 0 <= k < i ==> u.remove@[k]@ != p@,
            decreases u.remove@.len() - i,
        {
            if u.remove[i].same_as(&p) {
                return u;
            }
            i = i + 1;
        }
        let ghost before = u.remove@;
        u.remove.push(p);
        assert forall|a: int, b: int| 0 <= a < b < u.remove@.len() implies u.remove@[a]@
            != u.remove@[b]@ by {
            if b < before.len() {
                assert(u.remove@[a] == before[a]);
                assert(u.remove@[b] == before[b]);
            } else {
                assert(u.remove@[a] == before[a]);
            }
        }
        u
    }

    /// Adds an ADD action.
    pub fn with_add(self, a: AddAction) -> (r: Update)
        ensures
            r.add@ == self.add@.push(a),
            r.set == self.set,
            r.remove == self.remove,
            r.delete == self.delete,
    {
        let mut u = self;
        u.add.push(a);
        u
    }

    /// Adds a DELETE action.
    pub fn with_delete(self, a: DeleteAction) -> (r: Update)
        ensures
            r.delete@ == self.delete@.push(a),
            r.set == self.set,
            r.remove == self.remove,
            r.add == self.add,
    {
        let mut u = self;
        u.delete.push(a);
        u
    }
}

fn render_source(dst: &Path, src: &Option<Path>, t: &mut Table, out: &mut String)
    requires
        table_wf(old(t)@),
    ensures
        final(out)@ == old(out)@ + path_text(source(*dst, *src)@, old(t)@).0,
        final(t)@ == path_text(source(*dst, *src)@, old(t)@).1,
        table_wf(final(t)@),
{
    match src {
        Some(p) => render_path(p, t, out),
        None => render_path(dst, t, out),
    }
}

fn render_pair(dst: &Path, v: &Value, t: &mut Table, out: &mut String)
    requires
        table_wf(old(t)@),
    ensures
        final(out)@ == old(out)@ + pair_text(*dst, *v, old(t)@).0,
        final(t)@ == pair_text(*dst, *v, old(t)@).1,
        table_wf(final(t)@),
{
    render_path(dst, t, out);
    out.append(" ");
    t.push_value_token(v, out);
    assert(final(out)@ =~= old(out)@ + pair_text(*dst, *v, old(t)@).0);
}

impl SetAction {
    /// Appends the text of this action.
    pub fn render(&self, t: &mut Table, out: &mut String)
        requires
            table_wf(old(t)@),
        ensures
            final(out)@ == old(out)@ + set_action_text(*self, old(t)@).0,
            final(t)@ == set_action_text(*self, old(t)@).1,
            table_wf(final(t)@),
    {
        let ghost o0 = out@;
        match self {
            SetAction::Assign(x) => {
                render_path(&x.dst, t, out);
                out.append(" = ");
                x.value.render(t, out);
                assert(out@ =~= o0 + set_action_text(*self, old(t)@).0);
            },
            SetAction::Math(x) => {
                render_path(&x.dst, t, out);
                out.append(" = ");
                render_source(&x.dst, &x.src, t, out);
                match x.op {
                    MathOp::Add => out.append(" + "),
                    MathOp::Sub => out.append(" - "),
                }
                render_value_or_ref(&x.num, t, out);
                assert(out@ =~= o0 + set_action_text(*self, old(t)@).0);
            },
            SetAction::ListAppend(x) => {
                render_path(&x.dst, t, out);
                out.append(" = list_append(");
                if x.before {
                    t.push_value_token(&x.list, out);
                    out.append(", ");
                    render_source(&x.dst, &x.src, t, out);
                } else {
                    render_source(&x.dst, &x.src, t, out);
                    out.append(", ");
                    t.push_value_token(&x.list, out);
                }
                out.append(")");
                assert(out@ =~= o0 + set_action_text(*self, old(t)@).0);
            },
            SetAction::IfNotExists(x) => {
                render_path(&x.dst, t, out);
                out.append(" = if_not_exists(");
                render_source(&x.dst, &x.src, t, out);
                out.append(", ");
                x.default.render(t, out);
                out.append(")");
                assert(out@ =~= o0 + set_action_text(*self, old(t)@).0);
            },
        }
    }
}

fn render_set_actions(items: &Vec<SetAction>, t: &mut Table, out: &mut String)
    requires
        table_wf(old(t)@),
    ensures
        final(out)@ == old(out)@ + set_actions_text(items@, old(t)@).0,
        final(t)@ == set_actions_text(items@, old(t)@).1,
        table_wf(final(t)@),
{
    let ghost t0 = t@;
    let ghost o0 = out@;
    let n = items.len();
    let mut i: usize = 0;
    assert(items@.subrange(0, 0) =~= Seq::<SetAction>::empty());
    while i < n
        invariant
            n == items@.len(),
            i <= n,
            table_wf(t@),
            out@ == o0 + set_actions_text(items@.subrange(0, i as int), t0).0,
            t@ == set_actions_text(items@.subrange(0, i as int), t0).1,
        decreases n - i,
    {
        let ghost q = items@.subrange(0, i + 1);
        assert(q.drop_last() =~= items@.subrange(0, i as int));
        if i > 0 {
            out.append(", ");
        }
        items[i].render(t, out);
        assert(out@ =~= o0 + set_actions_text(q, t0).0);
        i = i + 1;
    }
    assert(items@.subrange(0, n as int) =~= items@);
}

/// Appends the `, `-separated texts of `items`.
pub fn render_paths(items: &Vec<Path>, t: &mut Table, out: &mut String)
    requires
        table_wf(old(t)@),
    ensures
        final(out)@ == old(out)@ + paths_text(items@, old(t)@).0,
        final(t)@ == paths_text(items@, old(t)@).1,
        table_wf(final(t)@),
{
    let ghost t0 = t@;
    let ghost o0 = out@;
    let n = items.len();
    let mut i: usize = 0;
    assert(items@.subrange(0, 0) =~= Seq::<Path>::empty());
    while i < n
        invariant
            n == items@.len(),
            i <= n,
            table_wf(t@),
            out@ == o0 + paths_text(items@.subrange(0, i as int), t0).0,
            t@ == paths_text(items@.subrange(0, i as int), t0).1,
        decreases n - i,
    {
        let ghost q = items@.subrange(0, i + 1);
        assert(q.drop_last() =~= items@.subrange(0, i as int));
        if i > 0 {
            out.append(", ");
        }
        render_path(&items[i], t, out);
        assert(out@ =~= o0 + paths_text(q, t0).0);
        i = i + 1;
    }
    assert(items@.subrange(0, n as int) =~= items@);
}

fn render_add_actions(items: &Vec<AddAction>, t: &mut Table, out: &mut String)
    requires
        table_wf(old(t)@),
    ensures
        final(out)@ == old(out)@ + add_actions_text(items@, old(t)@).0,
        final(t)@ == add_actions_text(items@, old(t)@).1,
        table_wf(final(t)@),
{
    let ghost t0 = t@;
    let ghost o0 = out@;
    let n = items.len();
    let mut i: usize = 0;
    assert(items@.subrange(0, 0) =~= Seq::<AddAction>::empty());
    while i < n
        invariant
            n == items@.len(),
            i <= n,
            table_wf(t@),
            out@ == o0 + add_actions_text(items@.subrange(0, i as int), t0).0,
            t@ == add_actions_text(items@.subrange(0, i as int), t0).1,
        decreases n - i,
    {
        let ghost q = items@.subrange(0, i + 1);
        assert(q.drop_last() =~= items@.subrange(0, i as int));
        if i > 0 {
            out.append(", ");
        }
        render_pair(&items[i].dst, &items[i].value, t, out);
        assert(out@ =~= o0 + add_actions_text(q, t0).0);
        i = i + 1;
    }
    assert(items@.subrange(0, n as int) =~= items@);
}

fn render_delete_actions(items: &Vec<DeleteAction>, t: &mut Table, out: &mut String)
    requires
        table_wf(old(t)@),
    ensures
        final(out)@ == old(out)@ + delete_actions_text(items@, old(t)@).0,
        final(t)@ == delete_actions_text(items@, old(t)@).1,
        table_wf(final(t)@),
{
    let ghost t0 = t@;
    let ghost o0 = out@;
    let n = items.len();
    let mut i: usize = 0;
    assert(items@.subrange(0, 0) =~= Seq::<DeleteAction>::empty());
    while i < n
        invariant
            n == items@.len(),
            i <= n,
            table_wf(t@),
            out@ == o0 + delete_actions_text(items@.subrange(0, i as int), t0).0,
            t@ == delete_actions_text(items@.subrange(0, i as int), t0).1,
        decreases n - i,
    {
        let ghost q = items@.subrange(0, i + 1);
        assert(q.drop_last() =~= items@.subrange(0, i as int));
        if i > 0 {
            out.append(", ");
        }
        render_pair(&items[i].dst, &items[i].value, t, out);
        assert(out@ =~= o0 + delete_actions_text(q, t0).0);
        i = i + 1;
    }
    assert(items@.subrange(0, n as int) =~= items@);
}

impl Update {
    /// Appends the text of this update.
    #[verifier::rlimit(50)]
    pub fn render(&self, t: &mut Table, out: &mut String)
        requires
            table_wf(old(t)@),
        ensures
            final(out)@ == old(out)@ + update_text(*self, old(t)@).0,
            final(t)@ == update_text(*self, old(t)@).1,
            table_wf(final(t)@),
    {
        proof {
            reveal_strlit("SET ");
            reveal_strlit("REMOVE ");
            reveal_strlit("ADD ");
        }
        let ghost o0 = out@;
        let ghost t0 = t@;
        let ghost s = set_actions_text(self.set@, t0);
        let ghost c1 = if self.set@.len() == 0 { Seq::<char>::empty() } else { "SET "@ + s.0 };
        let ghost r = paths_text(self.remove@, s.1);
        let ghost c2 = if self.remove@.len() == 0 { c1 } else { c1 + joined(c1, " "@) + "REMOVE "@ + r.0 };
        let ghost a = add_actions_text(self.add@, r.1);
        let ghost c3 = if self.add@.len() == 0 { c2 } else { c2 + joined(c2, " "@) + "ADD "@ + a.0 };
        let mut any = false;
        if self.set.len() > 0 {
            out.append("SET ");
            render_set_actions(&self.set, t, out);
            any = true;
        } else {
            assert(self.set@ =~= Seq::<SetAction>::empty());
        }
        assert(out@ =~= o0 + c1);
        assert(any == (c1.len() > 0));
        if self.remove.len() > 0 {
            if any {
                out.append(" ");
            }
            out.append("REMOVE ");
            render_paths(&self.remove, t, out);
            any = true;
        } else {
            assert(self.remove@ =~= Seq::<Path>::empty());
        }
        assert(out@ =~= o0 + c2);
        assert(any == (c2.len() > 0));
        if self.add.len() > 0 {
            if any {
                out.append(" ");
            }
            out.append("ADD ");
            render_add_actions(&self.add, t, out);
            any = true;
        } else {
            assert(self.add@ =~= Seq::<AddAction>::empty());
        }
        assert(out@ =~= o0 + c3);
        assert(any == (c3.len() > 0));
        if self.delete.len() > 0 {
            if any {
                out.append(" ");
            }
            out.append("DELETE ");
            render_delete_actions(&self.delete, t, out);
        } else {
            assert(self.delete@ =~= Seq::<DeleteAction>::empty());
        }
        assert(out@ =~= o0 + update_text(*self, old(t)@).0);
    }
}

} // verus!
