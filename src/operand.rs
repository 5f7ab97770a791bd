//! Operands, and how paths and operands are written through the table.
use vstd::prelude::*;

use crate::path::{push_indexes, render_indexes, Path, Segment};
use crate::table::{add_name, add_value, name_token, table_wf, value_token, Table, TableModel};
use crate::text::push_char;
use crate::value::{Value, ValueOrRef};

verus! {

/// What a condition compares or an update assigns: a path, a value, or the
/// size of what a path holds.
#[derive(Debug, PartialEq, Eq)]
pub enum Operand {
    Path(Path),
    Value(ValueOrRef),
    Size(Path),
}

impl Operand {
    /// The operand that reads a path.
    pub fn from_path(p: Path) -> (r: Operand)
        ensures
            r == Operand::Path(p),
    {
        Operand::Path(p)
    }

    /// The operand of a literal value.
    pub fn from_value(v: Value) -> (r: Operand)
        ensures
            r == Operand::Value(ValueOrRef::Value(v)),
    {
        Operand::Value(ValueOrRef::Value(v))
    }

    /// The operand of a literal value or a reference to one.
    pub fn from_ref(v: ValueOrRef) -> (r: Operand)
        ensures
            r == Operand::Value(v),
    {
        Operand::Value(v)
    }

    /// The size of what the path holds.
    pub fn size(p: Path) -> (r: Operand)
        ensures
            r == Operand::Size(p),
    {
        Operand::Size(p)
    }
}

/// The name of a segment.
pub open spec fn seg_name(e: Segment) -> Seq<char> {
    match e {
        Segment::Plain(n) => n,
        Segment::Indexed(n, _) => n,
    }
}

/// What follows the name of a segment: its indexes.
pub open spec fn seg_suffix(e: Segment) -> Seq<char> {
    match e {
        Segment::Plain(_) => Seq::empty(),
        Segment::Indexed(_, idx) => render_indexes(idx),
    }
}

/// The text of a path with each name replaced by its token, and the table
/// after it.
pub open spec fn path_text(p: Seq<Segment>, t: TableModel) -> (Seq<char>, TableModel)
    decreases p.len(),
{
    if p.len() == 0 {
        (Seq::empty(), t)
    } else {
        let r = path_text(p.drop_last(), t);
        let a = add_name(r.1, seg_name(p.last()));
        let piece = name_token(a.1) + seg_suffix(p.last());
        (if p.len() == 1 { piece } else { r.0 + seq!['.'] + piece }, a.0)
    }
}

/// The text of a value or a reference, and the table after it.
pub open spec fn value_or_ref_text(v: ValueOrRef, t: TableModel) -> (Seq<char>, TableModel) {
    match v {
        ValueOrRef::Value(x) => {
            let a = add_value(t, x@);
            (value_token(a.1), a.0)
        },
        ValueOrRef::Ref(s) => (seq![':'] + s@, t),
    }
}

/// The text of an operand, and the table after it.
pub open spec fn operand_text(o: Operand, t: TableModel) -> (Seq<char>, TableModel) {
    match o {
        Operand::Path(p) => path_text(p@, t),
        Operand::Value(v) => value_or_ref_text(v, t),
        Operand::Size(p) => {
            let r = path_text(p@, t);
            ("size("@ + r.0 + ")"@, r.1)
        },
    }
}

/// Appends the text of `p` with its names replaced by tokens.
pub fn render_path(p: &Path, t: &mut Table, out: &mut String)
    requires
        table_wf(old(t)@),
    ensures
        final(out)@ == old(out)@ + path_text(p@, old(t)@).0,
        final(t)@ == path_text(p@, old(t)@).1,
        table_wf(final(t)@),
{
    let ghost t0 = t@;
    let ghost o0 = out@;
    let n = p.path.len();
    let mut i: usize = 0;
    assert(p@.subrange(0, 0) =~= Seq::<Segment>::empty());
    while i < n
        invariant
            n == p.path@.len(),
            i <= n,
            table_wf(t@),
            out@ == o0 + path_text(p@.subrange(0, i as int), t0).0,
            t@ == path_text(p@.subrange(0, i as int), t0).1,
        decreases n - i,
    {
        let ghost q = p@.subrange(0, i + 1);
        assert(q.drop_last() =~= p@.subrange(0, i as int));
        assert(q.last() == p.path@[i as int]@);
        let ghost before = out@;
        if i > 0 {
            push_char(out, '.');
        }
        let ghost mid = out@;
        match &p.path[i] {
            crate::path::Element::Name(nm) => {
                t.push_name_token(&nm.name, out);
                assert(out@ =~= mid + name_token(add_name(path_text(q.drop_last(), t0).1, seg_name(q.last())).1) + seg_suffix(q.last()));
            },
            crate::path::Element::IndexedField(f) => {
                t.push_name_token(&f.name.name, out);
                push_indexes(out, &f.indexes);
                assert(out@ =~= mid + name_token(add_name(path_text(q.drop_last(), t0).1, seg_name(q.last())).1) + seg_suffix(q.last()));
            },
        }
        assert(out@ =~= o0 + path_text(q, t0).0);
        i = i + 1;
    }
    assert(p@.subrange(0, n as int) =~= p@);
}

/// Appends the text of a value or reference.
pub fn render_value_or_ref(v: &ValueOrRef, t: &mut Table, out: &mut String)
    requires
        table_wf(old(t)@),
    ensures
        final(out)@ == old(out)@ + value_or_ref_text(*v, old(t)@).0,
        final(t)@ == value_or_ref_text(*v, old(t)@).1,
        table_wf(final(t)@),
{
    match v {
        ValueOrRef::Value(x) => {
            t.push_value_token(x, out);
        },
        ValueOrRef::Ref(s) => {
            push_char(out, ':');
            out.append(s.as_str());
            assert(final(out)@ =~= old(out)@ + value_or_ref_text(*v, old(t)@).0);
        },
    }
}

impl Operand {
    /// Appends the text of this operand, with names and values replaced by
    /// tokens.
    pub fn render(&self, t: &mut Table, out: &mut String)
        requires
            table_wf(old(t)@),
        ensures
            final(out)@ == old(out)@ + operand_text(*self, old(t)@).0,
            final(t)@ == operand_text(*self, old(t)@).1,
            table_wf(final(t)@),
    {
        match self {
            Operand::Path(p) => render_path(p, t, out),
            Operand::Value(v) => render_value_or_ref(v, t, out),
            Operand::Size(p) => {
                out.append("size(");
                render_path(p, t, out);
                out.append(")");
                assert(final(out)@ =~= old(out)@ + operand_text(*self, old(t)@).0);
            },
        }
    }
}

} // verus!
