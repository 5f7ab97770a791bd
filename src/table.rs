//! The substitution table: tokens for attribute names and literal values.
use vstd::prelude::*;

use crate::text::{decimal, push_char, push_decimal};
use crate::value::{Value, ValueModel};

verus! {

/// The mathematical form of a substitution table: the names and the values
/// registered so far, each at the position that its token numbers.
pub struct TableModel {
    pub names: Seq<Seq<char>>,
    pub values: Seq<ValueModel>,
}

/// The position of `x` in `s`, or the length of `s` when it is absent.
pub open spec fn position<A>(s: Seq<A>, x: A) -> nat {
    if s.contains(x) {
        (choose|i: int| 0 <= i < s.len() && s[i] == x) as nat
    } else {
        s.len()
    }
}

/// `s` with `x` added at the end, unless it is there already.
pub open spec fn with_item<A>(s: Seq<A>, x: A) -> Seq<A> {
    if s.contains(x) {
        s
    } else {
        s.push(x)
    }
}

/// The table after looking up attribute name `n`, and the number of its token.
pub open spec fn add_name(t: TableModel, n: Seq<char>) -> (TableModel, nat) {
    (TableModel { names: with_item(t.names, n), values: t.values }, position(t.names, n))
}

/// The table after looking up value `v`, and the number of its token.
pub open spec fn add_value(t: TableModel, v: ValueModel) -> (TableModel, nat) {
    (TableModel { names: t.names, values: with_item(t.values, v) }, position(t.values, v))
}

/// The text of name token number `i`: `#i`.
pub open spec fn name_token(i: nat) -> Seq<char> {
    seq!['#'] + decimal(i)
}

/// The text of value token number `i`: `:i`.
pub open spec fn value_token(i: nat) -> Seq<char> {
    seq![':'] + decimal(i)
}

/// The empty table.
pub open spec fn empty_table() -> TableModel {
    TableModel { names: Seq::empty(), values: Seq::empty() }
}

/// Whether each name and each value has one token only.
pub open spec fn table_wf(t: TableModel) -> bool {
    t.names.no_duplicates() && t.values.no_duplicates()
}

/// Assigns and remembers the tokens of the names and values of one
/// compilation.
pub struct Table {
    pub(crate) names: Vec<String>,
    pub(crate) values: Vec<Value>,
}

/// The texts of a list of names.
pub open spec fn name_views(v: Seq<String>) -> Seq<Seq<char>> {
    v.map_values(|s: String| s@)
}

/// The forms of a list of values.
pub open spec fn value_views(v: Seq<Value>) -> Seq<ValueModel> {
    v.map_values(|x: Value| x@)
}

impl View for Table {
    type V = TableModel;

    closed spec fn view(&self) -> TableModel {
        TableModel { names: name_views(self.names@), values: value_views(self.values@) }
    }
}

proof fn lemma_position_found<A>(s: Seq<A>, x: A, j: int)
    requires
        s.no_duplicates(),
        0 <= j < s.len(),
        s[j] == x,
    ensures
        position(s, x) == j,
{
    assert(s.contains(x));
    let i = choose|i: int| 0 <= i < s.len() && s[i] == x;
    assert(s[i] == s[j]);
}

proof fn lemma_with_item_no_dup<A>(s: Seq<A>, x: A)
    requires
        s.no_duplicates(),
    ensures
        with_item(s, x).no_duplicates(),
{
    if !s.contains(x) {
        assert forall|i: int, j: int|
            0 <= i < s.push(x).len() && 0 <= j < s.push(x).len() && i != j implies s.push(x)[i] != s.push(x)[j] by {
            if i < s.len() && j < s.len() {
                assert(s.push(x)[i] == s[i]);
                assert(s.push(x)[j] == s[j]);
            } else if i < s.len() {
                assert(s.push(x)[i] == s[i]);
            } else if j < s.len() {
                assert(s.push(x)[j] == s[j]);
            }
        }
    }
}

impl Table {
    /// A table with no names and no values.
    pub fn new() -> (r: Table)
        ensures
            r@ == empty_table(),
            table_wf(r@),
    {
        let r = Table { names: Vec::new(), values: Vec::new() };
        assert(r@.names =~= Seq::<Seq<char>>::empty());
        assert(r@.values =~= Seq::<ValueModel>::empty());
        r
    }

    /// The number of the token of attribute name `n`, registering it when it
    /// is new.
    pub fn name_index(&mut self, n: &String) -> (i: usize)
        requires
            table_wf(old(self)@),
        ensures
            (final(self)@, i as nat) == add_name(old(self)@, n@),
            table_wf(final(self)@),
    {
        let ghost names = self@.names;
        let mut j: usize = 0;
        while j < self.names.len()
            invariant
                j <= self.names@.len(),
                names == name_views(self.names@),
                names.no_duplicates(),
                table_wf(self@),
                forall|k: int| 0 <= k < j ==> names[k] != n@,
            decreases self.names@.len() - j,
        {
            if self.names[j] == *n {
                proof {
                    assert(names[j as int] == n@);
                    lemma_position_found(names, n@, j as int);
                }
                return j;
            }
            j = j + 1;
        }
        assert(!names.contains(n@));
        let i = self.names.len();
        self.names.push(n.clone());
        proof {
            lemma_with_item_no_dup(names, n@);
            assert(name_views(self.names@) =~= names.push(n@));
        }
        i
    }

    /// The number of the token of value `v`, registering a copy of it when
    /// no value the same as it is registered.
    pub fn value_index(&mut self, v: &Value) -> (i: usize)
        requires
            table_wf(old(self)@),
        ensures
            (final(self)@, i as nat) == add_value(old(self)@, v@),
            table_wf(final(self)@),
    {
        let ghost values = self@.values;
        let mut j: usize = 0;
        while j < self.values.len()
            invariant
                j <= self.values@.len(),
                values == value_views(self.values@),
                values.no_duplicates(),
                table_wf(self@),
                forall|k: int| 0 <= k < j ==> values[k] != v@,
            decreases self.values@.len() - j,
        {
            if self.values[j].same_as(v) {
                proof {
                    assert(values[j as int] == v@);
                    lemma_position_found(values, v@, j as int);
                }
                return j;
            }
            j = j + 1;
        }
        assert(!values.contains(v@));
        let i = self.values.len();
        self.values.push(v.copy());
        proof {
            lemma_with_item_no_dup(values, v@);
            assert(value_views(self.values@) =~= values.push(v@));
        }
        i
    }

    /// Appends the token of attribute name `n`.
    pub fn push_name_token(&mut self, n: &String, out: &mut String)
        requires
            table_wf(old(self)@),
        ensures
            final(out)@ == old(out)@ + name_token(add_name(old(self)@, n@).1),
            final(self)@ == add_name(old(self)@, n@).0,
            table_wf(final(self)@),
    {
        let i = self.name_index(n);
        push_char(out, '#');
        push_decimal(out, i as u64);
        assert(final(out)@ =~= old(out)@ + name_token(i as nat));
    }

    /// Appends the token of value `v`.
    pub fn push_value_token(&mut self, v: &Value, out: &mut String)
        requires
            table_wf(old(self)@),
        ensures
            final(out)@ == old(out)@ + value_token(add_value(old(self)@, v@).1),
            final(self)@ == add_value(old(self)@, v@).0,
            table_wf(final(self)@),
    {
        let i = self.value_index(v);
        push_char(out, ':');
        push_decimal(out, i as u64);
        assert(final(out)@ =~= old(out)@ + value_token(i as nat));
    }
}


/// The entries of the name map of table `t`: token `#i` for the `i`-th name.
pub open spec fn name_entries_match(entries: Seq<(String, String)>, t: TableModel) -> bool {
    &&& entries.len() == t.names.len()
    &&& forall|i: int|
        0 <= i < entries.len() ==> (#[trigger] entries[i]).0@ == name_token(i as nat) && entries[i].1@
            == t.names[i]
}

/// The entries of the value map of table `t`: token `:i` for the `i`-th value.
pub open spec fn value_entries_match(entries: Seq<(String, Value)>, t: TableModel) -> bool {
    &&& entries.len() == t.values.len()
    &&& forall|i: int|
        0 <= i < entries.len() ==> (#[trigger] entries[i]).0@ == value_token(i as nat) && entries[i].1@
            == t.values[i]
}

impl Table {
    /// The name map and the value map, each in the order of the tokens.
    pub fn finish(self) -> (r: (Vec<(String, String)>, Vec<(String, Value)>))
        ensures
            name_entries_match(r.0@, self@),
            value_entries_match(r.1@, self@),
    {
        let mut names: Vec<(String, String)> = Vec::new();
        let mut i: usize = 0;
        while i < self.names.len()
            invariant
                i <= self.names@.len(),
                names@.len() == i,
                forall|k: int|
                    0 <= k < i ==> (#[trigger] names@[k]).0@ == name_token(k as nat) && names@[k].1@
                        == self.names@[k]@,
            decreases self.names@.len() - i,
        {
            let mut token = String::new();
            push_char(&mut token, '#');
            push_decimal(&mut token, i as u64);
            assert(token@ =~= name_token(i as nat));
            names.push((token, self.names[i].clone()));
            i = i + 1;
        }
        let mut values: Vec<(String, Value)> = Vec::new();
        let mut j: usize = 0;
        while j < self.values.len()
            invariant
                j <= self.values@.len(),
                values@.len() == j,
                forall|k: int|
                    0 <= k < j ==> (#[trigger] values@[k]).0@ == value_token(k as nat) && values@[k].1@
                        == self.values@[k]@,
            decreases self.values@.len() - j,
        {
            let mut token = String::new();
            push_char(&mut token, ':');
            push_decimal(&mut token, j as u64);
            assert(token@ =~= value_token(j as nat));
            values.push((token, self.values[j].copy()));
            j = j + 1;
        }
        (names, values)
    }
}

} // verus!
