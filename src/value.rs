//! Literal values that expressions compare against or assign.
use vstd::prelude::*;

use vstd::string::*;

use crate::text::{all_digits, digit_of, is_digit, push_char, push_decimal};

verus! {

/// A number, kept as its decimal text so that no precision is lost.
#[derive(Debug, Clone, PartialEq, Eq, Hash)]
pub struct Num {
    n: String,
}

impl View for Num {
    type V = Seq<char>;

    closed spec fn view(&self) -> Seq<char> {
        self.n@
    }
}

impl Num {
    /// A number written as a plain decimal (an optional `-`, digits, and
    /// optionally `.` and more digits), such as `2.5`, kept in its canonical
    /// form; there is none for other text.
    pub fn new(text: &str) -> (r: Option<Num>)
        ensures
            plain_decimal(text@) ==> (r matches Some(n) && n@ == canonical_number(text@)),
            !plain_decimal(text@) ==> r is None,
    {
        match canonical_text(text) {
            Some(n) => Some(Num { n }),
            None => None,
        }
    }

    /// The number `n`, in decimal.
    pub fn from_u32(n: u32) -> (r: Num)
        ensures
            r@ == crate::text::decimal(n as nat),
    {
        let mut s = String::new();
        push_decimal(&mut s, n as u64);
        assert(s@ =~= crate::text::decimal(n as nat));
        Num { n: s }
    }

    /// The decimal text of this number.
    pub fn as_str(&self) -> (r: &str)
        ensures
            r@ == self@,
    {
        self.n.as_str()
    }
}

/// `d` without its leading zeros.
pub open spec fn trim_leading_zeros(d: Seq<char>) -> Seq<char>
    decreases d.len(),
{
    if d.len() > 0 && d[0] == '0' {
        trim_leading_zeros(d.drop_first())
    } else {
        d
    }
}

/// `d` without its trailing zeros.
pub open spec fn trim_trailing_zeros(d: Seq<char>) -> Seq<char>
    decreases d.len(),
{
    if d.len() > 0 && d.last() == '0' {
        trim_trailing_zeros(d.drop_last())
    } else {
        d
    }
}

/// The position of the first `.` in `s`, or its length.
pub open spec fn dot_index(s: Seq<char>) -> int
    decreases s.len(),
{
    if s.len() == 0 {
        0
    } else if s[0] == '.' {
        0
    } else {
        1 + dot_index(s.drop_first())
    }
}

/// Whether the text starts with `-`.
pub open spec fn negative(s: Seq<char>) -> bool {
    s.len() > 0 && s[0] == '-'
}

/// The text after the sign.
pub open spec fn unsigned_part(s: Seq<char>) -> Seq<char> {
    if negative(s) { s.drop_first() } else { s }
}

/// The digits before the point.
pub open spec fn int_part(s: Seq<char>) -> Seq<char> {
    unsigned_part(s).subrange(0, dot_index(unsigned_part(s)))
}

/// Whether the text has a point.
pub open spec fn has_point(s: Seq<char>) -> bool {
    dot_index(unsigned_part(s)) < unsigned_part(s).len()
}

/// The digits after the point.
pub open spec fn frac_part(s: Seq<char>) -> Seq<char> {
    if has_point(s) {
        unsigned_part(s).subrange(dot_index(unsigned_part(s)) + 1, unsigned_part(s).len() as int)
    } else {
        Seq::empty()
    }
}

/// Whether the text is a plain decimal: an optional `-`, one or more
/// digits, and optionally a point followed by one or more digits.
pub open spec fn plain_decimal(s: Seq<char>) -> bool {
    &&& int_part(s).len() > 0
    &&& all_digits(int_part(s))
    &&& has_point(s) ==> frac_part(s).len() > 0 && all_digits(frac_part(s))
}

/// The canonical text of a plain decimal: no leading zeros before the
/// point (but one `0`), no trailing zeros after it, no point without digits
/// after it, and no sign on zero.
pub open spec fn canonical_number(s: Seq<char>) -> Seq<char> {
    {
        let ip = trim_leading_zeros(int_part(s));
        let fp = trim_trailing_zeros(frac_part(s));
        let sign = if negative(s) && !(ip.len() == 0 && fp.len() == 0) {
            seq!['-']
        } else {
            Seq::empty()
        };
        let whole = if ip.len() == 0 { seq!['0'] } else { ip };
        let tail = if fp.len() > 0 { seq!['.'] + fp } else { Seq::empty() };
        sign + whole + tail
    }
}

proof fn lemma_dot_index(s: Seq<char>, j: int)
    requires
        0 <= j <= s.len(),
        forall|k: int| 0 <= k < j ==> s[k] != '.',
        j == s.len() || s[j] == '.',
    ensures
        dot_index(s) == j,
    decreases j,
{
    if j > 0 {
        lemma_dot_index(s.drop_first(), j - 1);
    }
}

proof fn lemma_trim_leading(d: Seq<char>, a: int)
    requires
        0 <= a <= d.len(),
        forall|k: int| 0 <= k < a ==> d[k] == '0',
    ensures
        trim_leading_zeros(d) == trim_leading_zeros(d.subrange(a, d.len() as int)),
    decreases a,
{
    if a > 0 {
        lemma_trim_leading(d.drop_first(), a - 1);
        assert(d.drop_first().subrange(a - 1, d.len() - 1) =~= d.subrange(a, d.len() as int));
    } else {
        assert(d.subrange(0, d.len() as int) =~= d);
    }
}

proof fn lemma_trim_trailing(d: Seq<char>, b: int)
    requires
        0 <= b <= d.len(),
        forall|k: int| b <= k < d.len() ==> d[k] == '0',
    ensures
        trim_trailing_zeros(d) == trim_trailing_zeros(d.subrange(0, b)),
    decreases d.len() - b,
{
    if b < d.len() {
        lemma_trim_trailing(d.drop_last(), b);
        assert(d.drop_last().subrange(0, b) =~= d.subrange(0, b));
    } else {
        assert(d.subrange(0, d.len() as int) =~= d);
    }
}

fn all_digits_in(s: &str, from: usize, to: usize) -> (r: bool)
    requires
        from <= to <= s@.len(),
    ensures
        r == all_digits(s@.subrange(from as int, to as int)),
{
    let mut i = from;
    while i < to
        invariant
            from <= i <= to <= s@.len(),
            forall|k: int| from <= k < i ==> is_digit(s@[k]),
        decreases to - i,
    {
        let c = s.get_char(i);
        if digit_of(c).is_none() {
            assert(s@.subrange(from as int, to as int)[i - from] == c);
            return false;
        }
        i = i + 1;
    }
    assert forall|k: int| 0 <= k < to - from implies is_digit(#[trigger] s@.subrange(from as int, to as int)[k]) by {
        assert(s@.subrange(from as int, to as int)[k] == s@[from + k]);
    }
    true
}

/// Where the parts of a number's text lie: the start and end of the digits
/// before the point, and the start of those after it.
fn number_layout(text: &str) -> (r: (usize, usize, usize))
    ensures
        r.0 <= r.1 <= r.2 <= text@.len(),
        r.0 == (if negative(text@) { 1usize } else { 0usize }),
        text@.subrange(r.0 as int, r.1 as int) == int_part(text@),
        text@.subrange(r.2 as int, text@.len() as int) == frac_part(text@),
        has_point(text@) == (r.1 < text@.len()),
        has_point(text@) ==> r.2 == r.1 + 1,
{
    let ghost s = text@;
    let len = text.unicode_len();
    let neg = len > 0 && text.get_char(0) == '-';
    let start: usize = if neg { 1 } else { 0 };
    let ghost u = unsigned_part(s);
    assert(u =~= s.subrange(start as int, len as int));
    let mut dot = start;
    while dot < len && text.get_char(dot) != '.'
        invariant
            start <= dot <= len == s.len(),
            s == text@,
            forall|k: int| start <= k < dot ==> s[k] != '.',
        decreases len - dot,
    {
        dot = dot + 1;
    }
    proof {
        assert forall|k: int| 0 <= k < dot - start implies u[k] != '.' by {
            assert(u[k] == s[start + k]);
        }
        lemma_dot_index(u, dot - start);
    }
    let frac_start: usize = if dot < len { dot + 1 } else { len };
    assert(int_part(s) =~= s.subrange(start as int, dot as int));
    assert(frac_part(s) =~= s.subrange(frac_start as int, len as int));
    (start, dot, frac_start)
}

/// Where the digits `text[from..to]` begin once leading zeros are dropped.
fn skip_leading_zeros(text: &str, from: usize, to: usize) -> (a: usize)
    requires
        from <= to <= text@.len(),
    ensures
        from <= a <= to,
        trim_leading_zeros(text@.subrange(from as int, to as int)) == text@.subrange(a as int, to as int),
{
    let ghost d = text@.subrange(from as int, to as int);
    let mut a = from;
    while a < to && text.get_char(a) == '0'
        invariant
            from <= a <= to <= text@.len(),
            d == text@.subrange(from as int, to as int),
            forall|k: int| from <= k < a ==> text@[k] == '0',
        decreases to - a,
    {
        a = a + 1;
    }
    proof {
        assert forall|k: int| 0 <= k < a - from implies d[k] == '0' by {
            assert(d[k] == text@[from + k]);
        }
        lemma_trim_leading(d, a - from);
        let rest = d.subrange(a - from, d.len() as int);
        assert(rest =~= text@.subrange(a as int, to as int));
        if rest.len() > 0 {
            assert(rest[0] == text@[a as int]);
        }
    }
    a
}

/// Where the digits `text[from..to]` end once trailing zeros are dropped.
fn skip_trailing_zeros(text: &str, from: usize, to: usize) -> (b: usize)
    requires
        from <= to <= text@.len(),
    ensures
        from <= b <= to,
        trim_trailing_zeros(text@.subrange(from as int, to as int)) == text@.subrange(from as int, b as int),
{
    let ghost d = text@.subrange(from as int, to as int);
    let mut b = to;
    while b > from && text.get_char(b - 1) == '0'
        invariant
            from <= b <= to <= text@.len(),
            d == text@.subrange(from as int, to as int),
            forall|k: int| b <= k < to ==> text@[k] == '0',
        decreases b - from,
    {
        b = b - 1;
    }
    proof {
        assert forall|k: int| b - from <= k < d.len() implies d[k] == '0' by {
            assert(d[k] == text@[from + k]);
        }
        lemma_trim_trailing(d, b - from);
        let rest = d.subrange(0, b - from);
        assert(rest =~= text@.subrange(from as int, b as int));
        if rest.len() > 0 {
            assert(rest.last() == text@[b - 1]);
        }
    }
    b
}

/// The canonical text of a number written as `text`.
fn canonical_text(text: &str) -> (r: Option<String>)
    ensures
        plain_decimal(text@) ==> (r matches Some(n) && n@ == canonical_number(text@)),
        !plain_decimal(text@) ==> r is None,
{
    let len = text.unicode_len();
    let (start, dot, frac_start) = number_layout(text);
    let point = dot < len;
    let plain = dot > start && all_digits_in(text, start, dot) && (!point || (frac_start < len
        && all_digits_in(text, frac_start, len)));
    if !plain {
        return None;
    }
    let a = skip_leading_zeros(text, start, dot);
    let b = skip_trailing_zeros(text, frac_start, len);
    let mut out = String::new();
    if start == 1 && !(a == dot && b == frac_start) {
        push_char(&mut out, '-');
    }
    if a == dot {
        push_char(&mut out, '0');
    } else {
        out.append(text.substring_char(a, dot));
    }
    if b > frac_start {
        push_char(&mut out, '.');
        out.append(text.substring_char(frac_start, b));
    }
    assert(out@ =~= canonical_number(text@));
    Some(out)
}

/// A literal value.
#[derive(Debug, PartialEq, Eq)]
pub enum Value {
    Str(String),
    Num(Num),
    Binary(Vec<u8>),
    Bool(bool),
    Null,
    StrSet(Vec<String>),
    NumSet(Vec<Num>),
    BinarySet(Vec<Vec<u8>>),
    List(Vec<Value>),
    /// Named values; two of them are the same when their entries agree in
    /// order.
    Document(Vec<(String, Value)>),
}

/// The mathematical form of a value: sets have no order.
pub enum ValueModel {
    Str(Seq<char>),
    Num(Seq<char>),
    Binary(Seq<u8>),
    Bool(bool),
    Null,
    StrSet(Set<Seq<char>>),
    NumSet(Set<Seq<char>>),
    BinarySet(Set<Seq<u8>>),
    List(Seq<ValueModel>),
    Document(Seq<(Seq<char>, ValueModel)>),
}

/// The texts of a list of strings, as a set.
pub open spec fn str_set(v: Seq<String>) -> Set<Seq<char>> {
    str_views(v).to_set()
}

/// The texts of a list of strings.
pub open spec fn str_views(v: Seq<String>) -> Seq<Seq<char>> {
    v.map_values(|s: String| s@)
}

/// The texts of a list of numbers.
pub open spec fn num_views(v: Seq<Num>) -> Seq<Seq<char>> {
    v.map_values(|s: Num| s@)
}

/// The contents of a list of byte strings.
pub open spec fn bytes_views(v: Seq<Vec<u8>>) -> Seq<Seq<u8>> {
    v.map_values(|s: Vec<u8>| s@)
}

/// The texts of a list of numbers, as a set.
pub open spec fn num_set_of(v: Seq<Num>) -> Set<Seq<char>> {
    num_views(v).to_set()
}

/// The byte strings of a list, as a set.
pub open spec fn bytes_set(v: Seq<Vec<u8>>) -> Set<Seq<u8>> {
    bytes_views(v).to_set()
}

/// The forms of a list of values.
pub open spec fn values_view(l: Seq<Value>) -> Seq<ValueModel>
    decreases l,
{
    if l.len() == 0 {
        Seq::empty()
    } else {
        values_view(l.drop_last()).push(value_view(l.last()))
    }
}

/// The forms of a list of named values.
pub open spec fn entries_view(l: Seq<(String, Value)>) -> Seq<(Seq<char>, ValueModel)>
    decreases l,
{
    if l.len() == 0 {
        Seq::empty()
    } else {
        entries_view(l.drop_last()).push((l.last().0@, value_view(l.last().1)))
    }
}

/// The form of a value.
pub open spec fn value_view(v: Value) -> ValueModel
    decreases v,
{
    match v {
        Value::Str(s) => ValueModel::Str(s@),
        Value::Num(n) => ValueModel::Num(n@),
        Value::Binary(b) => ValueModel::Binary(b@),
        Value::Bool(b) => ValueModel::Bool(b),
        Value::Null => ValueModel::Null,
        Value::StrSet(s) => ValueModel::StrSet(str_set(s@)),
        Value::NumSet(s) => ValueModel::NumSet(num_set_of(s@)),
        Value::BinarySet(s) => ValueModel::BinarySet(bytes_set(s@)),
        Value::List(l) => ValueModel::List(values_view(l@)),
        Value::Document(m) => ValueModel::Document(entries_view(m@)),
    }
}

impl View for Value {
    type V = ValueModel;

    open spec fn view(&self) -> ValueModel {
        value_view(*self)
    }
}


proof fn lemma_values_view(l: Seq<Value>)
    ensures
        values_view(l).len() == l.len(),
        forall|i: int| 0 <= i < l.len() ==> #[trigger] values_view(l)[i] == value_view(l[i]),
    decreases l.len(),
{
    if l.len() > 0 {
        lemma_values_view(l.drop_last());
    }
}

proof fn lemma_entries_view(l: Seq<(String, Value)>)
    ensures
        entries_view(l).len() == l.len(),
        forall|i: int|
            0 <= i < l.len() ==> #[trigger] entries_view(l)[i] == (l[i].0@, value_view(l[i].1)),
    decreases l.len(),
{
    if l.len() > 0 {
        lemma_entries_view(l.drop_last());
    }
}

fn bytes_eq(a: &Vec<u8>, b: &Vec<u8>) -> (r: bool)
    ensures
        r == (a@ == b@),
{
    if a.len() != b.len() {
        return false;
    }
    let mut i: usize = 0;
    while i < a.len()
        invariant
            a@.len() == b@.len(),
            i <= a@.len(),
            forall|k: int| 0 <= k < i ==> a@[k] == b@[k],
        decreases a@.len() - i,
    {
        if a[i] != b[i] {
            return false;
        }
        i = i + 1;
    }
    assert(a@ =~= b@);
    true
}

fn copy_bytes(a: &Vec<u8>) -> (r: Vec<u8>)
    ensures
        r@ == a@,
{
    let mut r: Vec<u8> = Vec::new();
    let mut i: usize = 0;
    while i < a.len()
        invariant
            i <= a@.len(),
            r@ == a@.subrange(0, i as int),
        decreases a@.len() - i,
    {
        r.push(a[i]);
        i = i + 1;
        assert(r@ =~= a@.subrange(0, i as int));
    }
    assert(a@.subrange(0, i as int) =~= a@);
    r
}

fn str_in(v: &Vec<String>, s: &String) -> (r: bool)
    ensures
        r == str_set(v@).contains(s@),
{
    let mut j: usize = 0;
    while j < v.len()
        invariant
            j <= v@.len(),
            forall|k: int| 0 <= k < j ==> v@[k]@ != s@,
        decreases v@.len() - j,
    {
        if v[j] == *s {
            assert(str_views(v@)[j as int] == s@);
            return true;
        }
        j = j + 1;
    }
    assert(!str_views(v@).contains(s@));
    false
}

fn str_subset(a: &Vec<String>, b: &Vec<String>) -> (r: bool)
    ensures
        r == str_set(a@).subset_of(str_set(b@)),
{
    let mut i: usize = 0;
    while i < a.len()
        invariant
            i <= a@.len(),
            forall|k: int| 0 <= k < i ==> str_set(b@).contains(#[trigger] a@[k]@),
        decreases a@.len() - i,
    {
        if !str_in(b, &a[i]) {
            assert(str_views(a@)[i as int] == a@[i as int]@);
            return false;
        }
        i = i + 1;
    }
    assert forall|t: Seq<char>| str_set(a@).contains(t) implies str_set(b@).contains(t) by {
        let k = choose|k: int| 0 <= k < a@.len() && #[trigger] str_views(a@)[k] == t;
        assert(a@[k]@ == t);
    }
    true
}

fn num_in(v: &Vec<Num>, s: &Num) -> (r: bool)
    ensures
        r == num_set_of(v@).contains(s@),
{
    let mut j: usize = 0;
    while j < v.len()
        invariant
            j <= v@.len(),
            forall|k: int| 0 <= k < j ==> v@[k]@ != s@,
        decreases v@.len() - j,
    {
        if v[j].n == s.n {
            assert(num_views(v@)[j as int] == s@);
            return true;
        }
        j = j + 1;
    }
    assert(!num_views(v@).contains(s@));
    false
}

fn num_subset(a: &Vec<Num>, b: &Vec<Num>) -> (r: bool)
    ensures
        r == num_set_of(a@).subset_of(num_set_of(b@)),
{
    let mut i: usize = 0;
    while i < a.len()
        invariant
            i <= a@.len(),
            forall|k: int| 0 <= k < i ==> num_set_of(b@).contains(#[trigger] a@[k]@),
        decreases a@.len() - i,
    {
        if !num_in(b, &a[i]) {
            assert(num_views(a@)[i as int] == a@[i as int]@);
            return false;
        }
        i = i + 1;
    }
    assert forall|t: Seq<char>| num_set_of(a@).contains(t) implies num_set_of(b@).contains(t) by {
        let k = choose|k: int| 0 <= k < a@.len() && #[trigger] num_views(a@)[k] == t;
        assert(a@[k]@ == t);
    }
    true
}

fn bytes_in(v: &Vec<Vec<u8>>, s: &Vec<u8>) -> (r: bool)
    ensures
        r == bytes_set(v@).contains(s@),
{
    let mut j: usize = 0;
    while j < v.len()
        invariant
            j <= v@.len(),
            forall|k: int| 0 <= k < j ==> v@[k]@ != s@,
        decreases v@.len() - j,
    {
        if bytes_eq(&v[j], s) {
            assert(bytes_views(v@)[j as int] == s@);
            return true;
        }
        j = j + 1;
    }
    assert(!bytes_views(v@).contains(s@));
    false
}

fn bytes_subset(a: &Vec<Vec<u8>>, b: &Vec<Vec<u8>>) -> (r: bool)
    ensures
        r == bytes_set(a@).subset_of(bytes_set(b@)),
{
    let mut i: usize = 0;
    while i < a.len()
        invariant
            i <= a@.len(),
            forall|k: int| 0 <= k < i ==> bytes_set(b@).contains(#[trigger] a@[k]@),
        decreases a@.len() - i,
    {
        if !bytes_in(b, &a[i]) {
            assert(bytes_views(a@)[i as int] == a@[i as int]@);
            return false;
        }
        i = i + 1;
    }
    assert forall|t: Seq<u8>| bytes_set(a@).contains(t) implies bytes_set(b@).contains(t) by {
        let k = choose|k: int| 0 <= k < a@.len() && #[trigger] bytes_views(a@)[k] == t;
        assert(a@[k]@ == t);
    }
    true
}

impl Value {
    /// Whether two values are the same: equal scalars, sets with the same
    /// members in any order, lists and maps equal item by item.
    pub fn same_as(&self, other: &Value) -> (r: bool)
        ensures
            r == (self@ == other@),
        decreases self,
    {
        match (self, other) {
            (Value::Str(a), Value::Str(b)) => *a == *b,
            (Value::Num(a), Value::Num(b)) => a.n == b.n,
            (Value::Binary(a), Value::Binary(b)) => bytes_eq(a, b),
            (Value::Bool(a), Value::Bool(b)) => *a == *b,
            (Value::Null, Value::Null) => true,
            (Value::StrSet(a), Value::StrSet(b)) => {
                let r = str_subset(a, b) && str_subset(b, a);
                assert(r ==> str_set(a@) =~= str_set(b@));
                r
            },
            (Value::NumSet(a), Value::NumSet(b)) => {
                let r = num_subset(a, b) && num_subset(b, a);
                assert(r ==> num_set_of(a@) =~= num_set_of(b@));
                r
            },
            (Value::BinarySet(a), Value::BinarySet(b)) => {
                let r = bytes_subset(a, b) && bytes_subset(b, a);
                assert(r ==> bytes_set(a@) =~= bytes_set(b@));
                r
            },
            (Value::List(a), Value::List(b)) => {
                proof {
                    lemma_values_view(a@);
                    lemma_values_view(b@);
                }
                if a.len() != b.len() {
                    return false;
                }
                let mut i: usize = 0;
                while i < a.len()
                    invariant
                        a@.len() == b@.len(),
                        i <= a@.len(),
                        *self == Value::List(*a),
                        *other == Value::List(*b),
                        forall|k: int| 0 <= k < i ==> value_view(a@[k]) == value_view(b@[k]),
                        values_view(a@).len() == a@.len(),
                        values_view(b@).len() == b@.len(),
                        forall|k: int| 0 <= k < a@.len() ==> #[trigger] values_view(a@)[k] == value_view(a@[k]),
                        forall|k: int| 0 <= k < b@.len() ==> #[trigger] values_view(b@)[k] == value_view(b@[k]),
                    decreases a@.len() - i,
                {
                    assert(decreases_to!(*self => *a));
                    assert(decreases_to!(*a => a@));
                    assert(decreases_to!(a@ => a@[i as int]));
                    if !a[i].same_as(&b[i]) {
                        assert(values_view(a@)[i as int] != values_view(b@)[i as int]);
                        assert(self@ == ValueModel::List(values_view(a@)));
                        assert(other@ == ValueModel::List(values_view(b@)));
                        return false;
                    }
                    i = i + 1;
                }
                assert(values_view(a@) =~= values_view(b@));
                true
            },
            (Value::Document(a), Value::Document(b)) => {
                proof {
                    lemma_entries_view(a@);
                    lemma_entries_view(b@);
                }
                if a.len() != b.len() {
                    return false;
                }
                let mut i: usize = 0;
                while i < a.len()
                    invariant
                        a@.len() == b@.len(),
                        i <= a@.len(),
                        *self == Value::Document(*a),
                        *other == Value::Document(*b),
                        forall|k: int| 0 <= k < i ==> entries_view(a@)[k] == entries_view(b@)[k],
                        entries_view(a@).len() == a@.len(),
                        entries_view(b@).len() == b@.len(),
                        forall|k: int| 0 <= k < a@.len() ==> #[trigger] entries_view(a@)[k] == (a@[k].0@, value_view(a@[k].1)),
                        forall|k: int| 0 <= k < b@.len() ==> #[trigger] entries_view(b@)[k] == (b@[k].0@, value_view(b@[k].1)),
                    decreases a@.len() - i,
                {
                    assert(decreases_to!(*self => *a));
                    assert(decreases_to!(*a => a@));
                    assert(decreases_to!(a@ => a@[i as int]));
                    assert(decreases_to!(a@[i as int] => a@[i as int].1));
                    if a[i].0 != b[i].0 || !a[i].1.same_as(&b[i].1) {
                        assert(entries_view(a@)[i as int] != entries_view(b@)[i as int]);
                        assert(self@ == ValueModel::Document(entries_view(a@)));
                        assert(other@ == ValueModel::Document(entries_view(b@)));
                        return false;
                    }
                    i = i + 1;
                }
                assert(entries_view(a@) =~= entries_view(b@));
                true
            },
            _ => false,
        }
    }
}


fn copy_strs(a: &Vec<String>) -> (r: Vec<String>)
    ensures
        str_views(r@) == str_views(a@),
{
    let mut r: Vec<String> = Vec::new();
    let mut i: usize = 0;
    while i < a.len()
        invariant
            i <= a@.len(),
            r@ == a@.subrange(0, i as int),
        decreases a@.len() - i,
    {
        r.push(a[i].clone());
        i = i + 1;
        assert(r@ =~= a@.subrange(0, i as int));
    }
    assert(a@.subrange(0, i as int) =~= a@);
    r
}

fn copy_nums(a: &Vec<Num>) -> (r: Vec<Num>)
    ensures
        num_views(r@) == num_views(a@),
{
    let mut r: Vec<Num> = Vec::new();
    let mut i: usize = 0;
    while i < a.len()
        invariant
            i <= a@.len(),
            r@.len() == i,
            forall|k: int| 0 <= k < i ==> (#[trigger] r@[k])@ == a@[k]@,
        decreases a@.len() - i,
    {
        r.push(Num { n: a[i].n.clone() });
        i = i + 1;
    }
    assert(num_views(r@) =~= num_views(a@));
    r
}

fn copy_byte_strings(a: &Vec<Vec<u8>>) -> (r: Vec<Vec<u8>>)
    ensures
        bytes_views(r@) == bytes_views(a@),
{
    let mut r: Vec<Vec<u8>> = Vec::new();
    let mut i: usize = 0;
    while i < a.len()
        invariant
            i <= a@.len(),
            r@.len() == i,
            forall|k: int| 0 <= k < i ==> (#[trigger] r@[k])@ == a@[k]@,
        decreases a@.len() - i,
    {
        r.push(copy_bytes(&a[i]));
        i = i + 1;
    }
    assert(bytes_views(r@) =~= bytes_views(a@));
    r
}

impl Value {
    /// A copy of this value.
    pub fn copy(&self) -> (r: Value)
        ensures
            r@ == self@,
        decreases self,
    {
        match self {
            Value::Str(s) => Value::Str(s.clone()),
            Value::Num(n) => Value::Num(Num { n: n.n.clone() }),
            Value::Binary(b) => Value::Binary(copy_bytes(b)),
            Value::Bool(b) => Value::Bool(*b),
            Value::Null => Value::Null,
            Value::StrSet(v) => Value::StrSet(copy_strs(v)),
            Value::NumSet(v) => Value::NumSet(copy_nums(v)),
            Value::BinarySet(v) => Value::BinarySet(copy_byte_strings(v)),
            Value::List(a) => {
                proof {
                    lemma_values_view(a@);
                }
                let mut r: Vec<Value> = Vec::new();
                let mut i: usize = 0;
                while i < a.len()
                    invariant
                        i <= a@.len(),
                        *self == Value::List(*a),
                        r@.len() == i,
                        forall|k: int| 0 <= k < i ==> value_view(#[trigger] r@[k]) == value_view(a@[k]),
                    decreases a@.len() - i,
                {
                    assert(decreases_to!(*self => self->List_0));
                    assert(decreases_to!(*a => a@));
                    assert(decreases_to!(a@ => a@[i as int]));
                    r.push(a[i].copy());
                    i = i + 1;
                }
                proof {
                    lemma_values_view(r@);
                    assert(values_view(r@) =~= values_view(a@));
                }
                Value::List(r)
            },
            Value::Document(a) => {
                proof {
                    lemma_entries_view(a@);
                }
                let mut r: Vec<(String, Value)> = Vec::new();
                let mut i: usize = 0;
                while i < a.len()
                    invariant
                        i <= a@.len(),
                        *self == Value::Document(*a),
                        r@.len() == i,
                        forall|k: int| 0 <= k < i ==> (#[trigger] r@[k]).0@ == a@[k].0@
                            && value_view(r@[k].1) == value_view(a@[k].1),
                    decreases a@.len() - i,
                {
                    assert(decreases_to!(*self => self->Document_0));
                    assert(decreases_to!(*a => a@));
                    assert(decreases_to!(a@ => a@[i as int]));
                    assert(decreases_to!(a@[i as int] => a@[i as int].1));
                    let v = a[i].1.copy();
                    r.push((a[i].0.clone(), v));
                    i = i + 1;
                }
                proof {
                    lemma_entries_view(r@);
                    assert(entries_view(r@) =~= entries_view(a@));
                }
                Value::Document(r)
            },
        }
    }
}

/// A string value.
pub fn string_value(s: &str) -> (r: Value)
    ensures
        r@ == ValueModel::Str(s@),
{
    Value::Str(s.to_owned())
}

/// A number value.
pub fn num_value(n: Num) -> (r: Value)
    ensures
        r@ == ValueModel::Num(n@),
{
    Value::Num(n)
}

/// A binary value.
pub fn binary_value(b: Vec<u8>) -> (r: Value)
    ensures
        r@ == ValueModel::Binary(b@),
{
    Value::Binary(b)
}

/// A boolean value.
pub fn bool_value(b: bool) -> (r: Value)
    ensures
        r@ == ValueModel::Bool(b),
{
    Value::Bool(b)
}

/// The null value.
pub fn null_value() -> (r: Value)
    ensures
        r@ == ValueModel::Null,
{
    Value::Null
}

/// A set of strings; the order of `items` does not matter.
pub fn string_set(items: Vec<String>) -> (r: Value)
    ensures
        r@ == ValueModel::StrSet(str_set(items@)),
{
    Value::StrSet(items)
}

/// A set of numbers; the order of `items` does not matter.
pub fn num_set(items: Vec<Num>) -> (r: Value)
    ensures
        r@ == ValueModel::NumSet(num_set_of(items@)),
{
    Value::NumSet(items)
}

/// A set of byte strings; the order of `items` does not matter.
pub fn binary_set(items: Vec<Vec<u8>>) -> (r: Value)
    ensures
        r@ == ValueModel::BinarySet(bytes_set(items@)),
{
    Value::BinarySet(items)
}

/// A literal value, or a reference to a value that the caller supplies
/// under its own token.
#[derive(Debug, PartialEq, Eq)]
pub enum ValueOrRef {
    Value(Value),
    Ref(String),
}

/// A reference to a value that the caller supplies as `:name`.
pub fn ref_value(name: &str) -> (r: ValueOrRef)
    ensures
        r matches ValueOrRef::Ref(t) && t@ == name@,
{
    ValueOrRef::Ref(name.to_owned())
}

} // verus!
