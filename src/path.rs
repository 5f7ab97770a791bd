//! Document paths: attribute names, list indexes, their text form and parser.
use vstd::prelude::*;
use vstd::string::*;

use crate::text::{decimal, lemma_decimal_parses, all_digits, parse_index, parse_u32, push_char, push_decimal};

verus! {

/// An attribute name, one segment of a document path.
#[derive(Debug, Clone, PartialEq, Eq, Hash)]
pub struct Name {
    pub name: String,
}

impl View for Name {
    type V = Seq<char>;

    open spec fn view(&self) -> Seq<char> {
        self.name@
    }
}

impl Name {
    /// A name with the given text.
    pub fn new(name: &str) -> (r: Name)
        ensures
            r@ == name@,
    {
        Name { name: name.to_owned() }
    }

    /// A name that takes ownership of the given text.
    pub fn from_string(name: String) -> (r: Name)
        ensures
            r@ == name@,
    {
        Name { name }
    }

    /// The text of this name.
    pub fn as_str(&self) -> (r: &str)
        ensures
            r@ == self@,
    {
        self.name.as_str()
    }
}

/// The mathematical form of one path segment.
pub enum Segment {
    Plain(Seq<char>),
    Indexed(Seq<char>, Seq<u32>),
}

/// A name followed by one or more list indexes, such as `foo[3][7]`.
#[derive(Debug, Clone, PartialEq, Eq, Hash)]
pub struct IndexedField {
    pub name: Name,
    pub indexes: Vec<u32>,
}

impl IndexedField {
    /// A field with the given name and indexes; an `Element` built from it
    /// with no indexes is a plain name.
    pub fn new(name: &str, indexes: Vec<u32>) -> (r: IndexedField)
        ensures
            r.name@ == name@,
            r.indexes@ == indexes@,
    {
        IndexedField { name: Name::new(name), indexes }
    }
}

/// One segment of a document path: a name, or a name with indexes.
#[derive(Debug, Clone, PartialEq, Eq, Hash)]
pub enum Element {
    Name(Name),
    IndexedField(IndexedField),
}

impl View for Element {
    type V = Segment;

    open spec fn view(&self) -> Segment {
        match self {
            Element::Name(n) => Segment::Plain(n@),
            Element::IndexedField(f) => Segment::Indexed(f.name@, f.indexes@),
        }
    }
}

/// Conversion of a single index or a list of them into an index list.
pub trait Indexes: Sized {
    spec fn index_seq(&self) -> Seq<u32>;

    fn into_indexes(self) -> (r: Vec<u32>)
        ensures
            r@ == self.index_seq(),
    ;
}

impl Indexes for u32 {
    open spec fn index_seq(&self) -> Seq<u32> {
        seq![*self]
    }

    fn into_indexes(self) -> (r: Vec<u32>) {
        let mut v: Vec<u32> = Vec::new();
        v.push(self);
        assert(v@ =~= seq![self]);
        v
    }
}

impl Indexes for Vec<u32> {
    open spec fn index_seq(&self) -> Seq<u32> {
        self@
    }

    fn into_indexes(self) -> (r: Vec<u32>) {
        self
    }
}

/// The segment that a name with the given indexes stands for: a field with
/// no indexes is a plain name.
pub open spec fn canonical_segment(name: Seq<char>, indexes: Seq<u32>) -> Segment {
    if indexes.len() == 0 {
        Segment::Plain(name)
    } else {
        Segment::Indexed(name, indexes)
    }
}

impl Element {
    /// Whether an indexed element has at least one index.
    pub open spec fn wf(&self) -> bool {
        match self {
            Element::Name(_) => true,
            Element::IndexedField(f) => f.indexes@.len() > 0,
        }
    }

    /// A plain name element.
    pub fn name(name: &str) -> (r: Element)
        ensures
            r@ == Segment::Plain(name@),
            r.wf(),
    {
        Element::Name(Name::new(name))
    }

    /// A name with indexes; with no indexes it is a plain name.
    pub fn indexed_field<I: Indexes>(name: &str, indexes: I) -> (r: Element)
        ensures
            r@ == canonical_segment(name@, indexes.index_seq()),
            r.wf(),
    {
        let indexes = indexes.into_indexes();
        Element::from_field(IndexedField { name: Name::new(name), indexes })
    }

    /// The element for an indexed field; with no indexes it is a plain name.
    pub fn from_field(field: IndexedField) -> (r: Element)
        ensures
            r@ == canonical_segment(field.name@, field.indexes@),
            r.wf(),
    {
        if field.indexes.len() == 0 {
            Element::Name(field.name)
        } else {
            Element::IndexedField(field)
        }
    }

    /// The text of this element, such as `foo[3][7]`.
    pub fn to_string(&self) -> (r: String)
        ensures
            r@ == render_segment(self@),
    {
        let mut out = String::new();
        self.render_into(&mut out);
        assert(out@ =~= render_segment(self@));
        out
    }

    pub(crate) fn render_into(&self, out: &mut String)
        ensures
            final(out)@ == old(out)@ + render_segment(self@),
    {
        match self {
            Element::Name(n) => {
                out.append(n.as_str());
            },
            Element::IndexedField(f) => {
                out.append(f.name.as_str());
                push_indexes(out, &f.indexes);
            },
        }
    }
}

/// The text `[i]` of one list index.
pub open spec fn bracket(i: u32) -> Seq<char> {
    seq!['['] + decimal(i as nat) + seq![']']
}

/// The text of a list of indexes, each in its own brackets.
pub open spec fn render_indexes(idx: Seq<u32>) -> Seq<char>
    decreases idx.len(),
{
    if idx.len() == 0 {
        Seq::empty()
    } else {
        render_indexes(idx.drop_last()) + bracket(idx.last())
    }
}

/// The text of one path segment.
pub open spec fn render_segment(e: Segment) -> Seq<char> {
    match e {
        Segment::Plain(n) => n,
        Segment::Indexed(n, idx) => n + render_indexes(idx),
    }
}

/// The text of a path: its segments joined by `.`.
pub open spec fn render_path(p: Seq<Segment>) -> Seq<char>
    decreases p.len(),
{
    if p.len() == 0 {
        Seq::empty()
    } else if p.len() == 1 {
        render_segment(p[0])
    } else {
        render_path(p.drop_last()) + seq!['.'] + render_segment(p.last())
    }
}

/// Appends the text of the indexes in `idx`.
pub(crate) fn push_indexes(out: &mut String, idx: &Vec<u32>)
    ensures
        final(out)@ == old(out)@ + render_indexes(idx@),
{
    let mut i: usize = 0;
    while i < idx.len()
        invariant
            i <= idx@.len(),
            out@ == old(out)@ + render_indexes(idx@.subrange(0, i as int)),
        decreases idx@.len() - i,
    {
        let ghost before = out@;
        push_char(out, '[');
        push_decimal(out, idx[i] as u64);
        push_char(out, ']');
        assert(idx@.subrange(0, i + 1).drop_last() =~= idx@.subrange(0, i as int));
        assert(out@ =~= before + bracket(idx@[i as int]));
        assert(out@ =~= old(out)@ + render_indexes(idx@.subrange(0, i + 1)));
        i = i + 1;
    }
    assert(idx@.subrange(0, i as int) =~= idx@);
}

/// A document path, such as `foo[3][7].bar[2].baz`.
#[derive(Debug, Clone, PartialEq, Eq, Hash)]
pub struct Path {
    pub path: Vec<Element>,
}

/// The segments of a list of elements.
pub open spec fn segments(v: Seq<Element>) -> Seq<Segment> {
    v.map_values(|e: Element| e@)
}

impl View for Path {
    type V = Seq<Segment>;

    open spec fn view(&self) -> Seq<Segment> {
        segments(self.path@)
    }
}

impl Path {
    /// Whether the path has at least one element and every element is well
    /// formed.
    pub open spec fn wf(&self) -> bool {
        &&& self.path@.len() > 0
        &&& forall|i: int| 0 <= i < self.path@.len() ==> #[trigger] self.path@[i].wf()
    }

    /// A path of a single attribute name.
    pub fn name(name: &str) -> (r: Path)
        ensures
            r@ == seq![Segment::Plain(name@)],
            r.wf(),
    {
        Path::from_element(Element::name(name))
    }

    /// A path of a single element.
    pub fn from_element(e: Element) -> (r: Path)
        ensures
            r@ == seq![e@],
            r.path@ == seq![e],
    {
        let mut path: Vec<Element> = Vec::new();
        path.push(e);
        assert(segments(path@) =~= seq![e@]);
        Path { path }
    }

    /// A path of the given elements, in order.
    pub fn from_elements(path: Vec<Element>) -> (r: Path)
        ensures
            r@ == segments(path@),
            r.path@ == path@,
    {
        Path { path }
    }

    /// The text of this path, with its attribute names written out.
    pub fn to_string(&self) -> (r: String)
        ensures
            r@ == render_path(self@),
    {
        let mut out = String::new();
        let n = self.path.len();
        let mut i: usize = 0;
        while i < n
            invariant
                n == self.path@.len(),
                i <= n,
                out@ == render_path(self@.subrange(0, i as int)),
            decreases n - i,
        {
            let ghost before = out@;
            if i > 0 {
                push_char(&mut out, '.');
            }
            self.path[i].render_into(&mut out);
            proof {
                let p = self@.subrange(0, i + 1);
                assert(p.drop_last() =~= self@.subrange(0, i as int));
                assert(p.last() == self.path@[i as int]@);
                assert(out@ =~= render_path(p));
            }
            i = i + 1;
        }
        assert(self@.subrange(0, i as int) =~= self@);
        out
    }
}

/// The error for text that is not a document path.
#[derive(Debug, PartialEq, Eq)]
pub struct PathParseError;

/// Where the path reader stands after a prefix of the text: the finished
/// segments, and the one being read.
pub enum ParseState {
    /// Reading a name; no bracket seen in this segment yet.
    Plain(Seq<Segment>, Seq<char>),
    /// Inside brackets, after a name, its finished indexes and the text so far.
    Open(Seq<Segment>, Seq<char>, Seq<u32>, Seq<char>),
    /// Just after a closing bracket.
    Closed(Seq<Segment>, Seq<char>, Seq<u32>),
    Failed,
}

/// The reader's state after one more character.
pub open spec fn step(st: ParseState, c: char) -> ParseState {
    match st {
        ParseState::Plain(done, n) => {
            if c == '.' {
                ParseState::Plain(done.push(Segment::Plain(n)), Seq::empty())
            } else if c == '[' {
                if n.len() == 0 {
                    ParseState::Failed
                } else {
                    ParseState::Open(done, n, Seq::empty(), Seq::empty())
                }
            } else if c == ']' {
                ParseState::Failed
            } else {
                ParseState::Plain(done, n.push(c))
            }
        },
        ParseState::Open(done, n, idx, d) => {
            if c == ']' {
                match parse_u32(d) {
                    Some(v) => ParseState::Closed(done, n, idx.push(v)),
                    None => ParseState::Failed,
                }
            } else {
                ParseState::Open(done, n, idx, d.push(c))
            }
        },
        ParseState::Closed(done, n, idx) => {
            if c == '[' {
                ParseState::Open(done, n, idx, Seq::empty())
            } else if c == '.' {
                ParseState::Plain(done.push(Segment::Indexed(n, idx)), Seq::empty())
            } else {
                ParseState::Failed
            }
        },
        ParseState::Failed => ParseState::Failed,
    }
}

/// The state before any character.
pub open spec fn initial() -> ParseState {
    ParseState::Plain(Seq::empty(), Seq::empty())
}

/// The reader's state after all of `s`, from `st`.
pub open spec fn run_from(st: ParseState, s: Seq<char>) -> ParseState
    decreases s.len(),
{
    if s.len() == 0 {
        st
    } else {
        step(run_from(st, s.drop_last()), s.last())
    }
}

/// The path at the end of the text, if it is complete.
pub open spec fn finish(st: ParseState) -> Option<Seq<Segment>> {
    match st {
        ParseState::Plain(done, n) => Some(done.push(Segment::Plain(n))),
        ParseState::Closed(done, n, idx) => Some(done.push(Segment::Indexed(n, idx))),
        _ => None,
    }
}

/// The path that a text denotes: `.`-separated segments, each a name with
/// no brackets, or a non-empty name followed by one or more `[n]` with `n`
/// an unsigned 32-bit integer.
pub open spec fn parse_path(s: Seq<char>) -> Option<Seq<Segment>> {
    finish(run_from(initial(), s))
}

/// The reader's state after one more character, when reading a single
/// segment: there `.` is an ordinary character of the name, and after a
/// closing bracket it is an error.
pub open spec fn element_step(st: ParseState, c: char) -> ParseState {
    match st {
        ParseState::Plain(done, n) => if c == '.' {
            ParseState::Plain(done, n.push(c))
        } else {
            step(st, c)
        },
        ParseState::Closed(_, _, _) => if c == '.' {
            ParseState::Failed
        } else {
            step(st, c)
        },
        _ => step(st, c),
    }
}

/// The single-segment reader's state after all of `s`, from `st`.
pub open spec fn run_element(st: ParseState, s: Seq<char>) -> ParseState
    decreases s.len(),
{
    if s.len() == 0 {
        st
    } else {
        element_step(run_element(st, s.drop_last()), s.last())
    }
}

/// The segment that a text denotes on its own: text with no brackets is a
/// name, verbatim; otherwise a non-empty name with no brackets followed by
/// one or more `[n]` with `n` an unsigned 32-bit integer.
pub open spec fn parse_element(s: Seq<char>) -> Option<Segment> {
    match run_element(initial(), s) {
        ParseState::Plain(_, n) => Some(Segment::Plain(n)),
        ParseState::Closed(_, n, idx) => Some(Segment::Indexed(n, idx)),
        _ => None,
    }
}

spec fn step_in(split: bool, st: ParseState, c: char) -> ParseState {
    if split {
        step(st, c)
    } else {
        element_step(st, c)
    }
}

spec fn run_in(split: bool, s: Seq<char>) -> ParseState {
    if split {
        run_from(initial(), s)
    } else {
        run_element(initial(), s)
    }
}

spec fn read_view(r: Option<Vec<Element>>) -> Option<Seq<Segment>> {
    match r {
        Some(v) => Some(segments(v@)),
        None => None,
    }
}

/// The exec reader's position within a segment.
enum Scan {
    Plain { name_start: usize },
    Open { name_start: usize, name_end: usize, digits_start: usize },
    Closed { name_start: usize, name_end: usize },
    Failed,
}

spec fn scan_state(s: Seq<char>, i: int, scan: Scan, done: Seq<Segment>, idx: Seq<u32>) -> ParseState {
    match scan {
        Scan::Plain { name_start } => ParseState::Plain(done, s.subrange(name_start as int, i)),
        Scan::Open { name_start, name_end, digits_start } => ParseState::Open(
            done,
            s.subrange(name_start as int, name_end as int),
            idx,
            s.subrange(digits_start as int, i),
        ),
        Scan::Closed { name_start, name_end } => ParseState::Closed(
            done,
            s.subrange(name_start as int, name_end as int),
            idx,
        ),
        Scan::Failed => ParseState::Failed,
    }
}

spec fn scan_bounds(scan: Scan, i: int) -> bool {
    match scan {
        Scan::Plain { name_start } => name_start <= i,
        Scan::Open { name_start, name_end, digits_start } => name_start <= name_end < digits_start <= i,
        Scan::Closed { name_start, name_end } => name_start <= name_end <= i,
        Scan::Failed => true,
    }
}

/// Pushes the element for the segment being finished.
fn finish_segment(s: &str, done: &mut Vec<Element>, start: usize, end: usize, idx: Vec<u32>)
    requires
        start <= end <= s@.len(),
    ensures
        final(done)@ == old(done)@.push(final(done)@.last()),
        final(done)@.last()@ == (if idx@.len() == 0 {
            Segment::Plain(s@.subrange(start as int, end as int))
        } else {
            Segment::Indexed(s@.subrange(start as int, end as int), idx@)
        }),
        final(done)@.last().wf(),
        segments(final(done)@) == segments(old(done)@).push(final(done)@.last()@),
{
    let ghost before = done@;
    let name = Name::new(s.substring_char(start, end));
    if idx.len() == 0 {
        done.push(Element::Name(name));
    } else {
        done.push(Element::IndexedField(IndexedField { name, indexes: idx }));
    }
    assert(segments(done@) =~= segments(before).push(done@.last()@));
}

/// Reads the segments of `s`: of a whole path when `split`, else of one
/// segment.
fn read_segments(s: &str, split: bool) -> (r: Option<Vec<Element>>)
    ensures
        read_view(r) == finish(run_in(split, s@)),
        r matches Some(v) ==> forall|k: int| 0 <= k < v@.len() ==> #[trigger] v@[k].wf(),
        !split && r is Some ==> r->0@.len() == 1,
        r is Some ==> r->0@.len() > 0,
{
        let len = s.unicode_len();
        let mut done: Vec<Element> = Vec::new();
        let mut idx: Vec<u32> = Vec::new();
        let mut scan = Scan::Plain { name_start: 0 };
        let mut i: usize = 0;
        assert(s@.subrange(0, 0) =~= Seq::<char>::empty());
        assert(segments(done@) =~= Seq::<Segment>::empty());
        while i < len
            invariant
                len == s@.len(),
                i <= len,
                scan_bounds(scan, i as int),
                scan is Plain ==> idx@.len() == 0,
                scan is Closed ==> idx@.len() > 0,
                !split ==> done@.len() == 0,
                forall|k: int| 0 <= k < done@.len() ==> #[trigger] done@[k].wf(),
                run_in(split, s@.subrange(0, i as int)) == scan_state(
                    s@,
                    i as int,
                    scan,
                    segments(done@),
                    idx@,
                ),
            decreases len - i,
        {
            let c = s.get_char(i);
            let ghost pre = s@.subrange(0, i + 1);
            assert(pre.drop_last() =~= s@.subrange(0, i as int));
            assert(pre.last() == c);
            assert(run_in(split, pre) == step_in(split, run_in(split, s@.subrange(0, i as int)), c));
            let ghost before = scan_state(s@, i as int, scan, segments(done@), idx@);
            assert(s@.subrange(i + 1, i + 1) =~= Seq::<char>::empty());
            assert(idx@.len() == 0 ==> idx@ =~= Seq::<u32>::empty());
            match scan {
                Scan::Plain { name_start } => {
                    if c == '.' && split {
                        finish_segment(s, &mut done, name_start, i, Vec::new());
                        scan = Scan::Plain { name_start: i + 1 };
                    } else if c == '[' {
                        if name_start == i {
                            scan = Scan::Failed;
                        } else {
                            scan = Scan::Open { name_start, name_end: i, digits_start: i + 1 };
                        }
                    } else if c == ']' {
                        scan = Scan::Failed;
                    } else {
                        assert(s@.subrange(name_start as int, i + 1) =~= s@.subrange(
                            name_start as int,
                            i as int,
                        ).push(c));
                        scan = Scan::Plain { name_start };
                    }
                },
                Scan::Open { name_start, name_end, digits_start } => {
                    if c == ']' {
                        match parse_index(s, digits_start, i) {
                            Some(v) => {
                                idx.push(v);
                                scan = Scan::Closed { name_start, name_end };
                            },
                            None => {
                                scan = Scan::Failed;
                            },
                        }
                    } else {
                        assert(s@.subrange(digits_start as int, i + 1) =~= s@.subrange(
                            digits_start as int,
                            i as int,
                        ).push(c));
                        scan = Scan::Open { name_start, name_end, digits_start };
                    }
                },
                Scan::Closed { name_start, name_end } => {
                    if c == '[' {
                        scan = Scan::Open { name_start, name_end, digits_start: i + 1 };
                    } else if c == '.' && split {
                        let finished = idx;
                        idx = Vec::new();
                        finish_segment(s, &mut done, name_start, name_end, finished);
                        scan = Scan::Plain { name_start: i + 1 };
                    } else {
                        scan = Scan::Failed;
                    }
                },
                Scan::Failed => {},
            }
            assert(scan_state(s@, i + 1, scan, segments(done@), idx@) == step_in(split, before, c));
            i = i + 1;
        }
        assert(s@.subrange(0, len as int) =~= s@);
        match scan {
            Scan::Plain { name_start } => {
                finish_segment(s, &mut done, name_start, len, Vec::new());
                Some(done)
            },
            Scan::Closed { name_start, name_end } => {
                finish_segment(s, &mut done, name_start, name_end, idx);
                Some(done)
            },
            _ => None,
        }
}

impl Path {
    /// Reads a path from its text form; fails with `PathParseError` exactly
    /// when the text is not a document path.
    pub fn parse(s: &str) -> (r: Result<Path, PathParseError>)
        ensures
            match parse_path(s@) {
                Some(p) => r matches Ok(path) && path@ == p && path.wf(),
                None => r is Err,
            },
    {
        match read_segments(s, true) {
            Some(path) => Ok(Path { path }),
            None => Err(PathParseError),
        }
    }
}


/// Whether `c` may stand in an attribute name of a path's text.
pub open spec fn name_char(c: char) -> bool {
    c != '.' && c != '[' && c != ']'
}

/// Whether a name can be written in a path's text and read back.
pub open spec fn valid_name(n: Seq<char>) -> bool {
    forall|i: int| 0 <= i < n.len() ==> name_char(#[trigger] n[i])
}

/// Whether a segment can be written in a path's text and read back.
pub open spec fn valid_segment(e: Segment) -> bool {
    match e {
        Segment::Plain(n) => valid_name(n),
        Segment::Indexed(n, idx) => valid_name(n) && n.len() > 0 && idx.len() > 0,
    }
}

/// Whether every segment of `p` is valid.
pub open spec fn valid_segments(p: Seq<Segment>) -> bool {
    forall|i: int| 0 <= i < p.len() ==> valid_segment(#[trigger] p[i])
}

/// Whether a path can be written as text and read back.
pub open spec fn valid_path(p: Seq<Segment>) -> bool {
    p.len() > 0 && valid_segments(p)
}

/// The reader's state just after the text of segment `e`.
pub open spec fn after_segment(done: Seq<Segment>, e: Segment) -> ParseState {
    match e {
        Segment::Plain(n) => ParseState::Plain(done, n),
        Segment::Indexed(n, idx) => ParseState::Closed(done, n, idx),
    }
}

proof fn lemma_run_concat(st: ParseState, a: Seq<char>, b: Seq<char>)
    ensures
        run_from(st, a + b) == run_from(run_from(st, a), b),
    decreases b.len(),
{
    if b.len() == 0 {
        assert(a + b =~= a);
    } else {
        lemma_run_concat(st, a, b.drop_last());
        assert((a + b).drop_last() =~= a + b.drop_last());
        assert((a + b).last() == b.last());
    }
}

proof fn lemma_run_one(st: ParseState, c: char)
    ensures
        run_from(st, seq![c]) == step(st, c),
{
    assert(seq![c].drop_last() =~= Seq::<char>::empty());
    assert(run_from(st, Seq::<char>::empty()) == st);
    assert(seq![c].last() == c);
}

proof fn lemma_run_name(done: Seq<Segment>, m: Seq<char>, n: Seq<char>)
    requires
        valid_name(n),
    ensures
        run_from(ParseState::Plain(done, m), n) == ParseState::Plain(done, m + n),
    decreases n.len(),
{
    if n.len() == 0 {
        assert(m + n =~= m);
    } else {
        lemma_run_name(done, m, n.drop_last());
        assert(name_char(n[n.len() - 1]));
        assert((m + n.drop_last()).push(n.last()) =~= m + n);
    }
}

proof fn lemma_run_digits(done: Seq<Segment>, n: Seq<char>, idx: Seq<u32>, d: Seq<char>, ds: Seq<char>)
    requires
        all_digits(ds),
    ensures
        run_from(ParseState::Open(done, n, idx, d), ds) == ParseState::Open(done, n, idx, d + ds),
    decreases ds.len(),
{
    if ds.len() == 0 {
        assert(d + ds =~= d);
    } else {
        lemma_run_digits(done, n, idx, d, ds.drop_last());
        assert(crate::text::is_digit(ds[ds.len() - 1]));
        assert((d + ds.drop_last()).push(ds.last()) =~= d + ds);
    }
}

proof fn lemma_run_bracket(st: ParseState, done: Seq<Segment>, n: Seq<char>, idx: Seq<u32>, i: u32)
    requires
        step(st, '[') == ParseState::Open(done, n, idx, Seq::empty()),
    ensures
        run_from(st, bracket(i)) == ParseState::Closed(done, n, idx.push(i)),
{
    let ds = decimal(i as nat);
    lemma_decimal_parses(i);
    assert(bracket(i) =~= seq!['['] + (ds + seq![']']));
    lemma_run_concat(st, seq!['['], ds + seq![']']);
    lemma_run_one(st, '[');
    let open = ParseState::Open(done, n, idx, Seq::empty());
    lemma_run_concat(open, ds, seq![']']);
    lemma_run_digits(done, n, idx, Seq::empty(), ds);
    assert(Seq::<char>::empty() + ds =~= ds);
    lemma_run_one(ParseState::Open(done, n, idx, ds), ']');
}

proof fn lemma_run_indexes(done: Seq<Segment>, n: Seq<char>, idx: Seq<u32>)
    requires
        valid_name(n),
        n.len() > 0,
        idx.len() > 0,
    ensures
        run_from(ParseState::Plain(done, Seq::empty()), n + render_indexes(idx))
            == ParseState::Closed(done, n, idx),
    decreases idx.len(),
{
    let start = ParseState::Plain(done, Seq::empty());
    let prev = idx.drop_last();
    assert(n + render_indexes(idx) =~= (n + render_indexes(prev)) + bracket(idx.last()));
    lemma_run_concat(start, n + render_indexes(prev), bracket(idx.last()));
    if idx.len() == 1 {
        assert(render_indexes(prev) =~= Seq::<char>::empty());
        assert(n + render_indexes(prev) =~= n);
        lemma_run_name(done, Seq::empty(), n);
        assert(Seq::<char>::empty() + n =~= n);
        assert(prev =~= Seq::<u32>::empty());
        lemma_run_bracket(ParseState::Plain(done, n), done, n, prev, idx.last());
    } else {
        lemma_run_indexes(done, n, prev);
        lemma_run_bracket(ParseState::Closed(done, n, prev), done, n, prev, idx.last());
    }
    assert(prev.push(idx.last()) =~= idx);
}

proof fn lemma_run_segment(done: Seq<Segment>, e: Segment)
    requires
        valid_segment(e),
    ensures
        run_from(ParseState::Plain(done, Seq::empty()), render_segment(e)) == after_segment(done, e),
{
    match e {
        Segment::Plain(n) => {
            lemma_run_name(done, Seq::empty(), n);
            assert(Seq::<char>::empty() + n =~= n);
        },
        Segment::Indexed(n, idx) => {
            lemma_run_indexes(done, n, idx);
        },
    }
}

proof fn lemma_run_path(p: Seq<Segment>)
    requires
        valid_path(p),
    ensures
        run_from(initial(), render_path(p)) == after_segment(p.drop_last(), p.last()),
    decreases p.len(),
{
    if p.len() == 1 {
        assert(p.drop_last() =~= Seq::<Segment>::empty());
        assert(valid_segment(p[0]));
        lemma_run_segment(Seq::empty(), p[0]);
    } else {
        let prev = p.drop_last();
        assert(valid_segment(p[p.len() - 1]));
        assert forall|i: int| 0 <= i < prev.len() implies valid_segment(#[trigger] prev[i]) by {
            assert(prev[i] == p[i]);
        }
        lemma_run_path(prev);
        let text = render_path(prev);
        lemma_run_concat(initial(), text + seq!['.'], render_segment(p.last()));
        lemma_run_concat(initial(), text, seq!['.']);
        lemma_run_one(after_segment(prev.drop_last(), prev.last()), '.');
        assert(prev.drop_last().push(prev.last()) =~= prev);
        lemma_run_segment(prev, p.last());
    }
}

/// A valid path written as text reads back as the same path.
pub proof fn lemma_parse_render(p: Seq<Segment>)
    requires
        valid_path(p),
    ensures
        parse_path(render_path(p)) == Some(p),
{
    lemma_run_path(p);
    assert(p.drop_last().push(p.last()) =~= p);
}

spec fn good_state(st: ParseState) -> bool {
    match st {
        ParseState::Plain(done, n) => valid_segments(done) && valid_name(n),
        ParseState::Open(done, n, idx, d) => valid_segments(done) && valid_name(n) && n.len() > 0,
        ParseState::Closed(done, n, idx) => valid_segments(done) && valid_name(n) && n.len() > 0
            && idx.len() > 0,
        ParseState::Failed => true,
    }
}

proof fn lemma_push_valid(done: Seq<Segment>, e: Segment)
    requires
        valid_segments(done),
        valid_segment(e),
    ensures
        valid_segments(done.push(e)),
{
    assert forall|i: int| 0 <= i < done.push(e).len() implies valid_segment(#[trigger] done.push(e)[i]) by {
        if i < done.len() {
            assert(done.push(e)[i] == done[i]);
        }
    }
}

proof fn lemma_run_good(s: Seq<char>)
    ensures
        good_state(run_from(initial(), s)),
    decreases s.len(),
{
    if s.len() > 0 {
        lemma_run_good(s.drop_last());
        let c = s.last();
        match run_from(initial(), s.drop_last()) {
            ParseState::Plain(done, n) => {
                if c == '.' {
                    lemma_push_valid(done, Segment::Plain(n));
                } else if c != '[' && c != ']' {
                    assert(valid_name(n.push(c))) by {
                        assert forall|i: int| 0 <= i < n.push(c).len() implies name_char(#[trigger] n.push(c)[i]) by {
                            if i < n.len() {
                                assert(n.push(c)[i] == n[i]);
                            }
                        }
                    }
                }
            },
            ParseState::Open(done, n, idx, d) => {
                if c == ']' {
                    match parse_u32(d) {
                        Some(v) => {
                            assert(idx.push(v).len() > 0);
                        },
                        None => {},
                    }
                }
            },
            ParseState::Closed(done, n, idx) => {
                if c == '.' {
                    lemma_push_valid(done, Segment::Indexed(n, idx));
                }
            },
            ParseState::Failed => {},
        }
    }
}

/// A path read from text is valid, and writing it out and reading it again
/// gives the same path: the text is the path's own text up to the spelling
/// of its indexes.
pub proof fn lemma_parse_round_trip(s: Seq<char>, p: Seq<Segment>)
    requires
        parse_path(s) == Some(p),
    ensures
        valid_path(p),
        parse_path(render_path(p)) == Some(p),
{
    lemma_run_good(s);
    match run_from(initial(), s) {
        ParseState::Plain(done, n) => {
            lemma_push_valid(done, Segment::Plain(n));
        },
        ParseState::Closed(done, n, idx) => {
            lemma_push_valid(done, Segment::Indexed(n, idx));
        },
        _ => {},
    }
    lemma_parse_render(p);
}


fn indexes_eq(a: &Vec<u32>, b: &Vec<u32>) -> (r: bool)
    ensures
        r == (a@ == b@),
{
    if a.len() != b.len() {
        return false;
    }
    let mut i: usize = 0;
    while i < a.len()
        invariant
            a@.len() == b@.len(),
            i <= a@.len(),
            forall|k: int| 0 <= k < i ==> a@[k] == b@[k],
        decreases a@.len() - i,
    {
        if a[i] != b[i] {
            return false;
        }
        i = i + 1;
    }
    assert(a@ =~= b@);
    true
}

impl Element {
    /// Whether two elements are the same segment.
    pub fn same_as(&self, other: &Element) -> (r: bool)
        ensures
            r == (self@ == other@),
    {
        match (self, other) {
            (Element::Name(a), Element::Name(b)) => a.name == b.name,
            (Element::IndexedField(a), Element::IndexedField(b)) => {
                a.name.name == b.name.name && indexes_eq(&a.indexes, &b.indexes)
            },
            _ => false,
        }
    }
}

impl Path {
    /// Whether two paths have the same segments.
    pub fn same_as(&self, other: &Path) -> (r: bool)
        ensures
            r == (self@ == other@),
    {
        if self.path.len() != other.path.len() {
            assert(self@.len() != other@.len());
            return false;
        }
        let mut i: usize = 0;
        while i < self.path.len()
            invariant
                self.path@.len() == other.path@.len(),
                i <= self.path@.len(),
                forall|k: int| 0 <= k < i ==> self.path@[k]@ == other.path@[k]@,
            decreases self.path@.len() - i,
        {
            if !self.path[i].same_as(&other.path[i]) {
                assert(self@[i as int] != other@[i as int]);
                return false;
            }
            i = i + 1;
        }
        assert(self@ =~= other@);
        true
    }
}


impl core::str::FromStr for Path {
    type Err = PathParseError;

    fn from_str(s: &str) -> Result<Path, PathParseError> {
        Path::parse(s)
    }
}


impl Element {
    /// Reads one path segment from its text form: text with no brackets is a
    /// name as it stands, dots included; fails with `PathParseError` exactly
    /// when the text is not a segment.
    pub fn parse(s: &str) -> (r: Result<Element, PathParseError>)
        ensures
            match parse_element(s@) {
                Some(e) => r matches Ok(x) && x@ == e && x.wf(),
                None => r is Err,
            },
    {
        match read_segments(s, false) {
            Some(v) => {
                let mut v = v;
                proof {
                    let st = run_element(initial(), s@);
                    assert(run_in(false, s@) == st);
                    assert(segments(v@).len() == 1);
                    assert(segments(v@)[0] == v@[0]@);
                    match st {
                        ParseState::Plain(done, n) => {
                            assert(done.len() == 0);
                            assert(done.push(Segment::Plain(n))[0] == Segment::Plain(n));
                        },
                        ParseState::Closed(done, n, idx) => {
                            assert(done.len() == 0);
                            assert(done.push(Segment::Indexed(n, idx))[0] == Segment::Indexed(n, idx));
                        },
                        _ => {},
                    }
                }
                let e = v.pop().unwrap();
                Ok(e)
            },
            None => Err(PathParseError),
        }
    }
}

impl core::str::FromStr for Element {
    type Err = PathParseError;

    fn from_str(s: &str) -> Result<Element, PathParseError> {
        Element::parse(s)
    }
}

} // verus!
