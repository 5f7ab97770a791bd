//! Compiling the clauses of one request against one shared table.
use vstd::prelude::*;

use crate::condition::{condition_text, Condition};
use crate::key::KeyCondition;
use crate::path::Path;
use crate::table::{empty_table, name_entries_match, table_wf, value_entries_match, Table, TableModel};
use crate::update::{paths_text, render_paths, update_text, Update};
use crate::value::Value;

verus! {

/// The compiled clauses of one request, with the name and value maps that
/// their tokens refer to.
#[derive(Debug, PartialEq, Eq)]
pub struct Expression {
    pub condition: Option<String>,
    pub filter: Option<String>,
    pub key_condition: Option<String>,
    pub projection: Option<String>,
    pub update: Option<String>,
    pub names: Vec<(String, String)>,
    pub values: Vec<(String, Value)>,
}

/// The clauses to compile into one expression.
#[derive(Debug, PartialEq, Eq)]
pub struct Builder {
    pub condition: Option<Condition>,
    pub filter: Option<Condition>,
    pub key_condition: Option<KeyCondition>,
    pub projection: Option<Vec<Path>>,
    pub update: Option<Update>,
}

/// The text of a clause that may be absent, and the table after it.
pub open spec fn optional_condition_text(c: Option<Condition>, t: TableModel) -> (Option<Seq<char>>, TableModel) {
    match c {
        Some(x) => {
            let r = condition_text(x, t);
            (Some(r.0), r.1)
        },
        None => (None, t),
    }
}

/// The text of a projection that may be absent, and the table after it.
pub open spec fn optional_projection_text(p: Option<Vec<Path>>, t: TableModel) -> (Option<Seq<char>>, TableModel) {
    match p {
        Some(x) => {
            let r = paths_text(x@, t);
            (Some(r.0), r.1)
        },
        None => (None, t),
    }
}

/// The text of an update that may be absent, and the table after it.
pub open spec fn optional_update_text(u: Option<Update>, t: TableModel) -> (Option<Seq<char>>, TableModel) {
    match u {
        Some(x) => {
            let r = update_text(x, t);
            (Some(r.0), r.1)
        },
        None => (None, t),
    }
}

/// The key condition's inner condition, if any.
pub open spec fn key_inner(k: Option<KeyCondition>) -> Option<Condition> {
    match k {
        Some(x) => Some(x.condition),
        None => None,
    }
}

/// The compiled clauses of `b`, in the order condition, filter, key
/// condition, projection, update, against one table that starts empty; and
/// that table at the end.
pub open spec fn compile(b: Builder) -> (Seq<Option<Seq<char>>>, TableModel) {
    let c = optional_condition_text(b.condition, empty_table());
    let f = optional_condition_text(b.filter, c.1);
    let k = optional_condition_text(key_inner(b.key_condition), f.1);
    let p = optional_projection_text(b.projection, k.1);
    let u = optional_update_text(b.update, p.1);
    (seq![c.0, f.0, k.0, p.0, u.0], u.1)
}

/// The view of an optional string.
pub open spec fn opt_view(s: Option<String>) -> Option<Seq<char>> {
    match s {
        Some(x) => Some(x@),
        None => None,
    }
}

fn render_optional_condition(c: &Option<Condition>, t: &mut Table) -> (r: Option<String>)
    requires
        table_wf(old(t)@),
    ensures
        opt_view(r) == optional_condition_text(*c, old(t)@).0,
        final(t)@ == optional_condition_text(*c, old(t)@).1,
        table_wf(final(t)@),
{
    match c {
        Some(x) => {
            let mut out = String::new();
            x.render(t, &mut out);
            assert(out@ =~= condition_text(*x, old(t)@).0);
            Some(out)
        },
        None => None,
    }
}

impl Expression {
    /// A builder with no clauses.
    pub fn builder() -> (r: Builder)
        ensures
            r.condition is None,
            r.filter is None,
            r.key_condition is None,
            r.projection is None,
            r.update is None,
    {
        Builder { condition: None, filter: None, key_condition: None, projection: None, update: None }
    }
}

impl Builder {
    /// Sets the condition clause.
    pub fn with_condition(self, c: Condition) -> (r: Builder)
        ensures
            r == (Builder { condition: Some(c), ..self }),
    {
        Builder { condition: Some(c), ..self }
    }

    /// Sets the filter clause.
    pub fn with_filter(self, c: Condition) -> (r: Builder)
        ensures
            r == (Builder { filter: Some(c), ..self }),
    {
        Builder { filter: Some(c), ..self }
    }

    /// Sets the key condition clause.
    pub fn with_key_condition(self, k: KeyCondition) -> (r: Builder)
        ensures
            r == (Builder { key_condition: Some(k), ..self }),
    {
        Builder { key_condition: Some(k), ..self }
    }

    /// Sets the projection: the paths to read; an empty list is a projection
    /// too, written as empty text.
    pub fn with_projection(self, paths: Vec<Path>) -> (r: Builder)
        ensures
            r == (Builder { projection: Some(paths), ..self }),
    {
        Builder { projection: Some(paths), ..self }
    }

    /// Sets the update clause.
    pub fn with_update(self, u: Update) -> (r: Builder)
        ensures
            r == (Builder { update: Some(u), ..self }),
    {
        Builder { update: Some(u), ..self }
    }

    /// Compiles every clause that is present against one table, and hands
    /// out the clause texts with the name and value maps.
    pub fn build(self) -> (r: Expression)
        ensures
            opt_view(r.condition) == compile(self).0[0],
            opt_view(r.filter) == compile(self).0[1],
            opt_view(r.key_condition) == compile(self).0[2],
            opt_view(r.projection) == compile(self).0[3],
            opt_view(r.update) == compile(self).0[4],
            name_entries_match(r.names@, compile(self).1),
            value_entries_match(r.values@, compile(self).1),
            table_wf(compile(self).1),
    {
        let mut t = Table::new();
        let condition = render_optional_condition(&self.condition, &mut t);
        let filter = render_optional_condition(&self.filter, &mut t);
        let key = match &self.key_condition {
            Some(k) => Some(&k.condition),
            None => None,
        };
        let ghost t2 = t@;
        let key_condition = match key {
            Some(k) => {
                let mut out = String::new();
                k.render(&mut t, &mut out);
                assert(out@ =~= condition_text(*k, t2).0);
                Some(out)
            },
            None => None,
        };
        let ghost t3 = t@;
        let projection = match &self.projection {
            Some(p) => {
                let mut out = String::new();
                render_paths(p, &mut t, &mut out);
                assert(out@ =~= paths_text(p@, t3).0);
                Some(out)
            },
            None => None,
        };
        let ghost t4 = t@;
        let update = match &self.update {
            Some(u) => {
                let mut out = String::new();
                u.render(&mut t, &mut out);
                assert(out@ =~= update_text(*u, t4).0);
                Some(out)
            },
            None => None,
        };
        let (names, values) = t.finish();
        Expression { condition, filter, key_condition, projection, update, names, values }
    }
}

} // verus!
