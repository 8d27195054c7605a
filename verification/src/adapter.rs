//! Dataflow-install errors, table naming, and the resolution of source
//! tables for a new flow.

use vstd::prelude::*;

use crate::expr::EvalError;
use crate::strings::{chars_of, string_from_chars};

verus! {

/// Identifies a dataflow in the manager.
pub type TaskId = u64;

/// A fully qualified table name, catalog parts in order.
pub type TableName = Vec<String>;

/// Identifies a table in the catalog.
pub type TableId = u32;

/// Errors raised while translating, rendering or installing a dataflow.
#[derive(Debug, PartialEq, Eq)]
pub enum Error {
    /// A referenced table is not registered.
    TableNotFound { name: String },
    /// The plan uses a construct the runtime does not support.
    NotImplemented { reason: String },
    /// The plan is structurally invalid.
    Plan { reason: String },
    /// The query misuses types or columns.
    InvalidQuery { reason: String },
    /// Evaluation failed inside an operator.
    Eval { source: EvalError },
}

/// A dotted table name: the parts joined by `.`.
pub open spec fn spec_join_dot(parts: Seq<Seq<char>>) -> Seq<char>
    decreases parts.len(),
{
    if parts.len() == 0 {
        Seq::empty()
    } else if parts.len() == 1 {
        parts[0]
    } else {
        spec_join_dot(parts.drop_last()).push('.').add(parts.last())
    }
}

/// Join the parts of a table name with dots.
pub fn join_dot(parts: &Vec<String>) -> (r: String)
    ensures
        r@ == spec_join_dot(parts.deep_view()),
{
    let ghost dv = parts.deep_view();
    let mut out: Vec<char> = Vec::new();
    let n = parts.len();
    let mut i: usize = 0;
    proof {
        assert(dv.take(0) =~= Seq::<Seq<char>>::empty());
        assert(out@ =~= spec_join_dot(dv.take(0)));
    }
    while i < n
        invariant
            n == dv.len(),
            parts.deep_view() == dv,
            i <= n,
            out@ == spec_join_dot(dv.take(i as int)),
        decreases n - i,
    {
        let ghost out0 = out@;
        if i > 0 {
            out.push('.');
        }
        let cs = chars_of(parts[i].as_str());
        let m = cs.len();
        let mut j: usize = 0;
        while j < m
            invariant
                m == cs@.len(),
                j <= m,
                cs@ == dv[i as int],
                out@ =~= if i > 0 {
                    out0.push('.').add(dv[i as int].take(j as int))
                } else {
                    out0.add(dv[i as int].take(j as int))
                },
            decreases m - j,
        {
            out.push(cs[j]);
            proof {
                assert(dv[i as int].take(j + 1 as int) =~= dv[i as int].take(j as int).push(
                    cs@[j as int],
                ));
            }
            j += 1;
        }
        proof {
            assert(dv[i as int].take(m as int) =~= dv[i as int]);
            assert(dv.take(i + 1 as int).drop_last() =~= dv.take(i as int));
            assert(dv.take(i + 1 as int).last() == dv[i as int]);
            if i == 0 {
                assert(out@ =~= spec_join_dot(dv.take(1)));
            } else {
                assert(out@ =~= spec_join_dot(dv.take(i + 1 as int)));
            }
        }
        i += 1;
    }
    proof {
        assert(dv.take(n as int) =~= dv);
    }
    string_from_chars(&out)
}

/// Content equality of two table names.
pub fn table_name_eq(a: &Vec<String>, b: &Vec<String>) -> (r: bool)
    ensures
        r == (a.deep_view() == b.deep_view()),
{
    if a.len() != b.len() {
        proof {
            assert(a.deep_view().len() != b.deep_view().len());
        }
        return false;
    }
    let n = a.len();
    let mut i: usize = 0;
    while i < n
        invariant
            n == a.deep_view().len(),
            n == b.deep_view().len(),
            i <= n,
            forall|j: int| 0 <= j < i ==> a.deep_view()[j] == b.deep_view()[j],
        decreases n - i,
    {
        if !a[i].eq(&b[i]) {
            proof {
                assert(a.deep_view()[i as int] != b.deep_view()[i as int]);
            }
            return false;
        }
        i += 1;
    }
    proof {
        assert(a.deep_view() =~~= b.deep_view());
    }
    true
}

/// Pair each source table name with the id the catalog reported, failing
/// on the first name the catalog does not know.  Only as many pairs as
/// both lists hold are considered.
pub fn resolve_source_table_ids(names: &Vec<TableName>, looked_up: &Vec<Option<TableId>>) -> (r:
    Result<Vec<TableId>, Error>)
    ensures
        ({
            let k = vstd::math::min(names@.len() as int, looked_up@.len() as int);
            match r {
                Ok(ids) => {
                    &&& ids@.len() == k
                    &&& forall|j: int|
                        0 <= j < k ==> ((#[trigger] looked_up@[j]) matches Some(id) && ids@[j]
                            == id)
                },
                Err(e) => exists|j: int|
                    0 <= j < k && looked_up@[j] is None && (forall|x: int|
                        0 <= x < j ==> looked_up@[x] is Some) && (e matches Error::TableNotFound {
                        name,
                    } && name@ == spec_join_dot(names@[j].deep_view())) && true,
            }
        }),
{
    let n = if names.len() < looked_up.len() {
        names.len()
    } else {
        looked_up.len()
    };
    let mut ids: Vec<TableId> = Vec::new();
    let mut i: usize = 0;
    while i < n
        invariant
            n == vstd::math::min(names@.len() as int, looked_up@.len() as int),
            i <= n,
            ids@.len() == i,
            forall|j: int|
                0 <= j < i ==> ((#[trigger] looked_up@[j]) matches Some(id) && ids@[j] == id),
        decreases n - i,
    {
        match &looked_up[i] {
            Some(id) => {
                ids.push(*id);
            },
            None => {
                return Err(Error::TableNotFound { name: join_dot(&names[i]) });
            },
        }
        i += 1;
    }
    Ok(ids)
}

} // verus!
