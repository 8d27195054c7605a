//! Descriptions of dataflows to build.

use vstd::prelude::*;

use crate::expr::GlobalId;
use crate::repr::{Diff, Row, Timestamp};

verus! {

/// An association of a global identifier to the plan that produces it.
#[derive(Debug)]
pub struct BuildDesc<P> {
    pub id: GlobalId,
    pub plan: P,
}

/// Everything needed to build one dataflow: the objects to build, the
/// collections it reads, the collections it exposes, and its name.
#[derive(Debug)]
pub struct DataflowDescription<P> {
    pub objects_to_build: Vec<BuildDesc<P>>,
    pub inputs: Vec<GlobalId>,
    pub outputs: Vec<GlobalId>,
    /// Name of the dataflow, assigned by the user at creation.
    pub name: String,
}

impl<P> DataflowDescription<P> {
    /// An empty description with the given name.
    pub fn new(name: String) -> (r: DataflowDescription<P>)
        ensures
            r.objects_to_build@.len() == 0,
            r.inputs@ == Seq::<GlobalId>::empty(),
            r.outputs@ == Seq::<GlobalId>::empty(),
            r.name@ == name@,
    {
        DataflowDescription {
            objects_to_build: Vec::new(),
            inputs: Vec::new(),
            outputs: Vec::new(),
            name,
        }
    }
}

/// What a source operator hands off on one schedule: the updates its
/// arrangement releases at or before the current time, followed by the
/// newly arrived ones drained from its channel, in order.
pub fn source_release(
    buffered: Vec<(Row, Timestamp, Diff)>,
    arrived: Vec<(Row, Timestamp, Diff)>,
) -> (r: Vec<(Row, Timestamp, Diff)>)
    ensures
        r@.map_values(|e: (Row, Timestamp, Diff)| (e.0@, e.1, e.2)) =~= buffered@.map_values(
            |e: (Row, Timestamp, Diff)| (e.0@, e.1, e.2),
        ).add(arrived@.map_values(|e: (Row, Timestamp, Diff)| (e.0@, e.1, e.2))),
{
    let ghost bv = buffered@.map_values(|e: (Row, Timestamp, Diff)| (e.0@, e.1, e.2));
    let ghost av = arrived@.map_values(|e: (Row, Timestamp, Diff)| (e.0@, e.1, e.2));
    let mut out = buffered;
    let mut rest = arrived;
    let n = rest.len();
    let mut i: usize = 0;
    #[verifier::loop_isolation(false)]
    while i < n
        invariant
            i <= n,
            n == av.len(),
            rest@.map_values(|e: (Row, Timestamp, Diff)| (e.0@, e.1, e.2)) == av,
            out@.map_values(|e: (Row, Timestamp, Diff)| (e.0@, e.1, e.2)) =~= bv.add(
                av.take(i as int),
            ),
        decreases n - i,
    {
        let ghost before = out@.map_values(|e: (Row, Timestamp, Diff)| (e.0@, e.1, e.2));
        let row = rest[i].0.duplicate();
        let t = rest[i].1;
        let d = rest[i].2;
        out.push((row, t, d));
        proof {
            assert(out@.map_values(|e: (Row, Timestamp, Diff)| (e.0@, e.1, e.2)) =~= before.push(
                av[i as int],
            ));
            assert(av.take(i + 1 as int) =~= av.take(i as int).push(av[i as int]));
        }
        i += 1;
    }
    proof {
        assert(av.take(n as int) =~= av);
    }
    out
}

} // verus!
