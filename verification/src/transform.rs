//! Mapping plan-level references to functions and tables.
//!
//! A plan refers to a function by a numeric anchor mapped to a name by the
//! declarations that travel with it, and to a table by its qualified name.

use vstd::prelude::*;

use crate::adapter::{join_dot, spec_join_dot, table_name_eq, Error, TableName};
use crate::assoc::{
    assoc_find, lemma_assoc_get_at, lemma_assoc_get_none, spec_assoc_contains, spec_assoc_get,
    spec_keys_unique, AssocKey, AssocValue,
};
use crate::diff_map::{lemma_assoc_set_at, lemma_assoc_set_push, spec_assoc_set};
use crate::expr::GlobalId;
use crate::repr::RelationType;

verus! {

/// A function declaration as it arrives with a plan: an anchor mapped to a
/// name, some other kind of mapping, or an empty declaration.
#[derive(Debug, PartialEq, Eq)]
pub enum ExtensionDeclaration {
    /// Maps a numeric anchor to a function name.
    Function { anchor: u32, name: String },
    /// A mapping kind the runtime does not consume.
    OtherMapping,
    /// A declaration without any mapping.
    Empty,
}

/// The anchor map the declarations build up, later declarations for an
/// anchor replacing earlier ones; `None` when a declaration is not a
/// function mapping.
pub open spec fn spec_fx_fold(
    m: Seq<(u32, Seq<char>)>,
    decls: Seq<ExtensionDeclaration>,
) -> Option<Seq<(u32, Seq<char>)>>
    decreases decls.len(),
{
    if decls.len() == 0 {
        Some(m)
    } else {
        match decls[0] {
            ExtensionDeclaration::Function { anchor, name } => spec_fx_fold(
                spec_assoc_set(m, anchor, name@),
                decls.drop_first(),
            ),
            _ => None,
        }
    }
}

/// The first declaration that is not a function mapping, if any.
pub open spec fn spec_fx_first_bad(decls: Seq<ExtensionDeclaration>) -> Option<
    ExtensionDeclaration,
>
    decreases decls.len(),
{
    if decls.len() == 0 {
        None
    } else if decls[0] is Function {
        spec_fx_first_bad(decls.drop_first())
    } else {
        Some(decls[0])
    }
}

/// The mapping from a function's numeric anchor to its name.
#[derive(Debug)]
pub struct FunctionExtensions {
    pub anchor_to_name: Vec<(u32, String)>,
}

impl FunctionExtensions {
    /// The anchor map, by view.
    pub open spec fn map_view(self) -> Seq<(u32, Seq<char>)> {
        self.anchor_to_name@.map_values(|p: (u32, String)| (p.0, p.1@))
    }

    pub open spec fn wf(self) -> bool {
        spec_keys_unique(self.map_view())
    }

    /// Build the anchor map from a list of declarations; any declaration
    /// that is not a function mapping fails the whole list.
    pub fn try_from_proto(extensions: &Vec<ExtensionDeclaration>) -> (r: Result<
        FunctionExtensions,
        Error,
    >)
        ensures
            match spec_fx_fold(Seq::empty(), extensions@) {
                Some(mv) => r matches Ok(fx) && fx.map_view() == mv && fx.wf(),
                None => r matches Err(e) && (e matches Error::NotImplemented { reason } && reason@
                    == (if spec_fx_first_bad(extensions@) matches Some(
                    ExtensionDeclaration::Empty,
                ) {
                    "Cannot parse empty extension"@
                } else {
                    "Extension type not supported"@
                })),
            },
    {
        let ghost all = extensions@;
        let mut fx = FunctionExtensions { anchor_to_name: Vec::new() };
        let n = extensions.len();
        let mut i: usize = 0;
        proof {
            assert(all.skip(0) =~= all);
            assert(fx.map_view() =~= Seq::<(u32, Seq<char>)>::empty());
        }
        #[verifier::loop_isolation(false)]
        while i < n
            invariant
                i <= n,
                n == all.len(),
                extensions@ == all,
                fx.wf(),
                spec_fx_fold(fx.map_view(), all.skip(i as int)) == spec_fx_fold(
                    Seq::empty(),
                    all,
                ),
                spec_fx_first_bad(all.skip(i as int)) == spec_fx_first_bad(all),
            decreases n - i,
        {
            proof {
                assert(all.skip(i as int)[0] == all[i as int]);
                assert(all.skip(i as int).drop_first() =~= all.skip(i + 1 as int));
            }
            match &extensions[i] {
                ExtensionDeclaration::Function { anchor, name } => {
                    let ghost m0 = fx.map_view();
                    let nm = name.clone();
                    match assoc_find(&fx.anchor_to_name, anchor) {
                        Some(j) => {
                            proof {
                                lemma_assoc_set_at(m0, *anchor, name@, j as int);
                            }
                            fx.anchor_to_name.set(j, (*anchor, nm));
                            proof {
                                assert(fx.map_view() =~= m0.update(j as int, (*anchor, name@)));
                                assert forall|a: int, b: int|
                                    0 <= a < b < fx.map_view().len() implies fx.map_view()[a].0
                                    != fx.map_view()[b].0 by {
                                    assert(m0[a].0 != m0[b].0);
                                }
                            }
                        },
                        None => {
                            proof {
                                lemma_assoc_set_push(m0, *anchor, name@);
                            }
                            fx.anchor_to_name.push((*anchor, nm));
                            proof {
                                assert(fx.map_view() =~= m0.push((*anchor, name@)));
                            }
                        },
                    }
                },
                ExtensionDeclaration::OtherMapping => {
                    return Err(
                        Error::NotImplemented {
                            reason: "Extension type not supported".to_owned(),
                        },
                    );
                },
                ExtensionDeclaration::Empty => {
                    return Err(
                        Error::NotImplemented { reason: "Cannot parse empty extension".to_owned() },
                    );
                },
            }
            i += 1;
        }
        proof {
            assert(all.skip(n as int) =~= Seq::<ExtensionDeclaration>::empty());
        }
        Ok(fx)
    }

    /// The name of a function by its anchor.
    pub fn get(&self, anchor: &u32) -> (r: Option<&String>)
        ensures
            match spec_assoc_get(self.map_view(), *anchor) {
                Some(nm) => r matches Some(s) && s@ == nm,
                None => r is None,
            },
    {
        match assoc_find(&self.anchor_to_name, anchor) {
            Some(i) => {
                proof {
                    lemma_assoc_get_at(self.map_view(), *anchor, i as int);
                }
                Some(&self.anchor_to_name[i].1)
            },
            None => {
                proof {
                    lemma_assoc_get_none(self.map_view(), *anchor);
                }
                None
            },
        }
    }
}

/// What a dataflow knows of its surroundings: which names its source
/// tables carry, and each table's schema.
#[derive(Debug)]
pub struct DataflowContext {
    /// `id` refers to a source table of the dataflow, `name` to the name it
    /// was registered under.
    pub id_to_name: Vec<(GlobalId, TableName)>,
    /// The inverse of `id_to_name`.
    pub name_to_id: Vec<(TableName, GlobalId)>,
    /// The schema of each table.
    pub schema: Vec<(GlobalId, RelationType)>,
}

/// Find a table name in the name-keyed map.
fn find_name(v: &Vec<(TableName, GlobalId)>, name: &TableName) -> (r: Option<usize>)
    ensures
        match r {
            Some(i) => i < v@.len() && v@[i as int].0.deep_view() == name.deep_view() && (forall|
                j: int,
            |
                0 <= j < i ==> (#[trigger] v@[j]).0.deep_view() != name.deep_view()),
            None => forall|j: int|
                0 <= j < v@.len() ==> (#[trigger] v@[j]).0.deep_view() != name.deep_view(),
        },
{
    let n = v.len();
    let mut i: usize = 0;
    while i < n
        invariant
            n == v@.len(),
            i <= n,
            forall|j: int| 0 <= j < i ==> (#[trigger] v@[j]).0.deep_view() != name.deep_view(),
        decreases n - i,
    {
        if table_name_eq(&v[i].0, name) {
            return Some(i);
        }
        i += 1;
    }
    None
}

impl DataflowContext {
    /// The name map, keyed by deep view.
    pub open spec fn name_view(self) -> Seq<(Seq<Seq<char>>, GlobalId)> {
        self.name_to_id@.map_values(|p: (TableName, GlobalId)| (p.0.deep_view(), p.1))
    }

    /// The schema map, by view.
    pub open spec fn schema_view(self) -> Seq<(GlobalId, Seq<crate::repr::ColumnType>)> {
        self.schema@.map_values(|p: (GlobalId, RelationType)| (p.0, p.1@))
    }

    pub open spec fn wf(self) -> bool {
        spec_keys_unique(self.name_view()) && spec_keys_unique(self.schema_view())
    }

    /// The id and schema of a previously registered table, or a
    /// table-not-found error naming the dotted name.
    pub fn table(&self, name: &TableName) -> (r: Result<(GlobalId, RelationType), Error>)
        requires
            self.wf(),
        ensures
            match spec_assoc_get(self.name_view(), name.deep_view()) {
                Some(id) => match spec_assoc_get(self.schema_view(), id) {
                    Some(sch) => r matches Ok(p) && p.0 == id && p.1@ == sch,
                    None => r matches Err(e) && (e matches Error::TableNotFound { name: nm }
                        && nm@ == spec_join_dot(name.deep_view())),
                },
                None => r matches Err(e) && (e matches Error::TableNotFound { name: nm } && nm@
                    == spec_join_dot(name.deep_view())),
            },
    {
        let id = match find_name(&self.name_to_id, name) {
            Some(i) => {
                proof {
                    lemma_assoc_get_at(self.name_view(), name.deep_view(), i as int);
                }
                self.name_to_id[i].1
            },
            None => {
                proof {
                    lemma_assoc_get_none(self.name_view(), name.deep_view());
                }
                return Err(Error::TableNotFound { name: join_dot(name) });
            },
        };
        match assoc_find(&self.schema, &id) {
            Some(i) => {
                proof {
                    lemma_assoc_get_at(self.schema_view(), id, i as int);
                }
                Ok((id, self.schema[i].1.duplicate()))
            },
            None => {
                proof {
                    lemma_assoc_get_none(self.schema_view(), id);
                }
                Err(Error::TableNotFound { name: join_dot(name) })
            },
        }
    }
}

} // verus!
