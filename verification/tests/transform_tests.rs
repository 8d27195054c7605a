use flow_core::adapter::{join_dot, resolve_source_table_ids, Error};
use flow_core::expr::GlobalId;
use flow_core::repr::{ColumnType, RelationType};
use flow_core::state::{ComputeState, StateId};
use flow_core::transform::{DataflowContext, ExtensionDeclaration, FunctionExtensions};
use flow_core::types::DataflowDescription;
use flow_core::value::ConcreteDataType;

#[test]
fn function_extensions_map_anchors_to_names() {
    let decls = vec![
        ExtensionDeclaration::Function {
            anchor: 0,
            name: "sum".to_string(),
        },
        ExtensionDeclaration::Function {
            anchor: 7,
            name: "max".to_string(),
        },
        ExtensionDeclaration::Function {
            anchor: 0,
            name: "count".to_string(),
        },
    ];
    let fx = FunctionExtensions::try_from_proto(&decls).unwrap();
    // the later declaration for anchor 0 wins
    assert_eq!(fx.get(&0), Some(&"count".to_string()));
    assert_eq!(fx.get(&7), Some(&"max".to_string()));
    assert_eq!(fx.get(&1), None);
}

#[test]
fn function_extensions_reject_other_declarations() {
    let err = FunctionExtensions::try_from_proto(&vec![ExtensionDeclaration::OtherMapping])
        .unwrap_err();
    match err {
        Error::NotImplemented { reason } => {
            assert_eq!(reason, "Extension type not supported")
        }
        other => panic!("unexpected {other:?}"),
    }
    let err =
        FunctionExtensions::try_from_proto(&vec![ExtensionDeclaration::Empty]).unwrap_err();
    match err {
        Error::NotImplemented { reason } => {
            assert_eq!(reason, "Cannot parse empty extension")
        }
        other => panic!("unexpected {other:?}"),
    }
}

fn numbers_context() -> DataflowContext {
    let gid = GlobalId::User(0);
    let name = vec!["numbers".to_string()];
    let schema = RelationType::new(vec![ColumnType::new(ConcreteDataType::UInt32, false)]);
    DataflowContext {
        id_to_name: vec![(gid, name.clone())],
        name_to_id: vec![(name, gid)],
        schema: vec![(gid, schema)],
    }
}

#[test]
fn context_resolves_registered_table() {
    let ctx = numbers_context();
    let (id, schema) = ctx.table(&vec!["numbers".to_string()]).unwrap();
    assert_eq!(id, GlobalId::User(0));
    assert_eq!(
        schema.column_types,
        vec![ColumnType::new(ConcreteDataType::UInt32, false)]
    );
}

#[test]
fn context_reports_missing_table_by_dotted_name() {
    let ctx = numbers_context();
    let err = ctx
        .table(&vec!["greptime".to_string(), "public".to_string(), "nope".to_string()])
        .unwrap_err();
    match err {
        Error::TableNotFound { name } => assert_eq!(name, "greptime.public.nope"),
        other => panic!("unexpected {other:?}"),
    }
}

#[test]
fn join_dot_concatenates_parts() {
    assert_eq!(join_dot(&vec![]), "");
    assert_eq!(join_dot(&vec!["a".to_string()]), "a");
    assert_eq!(
        join_dot(&vec!["a".to_string(), "b".to_string(), "c".to_string()]),
        "a.b.c"
    );
}

#[test]
fn resolve_source_tables_collects_ids() {
    let names = vec![
        vec!["g".to_string(), "p".to_string(), "t1".to_string()],
        vec!["g".to_string(), "p".to_string(), "t2".to_string()],
    ];
    let ids = resolve_source_table_ids(&names, &vec![Some(11), Some(22)]).unwrap();
    assert_eq!(ids, vec![11, 22]);

    let err = resolve_source_table_ids(&names, &vec![Some(11), None]).unwrap_err();
    match err {
        Error::TableNotFound { name } => assert_eq!(name, "g.p.t2"),
        other => panic!("unexpected {other:?}"),
    }
}

#[test]
fn compute_state_allocates_fresh_ids() {
    let mut cs = ComputeState::new();
    let a = cs.alloc_next_state_id();
    let b = cs.alloc_next_state_id();
    assert_ne!(a, b);
    assert_eq!(cs.register_state(a, 42), None);
    assert_eq!(cs.register_state(a, 43), Some(42));
    assert_eq!(cs.register_state(StateId(99), 7), None);
}

#[test]
fn dataflow_description_starts_empty() {
    let d: DataflowDescription<u32> = DataflowDescription::new("my_flow".to_string());
    assert!(d.objects_to_build.is_empty());
    assert!(d.inputs.is_empty());
    assert!(d.outputs.is_empty());
    assert_eq!(d.name, "my_flow");
}
