//! The pass pipeline's observable behavior: classification, fail-fast
//! on bad specs, idempotent reruns, and the capability contract.

use wirespec::errors::CompileError;
use wirespec::expr::{eval_size, Value};
use wirespec::ir::{
    ArrayLength, CompilationUnit, ContainerField, NodeState, PathRef, TerminatedBufferVariant,
    TypeData, VariantType,
};
use wirespec::lower::generate_size_of;
use wirespec::pass::{compile, run_compile_pass, CompilePass};

#[test]
fn classification_carries_scalar_name() {
    let mut unit = CompilationUnit::new();
    let s = unit.add_scalar("u16".to_string());
    let node = &unit.nodes[s];
    let t = node.variant.get_type(&node.data);
    assert_eq!(t, VariantType::SimpleScalar("u16".to_string()));
    assert_ne!(t, VariantType::SimpleScalar("u8".to_string()));
    assert_ne!(t, VariantType::Container);
}

#[test]
fn child_access_of_scalar_is_refused() {
    let mut unit = CompilationUnit::new();
    let s = unit.add_scalar("u8".to_string());
    let node = &unit.nodes[s];
    let r = node.variant.resolve_child_name(&node.data, &"x".to_string());
    assert!(matches!(r, Err(CompileError::ChildAccessUnsupported(_))));
}

#[test]
fn property_of_container_is_refused() {
    let mut unit = CompilationUnit::new();
    let s = unit.add_scalar("u8".to_string());
    let c = unit
        .add_container(
            "test".to_string(),
            vec![ContainerField::normal("f".to_string(), s)],
        )
        .unwrap();
    let node = &unit.nodes[c];
    let r = node
        .variant
        .has_spec_property(&node.data, &"length".to_string());
    assert!(matches!(r, Err(CompileError::NoSuchProperty(_))));
}

#[test]
fn unresolved_reference_fails_at_resolution() {
    // The array's length reference names a nonexistent sibling: the
    // resolution pass itself must report it, never lowering.
    let mut unit = CompilationUnit::new();
    let len_t = unit.add_scalar("u8".to_string());
    let elem_t = unit.add_scalar("u8".to_string());
    let arr_t = unit
        .add_array(
            "arr".to_string(),
            elem_t,
            ArrayLength::Referenced(PathRef::new(1, "nope".to_string())),
        )
        .unwrap();
    let root = unit
        .add_container(
            "test".to_string(),
            vec![
                ContainerField::normal("len".to_string(), len_t),
                ContainerField::normal("arr".to_string(), arr_t),
            ],
        )
        .unwrap();
    unit.set_root(root);
    let r = run_compile_pass(&mut unit, CompilePass::ResolveReferences);
    assert!(matches!(r, Err(CompileError::UnresolvedReference { .. })));
    // The failed run left the unit untouched and raw.
    assert!(matches!(unit.nodes[arr_t].data.state, NodeState::Raw));
    assert!(matches!(
        compile(&mut unit),
        Err(CompileError::UnresolvedReference { .. })
    ));
}

#[test]
fn unknown_scalar_fails_metadata_pass() {
    let mut unit = CompilationUnit::new();
    let root = unit.add_scalar("u7".to_string());
    unit.set_root(root);
    assert!(matches!(
        compile(&mut unit),
        Err(CompileError::UnknownScalarType(name)) if name == "u7"
    ));
}

#[test]
fn terminated_buffer_metadata_pass_fails_loudly() {
    let mut unit = CompilationUnit::new();
    let root = unit.add_terminated_buffer("blob".to_string());
    unit.set_root(root);
    assert!(matches!(
        compile(&mut unit),
        Err(CompileError::PassUnimplemented(VariantType::TerminatedBuffer))
    ));
}

#[test]
fn terminated_buffer_variant_reports_its_gap() {
    let mut v = TerminatedBufferVariant {};
    let mut data = TypeData {
        name: "blob".to_string(),
        parent: None,
        state: NodeState::Resolved,
    };
    assert!(v
        .do_compile_pass(&mut data, CompilePass::ResolveReferences)
        .is_ok());
    assert!(matches!(
        v.do_compile_pass(&mut data, CompilePass::MakeTypeSpecs),
        Err(CompileError::PassUnimplemented(VariantType::TerminatedBuffer))
    ));
}

#[test]
fn lowering_raw_node_is_refused() {
    let mut unit = CompilationUnit::new();
    let root = unit.add_scalar("u8".to_string());
    unit.set_root(root);
    assert!(matches!(
        generate_size_of(&unit),
        Err(CompileError::NotFinalized)
    ));
}

#[test]
fn metadata_pass_before_resolution_is_refused() {
    let mut unit = CompilationUnit::new();
    let root = unit.add_scalar("u8".to_string());
    unit.set_root(root);
    assert!(matches!(
        run_compile_pass(&mut unit, CompilePass::MakeTypeSpecs),
        Err(CompileError::PassOrderViolation)
    ));
}

#[test]
fn passes_are_idempotent_on_finalized_graph() {
    let mut unit = CompilationUnit::new();
    let len_t = unit.add_scalar("u8".to_string());
    let elem_t = unit.add_scalar("u8".to_string());
    let arr_t = unit
        .add_array(
            "arr".to_string(),
            elem_t,
            ArrayLength::Referenced(PathRef::new(1, "len".to_string())),
        )
        .unwrap();
    let root = unit
        .add_container(
            "test".to_string(),
            vec![
                ContainerField::virtual_field(
                    "len".to_string(),
                    len_t,
                    PathRef::new(0, "arr".to_string()),
                    "length".to_string(),
                ),
                ContainerField::normal("arr".to_string(), arr_t),
            ],
        )
        .unwrap();
    unit.set_root(root);
    compile(&mut unit).unwrap();
    let first = generate_size_of(&unit).unwrap();

    // Rerunning either pass on the finalized graph succeeds and
    // changes nothing observable.
    run_compile_pass(&mut unit, CompilePass::ResolveReferences).unwrap();
    run_compile_pass(&mut unit, CompilePass::MakeTypeSpecs).unwrap();
    for node in &unit.nodes {
        assert!(matches!(node.data.state, NodeState::Finalized));
    }
    let second = generate_size_of(&unit).unwrap();

    let data = Value::Record(vec![(
        "arr".to_string(),
        Value::Array(vec![Value::Uint(9), Value::Uint(9)]),
    )]);
    assert_eq!(eval_size(&first, &data).unwrap(), 3);
    assert_eq!(eval_size(&second, &data).unwrap(), 3);
}

#[test]
fn field_order_is_wire_order() {
    // The generated sum walks fields in declared order; both orders
    // charge the same total here, and both lower successfully.
    for swapped in [false, true] {
        let mut unit = CompilationUnit::new();
        let a_t = unit.add_scalar("u8".to_string());
        let b_t = unit.add_scalar("u32".to_string());
        let mut fields = vec![
            ContainerField::normal("a".to_string(), a_t),
            ContainerField::normal("b".to_string(), b_t),
        ];
        if swapped {
            fields.reverse();
        }
        let root = unit.add_container("test".to_string(), fields).unwrap();
        unit.set_root(root);
        let mut entries = vec![
            ("a".to_string(), Value::Uint(1)),
            ("b".to_string(), Value::Uint(2)),
        ];
        if swapped {
            entries.reverse();
        }
        test_helper(&mut unit, &Value::Record(entries), 5);
    }
}

fn test_helper(unit: &mut CompilationUnit, data: &Value, result: u64) {
    compile(unit).unwrap();
    let size_of = generate_size_of(unit).unwrap();
    assert_eq!(eval_size(&size_of, data).unwrap(), result);
}

#[test]
fn record_missing_field_fails_evaluation() {
    let mut unit = CompilationUnit::new();
    let p_t = unit.add_scalar("u8".to_string());
    let inner = unit
        .add_container(
            "inner".to_string(),
            vec![ContainerField::normal("p".to_string(), p_t)],
        )
        .unwrap();
    let root = unit
        .add_container(
            "test".to_string(),
            vec![ContainerField::normal("body".to_string(), inner)],
        )
        .unwrap();
    unit.set_root(root);
    compile(&mut unit).unwrap();
    let size_of = generate_size_of(&unit).unwrap();
    let bad = Value::Record(vec![("other".to_string(), Value::Uint(0))]);
    assert!(matches!(
        eval_size(&size_of, &bad),
        Err(wirespec::errors::EvalError::BadShape)
    ));
}

#[test]
fn empty_container_has_size_zero() {
    let mut unit = CompilationUnit::new();
    let root = unit.add_container("test".to_string(), vec![]).unwrap();
    unit.set_root(root);
    compile(&mut unit).unwrap();
    let size_of = generate_size_of(&unit).unwrap();
    assert_eq!(eval_size(&size_of, &Value::Record(vec![])).unwrap(), 0);
}

#[test]
fn virtual_field_of_composite_type_is_refused() {
    // A virtual field can only charge a statically sized scalar.
    let mut unit = CompilationUnit::new();
    let p_t = unit.add_scalar("u8".to_string());
    let inner = unit
        .add_container(
            "inner".to_string(),
            vec![ContainerField::normal("p".to_string(), p_t)],
        )
        .unwrap();
    let elem_t = unit.add_scalar("u8".to_string());
    let arr_t = unit
        .add_array("arr".to_string(), elem_t, ArrayLength::Fixed(2))
        .unwrap();
    let root = unit
        .add_container(
            "test".to_string(),
            vec![
                ContainerField::virtual_field(
                    "len".to_string(),
                    inner,
                    PathRef::new(0, "arr".to_string()),
                    "length".to_string(),
                ),
                ContainerField::normal("arr".to_string(), arr_t),
            ],
        )
        .unwrap();
    unit.set_root(root);
    compile(&mut unit).unwrap();
    assert!(matches!(
        generate_size_of(&unit),
        Err(CompileError::UnsupportedVirtual)
    ));
}

#[test]
fn union_outside_a_container_is_refused() {
    // A union's discriminant lives in its enclosing container; at the
    // root there is none, and its reference cannot even resolve.
    let mut unit = CompilationUnit::new();
    let case_t = unit.add_scalar("u8".to_string());
    let root = unit
        .add_union(
            "test".to_string(),
            PathRef::new(1, "tag".to_string()),
            vec![wirespec::ir::UnionCase { match_value: 0, child: case_t }],
        )
        .unwrap();
    unit.set_root(root);
    assert!(matches!(
        compile(&mut unit),
        Err(CompileError::UnresolvedReference { .. })
    ));
}

#[test]
fn builders_refuse_nonexistent_children() {
    let mut unit = CompilationUnit::new();
    let s = unit.add_scalar("u8".to_string());
    assert!(matches!(
        unit.add_container(
            "test".to_string(),
            vec![ContainerField::normal("f".to_string(), s + 1)],
        ),
        Err(CompileError::UnresolvedReference { .. })
    ));
    assert!(matches!(
        unit.add_array("arr".to_string(), s + 1, ArrayLength::Fixed(1)),
        Err(CompileError::UnresolvedReference { .. })
    ));
    assert!(matches!(
        unit.add_union(
            "u".to_string(),
            PathRef::new(1, "tag".to_string()),
            vec![wirespec::ir::UnionCase { match_value: 0, child: s + 1 }],
        ),
        Err(CompileError::UnresolvedReference { .. })
    ));
    // The failed additions left the table as it stood: one scalar.
    assert_eq!(unit.nodes.len(), 1);
}

#[test]
fn resolution_error_names_path_and_referencing_node() {
    let mut unit = CompilationUnit::new();
    let elem_t = unit.add_scalar("u8".to_string());
    let arr_t = unit
        .add_array(
            "arr".to_string(),
            elem_t,
            ArrayLength::Referenced(PathRef::new(1, "nope".to_string())),
        )
        .unwrap();
    let root = unit
        .add_container(
            "test".to_string(),
            vec![ContainerField::normal("arr".to_string(), arr_t)],
        )
        .unwrap();
    unit.set_root(root);
    match compile(&mut unit) {
        Err(CompileError::UnresolvedReference { path, at }) => {
            assert_eq!(path, "nope");
            assert_eq!(at, "arr");
        }
        other => panic!("expected an unresolved-reference error, got {:?}", other),
    }
}
