//! Conformance fixtures for the size-of backend: build a raw type
//! graph, run the pass pipeline, lower the root, and evaluate the
//! generated expression against a runtime value.

use wirespec::expr::{eval_size, Value};
use wirespec::ir::{ArrayLength, CompilationUnit, ContainerField, PathRef};
use wirespec::lower::generate_size_of;
use wirespec::pass::compile;

fn test_size_of(unit: &mut CompilationUnit, data: &Value, result: u64) {
    compile(unit).unwrap();
    let size_of = generate_size_of(unit).unwrap();
    assert_eq!(eval_size(&size_of, data).unwrap(), result);
}

#[test]
fn simple_scalar() {
    let mut unit = CompilationUnit::new();
    let root = unit.add_scalar("u8".to_string());
    unit.set_root(root);
    test_size_of(&mut unit, &Value::Uint(0), 1);
}

#[test]
fn container() {
    let mut unit = CompilationUnit::new();
    let foo_t = unit.add_scalar("u8".to_string());
    let bar_t = unit.add_scalar("u8".to_string());
    let root = unit
        .add_container(
            "test".to_string(),
            vec![
                ContainerField::normal("foo".to_string(), foo_t),
                ContainerField::normal("bar".to_string(), bar_t),
            ],
        )
        .unwrap();
    unit.set_root(root);
    let data = Value::Record(vec![
        ("foo".to_string(), Value::Uint(0)),
        ("bar".to_string(), Value::Uint(0)),
    ]);
    test_size_of(&mut unit, &data, 2);
}

#[test]
fn array() {
    let mut unit = CompilationUnit::new();
    let len_t = unit.add_scalar("u8".to_string());
    let elem_t = unit.add_scalar("u8".to_string());
    let arr_t = unit
        .add_array(
            "arr".to_string(),
            elem_t,
            ArrayLength::Referenced(PathRef::new(1, "len".to_string())),
        )
        .unwrap();
    let root = unit
        .add_container(
            "test".to_string(),
            vec![
                ContainerField::virtual_field(
                    "len".to_string(),
                    len_t,
                    PathRef::new(0, "arr".to_string()),
                    "length".to_string(),
                ),
                ContainerField::normal("arr".to_string(), arr_t),
            ],
        )
        .unwrap();
    unit.set_root(root);
    let data = Value::Record(vec![(
        "arr".to_string(),
        Value::Array(vec![Value::Uint(1), Value::Uint(2), Value::Uint(3)]),
    )]);
    test_size_of(&mut unit, &data, 4);
}

#[test]
fn wider_scalars() {
    for (name, width) in [
        ("u8", 1),
        ("u16", 2),
        ("u32", 4),
        ("u64", 8),
        ("i8", 1),
        ("i16", 2),
        ("i32", 4),
        ("i64", 8),
    ] {
        let mut unit = CompilationUnit::new();
        let root = unit.add_scalar(name.to_string());
        unit.set_root(root);
        test_size_of(&mut unit, &Value::Uint(200), width);
    }
}

#[test]
fn scalar_size_ignores_value() {
    let mut unit = CompilationUnit::new();
    let root = unit.add_scalar("u32".to_string());
    unit.set_root(root);
    compile(&mut unit).unwrap();
    let size_of = generate_size_of(&unit).unwrap();
    assert_eq!(eval_size(&size_of, &Value::Uint(0)).unwrap(), 4);
    assert_eq!(eval_size(&size_of, &Value::Uint(u64::MAX)).unwrap(), 4);
    assert_eq!(eval_size(&size_of, &Value::Bytes(vec![1, 2])).unwrap(), 4);
}

#[test]
fn fixed_count_array_of_scalars() {
    let mut unit = CompilationUnit::new();
    let elem_t = unit.add_scalar("u16".to_string());
    let root = unit
        .add_array("test".to_string(), elem_t, ArrayLength::Fixed(3))
        .unwrap();
    unit.set_root(root);
    let data = Value::Array(vec![Value::Uint(7), Value::Uint(8), Value::Uint(9)]);
    test_size_of(&mut unit, &data, 6);
}

#[test]
fn variable_width_array_elements() {
    // An array of two-field containers has no static element width, so
    // the generated code sums each element's size.
    let mut unit = CompilationUnit::new();
    let p_t = unit.add_scalar("u8".to_string());
    let q_t = unit.add_scalar("u16".to_string());
    let elem_t = unit
        .add_container(
            "pair".to_string(),
            vec![
                ContainerField::normal("p".to_string(), p_t),
                ContainerField::normal("q".to_string(), q_t),
            ],
        )
        .unwrap();
    let arr_t = unit
        .add_array("items".to_string(), elem_t, ArrayLength::Fixed(2))
        .unwrap();
    let root = unit
        .add_container(
            "test".to_string(),
            vec![ContainerField::normal("items".to_string(), arr_t)],
        )
        .unwrap();
    unit.set_root(root);
    let pair = |p: u64, q: u64| {
        Value::Record(vec![
            ("p".to_string(), Value::Uint(p)),
            ("q".to_string(), Value::Uint(q)),
        ])
    };
    let data = Value::Record(vec![(
        "items".to_string(),
        Value::Array(vec![pair(1, 2), pair(3, 4)]),
    )]);
    test_size_of(&mut unit, &data, 6);
}

#[test]
fn union_dispatches_on_discriminant() {
    let mut unit = CompilationUnit::new();
    let tag_t = unit.add_scalar("u8".to_string());
    let small_t = unit.add_scalar("u8".to_string());
    let large_t = unit.add_scalar("u32".to_string());
    let body_t = unit
        .add_union(
            "body".to_string(),
            PathRef::new(1, "tag".to_string()),
            vec![
                wirespec::ir::UnionCase { match_value: 0, child: small_t },
                wirespec::ir::UnionCase { match_value: 1, child: large_t },
            ],
        )
        .unwrap();
    let root = unit
        .add_container(
            "test".to_string(),
            vec![
                ContainerField::normal("tag".to_string(), tag_t),
                ContainerField::normal("body".to_string(), body_t),
            ],
        )
        .unwrap();
    unit.set_root(root);
    compile(&mut unit).unwrap();
    let size_of = generate_size_of(&unit).unwrap();

    let with_tag = |tag: u64| {
        Value::Record(vec![
            ("tag".to_string(), Value::Uint(tag)),
            ("body".to_string(), Value::Uint(5)),
        ])
    };
    assert_eq!(eval_size(&size_of, &with_tag(0)).unwrap(), 2);
    assert_eq!(eval_size(&size_of, &with_tag(1)).unwrap(), 5);
    // No case matches: evaluation fails loudly rather than guessing.
    assert!(eval_size(&size_of, &with_tag(7)).is_err());
}

#[test]
fn sized_buffer_reads_length_field() {
    let mut unit = CompilationUnit::new();
    let n_t = unit.add_scalar("u8".to_string());
    let buf_t = unit.add_sized_buffer(
        "data".to_string(),
        PathRef::new(1, "n".to_string()),
    );
    let root = unit
        .add_container(
            "test".to_string(),
            vec![
                ContainerField::normal("n".to_string(), n_t),
                ContainerField::normal("data".to_string(), buf_t),
            ],
        )
        .unwrap();
    unit.set_root(root);
    let data = Value::Record(vec![
        ("n".to_string(), Value::Uint(5)),
        ("data".to_string(), Value::Bytes(vec![1, 2, 3, 4, 5])),
    ]);
    test_size_of(&mut unit, &data, 6);
}

#[test]
fn size_overflow_is_reported() {
    let mut unit = CompilationUnit::new();
    let elem_t = unit.add_scalar("u64".to_string());
    let root = unit
        .add_array("test".to_string(), elem_t, ArrayLength::Fixed(u64::MAX))
        .unwrap();
    unit.set_root(root);
    compile(&mut unit).unwrap();
    let size_of = generate_size_of(&unit).unwrap();
    assert!(matches!(
        eval_size(&size_of, &Value::Array(vec![])),
        Err(wirespec::errors::EvalError::Overflow)
    ));
}

#[test]
fn virtual_field_position_does_not_change_size() {
    // The virtual length field may stand before or after its array;
    // counts are resolved by name, so both orders charge 1 + 3 bytes.
    for virtual_first in [true, false] {
        let mut unit = CompilationUnit::new();
        let len_t = unit.add_scalar("u8".to_string());
        let elem_t = unit.add_scalar("u8".to_string());
        let arr_t = unit
            .add_array(
                "arr".to_string(),
                elem_t,
                ArrayLength::Referenced(PathRef::new(1, "len".to_string())),
            )
            .unwrap();
        let virtual_field = ContainerField::virtual_field(
            "len".to_string(),
            len_t,
            PathRef::new(0, "arr".to_string()),
            "length".to_string(),
        );
        let normal_field = ContainerField::normal("arr".to_string(), arr_t);
        let fields = if virtual_first {
            vec![virtual_field, normal_field]
        } else {
            vec![normal_field, virtual_field]
        };
        let root = unit.add_container("test".to_string(), fields).unwrap();
        unit.set_root(root);
        let data = Value::Record(vec![(
            "arr".to_string(),
            Value::Array(vec![Value::Uint(1), Value::Uint(2), Value::Uint(3)]),
        )]);
        test_size_of(&mut unit, &data, 4);
    }
}
