use mpi_derive::builder::{create_struct_datatype, get_datatype, offset_of_field};
use mpi_derive::datatype::{BuildError, Datatype, OffsetOf};
use mpi_derive::shape::{Data, Designator, Shape};

fn leaf(path: &str) -> Shape {
    Shape::Leaf { path: path.to_string() }
}

fn array(elem: Shape, len: usize) -> Shape {
    Shape::Array { elem: Box::new(elem), len }
}

fn tuple(name: &str, elems: Vec<Shape>) -> Shape {
    Shape::Tuple { name: name.to_string(), elems }
}

fn equivalent(path: &str) -> Datatype {
    Datatype::Equivalent { path: path.to_string() }
}

fn contiguous(count: usize, oldtype: Datatype) -> Datatype {
    Datatype::Contiguous { count, oldtype: Box::new(oldtype) }
}

fn named_offset(owner: &str, field: &str) -> OffsetOf {
    OffsetOf { owner: owner.to_string(), field: Designator::Name(field.to_string()) }
}

fn indexed_offset(owner: &str, index: usize) -> OffsetOf {
    OffsetOf { owner: owner.to_string(), field: Designator::Index(index) }
}

fn record(fields: Vec<(&str, Shape)>) -> Data {
    Data::Named(fields.into_iter().map(|(name, ty)| (name.to_string(), ty)).collect())
}

#[test]
fn offset_of_field_names_owner_and_field() {
    let by_name = offset_of_field(&"Particle".to_string(), Designator::Name("mass".to_string()));
    assert_eq!(by_name, named_offset("Particle", "mass"));
    let by_index = offset_of_field(&"(i32, f64)".to_string(), Designator::Index(1));
    assert_eq!(by_index, indexed_offset("(i32, f64)", 1));
    assert_ne!(by_index, indexed_offset("(i32, f64)", 0));
}

#[test]
fn leaf_is_taken_as_it_is() {
    assert_eq!(get_datatype(&leaf("i32")), Ok(equivalent("i32")));
}

#[test]
fn array_repeats_its_element() {
    assert_eq!(get_datatype(&array(leaf("f64"), 3)), Ok(contiguous(3, equivalent("f64"))));
}

#[test]
fn array_of_arrays_nests() {
    assert_eq!(
        get_datatype(&array(array(leaf("u8"), 4), 2)),
        Ok(contiguous(2, contiguous(4, equivalent("u8"))))
    );
}

#[test]
fn empty_array_is_described() {
    assert_eq!(get_datatype(&array(leaf("u8"), 0)), Ok(contiguous(0, equivalent("u8"))));
}

#[test]
fn record_with_scalar_and_array() {
    let data = record(vec![("a", leaf("i32")), ("b", array(leaf("f64"), 3))]);
    let built = create_struct_datatype(&"S".to_string(), &data);
    assert_eq!(
        built,
        Ok(Datatype::Structured {
            count: 2,
            blocklengths: vec![1, 1],
            displacements: vec![named_offset("S", "a"), named_offset("S", "b")],
            types: vec![equivalent("i32"), contiguous(3, equivalent("f64"))],
        })
    );
}

#[test]
fn nested_record_is_described_in_place() {
    let inner = Shape::Composite {
        name: "Inner".to_string(),
        data: record(vec![("x", leaf("i32")), ("y", leaf("i32"))]),
    };
    let outer = record(vec![("p", inner), ("q", leaf("i32"))]);
    let built = create_struct_datatype(&"Outer".to_string(), &outer);
    assert_eq!(
        built,
        Ok(Datatype::Structured {
            count: 2,
            blocklengths: vec![1, 1],
            displacements: vec![named_offset("Outer", "p"), named_offset("Outer", "q")],
            types: vec![
                Datatype::Structured {
                    count: 2,
                    blocklengths: vec![1, 1],
                    displacements: vec![named_offset("Inner", "x"), named_offset("Inner", "y")],
                    types: vec![equivalent("i32"), equivalent("i32")],
                },
                equivalent("i32"),
            ],
        })
    );
}

#[test]
fn positional_record_is_designated_by_position() {
    let data = Data::Unnamed(vec![leaf("u8"), leaf("u64")]);
    assert_eq!(
        create_struct_datatype(&"Pair".to_string(), &data),
        Ok(Datatype::Structured {
            count: 2,
            blocklengths: vec![1, 1],
            displacements: vec![indexed_offset("Pair", 0), indexed_offset("Pair", 1)],
            types: vec![equivalent("u8"), equivalent("u64")],
        })
    );
}

#[test]
fn tuple_of_three_keeps_order() {
    let shape = tuple("(A, B, C)", vec![leaf("A"), array(leaf("B"), 2), leaf("C")]);
    assert_eq!(
        get_datatype(&shape),
        Ok(Datatype::Structured {
            count: 3,
            blocklengths: vec![1, 1, 1],
            displacements: vec![
                indexed_offset("(A, B, C)", 0),
                indexed_offset("(A, B, C)", 1),
                indexed_offset("(A, B, C)", 2),
            ],
            types: vec![equivalent("A"), contiguous(2, equivalent("B")), equivalent("C")],
        })
    );
}

#[test]
fn tuple_and_positional_record_agree() {
    let as_tuple = get_datatype(&tuple("T", vec![leaf("u8"), leaf("i16")]));
    let as_record =
        create_struct_datatype(&"T".to_string(), &Data::Unnamed(vec![leaf("u8"), leaf("i16")]));
    assert_eq!(as_tuple, as_record);
}

#[test]
fn tuple_field_of_a_record() {
    let data = record(vec![("pair", tuple("(i32, f64)", vec![leaf("i32"), leaf("f64")]))]);
    assert_eq!(
        create_struct_datatype(&"Holder".to_string(), &data),
        Ok(Datatype::Structured {
            count: 1,
            blocklengths: vec![1],
            displacements: vec![named_offset("Holder", "pair")],
            types: vec![Datatype::Structured {
                count: 2,
                blocklengths: vec![1, 1],
                displacements: vec![
                    indexed_offset("(i32, f64)", 0),
                    indexed_offset("(i32, f64)", 1)
                ],
                types: vec![equivalent("i32"), equivalent("f64")],
            }],
        })
    );
}

#[test]
fn building_twice_gives_the_same() {
    let data = record(vec![
        ("id", leaf("u32")),
        ("position", array(leaf("f64"), 3)),
        ("tag", tuple("(u8, u8)", vec![leaf("u8"), leaf("u8")])),
    ]);
    let first = create_struct_datatype(&"Particle".to_string(), &data);
    let second = create_struct_datatype(&"Particle".to_string(), &data);
    assert!(first.is_ok());
    assert_eq!(first, second);
    let failing = Data::Enum;
    assert_eq!(
        create_struct_datatype(&"E".to_string(), &failing),
        create_struct_datatype(&"E".to_string(), &failing)
    );
}

#[test]
fn array_length_changes_the_count_only() {
    let short = record(vec![("a", leaf("i32")), ("b", array(leaf("f64"), 3))]);
    let long = record(vec![("a", leaf("i32")), ("b", array(leaf("f64"), 7))]);
    let name = "S".to_string();
    match (create_struct_datatype(&name, &short), create_struct_datatype(&name, &long)) {
        (
            Ok(Datatype::Structured { count: c1, blocklengths: b1, displacements: d1, types: t1 }),
            Ok(Datatype::Structured { count: c2, blocklengths: b2, displacements: d2, types: t2 }),
        ) => {
            assert_eq!(c1, c2);
            assert_eq!(b1, b2);
            assert_eq!(d1, d2);
            assert_eq!(t1[0], t2[0]);
            assert_eq!(t1[1], contiguous(3, equivalent("f64")));
            assert_eq!(t2[1], contiguous(7, equivalent("f64")));
        }
        other => panic!("both records have a descriptor, got {:?}", other),
    }
}

#[test]
fn built_descriptor_is_well_formed() {
    let data = record(vec![
        ("a", leaf("i32")),
        ("b", array(leaf("f64"), 3)),
        ("c", leaf("u8")),
        ("d", leaf("u8")),
    ]);
    match create_struct_datatype(&"S".to_string(), &data) {
        Ok(Datatype::Structured { count, blocklengths, displacements, types }) => {
            assert_eq!(count, 4);
            assert_eq!(blocklengths.len(), count);
            assert_eq!(displacements.len(), count);
            assert_eq!(types.len(), count);
            assert!(blocklengths.iter().all(|b| *b == 1));
        }
        other => panic!("the record has a descriptor, got {:?}", other),
    }
}

#[test]
fn unit_record_is_refused() {
    assert_eq!(create_struct_datatype(&"U".to_string(), &Data::Unit), Err(BuildError::Fieldless));
}

#[test]
fn record_without_fields_is_refused() {
    assert_eq!(
        create_struct_datatype(&"N".to_string(), &Data::Named(vec![])),
        Err(BuildError::Fieldless)
    );
    assert_eq!(
        create_struct_datatype(&"P".to_string(), &Data::Unnamed(vec![])),
        Err(BuildError::Fieldless)
    );
}

#[test]
fn empty_tuple_is_refused() {
    assert_eq!(get_datatype(&tuple("()", vec![])), Err(BuildError::Fieldless));
}

#[test]
fn enum_is_refused() {
    assert_eq!(create_struct_datatype(&"E".to_string(), &Data::Enum), Err(BuildError::Enum));
}

#[test]
fn union_is_refused() {
    assert_eq!(create_struct_datatype(&"U".to_string(), &Data::Union), Err(BuildError::Union));
}

#[test]
fn opaque_type_is_refused_by_name() {
    assert_eq!(
        get_datatype(&Shape::Opaque { name: "&str".to_string() }),
        Err(BuildError::Unsupported { name: "&str".to_string() })
    );
}

#[test]
fn failure_inside_an_array_comes_out() {
    let shape = array(Shape::Opaque { name: "*const u8".to_string() }, 4);
    assert_eq!(
        get_datatype(&shape),
        Err(BuildError::Unsupported { name: "*const u8".to_string() })
    );
}

#[test]
fn nested_enum_fails_the_whole_record() {
    let data = record(vec![
        ("a", leaf("i32")),
        ("b", Shape::Composite { name: "Kind".to_string(), data: Data::Enum }),
    ]);
    assert_eq!(create_struct_datatype(&"S".to_string(), &data), Err(BuildError::Enum));
}

#[test]
fn nested_union_fails_the_whole_tuple() {
    let shape = tuple(
        "(Bits, u8)",
        vec![Shape::Composite { name: "Bits".to_string(), data: Data::Union }, leaf("u8")],
    );
    assert_eq!(get_datatype(&shape), Err(BuildError::Union));
}

#[test]
fn first_failing_field_gives_the_failure() {
    let data = record(vec![
        ("ok", leaf("i32")),
        ("first", Shape::Opaque { name: "&u8".to_string() }),
        ("second", Shape::Composite { name: "E".to_string(), data: Data::Enum }),
    ]);
    assert_eq!(
        create_struct_datatype(&"S".to_string(), &data),
        Err(BuildError::Unsupported { name: "&u8".to_string() })
    );
    let swapped = Data::Unnamed(vec![
        Shape::Composite { name: "E".to_string(), data: Data::Enum },
        Shape::Opaque { name: "&u8".to_string() },
    ]);
    assert_eq!(create_struct_datatype(&"S".to_string(), &swapped), Err(BuildError::Enum));
}

#[test]
fn deep_failure_is_found_first_in_declaration_order() {
    let data = record(vec![
        ("a", tuple("(i32, ())", vec![leaf("i32"), tuple("()", vec![])])),
        ("b", Shape::Opaque { name: "fn()".to_string() }),
    ]);
    assert_eq!(create_struct_datatype(&"S".to_string(), &data), Err(BuildError::Fieldless));
}
