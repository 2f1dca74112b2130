//! What holds of every build, proved from the definitions in
//! [`crate::builder`].
use vstd::prelude::*;
use crate::builder::{
    data_describable, datatype_of, describable, field_outcomes, first_failure, lemma_failure_at,
    lemma_no_failure,
    names, outcomes, positions, struct_datatype_of, structured,
};
use crate::datatype::{outcome_view, BuildError, BuildErrorView, Datatype, DatatypeView, OffsetOfView};
use crate::host::{inside, offsets_within_sizes, resolved, HostLayoutView};
use crate::shape::{Data, DataView, DesignatorView, Shape, ShapeView};

verus! {

/// Where no outcome fails first, every outcome is a descriptor.
pub proof fn lemma_all_built(results: Seq<Result<DatatypeView, BuildErrorView>>)
    requires
        first_failure(results) is None,
    ensures
        forall|i: int| 0 <= i < results.len() ==> (#[trigger] results[i]) is Ok,
    decreases results.len(),
{
    if results.len() > 0 {
        let rest = results.drop_first();
        lemma_all_built(rest);
        assert forall|i: int| 0 <= i < results.len() implies (#[trigger] results[i]) is Ok by {
            if i > 0 {
                assert(results[i] == rest[i - 1]);
            }
        }
    }
}

/// A build succeeds exactly for the shapes that are describable.
pub proof fn lemma_built_iff_describable(t: ShapeView)
    ensures
        datatype_of(t) is Ok <==> describable(t),
    decreases t,
{
    match t {
        ShapeView::Array { elem, len } => {
            lemma_built_iff_describable(*elem);
        },
        ShapeView::Tuple { name, elems } => {
            lemma_positional_built_iff_describable(name, elems);
        },
        ShapeView::Leaf { path } => {},
        ShapeView::Composite { name, data } => {
            lemma_struct_built_iff_describable(name, data);
        },
        ShapeView::Opaque { name } => {},
    }
}

/// An aggregate of positional fields has a descriptor exactly where it has
/// a field and the type of each field is describable.
proof fn lemma_positional_built_iff_describable(owner: Seq<char>, types: Seq<ShapeView>)
    ensures
        structured(owner, positions(types.len()), outcomes(types)) is Ok <==> {
            &&& types.len() > 0
            &&& forall|i: int| 0 <= i < types.len() ==> describable(#[trigger] types[i])
        },
    decreases types,
{
    let children = outcomes(types);
    assert forall|i: int| 0 <= i < types.len() implies (children[i] is Ok <==> describable(
        #[trigger] types[i],
    )) by {
        lemma_built_iff_describable(types[i]);
    }
    if first_failure(children) is None {
        lemma_all_built(children);
    } else if forall|i: int| 0 <= i < types.len() ==> describable(#[trigger] types[i]) {
        lemma_no_failure(children);
    }
}

/// A composite type has a descriptor exactly where its definition is
/// describable.
pub proof fn lemma_struct_built_iff_describable(struct_name: Seq<char>, data: DataView)
    ensures
        struct_datatype_of(struct_name, data) is Ok <==> data_describable(data),
    decreases data,
{
    match data {
        DataView::Named(fields) => {
            let children = field_outcomes(fields);
            assert forall|i: int| 0 <= i < fields.len() implies (children[i] is Ok <==> describable(
                (#[trigger] fields[i]).1,
            )) by {
                lemma_built_iff_describable(fields[i].1);
            }
            if first_failure(children) is None {
                lemma_all_built(children);
            } else if forall|i: int| 0 <= i < fields.len() ==> describable((#[trigger] fields[i]).1) {
                lemma_no_failure(children);
            }
        },
        DataView::Unnamed(fields) => {
            lemma_positional_built_iff_describable(struct_name, fields);
        },
        DataView::Unit => {},
        DataView::Enum => {},
        DataView::Union => {},
    }
}

/// Every descriptor that a build returns is well formed: at each aggregate
/// the block lengths, the offsets and the field descriptors are as many as
/// the fields, and every block has length one.
pub proof fn lemma_built_is_well_formed(t: ShapeView)
    ensures
        datatype_of(t) matches Ok(d) ==> d.well_formed(),
    decreases t,
{
    match t {
        ShapeView::Array { elem, len } => {
            lemma_built_is_well_formed(*elem);
        },
        ShapeView::Tuple { name, elems } => {
            lemma_positional_is_well_formed(name, elems);
        },
        ShapeView::Leaf { path } => {},
        ShapeView::Composite { name, data } => {
            lemma_struct_built_is_well_formed(name, data);
        },
        ShapeView::Opaque { name } => {},
    }
}

/// The descriptor of an aggregate of positional fields is well formed.
proof fn lemma_positional_is_well_formed(owner: Seq<char>, types: Seq<ShapeView>)
    ensures
        structured(owner, positions(types.len()), outcomes(types)) matches Ok(d)
            ==> d.well_formed(),
    decreases types,
{
    let children = outcomes(types);
    if structured(owner, positions(types.len()), children) is Ok {
        lemma_all_built(children);
        assert forall|i: int| 0 <= i < types.len() implies (#[trigger] children[i]->Ok_0).well_formed() by {
            lemma_built_is_well_formed(types[i]);
        }
    }
}

/// Every descriptor that a build returns for a composite type is well
/// formed.
pub proof fn lemma_struct_built_is_well_formed(struct_name: Seq<char>, data: DataView)
    ensures
        struct_datatype_of(struct_name, data) matches Ok(d) ==> d.well_formed(),
    decreases data,
{
    match data {
        DataView::Named(fields) => {
            let children = field_outcomes(fields);
            if structured(struct_name, names(fields), children) is Ok {
                lemma_all_built(children);
                assert forall|i: int| 0 <= i < fields.len() implies (#[trigger] children[i]->Ok_0).well_formed() by {
                    lemma_built_is_well_formed(fields[i].1);
                }
            }
        },
        DataView::Unnamed(fields) => {
            lemma_positional_is_well_formed(struct_name, fields);
        },
        DataView::Unit => {},
        DataView::Enum => {},
        DataView::Union => {},
    }
}

/// Building twice from one shape gives the same outcome twice: either the
/// same failure, or descriptors with the same field counts, the same
/// offsets and the same descriptors below them.
pub proof fn lemma_build_is_repeatable(
    t: Shape,
    first: Result<Datatype, BuildError>,
    second: Result<Datatype, BuildError>,
)
    requires
        outcome_view(first) == datatype_of(t@),
        outcome_view(second) == datatype_of(t@),
    ensures
        outcome_view(first) == outcome_view(second),
        first is Ok <==> second is Ok,
        first matches Ok(d1) ==> second matches Ok(d2) && d1@ == d2@,
        first matches Err(e1) ==> second matches Err(e2) && e1@ == e2@,
{
}

/// Building twice from one definition gives the same outcome twice.
pub proof fn lemma_struct_build_is_repeatable(
    struct_name: String,
    data: Data,
    first: Result<Datatype, BuildError>,
    second: Result<Datatype, BuildError>,
)
    requires
        outcome_view(first) == struct_datatype_of(struct_name@, data@),
        outcome_view(second) == struct_datatype_of(struct_name@, data@),
    ensures
        outcome_view(first) == outcome_view(second),
        first is Ok <==> second is Ok,
        first matches Ok(d1) ==> second matches Ok(d2) && d1@ == d2@,
        first matches Err(e1) ==> second matches Err(e2) && e1@ == e2@,
{
}

/// The descriptor of a record with named fields has one entry for each
/// field, in the order of declaration: a block of length one, the offset of
/// the field's name in the record, and the descriptor of the field's type.
pub proof fn lemma_named_record_follows_fields(
    struct_name: Seq<char>,
    fields: Seq<(Seq<char>, ShapeView)>,
)
    requires
        struct_datatype_of(struct_name, DataView::Named(fields)) is Ok,
    ensures
        ({
            let d = struct_datatype_of(struct_name, DataView::Named(fields))->Ok_0;
            &&& d is Structured
            &&& d->Structured_count == fields.len()
            &&& d->blocklengths.len() == fields.len()
            &&& d->displacements.len() == fields.len()
            &&& d->types.len() == fields.len()
            &&& forall|i: int| 0 <= i < fields.len() ==> #[trigger] d->blocklengths[i] == 1
            &&& forall|i: int|
                0 <= i < fields.len() ==> #[trigger] d->displacements[i] == (OffsetOfView {
                    owner: struct_name,
                    field: DesignatorView::Name(fields[i].0),
                })
            &&& forall|i: int|
                0 <= i < fields.len() ==> datatype_of(fields[i].1) == Ok::<
                    DatatypeView,
                    BuildErrorView,
                >(#[trigger] d->types[i])
        }),
{
    lemma_all_built(field_outcomes(fields));
}

/// The descriptor of an aggregate of positional fields, a tuple or a
/// positional record, has one entry for each field, in order: a block of
/// length one, the offset of the field's position in the aggregate, and the
/// descriptor of the field's type.
pub proof fn lemma_positional_follows_fields(owner: Seq<char>, types: Seq<ShapeView>)
    requires
        datatype_of(ShapeView::Tuple { name: owner, elems: types }) is Ok,
    ensures
        struct_datatype_of(owner, DataView::Unnamed(types)) == datatype_of(
            ShapeView::Tuple { name: owner, elems: types },
        ),
        ({
            let d = datatype_of(ShapeView::Tuple { name: owner, elems: types })->Ok_0;
            &&& d is Structured
            &&& d->Structured_count == types.len()
            &&& d->blocklengths.len() == types.len()
            &&& d->displacements.len() == types.len()
            &&& d->types.len() == types.len()
            &&& forall|i: int| 0 <= i < types.len() ==> #[trigger] d->blocklengths[i] == 1
            &&& forall|i: int|
                0 <= i < types.len() ==> #[trigger] d->displacements[i] == (OffsetOfView {
                    owner: owner,
                    field: DesignatorView::Index(i as nat),
                })
            &&& forall|i: int|
                0 <= i < types.len() ==> datatype_of(types[i]) == Ok::<
                    DatatypeView,
                    BuildErrorView,
                >(#[trigger] d->types[i])
        }),
{
    lemma_all_built(outcomes(types));
}

/// A tuple of three types that each have a descriptor has a descriptor of
/// three fields: their offsets are those of the positions zero, one and
/// two in the tuple, and their descriptors are those of the three types,
/// in that order.
pub proof fn lemma_triple(name: Seq<char>, a: ShapeView, b: ShapeView, c: ShapeView)
    requires
        datatype_of(a) is Ok,
        datatype_of(b) is Ok,
        datatype_of(c) is Ok,
    ensures
        datatype_of(ShapeView::Tuple { name: name, elems: seq![a, b, c] }) == Ok::<
            DatatypeView,
            BuildErrorView,
        >(
            DatatypeView::Structured {
                count: 3,
                blocklengths: seq![1nat, 1nat, 1nat],
                displacements: seq![
                    OffsetOfView { owner: name, field: DesignatorView::Index(0) },
                    OffsetOfView { owner: name, field: DesignatorView::Index(1) },
                    OffsetOfView { owner: name, field: DesignatorView::Index(2) },
                ],
                types: seq![datatype_of(a)->Ok_0, datatype_of(b)->Ok_0, datatype_of(c)->Ok_0],
            },
        ),
{
    let elems = seq![a, b, c];
    let children = outcomes(elems);
    assert(children[0] == datatype_of(a));
    assert(children[1] == datatype_of(b));
    assert(children[2] == datatype_of(c));
    lemma_no_failure(children);
    let d = datatype_of(ShapeView::Tuple { name: name, elems: elems })->Ok_0;
    assert(d->blocklengths =~= seq![1nat, 1nat, 1nat]);
    assert(d->displacements =~= seq![
        OffsetOfView { owner: name, field: DesignatorView::Index(0) },
        OffsetOfView { owner: name, field: DesignatorView::Index(1) },
        OffsetOfView { owner: name, field: DesignatorView::Index(2) },
    ]);
    assert(d->types =~= seq![datatype_of(a)->Ok_0, datatype_of(b)->Ok_0, datatype_of(c)->Ok_0]);
}

/// An array has a descriptor exactly where its element has one, and then
/// it is as many contiguous copies of the element's descriptor as the
/// array is long; where the element has none, the array fails as the
/// element does.
pub proof fn lemma_array_repeats_element(elem: ShapeView, len: nat)
    ensures
        datatype_of(elem) matches Ok(d) ==> datatype_of(
            ShapeView::Array { elem: Box::new(elem), len: len },
        ) == Ok::<DatatypeView, BuildErrorView>(
            DatatypeView::Contiguous { count: len, oldtype: Box::new(d) },
        ),
        datatype_of(elem) matches Err(e) ==> datatype_of(
            ShapeView::Array { elem: Box::new(elem), len: len },
        ) == Err::<DatatypeView, BuildErrorView>(e),
{
}

/// In the descriptor of a record, a field that is an array of `len`
/// elements of shape `elem` is described by `len` contiguous copies of the
/// descriptor of `elem`.
pub proof fn lemma_array_field(
    struct_name: Seq<char>,
    fields: Seq<(Seq<char>, ShapeView)>,
    i: int,
    elem: ShapeView,
    len: nat,
)
    requires
        0 <= i < fields.len(),
        fields[i].1 == (ShapeView::Array { elem: Box::new(elem), len: len }),
        struct_datatype_of(struct_name, DataView::Named(fields)) is Ok,
    ensures
        datatype_of(elem) is Ok,
        struct_datatype_of(struct_name, DataView::Named(fields))->Ok_0->types[i] == (
        DatatypeView::Contiguous { count: len, oldtype: Box::new(datatype_of(elem)->Ok_0) }),
{
    lemma_named_record_follows_fields(struct_name, fields);
}

/// In the descriptor of a record, a field that is itself a composite type
/// is described by the whole descriptor of that type: its offsets are those
/// of its own fields in the nested type, counted from the nested value's
/// start, whatever the record around it is.
pub proof fn lemma_nested_field(
    struct_name: Seq<char>,
    fields: Seq<(Seq<char>, ShapeView)>,
    i: int,
    nested_name: Seq<char>,
    nested: DataView,
)
    requires
        0 <= i < fields.len(),
        fields[i].1 == (ShapeView::Composite { name: nested_name, data: nested }),
        struct_datatype_of(struct_name, DataView::Named(fields)) is Ok,
    ensures
        struct_datatype_of(nested_name, nested) is Ok,
        struct_datatype_of(struct_name, DataView::Named(fields))->Ok_0->types[i]
            == struct_datatype_of(nested_name, nested)->Ok_0,
        struct_datatype_of(struct_name, DataView::Named(fields))->Ok_0->types[i] is Structured,
        forall|j: int|
            #![trigger struct_datatype_of(struct_name, DataView::Named(fields))->Ok_0->types[i]->displacements[j]]
            0 <= j < struct_datatype_of(
                struct_name,
                DataView::Named(fields),
            )->Ok_0->types[i]->displacements.len() ==> struct_datatype_of(
                struct_name,
                DataView::Named(fields),
            )->Ok_0->types[i]->displacements[j].owner == nested_name,
{
    lemma_named_record_follows_fields(struct_name, fields);
    let d = struct_datatype_of(struct_name, DataView::Named(fields))->Ok_0;
    assert(datatype_of(fields[i].1) == Ok::<DatatypeView, BuildErrorView>(d->types[i]));
}

/// Giving an array field of a record another length changes the number of
/// copies in that field's descriptor and nothing else: the record's field
/// count, block lengths and offsets, the descriptors of its other fields
/// and the element's descriptor all stay.
pub proof fn lemma_array_length_changes_count_only(
    struct_name: Seq<char>,
    fields: Seq<(Seq<char>, ShapeView)>,
    i: int,
    elem: ShapeView,
    len: nat,
    other_len: nat,
)
    requires
        0 <= i < fields.len(),
        fields[i].1 == (ShapeView::Array { elem: Box::new(elem), len: len }),
        struct_datatype_of(struct_name, DataView::Named(fields)) is Ok,
    ensures
        ({
            let before = struct_datatype_of(struct_name, DataView::Named(fields))->Ok_0;
            let changed = fields.update(
                i,
                (fields[i].0, ShapeView::Array { elem: Box::new(elem), len: other_len }),
            );
            struct_datatype_of(struct_name, DataView::Named(changed)) == Ok::<
                DatatypeView,
                BuildErrorView,
            >(
                DatatypeView::Structured {
                    count: before->Structured_count,
                    blocklengths: before->blocklengths,
                    displacements: before->displacements,
                    types: before->types.update(
                        i,
                        DatatypeView::Contiguous {
                            count: other_len,
                            oldtype: Box::new(datatype_of(elem)->Ok_0),
                        },
                    ),
                },
            )
        }),
{
    let changed = fields.update(
        i,
        (fields[i].0, ShapeView::Array { elem: Box::new(elem), len: other_len }),
    );
    let before = struct_datatype_of(struct_name, DataView::Named(fields))->Ok_0;
    lemma_named_record_follows_fields(struct_name, fields);
    let children = field_outcomes(changed);
    assert(datatype_of(fields[i].1) == Ok::<DatatypeView, BuildErrorView>(before->types[i]));
    assert(datatype_of(elem) is Ok);
    assert forall|j: int| 0 <= j < changed.len() implies (#[trigger] children[j]) is Ok by {
        if j == i {
            assert(changed[i].1 == (ShapeView::Array { elem: Box::new(elem), len: other_len }));
            lemma_array_repeats_element(elem, other_len);
        } else {
            assert(changed[j] == fields[j]);
            assert(datatype_of(fields[j].1) == Ok::<DatatypeView, BuildErrorView>(before->types[j]));
        }
    }
    lemma_no_failure(children);
    let after = struct_datatype_of(struct_name, DataView::Named(changed))->Ok_0;
    assert(after->blocklengths =~= before->blocklengths);
    assert(after->displacements =~= before->displacements) by {
        assert forall|j: int| 0 <= j < fields.len() implies after->displacements[j]
            == before->displacements[j] by {
            assert(changed[j].0 == fields[j].0);
        }
    }
    assert(after->types =~= before->types.update(
        i,
        DatatypeView::Contiguous { count: other_len, oldtype: Box::new(datatype_of(elem)->Ok_0) },
    )) by {
        assert forall|j: int| 0 <= j < fields.len() && j != i implies after->types[j]
            == before->types[j] by {
            assert(changed[j] == fields[j]);
            assert(datatype_of(fields[j].1) == Ok::<DatatypeView, BuildErrorView>(before->types[j]));
        }
    }
}

/// No descriptor is built for a composite type without fields, for an
/// enum or for a union, whatever the type is called.
pub proof fn lemma_unsupported_definitions_fail(struct_name: Seq<char>)
    ensures
        struct_datatype_of(struct_name, DataView::Unit) == Err::<DatatypeView, BuildErrorView>(
            BuildErrorView::Fieldless,
        ),
        struct_datatype_of(struct_name, DataView::Named(Seq::empty())) == Err::<
            DatatypeView,
            BuildErrorView,
        >(BuildErrorView::Fieldless),
        struct_datatype_of(struct_name, DataView::Unnamed(Seq::empty())) == Err::<
            DatatypeView,
            BuildErrorView,
        >(BuildErrorView::Fieldless),
        datatype_of(ShapeView::Tuple { name: struct_name, elems: Seq::empty() }) == Err::<
            DatatypeView,
            BuildErrorView,
        >(BuildErrorView::Fieldless),
        struct_datatype_of(struct_name, DataView::Enum) == Err::<DatatypeView, BuildErrorView>(
            BuildErrorView::Enum,
        ),
        struct_datatype_of(struct_name, DataView::Union) == Err::<DatatypeView, BuildErrorView>(
            BuildErrorView::Union,
        ),
{
}

/// A record fails as its first field fails whose type has no descriptor,
/// and never returns a part of a descriptor.
pub proof fn lemma_record_fails_with_first_field(
    struct_name: Seq<char>,
    fields: Seq<(Seq<char>, ShapeView)>,
    k: int,
)
    requires
        0 <= k < fields.len(),
        datatype_of(fields[k].1) is Err,
        forall|i: int| 0 <= i < k ==> datatype_of((#[trigger] fields[i]).1) is Ok,
    ensures
        struct_datatype_of(struct_name, DataView::Named(fields)) == Err::<
            DatatypeView,
            BuildErrorView,
        >(datatype_of(fields[k].1)->Err_0),
{
    let children = field_outcomes(fields);
    assert forall|i: int| 0 <= i < k implies children[i] is Ok by {
        assert(datatype_of(fields[i].1) is Ok);
    }
    lemma_failure_at(children, k);
}

/// The offset of the field called `name` in the type `owner`.
pub open spec fn named_field(owner: Seq<char>, name: Seq<char>) -> OffsetOfView {
    OffsetOfView { owner: owner, field: DesignatorView::Name(name) }
}

/// Resolved against a host, the offsets in the descriptor of a record with
/// named fields are, field by field and in the order of declaration, the
/// distances that the host has measured from the start of the record to
/// the start of that field; each of them lies inside the record.
pub proof fn lemma_record_offsets_are_measured(
    layout: HostLayoutView,
    struct_name: Seq<char>,
    fields: Seq<(Seq<char>, ShapeView)>,
)
    requires
        offsets_within_sizes(layout),
        struct_datatype_of(struct_name, DataView::Named(fields)) is Ok,
        resolved(
            layout,
            struct_datatype_of(struct_name, DataView::Named(fields))->Ok_0->displacements,
        ) is Some,
    ensures
        resolved(
            layout,
            struct_datatype_of(struct_name, DataView::Named(fields))->Ok_0->displacements,
        )->Some_0.len() == fields.len(),
        forall|i: int|
            0 <= i < fields.len() ==> layout.offsets.contains_key(
                #[trigger] named_field(struct_name, fields[i].0),
            ),
        forall|i: int|
            0 <= i < fields.len() ==> #[trigger] resolved(
                layout,
                struct_datatype_of(struct_name, DataView::Named(fields))->Ok_0->displacements,
            )->Some_0[i] == layout.offsets[named_field(struct_name, fields[i].0)],
        forall|i: int|
            0 <= i < fields.len() ==> inside(
                layout,
                struct_name,
                #[trigger] resolved(
                    layout,
                    struct_datatype_of(struct_name, DataView::Named(fields))->Ok_0->displacements,
                )->Some_0[i],
            ),
{
    lemma_named_record_follows_fields(struct_name, fields);
    let d = struct_datatype_of(struct_name, DataView::Named(fields))->Ok_0;
    let found = resolved(layout, d->displacements)->Some_0;
    assert forall|i: int| 0 <= i < fields.len() implies {
        &&& layout.offsets.contains_key(named_field(struct_name, fields[i].0))
        &&& #[trigger] found[i] == layout.offsets[named_field(struct_name, fields[i].0)]
        &&& inside(layout, struct_name, found[i])
    } by {
        assert(d->displacements[i] == named_field(struct_name, fields[i].0));
        assert(layout.offsets.contains_key(d->displacements[i]));
    }
    assert forall|i: int| 0 <= i < fields.len() implies layout.offsets.contains_key(
        #[trigger] named_field(struct_name, fields[i].0),
    ) by {
        assert(found[i] == layout.offsets[named_field(struct_name, fields[i].0)]);
    }
}

/// The offset of the field at position `index` in the type `owner`.
pub open spec fn positional_field(owner: Seq<char>, index: int) -> OffsetOfView {
    OffsetOfView { owner: owner, field: DesignatorView::Index(index as nat) }
}

/// Resolved against a host, the offsets in the descriptor of a tuple are,
/// element by element and in order, the distances that the host has
/// measured from the start of the tuple to the start of that element; each
/// of them lies inside the tuple.
pub proof fn lemma_tuple_offsets_are_measured(
    layout: HostLayoutView,
    name: Seq<char>,
    elems: Seq<ShapeView>,
)
    requires
        offsets_within_sizes(layout),
        datatype_of(ShapeView::Tuple { name: name, elems: elems }) is Ok,
        resolved(
            layout,
            datatype_of(ShapeView::Tuple { name: name, elems: elems })->Ok_0->displacements,
        ) is Some,
    ensures
        resolved(
            layout,
            datatype_of(ShapeView::Tuple { name: name, elems: elems })->Ok_0->displacements,
        )->Some_0.len() == elems.len(),
        forall|i: int|
            0 <= i < elems.len() ==> layout.offsets.contains_key(
                #[trigger] positional_field(name, i),
            ),
        forall|i: int|
            0 <= i < elems.len() ==> #[trigger] resolved(
                layout,
                datatype_of(ShapeView::Tuple { name: name, elems: elems })->Ok_0->displacements,
            )->Some_0[i] == layout.offsets[positional_field(name, i)],
        forall|i: int|
            0 <= i < elems.len() ==> inside(
                layout,
                name,
                #[trigger] resolved(
                    layout,
                    datatype_of(ShapeView::Tuple { name: name, elems: elems })->Ok_0->displacements,
                )->Some_0[i],
            ),
{
    lemma_positional_follows_fields(name, elems);
    let d = datatype_of(ShapeView::Tuple { name: name, elems: elems })->Ok_0;
    let found = resolved(layout, d->displacements)->Some_0;
    assert forall|i: int| 0 <= i < elems.len() implies {
        &&& layout.offsets.contains_key(positional_field(name, i))
        &&& #[trigger] found[i] == layout.offsets[positional_field(name, i)]
        &&& inside(layout, name, found[i])
    } by {
        assert(d->displacements[i] == positional_field(name, i));
        assert(layout.offsets.contains_key(d->displacements[i]));
    }
    assert forall|i: int| 0 <= i < elems.len() implies layout.offsets.contains_key(
        #[trigger] positional_field(name, i),
    ) by {
        assert(found[i] == layout.offsets[positional_field(name, i)]);
    }
}

} // verus!
