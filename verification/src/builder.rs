//! The descriptor builder: from the shape of a type to its layout
//! descriptor.
use vstd::prelude::*;
use crate::datatype::{
    datatype_view, outcome_view, BuildError, BuildErrorView, Datatype, DatatypeView, OffsetOf,
    OffsetOfView,
};
use crate::laws::{
    lemma_built_is_well_formed, lemma_built_iff_describable, lemma_struct_built_is_well_formed,
    lemma_struct_built_iff_describable,
};
use crate::shape::{
    fields_view, shapes_view, Data, DataView, Designator, DesignatorView, Shape, ShapeView,
};

verus! {

/// The failure that comes first in `results`, if there is one.
pub open spec fn first_failure(
    results: Seq<Result<DatatypeView, BuildErrorView>>,
) -> Option<BuildErrorView>
    decreases results.len(),
{
    if results.len() == 0 {
        None
    } else {
        match results[0] {
            Err(e) => Some(e),
            Ok(_) => first_failure(results.drop_first()),
        }
    }
}

/// The descriptor of an aggregate `owner` whose field `i` is designated by
/// `designators[i]` and has `children[i]` as the outcome for its type.
///
/// An aggregate without fields has no descriptor; neither has one with a
/// field whose type has none, and the first such field says why. Otherwise
/// the descriptor counts the fields, gives each a block of length one, the
/// offset of its designator in `owner`, and the descriptor of its type, all
/// in the order of declaration.
pub open spec fn structured(
    owner: Seq<char>,
    designators: Seq<DesignatorView>,
    children: Seq<Result<DatatypeView, BuildErrorView>>,
) -> Result<DatatypeView, BuildErrorView> {
    if children.len() == 0 {
        Err(BuildErrorView::Fieldless)
    } else {
        match first_failure(children) {
            Some(e) => Err(e),
            None => Ok(
                DatatypeView::Structured {
                    count: children.len(),
                    blocklengths: Seq::new(children.len(), |i: int| 1nat),
                    displacements: Seq::new(
                        children.len(),
                        |i: int| OffsetOfView { owner: owner, field: designators[i] },
                    ),
                    types: Seq::new(children.len(), |i: int| children[i]->Ok_0),
                },
            ),
        }
    }
}

/// The designators of `n` positional fields: the positions from zero up.
pub open spec fn positions(n: nat) -> Seq<DesignatorView> {
    Seq::new(n, |i: int| DesignatorView::Index(i as nat))
}

/// The designators of named fields: their names.
pub open spec fn names(fields: Seq<(Seq<char>, ShapeView)>) -> Seq<DesignatorView> {
    Seq::new(fields.len(), |i: int| DesignatorView::Name(fields[i].0))
}

/// The descriptor of a type of shape `t`, or why it has none.
pub open spec fn datatype_of(t: ShapeView) -> Result<DatatypeView, BuildErrorView>
    decreases t,
{
    match t {
        ShapeView::Array { elem, len } => match datatype_of(*elem) {
            Ok(d) => Ok(DatatypeView::Contiguous { count: len, oldtype: Box::new(d) }),
            Err(e) => Err(e),
        },
        ShapeView::Tuple { name, elems } => structured(
            name,
            positions(elems.len()),
            outcomes(elems),
        ),
        ShapeView::Leaf { path } => Ok(DatatypeView::Equivalent { path }),
        ShapeView::Composite { name, data } => struct_datatype_of(name, data),
        ShapeView::Opaque { name } => Err(BuildErrorView::Unsupported { name }),
    }
}

/// The outcome for each type in `types`, in order.
pub open spec fn outcomes(types: Seq<ShapeView>) -> Seq<Result<DatatypeView, BuildErrorView>>
    decreases types,
{
    Seq::new(
        types.len(),
        |i: int| if 0 <= i < types.len() { datatype_of(types[i]) } else { arbitrary() },
    )
}

/// The outcome for the type of each field in `fields`, in order.
pub open spec fn field_outcomes(fields: Seq<(Seq<char>, ShapeView)>) -> Seq<
    Result<DatatypeView, BuildErrorView>,
>
    decreases fields,
{
    Seq::new(
        fields.len(),
        |i: int| if 0 <= i < fields.len() { datatype_of(fields[i].1) } else { arbitrary() },
    )
}

/// The descriptor of the composite type `struct_name` that declares
/// `data`, or why it has none.
pub open spec fn struct_datatype_of(struct_name: Seq<char>, data: DataView) -> Result<
    DatatypeView,
    BuildErrorView,
>
    decreases data,
{
    match data {
        DataView::Named(fields) => structured(struct_name, names(fields), field_outcomes(fields)),
        DataView::Unnamed(fields) => structured(
            struct_name,
            positions(fields.len()),
            outcomes(fields),
        ),
        DataView::Unit => Err(BuildErrorView::Fieldless),
        DataView::Enum => Err(BuildErrorView::Enum),
        DataView::Union => Err(BuildErrorView::Union),
    }
}

/// Whether a type of shape `t` has a descriptor: every tuple and every
/// record in it has a field, and it holds no unit-like record, no enum, no
/// union and no type that neither describes itself nor can be taken apart.
pub open spec fn describable(t: ShapeView) -> bool
    decreases t,
{
    match t {
        ShapeView::Array { elem, len } => describable(*elem),
        ShapeView::Tuple { name, elems } => {
            &&& elems.len() > 0
            &&& forall|i: int| 0 <= i < elems.len() ==> describable(#[trigger] elems[i])
        },
        ShapeView::Leaf { path } => true,
        ShapeView::Composite { name, data } => data_describable(data),
        ShapeView::Opaque { name } => false,
    }
}

/// Whether a composite type that declares `data` has a descriptor: it is a
/// record with a field, and the type of each field has a descriptor.
pub open spec fn data_describable(data: DataView) -> bool
    decreases data,
{
    match data {
        DataView::Named(fields) => {
            &&& fields.len() > 0
            &&& forall|i: int| 0 <= i < fields.len() ==> describable((#[trigger] fields[i]).1)
        },
        DataView::Unnamed(fields) => {
            &&& fields.len() > 0
            &&& forall|i: int| 0 <= i < fields.len() ==> describable(#[trigger] fields[i])
        },
        DataView::Unit => false,
        DataView::Enum => false,
        DataView::Union => false,
    }
}

/// Where every outcome is a descriptor, none fails first.
pub proof fn lemma_no_failure(results: Seq<Result<DatatypeView, BuildErrorView>>)
    requires
        forall|i: int| 0 <= i < results.len() ==> results[i] is Ok,
    ensures
        first_failure(results) is None,
    decreases results.len(),
{
    if results.len() > 0 {
        lemma_no_failure(results.drop_first());
    }
}

/// The failure at `k` comes first where every outcome before `k` is a
/// descriptor.
pub proof fn lemma_failure_at(results: Seq<Result<DatatypeView, BuildErrorView>>, k: int)
    requires
        0 <= k < results.len(),
        results[k] is Err,
        forall|i: int| 0 <= i < k ==> results[i] is Ok,
    ensures
        first_failure(results) == Some(results[k]->Err_0),
    decreases k,
{
    if k > 0 {
        lemma_failure_at(results.drop_first(), k - 1);
    }
}

/// The offset of field `field` in the type `owner`.
pub fn offset_of_field(owner: &String, field: Designator) -> (offset: OffsetOf)
    ensures
        offset@ == (OffsetOfView { owner: owner@, field: field@ }),
{
    OffsetOf { owner: owner.clone(), field }
}

/// Builds the descriptor of a type of shape `t`.
///
/// An array becomes as many contiguous copies of its element's descriptor
/// as it has elements; a tuple and a nested composite become an aggregate
/// of their fields; a leaf stands for the descriptor it gives of itself.
/// The build fails, with the first cause in the order of declaration, where
/// `t` holds a composite without fields, an enum, a union or a type that
/// neither describes itself nor can be taken apart.
pub fn get_datatype(t: &Shape) -> (r: Result<Datatype, BuildError>)
    ensures
        outcome_view(r) == datatype_of(t@),
        r is Ok <==> describable(t@),
        r matches Ok(d) ==> d@.well_formed(),
    decreases t,
{
    proof {
        lemma_built_iff_describable(t@);
        lemma_built_is_well_formed(t@);
    }
    match t {
        Shape::Array { elem, len } => match get_datatype(elem) {
            Ok(d) => Ok(Datatype::Contiguous { count: *len, oldtype: Box::new(d) }),
            Err(e) => Err(e),
        },
        Shape::Tuple { name, elems } => positional_datatype(name, elems),
        Shape::Leaf { path } => Ok(Datatype::Equivalent { path: path.clone() }),
        Shape::Composite { name, data } => create_struct_datatype(name, data),
        Shape::Opaque { name } => Err(BuildError::Unsupported { name: name.clone() }),
    }
}

/// Builds the descriptor of the aggregate `owner` whose fields have the
/// shapes `types` and are designated by their positions.
fn positional_datatype(owner: &String, types: &Vec<Shape>) -> (r: Result<Datatype, BuildError>)
    ensures
        outcome_view(r) == structured(
            owner@,
            positions(types.len() as nat),
            outcomes(shapes_view(*types)),
        ),
    decreases types,
{
    let n = types.len();
    let ghost children = outcomes(shapes_view(*types));
    if n == 0 {
        return Err(BuildError::Fieldless);
    }
    let mut blocklengths: Vec<usize> = Vec::new();
    let mut displacements: Vec<OffsetOf> = Vec::new();
    let mut descriptors: Vec<Datatype> = Vec::new();
    let mut i: usize = 0;
    while i < n
        invariant
            n == types.len(),
            i <= n,
            children == outcomes(shapes_view(*types)),
            blocklengths.len() == i,
            displacements.len() == i,
            descriptors.len() == i,
            forall|j: int| 0 <= j < i ==> blocklengths[j] == 1,
            forall|j: int|
                0 <= j < i ==> displacements[j]@ == (OffsetOfView {
                    owner: owner@,
                    field: DesignatorView::Index(j as nat),
                }),
            forall|j: int|
                0 <= j < i ==> children[j] == Ok::<DatatypeView, BuildErrorView>(descriptors[j]@),
        decreases n - i,
    {
        match get_datatype(&types[i]) {
            Err(e) => {
                proof {
                    lemma_failure_at(children, i as int);
                }
                return Err(e);
            },
            Ok(d) => {
                blocklengths.push(1);
                displacements.push(offset_of_field(owner, Designator::Index(i)));
                descriptors.push(d);
            },
        }
        i += 1;
    }
    let built = Datatype::Structured { count: n, blocklengths, displacements, types: descriptors };
    proof {
        lemma_no_failure(children);
        let expected = structured(owner@, positions(n as nat), children)->Ok_0;
        assert(built@->blocklengths =~= expected->blocklengths);
        assert(built@->displacements =~= expected->displacements);
        assert(built@->types =~= expected->types) by {
            reveal_with_fuel(datatype_view, 2);
        }
    }
    Ok(built)
}

/// Builds the descriptor of the aggregate `owner` whose fields are
/// `fields` and are designated by their names.
fn named_datatype(owner: &String, fields: &Vec<(String, Shape)>) -> (r: Result<
    Datatype,
    BuildError,
>)
    ensures
        outcome_view(r) == structured(
            owner@,
            names(fields_view(*fields)),
            field_outcomes(fields_view(*fields)),
        ),
    decreases fields,
{
    let n = fields.len();
    let ghost pairs = fields_view(*fields);
    let ghost children = field_outcomes(pairs);
    if n == 0 {
        return Err(BuildError::Fieldless);
    }
    let mut blocklengths: Vec<usize> = Vec::new();
    let mut displacements: Vec<OffsetOf> = Vec::new();
    let mut descriptors: Vec<Datatype> = Vec::new();
    let mut i: usize = 0;
    while i < n
        invariant
            n == fields.len(),
            i <= n,
            pairs == fields_view(*fields),
            children == field_outcomes(pairs),
            blocklengths.len() == i,
            displacements.len() == i,
            descriptors.len() == i,
            forall|j: int| 0 <= j < i ==> blocklengths[j] == 1,
            forall|j: int|
                0 <= j < i ==> displacements[j]@ == (OffsetOfView {
                    owner: owner@,
                    field: DesignatorView::Name(pairs[j].0),
                }),
            forall|j: int|
                0 <= j < i ==> children[j] == Ok::<DatatypeView, BuildErrorView>(descriptors[j]@),
        decreases n - i,
    {
        match get_datatype(&fields[i].1) {
            Err(e) => {
                proof {
                    lemma_failure_at(children, i as int);
                }
                return Err(e);
            },
            Ok(d) => {
                blocklengths.push(1);
                displacements.push(offset_of_field(owner, Designator::Name(fields[i].0.clone())));
                descriptors.push(d);
            },
        }
        i += 1;
    }
    let built = Datatype::Structured { count: n, blocklengths, displacements, types: descriptors };
    proof {
        lemma_no_failure(children);
        let expected = structured(owner@, names(pairs), children)->Ok_0;
        assert(built@->blocklengths =~= expected->blocklengths);
        assert(built@->displacements =~= expected->displacements);
        assert(built@->types =~= expected->types) by {
            reveal_with_fuel(datatype_view, 2);
        }
    }
    Ok(built)
}

/// Builds the descriptor of the composite type `struct_name` that declares
/// `data`.
///
/// A record becomes an aggregate of its fields, in the order of
/// declaration: named fields are designated by their names, positional
/// fields by their positions. The build fails for a record without fields,
/// for an enum and for a union, and where the type of a field has no
/// descriptor.
pub fn create_struct_datatype(struct_name: &String, data: &Data) -> (r: Result<
    Datatype,
    BuildError,
>)
    ensures
        outcome_view(r) == struct_datatype_of(struct_name@, data@),
        r is Ok <==> data_describable(data@),
        r matches Ok(d) ==> d@.well_formed(),
    decreases data,
{
    proof {
        lemma_struct_built_iff_describable(struct_name@, data@);
        lemma_struct_built_is_well_formed(struct_name@, data@);
    }
    match data {
        Data::Named(fields) => named_datatype(struct_name, fields),
        Data::Unnamed(fields) => positional_datatype(struct_name, fields),
        Data::Unit => Err(BuildError::Fieldless),
        Data::Enum => Err(BuildError::Enum),
        Data::Union => Err(BuildError::Union),
    }
}

} // verus!
