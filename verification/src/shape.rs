//! The shape of a type whose layout is to be described.
use vstd::prelude::*;

verus! {

/// Picks one field out of its owning type: by name in a record with named
/// fields, by position in a positional record or a tuple.
#[derive(Debug, PartialEq, Eq)]
pub enum Designator {
    Name(String),
    Index(usize),
}

/// Mathematical model of a [`Designator`].
pub enum DesignatorView {
    Name(Seq<char>),
    Index(nat),
}

impl View for Designator {
    type V = DesignatorView;

    open spec fn view(&self) -> DesignatorView {
        match self {
            Designator::Name(n) => DesignatorView::Name(n@),
            Designator::Index(i) => DesignatorView::Index(*i as nat),
        }
    }
}

/// What the definition of a composite type declares.
#[derive(Debug, PartialEq, Eq)]
pub enum Data {
    /// A record with named fields, in declaration order.
    Named(Vec<(String, Shape)>),
    /// A record with positional fields, in declaration order.
    Unnamed(Vec<Shape>),
    /// A unit-like record: no field list at all.
    Unit,
    /// A tagged variant type.
    Enum,
    /// An untagged union.
    Union,
}

/// The shape of the type of a field.
#[derive(Debug, PartialEq, Eq)]
pub enum Shape {
    /// `len` elements of one type, side by side.
    Array { elem: Box<Shape>, len: usize },
    /// An anonymous aggregate; `name` is the tuple type as its owner writes it.
    Tuple { name: String, elems: Vec<Shape> },
    /// A type that describes itself and is taken as it is.
    Leaf { path: String },
    /// A composite type whose definition is known and is walked in place.
    Composite { name: String, data: Data },
    /// A type that neither describes itself nor can be taken apart.
    Opaque { name: String },
}

/// Mathematical model of a [`Data`].
pub enum DataView {
    Named(Seq<(Seq<char>, ShapeView)>),
    Unnamed(Seq<ShapeView>),
    Unit,
    Enum,
    Union,
}

/// Mathematical model of a [`Shape`].
pub enum ShapeView {
    Array { elem: Box<ShapeView>, len: nat },
    Tuple { name: Seq<char>, elems: Seq<ShapeView> },
    Leaf { path: Seq<char> },
    Composite { name: Seq<char>, data: DataView },
    Opaque { name: Seq<char> },
}

/// The model of a shape: strings as character sequences, vectors as
/// sequences, lengths as natural numbers.
pub open spec fn shape_view(s: Shape) -> ShapeView
    decreases s,
{
    match s {
        Shape::Array { elem, len } => ShapeView::Array {
            elem: Box::new(shape_view(*elem)),
            len: len as nat,
        },
        Shape::Tuple { name, elems } => ShapeView::Tuple { name: name@, elems: shapes_view(elems) },
        Shape::Leaf { path } => ShapeView::Leaf { path: path@ },
        Shape::Composite { name, data } => ShapeView::Composite {
            name: name@,
            data: data_view(data),
        },
        Shape::Opaque { name } => ShapeView::Opaque { name: name@ },
    }
}

/// The models of the shapes in `shapes`, in order.
pub open spec fn shapes_view(shapes: Vec<Shape>) -> Seq<ShapeView>
    decreases shapes,
{
    Seq::new(
        shapes.len() as nat,
        |i: int| if 0 <= i < shapes.len() { shape_view(shapes[i]) } else { arbitrary() },
    )
}

/// The models of the named fields in `fields`, in order: each a name and
/// the shape of a type.
pub open spec fn fields_view(fields: Vec<(String, Shape)>) -> Seq<(Seq<char>, ShapeView)>
    decreases fields,
{
    Seq::new(
        fields.len() as nat,
        |i: int|
            if 0 <= i < fields.len() {
                (fields[i].0@, shape_view(fields[i].1))
            } else {
                arbitrary()
            },
    )
}

/// The model of a definition's body.
pub open spec fn data_view(d: Data) -> DataView
    decreases d,
{
    match d {
        Data::Named(fields) => DataView::Named(fields_view(fields)),
        Data::Unnamed(fields) => DataView::Unnamed(shapes_view(fields)),
        Data::Unit => DataView::Unit,
        Data::Enum => DataView::Enum,
        Data::Union => DataView::Union,
    }
}

impl View for Shape {
    type V = ShapeView;

    open spec fn view(&self) -> ShapeView {
        shape_view(*self)
    }
}

impl View for Data {
    type V = DataView;

    open spec fn view(&self) -> DataView {
        data_view(*self)
    }
}

} // verus!
