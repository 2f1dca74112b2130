//! The layout descriptor that the builder returns, and the ways it can fail.
use vstd::prelude::*;
use crate::shape::{Designator, DesignatorView};

verus! {

/// The offset of one field inside its owner: the byte distance from the
/// start of a value of the type `owner` to the start of its field `field`,
/// as the host lays that type out.
#[derive(Debug, PartialEq, Eq)]
pub struct OffsetOf {
    pub owner: String,
    pub field: Designator,
}

/// Mathematical model of an [`OffsetOf`].
pub struct OffsetOfView {
    pub owner: Seq<char>,
    pub field: DesignatorView,
}

impl View for OffsetOf {
    type V = OffsetOfView;

    open spec fn view(&self) -> OffsetOfView {
        OffsetOfView { owner: self.owner@, field: self.field@ }
    }
}

/// A layout descriptor.
#[derive(Debug, PartialEq, Eq)]
pub enum Datatype {
    /// An aggregate of `count` fields: field `i` is `blocklengths[i]` values
    /// of `types[i]`, `displacements[i]` bytes from the aggregate's start.
    Structured {
        count: usize,
        blocklengths: Vec<usize>,
        displacements: Vec<OffsetOf>,
        types: Vec<Datatype>,
    },
    /// `count` copies of `oldtype`, one after the other.
    Contiguous { count: usize, oldtype: Box<Datatype> },
    /// The descriptor that the type `path` gives of itself.
    Equivalent { path: String },
}

/// Mathematical model of a [`Datatype`].
pub enum DatatypeView {
    Structured {
        count: nat,
        blocklengths: Seq<nat>,
        displacements: Seq<OffsetOfView>,
        types: Seq<DatatypeView>,
    },
    Contiguous { count: nat, oldtype: Box<DatatypeView> },
    Equivalent { path: Seq<char> },
}

/// The model of a descriptor.
pub open spec fn datatype_view(d: Datatype) -> DatatypeView
    decreases d,
{
    match d {
        Datatype::Structured { count, blocklengths, displacements, types } => {
            DatatypeView::Structured {
                count: count as nat,
                blocklengths: Seq::new(blocklengths.len() as nat, |i: int| blocklengths[i] as nat),
                displacements: Seq::new(displacements.len() as nat, |i: int| displacements[i]@),
                types: datatypes_view(types),
            }
        },
        Datatype::Contiguous { count, oldtype } => DatatypeView::Contiguous {
            count: count as nat,
            oldtype: Box::new(datatype_view(*oldtype)),
        },
        Datatype::Equivalent { path } => DatatypeView::Equivalent { path: path@ },
    }
}

/// The models of the descriptors in `types`, in order.
pub open spec fn datatypes_view(types: Vec<Datatype>) -> Seq<DatatypeView>
    decreases types,
{
    Seq::new(
        types.len() as nat,
        |i: int| if 0 <= i < types.len() { datatype_view(types[i]) } else { arbitrary() },
    )
}

impl View for Datatype {
    type V = DatatypeView;

    open spec fn view(&self) -> DatatypeView {
        datatype_view(*self)
    }
}

impl DatatypeView {
    /// At every aggregate the three sequences have `count` entries and every
    /// block has length one.
    pub open spec fn well_formed(self) -> bool
        decreases self,
    {
        match self {
            DatatypeView::Structured { count, blocklengths, displacements, types } => {
                &&& blocklengths.len() == count
                &&& displacements.len() == count
                &&& types.len() == count
                &&& forall|i: int| 0 <= i < count ==> blocklengths[i] == 1
                &&& forall|i: int| 0 <= i < types.len() ==> (#[trigger] types[i]).well_formed()
            },
            DatatypeView::Contiguous { count, oldtype } => oldtype.well_formed(),
            DatatypeView::Equivalent { path } => true,
        }
    }
}

/// Why no descriptor can be built for a shape.
#[derive(Debug, PartialEq, Eq)]
pub enum BuildError {
    /// A composite without any field.
    Fieldless,
    /// A tagged variant type.
    Enum,
    /// An untagged union.
    Union,
    /// The type `name` neither describes itself nor can be taken apart.
    Unsupported { name: String },
}

/// Mathematical model of a [`BuildError`].
pub enum BuildErrorView {
    Fieldless,
    Enum,
    Union,
    Unsupported { name: Seq<char> },
}

impl View for BuildError {
    type V = BuildErrorView;

    open spec fn view(&self) -> BuildErrorView {
        match self {
            BuildError::Fieldless => BuildErrorView::Fieldless,
            BuildError::Enum => BuildErrorView::Enum,
            BuildError::Union => BuildErrorView::Union,
            BuildError::Unsupported { name } => BuildErrorView::Unsupported { name: name@ },
        }
    }
}

/// The model of what a build returns.
pub open spec fn outcome_view(r: Result<Datatype, BuildError>) -> Result<DatatypeView, BuildErrorView> {
    match r {
        Ok(d) => Ok(d@),
        Err(e) => Err(e@),
    }
}

} // verus!
