//! The offset resolver: what the host reports of where it puts the fields
//! of its types.
use vstd::prelude::*;
use crate::datatype::{OffsetOf, OffsetOfView};
use crate::shape::{Designator, DesignatorView};

verus! {

/// Mathematical model of a [`HostLayout`].
pub struct HostLayoutView {
    /// The size in bytes of each type that the host has declared.
    pub sizes: Map<Seq<char>, nat>,
    /// The offset in bytes of each field that the host has measured.
    pub offsets: Map<OffsetOfView, nat>,
}

/// The sizes and field offsets that a host has reported of its types.
///
/// Every offset in it lies inside its owner: it is at most the size that
/// was declared for the owning type.
pub struct HostLayout {
    sizes: Vec<(String, usize)>,
    offsets: Vec<(OffsetOf, usize)>,
}

/// The sizes that `entries` declare; a later entry for a type counts.
spec fn sizes_of(entries: Seq<(String, usize)>) -> Map<Seq<char>, nat>
    decreases entries.len(),
{
    if entries.len() == 0 {
        Map::empty()
    } else {
        sizes_of(entries.drop_last()).insert(entries.last().0@, entries.last().1 as nat)
    }
}

/// The offsets that `entries` report; a later entry for a field counts.
spec fn offsets_of(entries: Seq<(OffsetOf, usize)>) -> Map<OffsetOfView, nat>
    decreases entries.len(),
{
    if entries.len() == 0 {
        Map::empty()
    } else {
        offsets_of(entries.drop_last()).insert(entries.last().0@, entries.last().1 as nat)
    }
}

/// The sizes that the first `i + 1` entries declare are those of the first
/// `i`, with entry `i` put on top.
proof fn lemma_sizes_step(entries: Seq<(String, usize)>, i: int)
    requires
        0 <= i < entries.len(),
    ensures
        sizes_of(entries.take(i + 1)) == sizes_of(entries.take(i)).insert(
            entries[i].0@,
            entries[i].1 as nat,
        ),
        sizes_of(entries.take(entries.len() as int)) == sizes_of(entries),
        sizes_of(entries.take(0)) == Map::<Seq<char>, nat>::empty(),
{
    assert(entries.take(i + 1).drop_last() =~= entries.take(i));
    assert(entries.take(entries.len() as int) =~= entries);
}

/// The offsets that the first `i + 1` entries report are those of the
/// first `i`, with entry `i` put on top.
proof fn lemma_offsets_step(entries: Seq<(OffsetOf, usize)>, i: int)
    requires
        0 <= i < entries.len(),
    ensures
        offsets_of(entries.take(i + 1)) == offsets_of(entries.take(i)).insert(
            entries[i].0@,
            entries[i].1 as nat,
        ),
        offsets_of(entries.take(entries.len() as int)) == offsets_of(entries),
        offsets_of(entries.take(0)) == Map::<OffsetOfView, nat>::empty(),
{
    assert(entries.take(i + 1).drop_last() =~= entries.take(i));
    assert(entries.take(entries.len() as int) =~= entries);
}

/// Whether `offset` lies inside the type `owner`: `layout` knows the size
/// of that type, and the offset is at most that size.
pub open spec fn inside(layout: HostLayoutView, owner: Seq<char>, offset: nat) -> bool {
    layout.sizes.contains_key(owner) && offset <= layout.sizes[owner]
}

/// Whether every offset in `layout` lies inside its owner.
pub open spec fn offsets_within_sizes(layout: HostLayoutView) -> bool {
    forall|q: OffsetOfView| #[trigger]
        layout.offsets.contains_key(q) ==> inside(layout, q.owner, layout.offsets[q])
}

/// What `layout` answers to each of `queries`, in order, where it knows
/// them all.
pub open spec fn resolved(layout: HostLayoutView, queries: Seq<OffsetOfView>) -> Option<Seq<nat>> {
    if forall|i: int| 0 <= i < queries.len() ==> layout.offsets.contains_key(#[trigger] queries[i]) {
        Some(Seq::new(queries.len(), |i: int| layout.offsets[queries[i]]))
    } else {
        None
    }
}

/// Whether two designators pick the same field.
pub fn same_designator(a: &Designator, b: &Designator) -> (same: bool)
    ensures
        same == (a@ == b@),
{
    match a {
        Designator::Name(x) => match b {
            Designator::Name(y) => *x == *y,
            Designator::Index(_) => false,
        },
        Designator::Index(i) => match b {
            Designator::Name(_) => false,
            Designator::Index(j) => *i == *j,
        },
    }
}

/// Whether two offsets are those of the same field of the same type.
pub fn same_field(a: &OffsetOf, b: &OffsetOf) -> (same: bool)
    ensures
        same == (a@ == b@),
{
    a.owner == b.owner && same_designator(&a.field, &b.field)
}

impl View for HostLayout {
    type V = HostLayoutView;

    closed spec fn view(&self) -> HostLayoutView {
        HostLayoutView { sizes: sizes_of(self.sizes@), offsets: offsets_of(self.offsets@) }
    }
}

impl HostLayout {
    /// Every offset that is held lies inside its owner.
    #[verifier::type_invariant]
    spec fn within_sizes(&self) -> bool {
        offsets_within_sizes(self@)
    }

    /// A layout of which nothing is known yet.
    pub fn new() -> (layout: HostLayout)
        ensures
            layout@.sizes == Map::<Seq<char>, nat>::empty(),
            layout@.offsets == Map::<OffsetOfView, nat>::empty(),
            offsets_within_sizes(layout@),
    {
        HostLayout { sizes: Vec::new(), offsets: Vec::new() }
    }

    /// The size that was declared for the type `owner`.
    pub fn size_of(&self, owner: &String) -> (size: Option<usize>)
        ensures
            size is Some <==> self@.sizes.contains_key(owner@),
            size matches Some(s) ==> s == self@.sizes[owner@],
    {
        let mut i = self.sizes.len();
        proof {
            assert(self.sizes@.take(i as int) =~= self.sizes@);
        }
        while i > 0
            invariant
                i <= self.sizes.len(),
                sizes_of(self.sizes@).contains_key(owner@) == sizes_of(
                    self.sizes@.take(i as int),
                ).contains_key(owner@),
                sizes_of(self.sizes@).contains_key(owner@) ==> sizes_of(self.sizes@)[owner@]
                    == sizes_of(self.sizes@.take(i as int))[owner@],
            decreases i,
        {
            i -= 1;
            proof {
                lemma_sizes_step(self.sizes@, i as int);
            }
            if self.sizes[i].0 == *owner {
                return Some(self.sizes[i].1);
            }
        }
        proof {
            assert(self.sizes@.take(0) =~= Seq::<(String, usize)>::empty());
        }
        None
    }

    /// Declares that a value of the type `owner` takes `size` bytes.
    ///
    /// A type is declared once: for a type that is already known nothing
    /// changes and the answer is `false`.
    pub fn declare(&mut self, owner: String, size: usize) -> (declared: bool)
        ensures
            declared == !old(self)@.sizes.contains_key(owner@),
            declared ==> final(self)@.sizes == old(self)@.sizes.insert(owner@, size as nat),
            !declared ==> final(self)@.sizes == old(self)@.sizes,
            final(self)@.offsets == old(self)@.offsets,
            offsets_within_sizes(final(self)@),
    {
        proof {
            use_type_invariant(&*self);
        }
        if self.size_of(&owner).is_some() {
            return false;
        }
        let mut known = HostLayout::new();
        std::mem::swap(self, &mut known);
        proof {
            use_type_invariant(&known);
        }
        let ghost before = known@;
        let HostLayout { mut sizes, offsets } = known;
        proof {
            assert(sizes@.push((owner, size)).drop_last() =~= sizes@);
        }
        sizes.push((owner, size));
        proof {
            assert(sizes_of(sizes@) == before.sizes.insert(owner@, size as nat));
            assert(offsets_of(offsets@) == before.offsets);
        }
        *self = HostLayout { sizes, offsets };
        true
    }

    /// The offset that was recorded for the field `query`.
    ///
    /// An offset that is known lies inside its owner.
    pub fn offset(&self, query: &OffsetOf) -> (offset: Option<usize>)
        ensures
            offset is Some <==> self@.offsets.contains_key(query@),
            offset matches Some(o) ==> o == self@.offsets[query@] && inside(
                self@,
                query@.owner,
                o as nat,
            ),
    {
        proof {
            use_type_invariant(self);
        }
        let mut i = self.offsets.len();
        proof {
            assert(self.offsets@.take(i as int) =~= self.offsets@);
        }
        while i > 0
            invariant
                i <= self.offsets.len(),
                offsets_of(self.offsets@).contains_key(query@) == offsets_of(
                    self.offsets@.take(i as int),
                ).contains_key(query@),
                offsets_of(self.offsets@).contains_key(query@) ==> offsets_of(
                    self.offsets@,
                )[query@] == offsets_of(self.offsets@.take(i as int))[query@],
                offsets_within_sizes(self@),
            decreases i,
        {
            i -= 1;
            proof {
                lemma_offsets_step(self.offsets@, i as int);
            }
            if same_field(&self.offsets[i].0, query) {
                proof {
                    assert(self@.offsets.contains_key(query@));
                    assert(self@.offsets[query@] == self.offsets[i as int].1);
                }
                return Some(self.offsets[i].1);
            }
        }
        proof {
            assert(self.offsets@.take(0) =~= Seq::<(OffsetOf, usize)>::empty());
        }
        None
    }

    /// Records that the field `query` starts `offset` bytes into its owner.
    ///
    /// The owner must have been declared and the offset must lie inside
    /// it; otherwise nothing changes and the answer is `false`. A second
    /// record for one field replaces the first.
    pub fn record(&mut self, query: OffsetOf, offset: usize) -> (recorded: bool)
        ensures
            recorded == (old(self)@.sizes.contains_key(query@.owner) && offset <= old(
                self,
            )@.sizes[query@.owner]),
            recorded ==> final(self)@.offsets == old(self)@.offsets.insert(query@, offset as nat),
            !recorded ==> final(self)@.offsets == old(self)@.offsets,
            final(self)@.sizes == old(self)@.sizes,
            offsets_within_sizes(final(self)@),
    {
        proof {
            use_type_invariant(&*self);
        }
        match self.size_of(&query.owner) {
            None => false,
            Some(size) => {
                if offset > size {
                    return false;
                }
                let mut known = HostLayout::new();
                std::mem::swap(self, &mut known);
                proof {
                    use_type_invariant(&known);
                }
                let ghost before = known@;
                let HostLayout { sizes, mut offsets } = known;
                proof {
                    assert(offsets@.push((query, offset)).drop_last() =~= offsets@);
                }
                offsets.push((query, offset));
                proof {
                    assert(offsets_of(offsets@) == before.offsets.insert(query@, offset as nat));
                    assert(sizes_of(sizes@) == before.sizes);
                }
                *self = HostLayout { sizes, offsets };
                true
            },
        }
    }

    /// The offsets of the fields `queries`, in order.
    ///
    /// There is an answer only where every one of them is known; each
    /// offset in it lies inside its owner.
    pub fn offsets(&self, queries: &Vec<OffsetOf>) -> (answer: Option<Vec<usize>>)
        ensures
            match answer {
                Some(found) => resolved(
                    self@,
                    Seq::new(queries.len() as nat, |i: int| queries[i]@),
                ) == Some(Seq::new(found.len() as nat, |i: int| found[i] as nat)),
                None => resolved(self@, Seq::new(queries.len() as nat, |i: int| queries[i]@))
                    is None,
            },
            answer matches Some(found) ==> forall|i: int|
                0 <= i < queries.len() ==> #[trigger] inside(
                    self@,
                    queries[i]@.owner,
                    found[i] as nat,
                ),
    {
        let ghost asked = Seq::new(queries.len() as nat, |i: int| queries[i]@);
        let mut found: Vec<usize> = Vec::new();
        let mut i: usize = 0;
        while i < queries.len()
            invariant
                i <= queries.len(),
                found.len() == i,
                asked == Seq::new(queries.len() as nat, |i: int| queries[i]@),
                forall|j: int|
                    0 <= j < i ==> {
                        &&& self@.offsets.contains_key(#[trigger] asked[j])
                        &&& found[j] == self@.offsets[asked[j]]
                        &&& inside(self@, asked[j].owner, found[j] as nat)
                    },
            decreases queries.len() - i,
        {
            match self.offset(&queries[i]) {
                None => {
                    assert(!self@.offsets.contains_key(asked[i as int]));
                    return None;
                },
                Some(o) => {
                    found.push(o);
                },
            }
            i += 1;
        }
        proof {
            assert(resolved(self@, asked)->Some_0 =~= Seq::new(
                found.len() as nat,
                |i: int| found[i] as nat,
            ));
            assert forall|i: int| 0 <= i < queries.len() implies #[trigger] inside(
                self@,
                queries[i]@.owner,
                found[i] as nat,
            ) by {
                assert(asked[i] == queries[i]@);
            }
        }
        Some(found)
    }
}

} // verus!
