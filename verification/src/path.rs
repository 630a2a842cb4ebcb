//! Structural paths: addresses of values within a response tree.
//!
//! A path is an ordered sequence of segments, each a field name, a list
//! index, or a type-condition marker for polymorphic fragments. Paths are
//! compared by prefix; the executor derives child paths by appending
//! segments as it descends a query plan.

use vstd::prelude::*;

verus! {

/// Mathematical model of one path segment.
pub enum SegV {
    Field(Seq<char>),
    Index(int),
    Fragment(Seq<char>),
}

/// One segment of a structural path.
#[derive(Debug, Clone, PartialEq, Eq)]
pub enum PathSegment {
    /// A field of an object.
    Field(String),
    /// An element of a list.
    Index(usize),
    /// A type-condition marker for a polymorphic fragment.
    Fragment(String),
}

impl View for PathSegment {
    type V = SegV;

    open spec fn view(&self) -> SegV {
        match self {
            PathSegment::Field(s) => SegV::Field(s@),
            PathSegment::Index(i) => SegV::Index(*i as int),
            PathSegment::Fragment(s) => SegV::Fragment(s@),
        }
    }
}

/// Model of a sequence of segments.
pub open spec fn segs_view(v: Seq<PathSegment>) -> Seq<SegV> {
    Seq::new(v.len(), |i: int| v[i]@)
}

/// A structural address within a response tree, immutable once built.
#[derive(Debug, Clone, PartialEq, Eq)]
pub struct Path {
    pub segments: Vec<PathSegment>,
}

impl View for Path {
    type V = Seq<SegV>;

    open spec fn view(&self) -> Seq<SegV> {
        segs_view(self.segments@)
    }
}

/// Whether `p` addresses a location at or below the location addressed by
/// `q`, that is, whether `q` is a prefix of `p`.
pub open spec fn within(p: Seq<SegV>, q: Seq<SegV>) -> bool {
    q.is_prefix_of(p)
}

/// Whether two paths address unrelated subtrees: neither is a prefix of the
/// other.
pub open spec fn disjoint_paths(p: Seq<SegV>, q: Seq<SegV>) -> bool {
    !p.is_prefix_of(q) && !q.is_prefix_of(p)
}

/// Segment equality, decided structurally.
pub fn seg_eq(a: &PathSegment, b: &PathSegment) -> (r: bool)
    ensures
        r == (a@ == b@),
{
    match (a, b) {
        (PathSegment::Field(x), PathSegment::Field(y)) => *x == *y,
        (PathSegment::Index(x), PathSegment::Index(y)) => *x == *y,
        (PathSegment::Fragment(x), PathSegment::Fragment(y)) => *x == *y,
        _ => false,
    }
}

/// Copy of a segment with the same model.
pub fn seg_duplicate(s: &PathSegment) -> (r: PathSegment)
    ensures
        r@ == s@,
{
    match s {
        PathSegment::Field(f) => PathSegment::Field(f.clone()),
        PathSegment::Index(i) => PathSegment::Index(*i),
        PathSegment::Fragment(f) => PathSegment::Fragment(f.clone()),
    }
}

impl Path {
    /// The root path.
    pub fn empty() -> (r: Path)
        ensures
            r@ == Seq::<SegV>::empty(),
    {
        let r = Path { segments: Vec::new() };
        proof {
            assert(r@ =~= Seq::<SegV>::empty());
        }
        r
    }

    /// A path made of the given segments.
    pub fn new(segments: Vec<PathSegment>) -> (r: Path)
        ensures
            r@ == segs_view(segments@),
    {
        Path { segments }
    }

    /// Copy of this path with the same model.
    pub fn duplicate(&self) -> (r: Path)
        ensures
            r@ == self@,
    {
        let mut segs: Vec<PathSegment> = Vec::new();
        let mut i: usize = 0;
        while i < self.segments.len()
            invariant
                i <= self.segments.len(),
                segs@.len() == i as int,
                forall|j: int| 0 <= j < i ==> segs@[j]@ == self.segments@[j]@,
            decreases self.segments.len() - i,
        {
            segs.push(seg_duplicate(&self.segments[i]));
            i += 1;
        }
        let r = Path { segments: segs };
        proof {
            assert(r@ =~= self@);
        }
        r
    }

    /// The child path reached by appending one segment.
    pub fn child(&self, seg: PathSegment) -> (r: Path)
        ensures
            r@ == self@.push(seg@),
    {
        let mut p = self.duplicate();
        p.segments.push(seg);
        proof {
            assert(p@ =~= self@.push(seg@));
        }
        p
    }

    /// How many segments the path holds.
    pub fn len(&self) -> (r: usize)
        ensures
            r == self@.len(),
    {
        self.segments.len()
    }

    /// Whether `self` is a prefix of `other`.
    pub fn is_prefix_of(&self, other: &Path) -> (r: bool)
        ensures
            r == self@.is_prefix_of(other@),
    {
        if self.segments.len() > other.segments.len() {
            return false;
        }
        let mut i: usize = 0;
        while i < self.segments.len()
            invariant
                i <= self.segments.len(),
                self.segments.len() <= other.segments.len(),
                forall|j: int| 0 <= j < i ==> self@[j] == other@[j],
            decreases self.segments.len() - i,
        {
            if !seg_eq(&self.segments[i], &other.segments[i]) {
                proof {
                    assert(self@[i as int] != other@[i as int]);
                    assert(!(self@ =~= other@.subrange(0, self@.len() as int)));
                }
                return false;
            }
            i += 1;
        }
        proof {
            assert(self@ =~= other@.subrange(0, self@.len() as int));
        }
        true
    }

    /// Whether the two paths address unrelated subtrees.
    pub fn is_disjoint_with(&self, other: &Path) -> (r: bool)
        ensures
            r == disjoint_paths(self@, other@),
    {
        !self.is_prefix_of(other) && !other.is_prefix_of(self)
    }
}

} // verus!
