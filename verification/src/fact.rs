//! Facts: immutable descriptors of the values flowing on graph edges.
//!
//! A fact is either *static* (element type plus a shape whose axes may be the
//! symbolic streaming axis) or *pulsed* (a concrete shape in which exactly one
//! axis carries a fixed pulse-sized window of an unbounded stream, plus the
//! delay accumulated upstream of the edge).

use vstd::prelude::*;

verus! {

/// Element type tag of a tensor value. The core never touches element data;
/// the tag only identifies the type.
#[derive(Clone, Copy, Debug, PartialEq, Eq, Structural)]
pub enum ElemType {
    Bool,
    Int8,
    Int32,
    Int64,
    Float32,
    Float64,
}

/// One axis of a static fact's shape: a concrete extent, or the unbounded
/// streaming axis that pulsification will replace with the pulse size.
#[derive(Clone, Copy, Debug, PartialEq, Eq, Structural)]
pub enum Dim {
    Fixed(u64),
    Stream,
}

impl Dim {
    /// The concrete extent of this axis once a stream is cut into windows of
    /// `pulse` positions.
    pub open spec fn concrete(self, pulse: u64) -> u64 {
        match self {
            Dim::Fixed(n) => n,
            Dim::Stream => pulse,
        }
    }

}

/// Mathematical model of a [`Fact`].
#[verifier::ext_equal]
pub enum FactView {
    Static { dt: ElemType, dims: Seq<Dim> },
    Pulsed { dt: ElemType, shape: Seq<u64>, axis: usize, pulse: u64, delay: u64 },
}

/// Descriptor of a value flowing on an edge. No operation mutates a fact in
/// place; transformations always build a new one.
#[derive(Debug, PartialEq, Eq)]
pub enum Fact {
    /// Whole-tensor descriptor: element type and shape. An axis may be the
    /// symbolic [`Dim::Stream`] marker.
    Static { dt: ElemType, dims: Vec<Dim> },
    /// Streaming descriptor: the shape is concrete, `shape[axis]` holds the
    /// window (`pulse`) size, and `delay` counts how many leading stream
    /// positions of the value are not yet valid.
    Pulsed { dt: ElemType, shape: Vec<u64>, axis: usize, pulse: u64, delay: u64 },
}

impl View for Fact {
    type V = FactView;

    open spec fn view(&self) -> FactView {
        match self {
            Fact::Static { dt, dims } => FactView::Static { dt: *dt, dims: dims@ },
            Fact::Pulsed { dt, shape, axis, pulse, delay } => FactView::Pulsed {
                dt: *dt,
                shape: shape@,
                axis: *axis,
                pulse: *pulse,
                delay: *delay,
            },
        }
    }
}

impl FactView {
    pub open spec fn is_pulsed(self) -> bool {
        self is Pulsed
    }

    pub open spec fn dt(self) -> ElemType {
        match self {
            FactView::Static { dt, .. } => dt,
            FactView::Pulsed { dt, .. } => dt,
        }
    }

    pub open spec fn rank(self) -> nat {
        match self {
            FactView::Static { dims, .. } => dims.len(),
            FactView::Pulsed { shape, .. } => shape.len(),
        }
    }

    /// Accumulated delay carried by the fact; a static fact carries none.
    pub open spec fn delay(self) -> u64 {
        match self {
            FactView::Static { .. } => 0,
            FactView::Pulsed { delay, .. } => delay,
        }
    }

    /// The streaming axis, if the fact has one.
    pub open spec fn stream_axis(self) -> Option<usize> {
        match self {
            FactView::Static { .. } => Option::None,
            FactView::Pulsed { axis, .. } => Option::Some(axis),
        }
    }

    /// Same fact with the delay replaced; leaves a static fact unchanged.
    pub open spec fn with_delay(self, d: u64) -> FactView {
        match self {
            FactView::Static { .. } => self,
            FactView::Pulsed { dt, shape, axis, pulse, delay } => FactView::Pulsed {
                dt,
                shape,
                axis,
                pulse,
                delay: d,
            },
        }
    }

    /// Well-formedness: a pulsed fact's streaming axis is in range and holds
    /// exactly the pulse size.
    pub open spec fn wf(self) -> bool {
        match self {
            FactView::Static { .. } => true,
            FactView::Pulsed { shape, axis, pulse, .. } => axis < shape.len() && shape[axis as int]
                == pulse,
        }
    }

    /// Same fact with axis `axis` cut to extent one (out-of-range axes leave
    /// the fact unchanged).
    pub open spec fn with_axis_one(self, axis: usize) -> FactView {
        match self {
            FactView::Static { dt, dims } => if axis < dims.len() {
                FactView::Static { dt, dims: dims.update(axis as int, Dim::Fixed(1)) }
            } else {
                self
            },
            FactView::Pulsed { dt, shape, axis: ax, pulse, delay } => if axis < shape.len() {
                FactView::Pulsed { dt, shape: shape.update(axis as int, 1), axis: ax, pulse, delay }
            } else {
                self
            },
        }
    }

    /// The static re-interpretation: the streaming axis keeps the pulse size
    /// it already shows, streaming metadata and delay are dropped.
    pub open spec fn as_static(self) -> FactView {
        match self {
            FactView::Static { .. } => self,
            FactView::Pulsed { dt, shape, .. } => FactView::Static {
                dt,
                dims: shape.map_values(|n: u64| Dim::Fixed(n)),
            },
        }
    }

    /// The pulsed counterpart of a static fact: every axis becomes concrete,
    /// the streaming axis is cut to `pulse` positions.
    pub open spec fn pulsed(self, axis: usize, pulse: u64, delay: u64) -> FactView
        recommends
            self is Static,
    {
        match self {
            FactView::Static { dt, dims } => FactView::Pulsed {
                dt,
                shape: Seq::new(dims.len(), |i: int| dims[i].concrete(pulse)),
                axis,
                pulse,
                delay,
            },
            FactView::Pulsed { .. } => self,
        }
    }
}

impl Fact {
    /// Builds a whole-tensor fact from an element type and a shape.
    pub fn static_fact(dt: ElemType, dims: Vec<Dim>) -> (r: Fact)
        ensures
            r@ == (FactView::Static { dt, dims: dims@ }),
    {
        Fact::Static { dt, dims }
    }

    /// Builds the pulsed counterpart of a static fact: axis `axis` streams in
    /// windows of `pulse` positions and the value arrives `delay` positions
    /// late.
    pub fn pulsed_fact(&self, axis: usize, pulse: u64, delay: u64) -> (r: Fact)
        requires
            self@ is Static,
            axis < self@.rank(),
        ensures
            r@ == self@.pulsed(axis, pulse, delay),
            r@.wf() <==> (self@->Static_dims[axis as int] is Stream || self@->Static_dims[
                axis as int
            ] == Dim::Fixed(pulse)),
    {
        match self {
            Fact::Static { dt, dims } => {
                let mut shape: Vec<u64> = Vec::new();
                let mut i: usize = 0;
                while i < dims.len()
                    invariant
                        i <= dims.len(),
                        self@ is Static,
                        dims@ == self@->Static_dims,
                        shape@.len() == i,
                        forall|j: int| 0 <= j < i ==> shape@[j] == dims@[j].concrete(pulse),
                    decreases dims.len() - i,
                {
                    shape.push(
                        match dims[i] {
                            Dim::Fixed(n) => n,
                            Dim::Stream => pulse,
                        },
                    );
                    i += 1;
                }
                let r = Fact::Pulsed { dt: *dt, shape, axis, pulse, delay };
                proof {
                    assert(r@->Pulsed_shape =~= Seq::new(
                        dims@.len(),
                        |i: int| dims@[i].concrete(pulse),
                    ));
                }
                r
            },
            Fact::Pulsed { .. } => {
                proof {
                    assert(false);
                }
                self.into_static_owned()
            },
        }
    }

    /// The static re-interpretation of this fact: the streaming axis's size
    /// is the pulse size it already records, and streaming metadata is
    /// dropped. The caller is responsible for surfacing the delay separately.
    pub fn into_static(&self) -> (r: Fact)
        ensures
            r@ == self@.as_static(),
    {
        self.into_static_owned()
    }

    fn into_static_owned(&self) -> (r: Fact)
        ensures
            r@ == self@.as_static(),
    {
        match self {
            Fact::Static { dt, dims } => {
                let mut copy: Vec<Dim> = Vec::new();
                let mut i: usize = 0;
                while i < dims.len()
                    invariant
                        i <= dims.len(),
                        copy@.len() == i,
                        forall|j: int| 0 <= j < i ==> copy@[j] == dims@[j],
                    decreases dims.len() - i,
                {
                    copy.push(dims[i]);
                    i += 1;
                }
                let r = Fact::Static { dt: *dt, dims: copy };
                proof {
                    assert(copy@ =~= dims@);
                }
                r
            },
            Fact::Pulsed { dt, shape, .. } => {
                let mut dims: Vec<Dim> = Vec::new();
                let mut i: usize = 0;
                while i < shape.len()
                    invariant
                        i <= shape.len(),
                        dims@.len() == i,
                        forall|j: int| 0 <= j < i ==> dims@[j] == Dim::Fixed(shape@[j]),
                    decreases shape.len() - i,
                {
                    dims.push(Dim::Fixed(shape[i]));
                    i += 1;
                }
                let r = Fact::Static { dt: *dt, dims };
                proof {
                    assert(dims@ =~= shape@.map_values(|n: u64| Dim::Fixed(n)));
                }
                r
            },
        }
    }

    /// A structural copy of this fact.
    pub fn duplicate(&self) -> (r: Fact)
        ensures
            r@ == self@,
    {
        match self {
            Fact::Static { .. } => {
                let r = self.into_static_owned();
                r
            },
            Fact::Pulsed { dt, shape, axis, pulse, delay } => {
                let mut copy: Vec<u64> = Vec::new();
                let mut i: usize = 0;
                while i < shape.len()
                    invariant
                        i <= shape.len(),
                        copy@.len() == i,
                        forall|j: int| 0 <= j < i ==> copy@[j] == shape@[j],
                    decreases shape.len() - i,
                {
                    copy.push(shape[i]);
                    i += 1;
                }
                let r = Fact::Pulsed {
                    dt: *dt,
                    shape: copy,
                    axis: *axis,
                    pulse: *pulse,
                    delay: *delay,
                };
                proof {
                    assert(copy@ =~= shape@);
                }
                r
            },
        }
    }

    /// The accumulated delay this fact records (zero for a static fact).
    pub fn delay(&self) -> (r: u64)
        ensures
            r == self@.delay(),
    {
        match self {
            Fact::Static { .. } => 0,
            Fact::Pulsed { delay, .. } => *delay,
        }
    }

    /// The streaming axis, if this fact has one.
    pub fn stream_axis_value(&self) -> (r: Option<usize>)
        ensures
            r == self@.stream_axis(),
    {
        match self {
            Fact::Static { .. } => Option::None,
            Fact::Pulsed { axis, .. } => Option::Some(*axis),
        }
    }

    /// A copy of this fact with the delay replaced (a static fact is returned
    /// unchanged).
    pub fn with_delay_value(&self, d: u64) -> (r: Fact)
        ensures
            r@ == self@.with_delay(d),
    {
        match self.duplicate() {
            Fact::Static { dt, dims } => Fact::Static { dt, dims },
            Fact::Pulsed { dt, shape, axis, pulse, delay: _ } => Fact::Pulsed {
                dt,
                shape,
                axis,
                pulse,
                delay: d,
            },
        }
    }

    /// A copy of this fact with axis `axis` cut to extent one (out-of-range
    /// axes leave the fact unchanged).
    pub fn with_axis_one(&self, axis: usize) -> (r: Fact)
        ensures
            r@ == self@.with_axis_one(axis),
    {
        match self.duplicate() {
            Fact::Static { dt, dims } => {
                let mut dims = dims;
                if axis < dims.len() {
                    dims[axis] = Dim::Fixed(1);
                }
                Fact::Static { dt, dims }
            },
            Fact::Pulsed { dt, shape, axis: ax, pulse, delay } => {
                let mut shape = shape;
                if axis < shape.len() {
                    shape[axis] = 1;
                }
                Fact::Pulsed { dt, shape, axis: ax, pulse, delay }
            },
        }
    }
}

} // verus!
