//! Functor composition by way of the co-Yoneda construction.
//!
//! The heart of the crate is [`morphism::Morphism`]: a chain of suspended
//! one-argument transformations that is extended at either end in O(1),
//! spliced onto another chain without touching the stored transformations,
//! and executed by a plain loop, so that the depth of the machine stack
//! never depends on how many transformations were composed.
//!
//! On top of the chain sits [`Coyoneda`]: a container value paired with a
//! chain of pending element transformations.  Mapping over the container
//! only extends the chain; the container's own mapping operation runs once,
//! when [`Coyoneda::unwrap`] materialises the result.

use vstd::prelude::*;

pub mod morphism;
pub mod steps;

use morphism::Morphism;
use morphism::Step;
use morphism::run_steps;

verus! {

/// A parametrized type: a container shape together with the type of the
/// elements it holds.
pub trait Param {
    /// The element type of the container.
    type Param;
}

/// A covariant functor: a container that maps a one-argument function over
/// its elements, keeping its own shape.
///
/// `map_rel` is the container's mapping relation: `self.map_rel(r, rel)`
/// says that `r` has the shape of `self` with every element `a` replaced by
/// some `b` with `rel(a, b)`.  `fmap` must produce a container related to
/// its input by the function's postcondition, and `lemma_map_rel_mono`
/// obliges every implementation to make the relation monotone, so that a
/// caller can weaken what it knows about the function into what it needs.
pub trait Functor<A, B>: Param<Param = A> + Sized {
    /// The same container shape, now holding elements of type `B`.
    type Output: Param<Param = B>;

    /// `r` is `self` with each element `a` replaced by a `b` with
    /// `rel(a, b)`.
    spec fn map_rel(self, r: Self::Output, rel: spec_fn(A, B) -> bool) -> bool;

    /// The mapping relation is monotone in the element relation.
    proof fn lemma_map_rel_mono(
        self,
        r: Self::Output,
        rel1: spec_fn(A, B) -> bool,
        rel2: spec_fn(A, B) -> bool,
    )
        requires
            self.map_rel(r, rel1),
            forall|a: A, b: B| #[trigger] rel1(a, b) ==> rel2(a, b),
        ensures
            self.map_rel(r, rel2),
    ;

    /// Map `f` over every element of the container.
    fn fmap<F: Fn(A) -> B>(self, f: F) -> (r: Self::Output)
        requires
            forall|a: A| #[trigger] f.requires((a,)),
        ensures
            self.map_rel(r, (|a: A, b: B| f.ensures((a,), b))),
    ;
}

/// A shape-changing conversion between two containers over the same element
/// type that touches only the shape, never the elements.
pub trait NaturalTransform<T: Param<Param = Self::Param>>: Param + Sized {
    /// The value the conversion produces.
    spec fn transform_spec(self) -> T;

    /// Convert the container, preserving its elements.
    fn transform(self) -> (r: T)
        ensures
            r == self.transform_spec(),
    ;
}

impl<A> Param for Option<A> {
    type Param = A;
}

impl<A, B> Functor<A, B> for Option<A> {
    type Output = Option<B>;

    open spec fn map_rel(self, r: Option<B>, rel: spec_fn(A, B) -> bool) -> bool {
        match (self, r) {
            (Option::None, Option::None) => true,
            (Option::Some(a), Option::Some(b)) => rel(a, b),
            _ => false,
        }
    }

    proof fn lemma_map_rel_mono(
        self,
        r: Option<B>,
        rel1: spec_fn(A, B) -> bool,
        rel2: spec_fn(A, B) -> bool,
    ) {
    }

    fn fmap<F: Fn(A) -> B>(self, f: F) -> (r: Option<B>) {
        match self {
            Option::None => Option::None,
            Option::Some(a) => Option::Some(f(a)),
        }
    }
}

impl<A> Param for Box<A> {
    type Param = A;
}

impl<A, B> Functor<A, B> for Box<A> {
    type Output = Box<B>;

    open spec fn map_rel(self, r: Box<B>, rel: spec_fn(A, B) -> bool) -> bool {
        rel(*self, *r)
    }

    proof fn lemma_map_rel_mono(
        self,
        r: Box<B>,
        rel1: spec_fn(A, B) -> bool,
        rel2: spec_fn(A, B) -> bool,
    ) {
    }

    fn fmap<F: Fn(A) -> B>(self, f: F) -> (r: Box<B>) {
        Box::new(f(*self))
    }
}

impl<A> NaturalTransform<Option<A>> for Box<A> {
    open spec fn transform_spec(self) -> Option<A> {
        Option::Some(*self)
    }

    fn transform(self) -> (r: Option<A>) {
        Option::Some(*self)
    }
}

impl<A, E> Param for Result<A, E> {
    type Param = A;
}

impl<A, B, E> Functor<A, B> for Result<A, E> {
    type Output = Result<B, E>;

    open spec fn map_rel(self, r: Result<B, E>, rel: spec_fn(A, B) -> bool) -> bool {
        match (self, r) {
            (Result::Ok(a), Result::Ok(b)) => rel(a, b),
            (Result::Err(e), Result::Err(e2)) => e == e2,
            _ => false,
        }
    }

    proof fn lemma_map_rel_mono(
        self,
        r: Result<B, E>,
        rel1: spec_fn(A, B) -> bool,
        rel2: spec_fn(A, B) -> bool,
    ) {
    }

    fn fmap<F: Fn(A) -> B>(self, f: F) -> (r: Result<B, E>) {
        match self {
            Result::Ok(a) => Result::Ok(f(a)),
            Result::Err(e) => Result::Err(e),
        }
    }
}

impl<A, E> NaturalTransform<Option<A>> for Result<A, E> {
    open spec fn transform_spec(self) -> Option<A> {
        match self {
            Result::Ok(a) => Option::Some(a),
            Result::Err(_) => Option::None,
        }
    }

    fn transform(self) -> (r: Option<A>) {
        match self {
            Result::Ok(a) => Option::Some(a),
            Result::Err(_) => Option::None,
        }
    }
}

/// A container of element type `S::Val` paired with a chain of pending
/// element transformations: the deferred-mapping ("co-Yoneda") wrapper
/// around [`Morphism`].
///
/// Mapping over the wrapper queues a step onto the chain in O(1) and leaves
/// the container untouched; [`Coyoneda::unwrap`] finally maps the whole
/// chain over the container in one pass.
pub struct Coyoneda<T, S> {
    point: T,
    morph: Morphism<S>,
}

impl<T, S> Coyoneda<T, S> where S: Step, T: Param<Param = <S as Step>::Val> {
    /// The container the wrapper holds.
    pub closed spec fn point(self) -> T {
        self.point
    }

    /// The queued element transformations, in application order.
    pub closed spec fn steps(self) -> Seq<S> {
        self.morph.steps()
    }

    /// The wrapper is valid whenever its chain is.
    pub closed spec fn wf(self) -> bool {
        self.morph.wf()
    }

    /// Lift a container into the wrapper, with no transformation queued.
    pub fn from(x: T) -> (r: Coyoneda<T, S>)
        ensures
            r.wf(),
            r.point() == x,
            r.steps() == Seq::<S>::empty(),
    {
        Coyoneda { point: x, morph: Morphism::new() }
    }

    /// Queue one more element transformation, applied after all previously
    /// queued ones.  The container itself is not touched.
    pub fn fmap(self, s: S) -> (r: Coyoneda<T, S>)
        requires
            self.wf(),
        ensures
            r.wf(),
            r.point() == self.point(),
            r.steps() == self.steps().push(s),
    {
        Coyoneda { point: self.point, morph: self.morph.tail(s) }
    }

    /// Replace the container through `f` while prepending `g`, the
    /// corresponding conversion of the new container's elements back into
    /// the old ones, to the chain.
    pub fn transform<U, F>(self, f: F, g: S) -> (r: Coyoneda<U, S>) where
        U: Param<Param = <S as Step>::Val>,
        F: Fn(T) -> U,

        requires
            self.wf(),
            f.requires((self.point(),)),
        ensures
            r.wf(),
            f.ensures((self.point(),), r.point()),
            r.steps() == seq![g] + self.steps(),
    {
        let Coyoneda { point: t, morph: m } = self;
        Coyoneda { point: f(t), morph: m.head(g) }
    }

    /// Swap the container for one of a different shape holding the same
    /// elements; the chain is carried over unchanged.
    pub fn natural_transform<U>(self) -> (r: Coyoneda<U, S>) where
        U: Param<Param = <S as Step>::Val>,
        T: NaturalTransform<U>,

        requires
            self.wf(),
        ensures
            r.wf(),
            r.point() == self.point().transform_spec(),
            r.steps() == self.steps(),
    {
        let Coyoneda { point: t, morph: m } = self;
        Coyoneda { point: t.transform(), morph: m }
    }

    /// Materialise the result: run the container's own mapping operation
    /// once, with the whole chain as the mapping function.  The result is
    /// the container with every element fed through the queued steps.
    pub fn unwrap(self) -> (r: <T as Functor<<S as Step>::Val, <S as Step>::Val>>::Output) where
        T: Functor<<S as Step>::Val, <S as Step>::Val>,

        requires
            self.wf(),
        ensures
            self.point().map_rel(
                r,
                (|a: <S as Step>::Val, b: <S as Step>::Val| b@ == run_steps(self.steps(), a@)),
            ),
    {
        let ghost gs = self;
        let Coyoneda { point: t, morph: m } = self;
        let mr = &m;
        let f = |a: <S as Step>::Val| -> (b: <S as Step>::Val)
            ensures
                b@ == run_steps(mr.steps(), a@),
            { mr.run(a) };
        let r = t.fmap(f);
        proof {
            gs.point().lemma_map_rel_mono(
                r,
                (|a: <S as Step>::Val, b: <S as Step>::Val| f.ensures((a,), b)),
                (|a: <S as Step>::Val, b: <S as Step>::Val| b@ == run_steps(gs.steps(), a@)),
            );
        }
        r
    }
}

} // verus!
