//! A structure for suspended composition of one-argument transformations.
//!
//! Composition is delayed: the chain only stores its transformations, and a
//! single iterative pass applies them when [`Morphism::run`] is given an
//! argument.  The chain is extended at either end in amortised O(1), and two
//! chains are joined by relinking their segment sequences, never by copying
//! or re-traversing the stored transformations.  Because execution is a
//! plain nested loop, the number of composed transformations is bounded only
//! by the heap, not by the machine stack.

use vstd::prelude::*;

verus! {

/// One suspended transformation over the value representation `Self::Val`.
///
/// A chain stores values of a single step type `S: Step`, and every value
/// travelling through the chain has the one type `S::Val` — typically a
/// tagged union covering the concrete types the chain's stages expect.
/// `apply_spec` is the mathematical meaning of the step, a total function
/// on the abstraction `S::Val` views to; `apply` is the step's executable
/// form, and every implementation must prove that the two agree.
pub trait Step: Sized {
    /// The representation of the values the step consumes and produces.
    type Val: View;

    /// What the step computes, as a total mathematical function on the
    /// abstractions of the values.
    spec fn apply_spec(self, v: <Self::Val as View>::V) -> <Self::Val as View>::V;

    /// Apply the step to one value, consuming the value and producing the
    /// next one.
    fn apply(&self, v: Self::Val) -> (r: Self::Val)
        ensures
            r@ == self.apply_spec(v@),
    ;
}

/// The result of feeding `v` through the steps of `ss`, first step first.
pub open spec fn run_steps<S: Step>(ss: Seq<S>, v: <S::Val as View>::V) -> <S::Val as View>::V
    decreases ss.len(),
{
    if ss.len() == 0 {
        v
    } else {
        run_steps(ss.drop_first(), ss[0].apply_spec(v))
    }
}

/// Splitting a chain of steps anywhere splits the computation: running the
/// concatenation equals running the left part and feeding its result to the
/// right part.
pub proof fn lemma_run_steps_concat<S: Step>(a: Seq<S>, b: Seq<S>, v: <S::Val as View>::V)
    ensures
        run_steps(a + b, v) == run_steps(b, run_steps(a, v)),
    decreases a.len(),
{
    if a.len() == 0 {
        assert(a + b =~= b);
    } else {
        assert((a + b).drop_first() =~= a.drop_first() + b);
        lemma_run_steps_concat(a.drop_first(), b, a[0].apply_spec(v));
    }
}

/// A step appended at the back is applied last.
pub proof fn lemma_run_steps_push<S: Step>(p: Seq<S>, s: S, v: <S::Val as View>::V)
    ensures
        run_steps(p.push(s), v) == s.apply_spec(run_steps(p, v)),
{
    assert(p.push(s) =~= p + seq![s]);
    lemma_run_steps_concat(p, seq![s], v);
    let w = run_steps(p, v);
    assert(seq![s].drop_first() =~= Seq::<S>::empty());
    assert(run_steps(seq![s], w) == run_steps(Seq::<S>::empty(), s.apply_spec(w)));
    assert(run_steps(Seq::<S>::empty(), s.apply_spec(w)) == s.apply_spec(w));
}

/// A step prepended at the front is applied first.
pub proof fn lemma_run_steps_prepend<S: Step>(p: Seq<S>, s: S, v: <S::Val as View>::V)
    ensures
        run_steps(seq![s] + p, v) == run_steps(p, s.apply_spec(v)),
{
    assert((seq![s] + p).drop_first() =~= p);
    assert((seq![s] + p)[0] == s);
}

/// A contiguous run of steps, extendable at both ends in amortised O(1).
///
/// The steps are held in two stacks: `front` grows towards the beginning of
/// the run and holds its prefix in reverse, `back` grows towards the end and
/// holds its suffix in order.
pub struct Segment<S> {
    front: Vec<S>,
    back: Vec<S>,
}

impl<S> View for Segment<S> {
    type V = Seq<S>;

    closed spec fn view(&self) -> Seq<S> {
        self.front@.reverse() + self.back@
    }
}

impl<S> Segment<S> {
    /// An empty segment.
    pub fn new() -> (r: Segment<S>)
        ensures
            r@ == Seq::<S>::empty(),
    {
        let r = Segment { front: Vec::new(), back: Vec::new() };
        proof {
            assert(r@ =~= Seq::<S>::empty());
        }
        r
    }

    /// Add a step at the beginning of the segment.
    pub fn push_front(&mut self, s: S)
        ensures
            final(self)@ == seq![s] + old(self)@,
    {
        self.front.push(s);
        proof {
            assert(final(self)@ =~= seq![s] + old(self)@);
        }
    }

    /// Add a step at the end of the segment.
    pub fn push_back(&mut self, s: S)
        ensures
            final(self)@ == old(self)@.push(s),
    {
        self.back.push(s);
        proof {
            assert(final(self)@ =~= old(self)@.push(s));
        }
    }
}

impl<S: Step> Segment<S> {
    /// Feed a value through every step of the segment, in order.
    fn apply_all(&self, x: S::Val) -> (r: S::Val)
        ensures
            r@ == run_steps(self@, x@),
    {
        let ghost gx = x@;
        let mut acc = x;
        let mut j: usize = self.front.len();
        while 0 < j
            invariant
                j <= self.front@.len(),
                acc@ == run_steps(self.front@.reverse().take(self.front@.len() - j), gx),
            decreases j,
        {
            j = j - 1;
            proof {
                let f = self.front@;
                let done: int = f.len() - j - 1;
                assert(f.reverse().take(done + 1) =~= f.reverse().take(done).push(f[j as int]));
                lemma_run_steps_push(f.reverse().take(done), f[j as int], gx);
            }
            acc = self.front[j].apply(acc);
        }
        proof {
            let f = self.front@;
            assert(f.reverse().take(f.len() as int) =~= f.reverse());
            assert(self@.take(f.len() as int) =~= f.reverse());
        }
        let mut i: usize = 0;
        while i < self.back.len()
            invariant
                i <= self.back@.len(),
                acc@ == run_steps(self@.take(self.front@.len() + i), gx),
            decreases self.back@.len() - i,
        {
            proof {
                let done: int = self.front@.len() + i;
                assert(self@.take(done + 1) =~= self@.take(done).push(self.back@[i as int]));
                lemma_run_steps_push(self@.take(done), self.back@[i as int], gx);
            }
            acc = self.back[i].apply(acc);
            i = i + 1;
        }
        proof {
            assert(self@.take((self.front@.len() + self.back@.len()) as int) =~= self@);
        }
        acc
    }
}

/// Identity law: a chain with no steps — as [`Morphism::new`] returns it —
/// maps every argument to itself, so `Morphism::new().run(x) == x`.
pub proof fn lemma_identity_law<S: Step>(m: Morphism<S>, x: <S::Val as View>::V)
    requires
        m.steps() == Seq::<S>::empty(),
    ensures
        run_steps(m.steps(), x) == x,
{
}

/// Extension order: steps attached with [`Morphism::tail`] apply in
/// insertion order, steps attached with [`Morphism::head`] apply in the
/// reverse of insertion order.  Starting from the identity chain,
/// `id.tail(g1).tail(g2).run(x) == g2(g1(x))` while
/// `id.head(g1).head(g2).run(x) == g1(g2(x))`.
pub proof fn lemma_extension_order<S: Step>(m: Morphism<S>, g1: S, g2: S, x: <S::Val as View>::V)
    requires
        m.steps() == Seq::<S>::empty(),
    ensures
        run_steps(m.steps().push(g1).push(g2), x) == g2.apply_spec(g1.apply_spec(x)),
        run_steps(seq![g2] + (seq![g1] + m.steps()), x) == g1.apply_spec(g2.apply_spec(x)),
{
    lemma_run_steps_push(m.steps().push(g1), g2, x);
    lemma_run_steps_push(m.steps(), g1, x);
    lemma_run_steps_prepend(seq![g1] + m.steps(), g2, x);
    lemma_run_steps_prepend(m.steps(), g1, g2.apply_spec(x));
}

/// Concatenation law: running `f.concat(g)` equals running `f` and feeding
/// its result to `g`, for every argument.
pub proof fn lemma_concat_law<S: Step>(f: Morphism<S>, g: Morphism<S>, x: <S::Val as View>::V)
    ensures
        run_steps(f.steps() + g.steps(), x) == run_steps(g.steps(), run_steps(f.steps(), x)),
{
    lemma_run_steps_concat(f.steps(), g.steps(), x);
}

/// Associativity: `f.concat(g).concat(h)` and `f.concat(g.concat(h))` carry
/// the same steps in the same order, hence run identically on every
/// argument.
pub proof fn lemma_concat_associative<S: Step>(
    f: Morphism<S>,
    g: Morphism<S>,
    h: Morphism<S>,
    x: <S::Val as View>::V,
)
    ensures
        (f.steps() + g.steps()) + h.steps() == f.steps() + (g.steps() + h.steps()),
        run_steps((f.steps() + g.steps()) + h.steps(), x) == run_steps(
            f.steps() + (g.steps() + h.steps()),
            x,
        ),
{
    assert((f.steps() + g.steps()) + h.steps() =~= f.steps() + (g.steps() + h.steps()));
}

/// A suspended chain of transformations that behaves as a function from
/// `S::Val` to `S::Val`.
///
/// The chain owns an ordered, never-empty sequence of [`Segment`]s.  Steps
/// added through [`Morphism::head`] and [`Morphism::tail`] go to the front
/// of the first segment and the back of the last one; [`Morphism::concat`]
/// splices the two segment sequences, moving per-segment handles only and
/// never the steps they hold.
pub struct Morphism<S> {
    segs: Vec<Segment<S>>,
}

impl<S: Step> Morphism<S> {
    /// The chain's segment structure: each element is the step sequence of
    /// one segment, in chain order.
    pub closed spec fn segments(self) -> Seq<Seq<S>> {
        self.segs@.map_values(|seg: Segment<S>| seg@)
    }

    /// All steps of the chain in application order, the segment structure
    /// flattened away.
    pub open spec fn steps(self) -> Seq<S> {
        self.segments().flatten()
    }

    /// A chain always owns at least one segment, so that both ends exist to
    /// push onto.  Established by [`Morphism::new`] and preserved by every
    /// operation.
    pub closed spec fn wf(self) -> bool {
        self.segs@.len() >= 1
    }

    /// Create the identity chain: one empty segment, no steps.
    pub fn new() -> (r: Morphism<S>)
        ensures
            r.wf(),
            r.steps() == Seq::<S>::empty(),
    {
        let mut segs: Vec<Segment<S>> = Vec::new();
        segs.push(Segment::new());
        let r = Morphism { segs };
        proof {
            assert(r.segments() =~= seq![Seq::<S>::empty()]);
            r.segments().lemma_flatten_one_element();
            assert(r.steps() =~= Seq::<S>::empty());
        }
        r
    }

    /// Push a step onto the front of the first segment.  The new step is
    /// applied before everything the chain already held.
    pub fn push_front(&mut self, s: S)
        requires
            old(self).wf(),
        ensures
            final(self).wf(),
            final(self).steps() == seq![s] + old(self).steps(),
    {
        let ghost ss = self.segments();
        self.segs[0].push_front(s);
        proof {
            let tt = self.segments();
            assert(tt =~= ss.update(0, seq![s] + ss[0]));
            assert(tt.drop_first() =~= ss.drop_first());
            assert(tt.flatten() == tt.first() + tt.drop_first().flatten());
            assert(ss.flatten() == ss.first() + ss.drop_first().flatten());
            assert(tt.flatten() =~= seq![s] + ss.flatten());
        }
    }

    /// Push a step onto the back of the last segment.  The new step is
    /// applied after everything the chain already held.
    pub fn push_back(&mut self, s: S)
        requires
            old(self).wf(),
        ensures
            final(self).wf(),
            final(self).steps() == old(self).steps().push(s),
    {
        let ghost ss = self.segments();
        let n: usize = self.segs.len();
        self.segs[n - 1].push_back(s);
        proof {
            let tt = self.segments();
            assert(tt =~= ss.drop_last().push(ss.last().push(s)));
            assert(ss =~= ss.drop_last().push(ss.last()));
            ss.drop_last().lemma_flatten_push(ss.last().push(s));
            ss.drop_last().lemma_flatten_push(ss.last());
            assert(ss.drop_last().flatten() + ss.last().push(s) =~= (ss.drop_last().flatten()
                + ss.last()).push(s));
            assert(tt.flatten() =~= ss.flatten().push(s));
        }
    }

    /// Attach a transformation at the domain end: the chain consumes itself
    /// and returns a chain that applies `s` first.
    pub fn head(self, s: S) -> (r: Morphism<S>)
        requires
            self.wf(),
        ensures
            r.wf(),
            r.steps() == seq![s] + self.steps(),
    {
        let mut m = self;
        m.push_front(s);
        m
    }

    /// Attach a transformation at the codomain end: the chain consumes
    /// itself and returns a chain that applies `s` last.
    pub fn tail(self, s: S) -> (r: Morphism<S>)
        requires
            self.wf(),
        ensures
            r.wf(),
            r.steps() == self.steps().push(s),
    {
        let mut m = self;
        m.push_back(s);
        m
    }

    /// Compose one chain with another: every step of `self` runs first,
    /// every step of `other` runs afterwards.  Only the segment sequences
    /// are relinked; no stored step is touched, copied or re-traversed.
    pub fn concat(self, other: Morphism<S>) -> (r: Morphism<S>)
        requires
            self.wf(),
            other.wf(),
        ensures
            r.wf(),
            r.steps() == self.steps() + other.steps(),
    {
        let ghost gl = self;
        let ghost gr = other;
        let mut segs = self.segs;
        let mut rhs = other.segs;
        segs.append(&mut rhs);
        let r = Morphism { segs };
        proof {
            assert(r.segments() =~= gl.segments() + gr.segments());
            vstd::seq_lib::lemma_flatten_concat(gl.segments(), gr.segments());
            assert(r.steps() =~= gl.steps() + gr.steps());
        }
        r
    }

    /// Given an argument, run the chain of transformations in a nested loop
    /// — segments in order, steps within a segment in order — and return the
    /// final result.  The chain is only borrowed, so it can be run again.
    pub fn run(&self, x: S::Val) -> (r: S::Val)
        ensures
            r@ == run_steps(self.steps(), x@),
    {
        let ghost gx = x@;
        let mut acc = x;
        let mut i: usize = 0;
        while i < self.segs.len()
            invariant
                i <= self.segs@.len(),
                acc@ == run_steps(self.segments().take(i as int).flatten(), gx),
            decreases self.segs@.len() - i,
        {
            proof {
                let ss = self.segments();
                assert(ss.take(i + 1) =~= ss.take(i as int).push(ss[i as int]));
                ss.take(i as int).lemma_flatten_push(ss[i as int]);
                lemma_run_steps_concat(ss.take(i as int).flatten(), ss[i as int], gx);
            }
            acc = self.segs[i].apply_all(acc);
            i = i + 1;
        }
        proof {
            assert(self.segments().take(self.segs@.len() as int) =~= self.segments());
        }
        acc
    }
}

} // verus!
