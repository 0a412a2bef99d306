//! What the figure asks of a drawing backend, and a run that hands it out
//! one primitive at a time and stops at the first failure.
use plotters_backend::BackendCoord;
use vstd::prelude::*;

verus! {

/// How a primitive is stroked: an RGB colour and a line width in pixels.
#[derive(Clone, Copy, Debug, PartialEq, Eq)]
pub struct ShapeStyle {
    pub color: (u8, u8, u8),
    pub stroke_width: u32,
}

impl ShapeStyle {
    /// Black, one pixel wide.
    pub open spec fn black_spec() -> ShapeStyle {
        ShapeStyle { color: (0u8, 0u8, 0u8), stroke_width: 1u32 }
    }

    /// Black, one pixel wide.
    pub fn black() -> (r: ShapeStyle)
        ensures
            r == Self::black_spec(),
    {
        ShapeStyle { color: (0, 0, 0), stroke_width: 1 }
    }

    /// The colour of the style alone, as a backend strokes a bare colour: one
    /// pixel wide.
    pub open spec fn color_only_spec(self) -> ShapeStyle {
        ShapeStyle { color: self.color, stroke_width: 1 }
    }

    /// The colour of the style alone, one pixel wide.
    pub fn color_only(&self) -> (r: ShapeStyle)
        ensures
            r == self.color_only_spec(),
    {
        ShapeStyle { color: self.color, stroke_width: 1 }
    }
}

/// One call to make on a drawing backend.
#[derive(Clone, Copy, Debug, PartialEq, Eq)]
pub enum Primitive {
    Line { from: BackendCoord, to: BackendCoord, style: ShapeStyle },
    Rect { upper_left: BackendCoord, bottom_right: BackendCoord, style: ShapeStyle, fill: bool },
    Circle { center: BackendCoord, radius: u32, style: ShapeStyle, fill: bool },
}

/// The state of a run: the primitives to issue, how many have succeeded, and
/// the failure that ended it, if one did.
pub struct RunModel<E> {
    pub plan: Seq<Primitive>,
    pub done: nat,
    pub failure: Option<E>,
}

impl<E> RunModel<E> {
    /// A run that has issued nothing yet.
    pub open spec fn start(plan: Seq<Primitive>) -> RunModel<E> {
        RunModel { plan, done: 0, failure: None }
    }

    /// No more primitives have succeeded than the plan holds.
    pub open spec fn wf(self) -> bool {
        self.done <= self.plan.len()
    }

    /// The primitive to issue next: none once a primitive failed or all
    /// succeeded.
    pub open spec fn next(self) -> Option<Primitive> {
        if self.failure is None && self.done < self.plan.len() {
            Some(self.plan[self.done as int])
        } else {
            None
        }
    }

    /// The run after the backend answered the primitive last handed out.
    pub open spec fn recorded(self, outcome: Result<(), E>) -> RunModel<E> {
        match outcome {
            Ok(()) => RunModel { done: self.done + 1, ..self },
            Err(e) => RunModel { failure: Some(e), ..self },
        }
    }

    /// What the run reports: the failure that ended it, or success.
    pub open spec fn outcome(self) -> Result<(), E> {
        match self.failure {
            Some(e) => Err(e),
            None => Ok(()),
        }
    }
}

/// Hands out the primitives of a plan one at a time, in order, and stops at
/// the first one that the backend reports as failed.
pub struct DrawRun<E> {
    plan: Vec<Primitive>,
    done: usize,
    failure: Option<E>,
}

impl<E> View for DrawRun<E> {
    type V = RunModel<E>;

    closed spec fn view(&self) -> RunModel<E> {
        RunModel { plan: self.plan@, done: self.done as nat, failure: self.failure }
    }
}

impl<E> DrawRun<E> {
    /// A run over `plan` that has issued nothing yet.
    pub fn new(plan: Vec<Primitive>) -> (r: Self)
        ensures
            r@ == RunModel::<E>::start(plan@),
            r@.wf(),
    {
        DrawRun { plan, done: 0, failure: None }
    }

    /// The primitive to issue next, if any.
    pub fn next_primitive(&self) -> (r: Option<Primitive>)
        requires
            self@.wf(),
        ensures
            r == self@.next(),
    {
        if self.failure.is_none() && self.done < self.plan.len() {
            Some(self.plan[self.done])
        } else {
            None
        }
    }

    /// Records what the backend answered to the primitive last handed out.
    pub fn record(&mut self, outcome: Result<(), E>)
        requires
            old(self)@.wf(),
            old(self)@.next() is Some,
        ensures
            final(self)@ == old(self)@.recorded(outcome),
            final(self)@.wf(),
    {
        match outcome {
            Ok(()) => {
                let n = self.plan.len();
                assert(self.done < n);
                self.done = self.done + 1;
            },
            Err(e) => {
                self.failure = Some(e);
            },
        }
    }

    /// Ends a run that has nothing left to issue, with its outcome.
    pub fn finish(self) -> (r: Result<(), E>)
        requires
            self@.wf(),
            self@.next() is None,
        ensures
            r == self@.outcome(),
    {
        match self.failure {
            Some(e) => Err(e),
            None => Ok(()),
        }
    }
}

/// Once the backend reports a failure, the run issues nothing more and
/// reports exactly that failure.
pub proof fn lemma_fail_fast<E>(run: RunModel<E>, e: E)
    requires
        run.wf(),
        run.next() is Some,
    ensures
        run.recorded(Err(e)).next() is None,
        run.recorded(Err(e)).outcome() == Err::<(), E>(e),
{
}

/// Each success moves the run one primitive on, and a run whose primitives
/// all succeed issues the whole plan in order and reports success.
pub proof fn lemma_run_in_order<E>(run: RunModel<E>)
    requires
        run.wf(),
        run.next() is Some,
    ensures
        run.next() == Some(run.plan[run.done as int]),
        run.recorded(Ok(())).done == run.done + 1,
        run.recorded(Ok(())).done == run.plan.len() ==> run.recorded(Ok(())).next() is None
            && run.recorded(Ok(())).outcome() == Ok::<(), E>(()),
{
}

} // verus!
