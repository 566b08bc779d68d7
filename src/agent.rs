use crate::control_flow::error::Catch;
use crate::record::{Record, Role};
use std::rc::Rc;
use std::sync::Arc;
use vstd::prelude::*;

verus! {

/// A unit of work: one attempt at a transition of a record.
///
/// `wf` is what the agent needs to hold before it runs, and it still holds
/// afterwards. `handles(pre, after, post, r)` relates the record before the
/// run, the agent after it, the record after it and the outcome.
pub trait Agent<R: Record>: Sized {
    type Error;

    spec fn wf(&self) -> bool;

    spec fn handles(&self, pre: R, after: Self, post: R, r: Result<(), Self::Error>) -> bool;

    fn handle(&mut self, record: &mut R) -> (r: Result<(), Self::Error>)
        requires
            old(self).wf(),
        ensures
            final(self).wf(),
            old(self).handles(*old(record), *final(self), *final(record), r),
    ;

    /// Wraps this agent so that its failure is handed to `f`, which may
    /// give a substitute agent to run in its place.
    fn catch<F>(self, f: F) -> (r: Catch<Self, F>)
        ensures
            r.agent == self,
            r.f == f,
    {
        Catch { agent: self, f }
    }
}

/// An agent that runs through a shared reference: a run of it leaves the
/// agent as it was.
pub trait AgentRef<R: Record>: Agent<R> {
    fn handle_ref(&self, record: &mut R) -> (r: Result<(), Self::Error>)
        requires
            self.wf(),
        ensures
            self.handles(*old(record), *self, *final(record), r),
    ;

    /// Wraps this shared-access agent so that its failure is handed to `f`;
    /// the `Catch` is then a shared-access agent too.
    fn catch_ref<F>(self, f: F) -> (r: Catch<Self, F>)
        ensures
            r.agent == self,
            r.f == f,
    {
        Catch { agent: self, f }
    }
}

/// One of two agents. Agents of two types stand in one conversation as
/// `Either`s of them, and nesting mixes more; the error says which failed.
#[derive(Clone, Debug)]
pub enum Either<A, B> {
    Left(A),
    Right(B),
}

/// An outcome of the left agent, as an outcome of an `Either`.
pub open spec fn left_outcome<E, F>(r: Result<(), E>) -> Result<(), Either<E, F>> {
    match r {
        Ok(u) => Ok(u),
        Err(e) => Err(Either::Left(e)),
    }
}

/// An outcome of the right agent, as an outcome of an `Either`.
pub open spec fn right_outcome<E, F>(r: Result<(), F>) -> Result<(), Either<E, F>> {
    match r {
        Ok(u) => Ok(u),
        Err(e) => Err(Either::Right(e)),
    }
}

impl<R: Record, A: Agent<R>, B: Agent<R>> Agent<R> for Either<A, B> {
    type Error = Either<A::Error, B::Error>;

    open spec fn wf(&self) -> bool {
        match self {
            Either::Left(a) => a.wf(),
            Either::Right(b) => b.wf(),
        }
    }

    open spec fn handles(
        &self,
        pre: R,
        after: Either<A, B>,
        post: R,
        r: Result<(), Either<A::Error, B::Error>>,
    ) -> bool {
        match (self, after) {
            (Either::Left(a), Either::Left(a2)) => exists|ra: Result<(), A::Error>|
                #[trigger] a.handles(pre, a2, post, ra) && r == left_outcome::<A::Error, B::Error>(ra),
            (Either::Right(b), Either::Right(b2)) => exists|rb: Result<(), B::Error>|
                #[trigger] b.handles(pre, b2, post, rb) && r == right_outcome::<A::Error, B::Error>(rb),
            _ => false,
        }
    }

    fn handle(&mut self, record: &mut R) -> (r: Result<(), Either<A::Error, B::Error>>) {
        match self {
            Either::Left(a) => match a.handle(record) {
                Ok(u) => Ok(u),
                Err(e) => Err(Either::Left(e)),
            },
            Either::Right(b) => match b.handle(record) {
                Ok(u) => Ok(u),
                Err(e) => Err(Either::Right(e)),
            },
        }
    }
}

/// A fixed outcome is an agent: it leaves the record alone and returns
/// itself (a copy of its error).
impl<R: Record, E: Clone> Agent<R> for Result<(), E> {
    type Error = E;

    open spec fn wf(&self) -> bool {
        true
    }

    open spec fn handles(&self, pre: R, after: Result<(), E>, post: R, r: Result<(), E>) -> bool {
        &&& after == *self
        &&& post == pre
        &&& r is Ok <==> self is Ok
    }

    fn handle(&mut self, record: &mut R) -> (r: Result<(), E>) {
        self.handle_ref(record)
    }
}

impl<R: Record, E: Clone> AgentRef<R> for Result<(), E> {
    fn handle_ref(&self, record: &mut R) -> (r: Result<(), E>) {
        match self {
            Ok(u) => Ok(*u),
            Err(e) => Err(e.clone()),
        }
    }
}

/// What a text pushed as a user message does to a record.
pub open spec fn said<R: Record>(text: Seq<char>, pre: R, post: R, r: Result<(), R::Error>) -> bool {
    &&& pre.accepts(Role::User, text) ==> r is Ok
    &&& r is Ok ==> pre.pushed(Role::User, text, post)
    &&& r is Err ==> post == pre
}

/// A plain string is an agent: it pushes itself, verbatim, as a user message.
impl<R: Record> Agent<R> for String {
    type Error = R::Error;

    open spec fn wf(&self) -> bool {
        true
    }

    open spec fn handles(&self, pre: R, after: String, post: R, r: Result<(), R::Error>) -> bool {
        &&& after == *self
        &&& said(self@, pre, post, r)
    }

    fn handle(&mut self, record: &mut R) -> (r: Result<(), R::Error>) {
        self.handle_ref(record)
    }
}

impl<R: Record> AgentRef<R> for String {
    fn handle_ref(&self, record: &mut R) -> (r: Result<(), R::Error>) {
        record.push(Role::User, self.clone())
    }
}

/// A boxed agent runs as the agent inside.
impl<R: Record, A: Agent<R>> Agent<R> for Box<A> {
    type Error = A::Error;

    open spec fn wf(&self) -> bool {
        (**self).wf()
    }

    open spec fn handles(&self, pre: R, after: Box<A>, post: R, r: Result<(), A::Error>) -> bool {
        (**self).handles(pre, *after, post, r)
    }

    fn handle(&mut self, record: &mut R) -> (r: Result<(), A::Error>) {
        (**self).handle(record)
    }
}

/// A shared agent runs through its shared-access capability.
impl<R: Record, A: AgentRef<R>> Agent<R> for Rc<A> {
    type Error = A::Error;

    open spec fn wf(&self) -> bool {
        (**self).wf()
    }

    open spec fn handles(&self, pre: R, after: Rc<A>, post: R, r: Result<(), A::Error>) -> bool {
        &&& after == *self
        &&& (**self).handles(pre, **self, post, r)
    }

    fn handle(&mut self, record: &mut R) -> (r: Result<(), A::Error>) {
        self.handle_ref(record)
    }
}

impl<R: Record, A: AgentRef<R>> AgentRef<R> for Rc<A> {
    fn handle_ref(&self, record: &mut R) -> (r: Result<(), A::Error>) {
        let inner: &A = &**self;
        inner.handle_ref(record)
    }
}

/// An atomically shared agent runs through its shared-access capability.
impl<R: Record, A: AgentRef<R>> Agent<R> for Arc<A> {
    type Error = A::Error;

    open spec fn wf(&self) -> bool {
        (**self).wf()
    }

    open spec fn handles(&self, pre: R, after: Arc<A>, post: R, r: Result<(), A::Error>) -> bool {
        &&& after == *self
        &&& (**self).handles(pre, **self, post, r)
    }

    fn handle(&mut self, record: &mut R) -> (r: Result<(), A::Error>) {
        self.handle_ref(record)
    }
}

impl<R: Record, A: AgentRef<R>> AgentRef<R> for Arc<A> {
    fn handle_ref(&self, record: &mut R) -> (r: Result<(), A::Error>) {
        let inner: &A = &**self;
        inner.handle_ref(record)
    }
}

} // verus!
