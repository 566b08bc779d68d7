use crate::agent::{Agent, AgentRef};
use crate::record::Record;
use vstd::prelude::*;

verus! {

/// An agent whose failure is handed to a recovery function `f`, which either
/// gives a substitute agent to run in its place or an error of its own.
pub struct Catch<A, F> {
    pub agent: A,
    pub f: F,
}

/// The failure of a `Catch`: the recovery function's own error, which
/// supersedes the first one, or the failure of the substitute agent.
#[derive(Clone, Debug)]
pub enum CatchError<E, S> {
    Recovery(E),
    Substitute(S),
}

/// The outcome of a substitute agent, as the outcome of the `Catch`.
pub open spec fn substituted<E, S>(r: Result<(), S>) -> Result<(), CatchError<E, S>> {
    match r {
        Ok(u) => Ok(u),
        Err(e) => Err(CatchError::Substitute(e)),
    }
}

/// What follows the failure `e` of the first agent, with the record at `mid`.
pub open spec fn recovered<R: Record, E, B: Agent<R>, F: Fn(E) -> Result<B, E>>(
    f: F,
    e: E,
    mid: R,
    post: R,
    r: Result<(), CatchError<E, B::Error>>,
) -> bool {
    ||| exists|e2: E|
        #![trigger f.ensures((e,), Err::<B, E>(e2))]
        f.ensures((e,), Err::<B, E>(e2)) && post == mid && r == Err::<(), CatchError<E, B::Error>>(
            CatchError::Recovery(e2),
        )
    ||| exists|b: B, b_after: B, r2: Result<(), B::Error>|
        #![trigger f.ensures((e,), Ok::<B, E>(b)), b.handles(mid, b_after, post, r2)]
        f.ensures((e,), Ok::<B, E>(b)) && b.handles(mid, b_after, post, r2) && r == substituted::<E, B::Error>(r2)
}

/// What a run of `agent` guarded by the recovery function `f` may come to.
pub open spec fn rescued<R: Record, A: Agent<R>, B: Agent<R>, F: Fn(A::Error) -> Result<B, A::Error>>(
    agent: A,
    f: F,
    pre: R,
    after: A,
    post: R,
    r: Result<(), CatchError<A::Error, B::Error>>,
) -> bool {
    ||| agent.handles(pre, after, post, Ok(())) && r is Ok
    ||| exists|mid: R, e: A::Error|
        #![trigger agent.handles(pre, after, mid, Err(e))]
        agent.handles(pre, after, mid, Err(e)) && recovered::<R, A::Error, B, F>(f, e, mid, post, r)
}

impl<R: Record, A: Agent<R>, F: Fn(A::Error) -> Result<B, A::Error>, B: Agent<R>> Agent<R> for Catch<A, F> {
    type Error = CatchError<A::Error, B::Error>;

    open spec fn wf(&self) -> bool {
        &&& self.agent.wf()
        &&& forall|e: A::Error| #[trigger] self.f.requires((e,))
        &&& forall|e: A::Error, b: B| #[trigger] self.f.ensures((e,), Ok::<B, A::Error>(b)) ==> b.wf()
    }

    open spec fn handles(
        &self,
        pre: R,
        after: Self,
        post: R,
        r: Result<(), CatchError<A::Error, B::Error>>,
    ) -> bool {
        &&& after.f == self.f
        &&& rescued::<R, A, B, F>(self.agent, self.f, pre, after.agent, post, r)
    }

    fn handle(&mut self, record: &mut R) -> (r: Result<(), CatchError<A::Error, B::Error>>) {
        let ghost pre = *record;
        match self.agent.handle(record) {
            Ok(u) => Ok(u),
            Err(e) => {
                let ghost mid = *record;
                let ghost err = e;
                let res = Self::recover(&self.f, e, record);
                assert(self.agent.wf());
                assert(old(self).agent.handles(pre, self.agent, mid, Err(err)));
                res
            },
        }
    }
}

impl<A, F> Catch<A, F> {
    /// Hands the failure `e` to `f` and runs the substitute it gives, if any.
    fn recover<R: Record, B: Agent<R>>(f: &F, e: A::Error, record: &mut R) -> (r: Result<
        (),
        CatchError<A::Error, B::Error>,
    >) where A: Agent<R>, F: Fn(A::Error) -> Result<B, A::Error>,
        requires
            f.requires((e,)),
            forall|e: A::Error, b: B| #[trigger] f.ensures((e,), Ok::<B, A::Error>(b)) ==> b.wf(),
        ensures
            recovered::<R, A::Error, B, F>(*f, e, *old(record), *final(record), r),
    {
        let ghost mid = *record;
        let ghost err = e;
        match f(e) {
            Ok(mut b) => {
                let ghost b0 = b;
                let r2 = b.handle(record);
                assert(b0.handles(mid, b, *record, r2));
                match r2 {
                    Ok(u) => Ok(u),
                    Err(e2) => Err(CatchError::Substitute(e2)),
                }
            },
            Err(e2) => Err(CatchError::Recovery(e2)),
        }
    }
}

impl<R: Record, A: AgentRef<R>, F: Fn(A::Error) -> Result<B, A::Error>, B: Agent<R>> AgentRef<R> for Catch<A, F> {
    fn handle_ref(&self, record: &mut R) -> (r: Result<(), CatchError<A::Error, B::Error>>) {
        let ghost pre = *record;
        match self.agent.handle_ref(record) {
            Ok(u) => Ok(u),
            Err(e) => {
                let ghost mid = *record;
                let ghost err = e;
                let res = Self::recover(&self.f, e, record);
                assert(self.agent.handles(pre, self.agent, mid, Err(err)));
                res
            },
        }
    }
}

/// When the guarded agent fails on `pre` with `e` and leaves the record as
/// it was, and `f` turns `e` into the agent `b`, a run of the `Catch` is a
/// run of `b` alone from `pre`.
pub proof fn lemma_catch_substitutes<R: Record, A: Agent<R>, F: Fn(A::Error) -> Result<B, A::Error>, B: Agent<R>>(
    c: Catch<A, F>,
    pre: R,
    after: Catch<A, F>,
    post: R,
    r: Result<(), CatchError<A::Error, B::Error>>,
    e: A::Error,
    b: B,
)
    requires
        c.handles(pre, after, post, r),
        forall|a2: A, p2: R, r2: Result<(), A::Error>|
            #[trigger] c.agent.handles(pre, a2, p2, r2) ==> p2 == pre && r2 == Err::<(), A::Error>(e),
        forall|x: Result<B, A::Error>| #[trigger] c.f.ensures((e,), x) ==> x == Ok::<B, A::Error>(b),
    ensures
        exists|b_after: B, r2: Result<(), B::Error>|
            #[trigger] b.handles(pre, b_after, post, r2) && r == substituted::<A::Error, B::Error>(r2),
{
    if c.agent.handles(pre, after.agent, post, Ok(())) {
        assert(false);
    }
    let (mid, e1) = choose|mid: R, e1: A::Error| c.agent.handles(pre, after.agent, mid, Err(e1))
        && recovered::<R, A::Error, B, F>(c.f, e1, mid, post, r);
    assert(mid == pre && e1 == e);
    if exists|e2: A::Error| c.f.ensures((e,), Err::<B, A::Error>(e2)) {
        let e2 = choose|e2: A::Error| c.f.ensures((e,), Err::<B, A::Error>(e2));
        assert(Err::<B, A::Error>(e2) == Ok::<B, A::Error>(b));
    }
}

/// When the guarded agent fails on `pre` with `e`, leaving `mid`, and `f`
/// answers `e` with the error `e2`, a run of the `Catch` fails with `e2` and
/// the record stays at `mid`.
pub proof fn lemma_catch_reraises<R: Record, A: Agent<R>, F: Fn(A::Error) -> Result<B, A::Error>, B: Agent<R>>(
    c: Catch<A, F>,
    pre: R,
    after: Catch<A, F>,
    post: R,
    r: Result<(), CatchError<A::Error, B::Error>>,
    e: A::Error,
    mid: R,
    e2: A::Error,
)
    requires
        c.handles(pre, after, post, r),
        forall|a2: A, p2: R, r2: Result<(), A::Error>|
            #[trigger] c.agent.handles(pre, a2, p2, r2) ==> p2 == mid && r2 == Err::<(), A::Error>(e),
        forall|x: Result<B, A::Error>| #[trigger] c.f.ensures((e,), x) ==> x == Err::<B, A::Error>(e2),
    ensures
        r == Err::<(), CatchError<A::Error, B::Error>>(CatchError::Recovery(e2)),
        post == mid,
{
    if c.agent.handles(pre, after.agent, post, Ok(())) {
        assert(false);
    }
    let (m, e1) = choose|m: R, e1: A::Error| c.agent.handles(pre, after.agent, m, Err(e1))
        && recovered::<R, A::Error, B, F>(c.f, e1, m, post, r);
    assert(m == mid && e1 == e);
    if exists|b1: B| c.f.ensures((e,), Ok::<B, A::Error>(b1)) {
        let b1 = choose|b1: B| c.f.ensures((e,), Ok::<B, A::Error>(b1));
        assert(Ok::<B, A::Error>(b1) == Err::<B, A::Error>(e2));
    }
}

} // verus!
