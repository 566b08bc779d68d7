use crate::agent::Agent;
use crate::record::Record;
use crate::{all_wf, halted, played, ran, Conversation, MainConversation};
use vstd::prelude::*;

verus! {

/// The most rounds that one run of a `While` makes.
pub const MAX_ROUNDS: u64 = 0xffff_ffff_ffff_ffff;

/// A nested conversation that runs again and again while `predicate` holds
/// of the record. The predicate is asked before every round, the first too.
/// A run stops after `MAX_ROUNDS` rounds at the latest.
pub struct While<F, A> {
    pub predicate: F,
    pub conversation: MainConversation<A>,
}

/// Exactly `n` rounds ran from `pre` to `post`, each begun with the
/// predicate true and each a successful run of the nested agents.
pub open spec fn rounds<R: Record, A: Agent<R>, F: Fn(&R) -> bool>(
    predicate: F,
    before: Seq<A>,
    after: Seq<A>,
    pre: R,
    post: R,
    n: nat,
) -> bool
    decreases n,
{
    if n == 0 {
        after == before && post == pre
    } else {
        exists|mid: R, between: Seq<A>|
            #![trigger ran(before, between, pre, mid)]
            predicate.ensures((&pre,), true) && ran(before, between, pre, mid) && rounds(
                predicate,
                between,
                after,
                mid,
                post,
                (n - 1) as nat,
            )
    }
}

/// What a run of a `While` may come to: some rounds, then either the
/// predicate false (or `MAX_ROUNDS` rounds made), or a round that failed
/// with the error returned.
pub open spec fn looped<R: Record, A: Agent<R>, F: Fn(&R) -> bool>(
    predicate: F,
    before: Seq<A>,
    after: Seq<A>,
    pre: R,
    post: R,
    r: Result<(), A::Error>,
) -> bool {
    match r {
        Ok(_) => exists|n: nat|
            #![trigger rounds(predicate, before, after, pre, post, n)]
            rounds(predicate, before, after, pre, post, n) && (predicate.ensures((&post,), false)
                || n == MAX_ROUNDS),
        Err(e) => exists|n: nat, mid: R, between: Seq<A>|
            #![trigger rounds(predicate, before, between, pre, mid, n)]
            rounds(predicate, before, between, pre, mid, n) && predicate.ensures((&mid,), true)
                && played(between, after, mid, post, Err(e)),
    }
}

proof fn lemma_one_more_round<R: Record, A: Agent<R>, F: Fn(&R) -> bool>(
    predicate: F,
    before: Seq<A>,
    between: Seq<A>,
    after: Seq<A>,
    pre: R,
    mid: R,
    post: R,
    n: nat,
)
    requires
        rounds(predicate, before, between, pre, mid, n),
        predicate.ensures((&mid,), true),
        ran(between, after, mid, post),
    ensures
        rounds(predicate, before, after, pre, post, n + 1),
    decreases n,
{
    if n == 0 {
        assert(rounds(predicate, after, after, post, post, ((n + 1) - 1) as nat));
        assert(predicate.ensures((&pre,), true));
        assert(ran(before, after, pre, post));
        assert(rounds(predicate, before, after, pre, post, n + 1));
    } else {
        let (m, b) = choose|m: R, b: Seq<A>|
            predicate.ensures((&pre,), true) && ran(before, b, pre, m) && rounds(
                predicate,
                b,
                between,
                m,
                mid,
                (n - 1) as nat,
            );
        lemma_one_more_round(predicate, b, between, after, m, mid, post, (n - 1) as nat);
        assert(rounds(predicate, b, after, m, post, ((n + 1) - 1) as nat));
        assert(rounds(predicate, before, after, pre, post, n + 1));
    }
}

impl<R: Record, F: Fn(&R) -> bool, A: Agent<R>> Agent<R> for While<F, A> {
    type Error = A::Error;

    open spec fn wf(&self) -> bool {
        &&& all_wf(self.conversation@)
        &&& forall|r: R| #[trigger] self.predicate.requires((&r,))
    }

    open spec fn handles(&self, pre: R, after: Self, post: R, r: Result<(), A::Error>) -> bool {
        &&& after.predicate == self.predicate
        &&& looped(self.predicate, self.conversation@, after.conversation@, pre, post, r)
    }

    fn handle(&mut self, record: &mut R) -> (r: Result<(), A::Error>) {
        let ghost pre = *record;
        let ghost before = self.conversation@;
        let mut n: u64 = 0;
        assert(rounds(self.predicate, before, before, pre, pre, 0));
        while n < MAX_ROUNDS
            invariant
                self.wf(),
                self.predicate == old(self).predicate,
                before == old(self).conversation@,
                pre == *old(record),
                rounds(self.predicate, before, self.conversation@, pre, *record, n as nat),
            decreases MAX_ROUNDS - n,
        {
            let go = (self.predicate)(&*record);
            if !go {
                assert(looped(self.predicate, before, self.conversation@, pre, *record, Ok(())));
                return Ok(());
            }
            let ghost mid = *record;
            let ghost between = self.conversation@;
            match self.conversation.play_with(record) {
                Ok(_) => {
                    proof {
                        lemma_one_more_round(
                            self.predicate,
                            before,
                            between,
                            self.conversation@,
                            pre,
                            mid,
                            *record,
                            n as nat,
                        );
                    }
                    n = n + 1;
                },
                Err(e) => {
                    assert(played(between, self.conversation@, mid, *record, Err(e)));
                    assert(looped(self.predicate, before, self.conversation@, pre, *record, Err(e)));
                    return Err(e);
                },
            }
        }
        assert(looped(self.predicate, before, self.conversation@, pre, *record, Ok(())));
        Ok(())
    }
}

/// A loop being built inside the conversation `parent`.
pub struct WhileBuilder<F, A, P> {
    pub parent: P,
    pub child: While<F, A>,
}

impl<F, A, P> Conversation<A> for WhileBuilder<F, A, P> {
    open spec fn pending(&self) -> Seq<A> {
        self.child.conversation@
    }

    open spec fn keeps(&self, next: Self) -> bool {
        next.parent == self.parent && next.child.predicate == self.child.predicate
    }

    fn agent(self, agent: A) -> (r: Self) {
        let WhileBuilder { parent, child } = self;
        let While { predicate, conversation } = child;
        let conversation = conversation.agent(agent);
        WhileBuilder { parent, child: While { predicate, conversation } }
    }
}

impl<F, A, P> WhileBuilder<F, A, P> {
    /// Closes the loop: the loop becomes the next agent of the parent.
    pub fn end_while(self) -> (r: P) where
        P: Conversation<While<F, A>>,
        ensures
            r.pending() == self.parent.pending().push(self.child),
    {
        self.parent.agent(self.child)
    }
}

/// When the predicate is false of the record at the start, a run of the
/// loop succeeds and changes nothing: the nested agents never run.
pub proof fn lemma_while_false_at_start<R: Record, F: Fn(&R) -> bool, A: Agent<R>>(
    w: While<F, A>,
    pre: R,
    after: While<F, A>,
    post: R,
    r: Result<(), A::Error>,
)
    requires
        w.handles(pre, after, post, r),
        forall|b: bool| #[trigger] w.predicate.ensures((&pre,), b) ==> !b,
    ensures
        r is Ok,
        post == pre,
        after.conversation@ == w.conversation@,
{
    let p = w.predicate;
    let before = w.conversation@;
    if r is Ok {
        let n = choose|n: nat|
            #![trigger rounds(p, before, after.conversation@, pre, post, n)]
            rounds(p, before, after.conversation@, pre, post, n) && (p.ensures((&post,), false) || n
                == MAX_ROUNDS);
        if n > 0 {
            assert(p.ensures((&pre,), true));
        }
    } else {
        let e = r->Err_0;
        let (n, mid, between) = choose|n: nat, mid: R, between: Seq<A>|
            #![trigger rounds(p, before, between, pre, mid, n)]
            rounds(p, before, between, pre, mid, n) && p.ensures((&mid,), true) && played(
                between,
                after.conversation@,
                mid,
                post,
                Err(e),
            );
        if n > 0 {
            assert(p.ensures((&pre,), true));
        } else {
            assert(p.ensures((&mid,), true));
        }
    }
}

/// The records `records` and nested agents `agents` lay out a run of the
/// loop: before each round the predicate held of the record, and each round
/// took the nested agents from one entry to the next by a successful run.
pub open spec fn traced<R: Record, A: Agent<R>, F: Fn(&R) -> bool>(
    predicate: F,
    records: Seq<R>,
    agents: Seq<Seq<A>>,
) -> bool {
    &&& records.len() >= 1
    &&& agents.len() == records.len()
    &&& forall|i: int| 0 <= i < records.len() - 1 ==> #[trigger] round_taken(predicate, records, agents, i)
}

/// Round `i` of a laid-out run: begun with the predicate true of its record,
/// it ran the nested agents successfully to the next record.
pub open spec fn round_taken<R: Record, A: Agent<R>, F: Fn(&R) -> bool>(
    predicate: F,
    records: Seq<R>,
    agents: Seq<Seq<A>>,
    i: int,
) -> bool {
    predicate.ensures((&records[i],), true) && ran(agents[i], agents[i + 1], records[i], records[i + 1])
}

proof fn lemma_rounds_traced<R: Record, A: Agent<R>, F: Fn(&R) -> bool>(
    predicate: F,
    before: Seq<A>,
    after: Seq<A>,
    pre: R,
    post: R,
    n: nat,
) -> (t: (Seq<R>, Seq<Seq<A>>))
    requires
        rounds(predicate, before, after, pre, post, n),
    ensures
        traced(predicate, t.0, t.1),
        t.0.len() == n + 1,
        t.0[0] == pre,
        t.0.last() == post,
        t.1[0] == before,
        t.1.last() == after,
    decreases n,
{
    if n == 0 {
        let records = seq![pre];
        let agents = seq![before];
        assert(traced(predicate, records, agents));
        (records, agents)
    } else {
        let (mid, between) = choose|mid: R, between: Seq<A>|
            predicate.ensures((&pre,), true) && ran(before, between, pre, mid) && rounds(
                predicate,
                between,
                after,
                mid,
                post,
                (n - 1) as nat,
            );
        let (rest, rest_agents) = lemma_rounds_traced(predicate, between, after, mid, post, (n - 1) as nat);
        let records = seq![pre] + rest;
        let agents = seq![before] + rest_agents;
        assert(records.len() == rest.len() + 1);
        assert(agents.len() == rest_agents.len() + 1);
        assert(records.last() == rest.last());
        assert(agents.last() == rest_agents.last());
        assert forall|i: int| 0 <= i < records.len() - 1 implies #[trigger] round_taken(predicate, records, agents, i) by {
            if i > 0 {
                let j = i - 1;
                assert(records[i] == rest[j]);
                assert(records[i + 1] == rest[j + 1]);
                assert(agents[i] == rest_agents[j]);
                assert(agents[i + 1] == rest_agents[j + 1]);
                assert(round_taken(predicate, rest, rest_agents, j));
            } else {
                assert(records[1] == rest[0]);
                assert(agents[1] == rest_agents[0]);
            }
        }
        assert(traced(predicate, records, agents));
        (records, agents)
    }
}

/// A successful run of the loop, laid out: records r0 (the start) to rn
/// (the end) and the nested agents between them. The predicate was asked
/// before every round and held each time, so the nested conversation ran
/// exactly n times, in order, each run from the record the round began
/// with; then the predicate was false of rn, or `MAX_ROUNDS` rounds were made.
pub proof fn lemma_while_traced<R: Record, F: Fn(&R) -> bool, A: Agent<R>>(
    w: While<F, A>,
    pre: R,
    after: While<F, A>,
    post: R,
)
    requires
        w.handles(pre, after, post, Ok(())),
    ensures
        exists|records: Seq<R>, agents: Seq<Seq<A>>|
            #![trigger traced(w.predicate, records, agents)]
            traced(w.predicate, records, agents) && records[0] == pre && records.last() == post
                && agents[0] == w.conversation@ && agents.last() == after.conversation@ && (
            w.predicate.ensures((&post,), false) || records.len() - 1 == MAX_ROUNDS),
{
    let n = choose|n: nat|
        #![trigger rounds(w.predicate, w.conversation@, after.conversation@, pre, post, n)]
        rounds(w.predicate, w.conversation@, after.conversation@, pre, post, n) && (w.predicate.ensures(
            (&post,),
            false,
        ) || n == MAX_ROUNDS);
    let (records, agents) = lemma_rounds_traced(w.predicate, w.conversation@, after.conversation@, pre, post, n);
    assert(traced(w.predicate, records, agents));
}

} // verus!
