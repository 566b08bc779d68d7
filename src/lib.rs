use vstd::prelude::*;

pub mod agent;
pub mod assistants;
pub mod control_flow;
pub mod record;

use agent::Agent;
use control_flow::while_loop::{While, WhileBuilder};
use record::{ChatRecord, MessageView, Record, Role};

verus! {

/// The agents `before`, run one after another from `pre`, all succeeded,
/// becoming `after` and leaving `post`.
pub open spec fn ran<R: Record, A: Agent<R>>(before: Seq<A>, after: Seq<A>, pre: R, post: R) -> bool
    decreases before.len(),
{
    &&& before.len() == after.len()
    &&& if before.len() == 0 {
        post == pre
    } else {
        exists|mid: R|
            #![trigger before.last().handles(mid, after.last(), post, Ok(()))]
            ran(before.drop_last(), after.drop_last(), pre, mid) && before.last().handles(
                mid,
                after.last(),
                post,
                Ok(()),
            )
    }
}

/// The agents `before` were run from `pre` in order: the first `k` succeeded,
/// the one at `k` failed with `e`, leaving `post`, and none after it ran.
pub open spec fn halted<R: Record, A: Agent<R>>(
    before: Seq<A>,
    after: Seq<A>,
    pre: R,
    post: R,
    k: int,
    e: A::Error,
) -> bool {
    &&& 0 <= k < before.len()
    &&& before.len() == after.len()
    &&& after.skip(k + 1) == before.skip(k + 1)
    &&& exists|mid: R|
        #![trigger before[k].handles(mid, after[k], post, Err(e))]
        ran(before.take(k), after.take(k), pre, mid) && before[k].handles(mid, after[k], post, Err(e))
}

/// What one run of the agents `before` from `pre` may come to.
pub open spec fn played<R: Record, A: Agent<R>>(
    before: Seq<A>,
    after: Seq<A>,
    pre: R,
    post: R,
    r: Result<(), A::Error>,
) -> bool {
    match r {
        Ok(_) => ran(before, after, pre, post),
        Err(e) => exists|k: int| halted(before, after, pre, post, k, e),
    }
}

pub open spec fn all_wf<R: Record, A: Agent<R>>(agents: Seq<A>) -> bool {
    forall|i: int| 0 <= i < agents.len() ==> (#[trigger] agents[i]).wf()
}

/// A way to build a sequence of agents.
pub trait Conversation<A>: Sized {
    /// The agents gathered so far, in order.
    spec fn pending(&self) -> Seq<A>;

    /// `next` holds all that `self` holds but for the pending agents.
    spec fn keeps(&self, next: Self) -> bool;

    fn agent(self, agent: A) -> (r: Self)
        ensures
            r.pending() == self.pending().push(agent),
            self.keeps(r),
    ;

    /// Opens a loop: the agents added to the builder returned run, as one
    /// nested conversation, for as long as `predicate` holds of the record.
    fn while_loop<F, B>(self, predicate: F) -> (r: WhileBuilder<F, B, Self>)
        ensures
            r.parent == self,
            r.child.predicate == predicate,
            r.child.conversation@ == Seq::<B>::empty(),
    {
        WhileBuilder { parent: self, child: While { predicate, conversation: MainConversation::new() } }
    }
}

/// An ordered sequence of agents, run in the order in which they were added.
pub struct MainConversation<A> {
    agents: Vec<A>,
}

impl<A> View for MainConversation<A> {
    type V = Seq<A>;

    closed spec fn view(&self) -> Seq<A> {
        self.agents@
    }
}

impl<A> MainConversation<A> {
    /// Creates a new conversation
    pub fn new() -> (r: Self)
        ensures
            r@ == Seq::<A>::empty(),
    {
        MainConversation { agents: Vec::new() }
    }

    pub fn len(&self) -> (r: usize)
        ensures
            r == self@.len(),
    {
        self.agents.len()
    }
}

impl<A> Conversation<A> for MainConversation<A> {
    open spec fn pending(&self) -> Seq<A> {
        self@
    }

    open spec fn keeps(&self, next: Self) -> bool {
        true
    }

    fn agent(self, agent: A) -> (r: Self) {
        let mut s = self;
        s.agents.push(agent);
        s
    }
}

impl<A> MainConversation<A> {
    /// Runs the conversation once on a record made by `R::default`, and
    /// gives that record back on success.
    pub fn play<R: Record + Default>(&mut self) -> (r: Result<R, A::Error>) where A: Agent<R>,
        requires
            all_wf(old(self)@),
        ensures
            all_wf(final(self)@),
            r is Ok ==> exists|pre: R|
                call_ensures(R::default, (), pre) && #[trigger] played(
                    old(self)@,
                    final(self)@,
                    pre,
                    r->Ok_0,
                    Ok(()),
                ),
            r is Err ==> exists|pre: R, post: R|
                call_ensures(R::default, (), pre) && #[trigger] played(
                    old(self)@,
                    final(self)@,
                    pre,
                    post,
                    Err(r->Err_0),
                ),
    {
        let mut record = R::default();
        let ghost pre = record;
        match self.play_with(&mut record) {
            Ok(_) => {
                let res: Result<R, A::Error> = Ok(record);
                assert(played(old(self)@, self@, pre, res->Ok_0, Ok(())));
                res
            },
            Err(e) => {
                let res: Result<R, A::Error> = Err(e);
                assert(played(old(self)@, self@, pre, record, Err(res->Err_0)));
                res
            },
        }
    }

    /// Runs every agent once, in order, against `record`, and stops at the
    /// first that fails.
    pub fn play_with<R: Record>(&mut self, record: &mut R) -> (r: Result<(), A::Error>) where
        A: Agent<R>,
        requires
            all_wf(old(self)@),
        ensures
            all_wf(final(self)@),
            played(old(self)@, final(self)@, *old(record), *final(record), r),
    {
        let ghost before = self@;
        let ghost pre = *record;
        let n = self.agents.len();
        let mut i: usize = 0;
        assert(before.take(0) =~= Seq::<A>::empty());
        while i < n
            invariant
                before == old(self)@,
                pre == *old(record),
                n == before.len(),
                i <= n,
                self@.len() == n,
                all_wf(self@),
                ran(before.take(i as int), self@.take(i as int), pre, *record),
                self@.skip(i as int) == before.skip(i as int),
            decreases n - i,
        {
            let ghost mid = *record;
            let ghost done = self@;
            assert(self@[i as int] == before[i as int]) by {
                assert(self@.skip(i as int)[0] == before.skip(i as int)[0]);
            }
            let r = self.agents[i].handle(record);
            assert(self@ == done.update(i as int, self@[i as int]));
            assert(before[i as int].handles(mid, self@[i as int], *record, r));
            match r {
                Ok(u) => {
                    assert(r == Ok::<(), A::Error>(u));
                    assert(before.take(i + 1).drop_last() =~= before.take(i as int));
                    assert(self@.take(i + 1).drop_last() =~= done.take(i as int));
                    assert(self@.take(i + 1).drop_last() =~= self@.take(i as int));
                    assert(before.take(i + 1).last() == before[i as int]);
                    assert(self@.take(i + 1).last() == self@[i as int]);
                    assert(before[i as int].handles(mid, self@[i as int], *record, Ok(())));
                    assert(ran(before.take(i + 1), self@.take(i + 1), pre, *record));
                    assert(self@.skip(i + 1) =~= done.skip(i + 1));
                    assert(done.skip(i + 1) =~= done.skip(i as int).skip(1));
                    assert(before.skip(i + 1) =~= before.skip(i as int).skip(1));
                    i = i + 1;
                },
                Err(e) => {
                    assert(self@.take(i as int) =~= done.take(i as int));
                    assert(self@.skip(i + 1) =~= done.skip(i + 1));
                    assert(done.skip(i + 1) =~= done.skip(i as int).skip(1));
                    assert(before.skip(i + 1) =~= before.skip(i as int).skip(1));
                    assert(before[i as int].handles(mid, self@[i as int], *record, Err(e)));
                    assert(halted(before, self@, pre, *record, i as int, e));
                    let res: Result<(), A::Error> = Err(e);
                    assert(played(before, self@, pre, *record, res));
                    return res;
                },
            }
        }
        assert(before.take(n as int) =~= before);
        assert(self@.take(n as int) =~= self@);
        Ok(())
    }
}

/// A conversation is itself an agent: one run of it is one `play_with`.
impl<R: Record, A: Agent<R>> Agent<R> for MainConversation<A> {
    type Error = A::Error;

    open spec fn wf(&self) -> bool {
        all_wf(self@)
    }

    open spec fn handles(&self, pre: R, after: Self, post: R, r: Result<(), A::Error>) -> bool {
        played(self@, after@, pre, post, r)
    }

    fn handle(&mut self, record: &mut R) -> (r: Result<(), A::Error>) {
        self.play_with(record)
    }
}

/// A text run alone, as the one agent of a conversation, on a chat
/// transcript succeeds and adds exactly one message: the text, from the user.
pub proof fn lemma_text_alone(
    text: String,
    pre: ChatRecord,
    after: Seq<String>,
    post: ChatRecord,
    r: Result<(), std::convert::Infallible>,
)
    requires
        played(seq![text], after, pre, post, r),
    ensures
        r is Ok,
        post@ == pre@.push(MessageView { role: Role::User, content: text@ }),
{
    reveal_with_fuel(ran, 2);
    let agents = seq![text];
    if r is Err {
        let e = r->Err_0;
        let k = choose|k: int| halted(agents, after, pre, post, k, e);
        assert(k == 0);
        assert(agents.take(0) =~= Seq::<String>::empty());
        assert(after.take(0) =~= Seq::<String>::empty());
    } else {
        assert(agents.drop_last() =~= Seq::<String>::empty());
        let mid = choose|mid: ChatRecord|
            #![trigger agents.last().handles(mid, after.last(), post, Ok(()))]
            ran(agents.drop_last(), after.drop_last(), pre, mid) && agents.last().handles(
                mid,
                after.last(),
                post,
                Ok(()),
            );
        assert(mid == pre);
    }
}

/// A text run alone on a fresh chat transcript, as `play` does, leaves the
/// transcript holding exactly that text, from the user.
pub proof fn lemma_text_alone_fresh(
    text: String,
    pre: ChatRecord,
    after: Seq<String>,
    post: ChatRecord,
    r: Result<(), std::convert::Infallible>,
)
    requires
        call_ensures(ChatRecord::default, (), pre),
        played(seq![text], after, pre, post, r),
    ensures
        r is Ok,
        post@ == seq![MessageView { role: Role::User, content: text@ }],
{
    lemma_text_alone(text, pre, after, post, r);
    assert(pre@.push(MessageView { role: Role::User, content: text@ }) =~= seq![
        MessageView { role: Role::User, content: text@ },
    ]);
}

} // verus!
