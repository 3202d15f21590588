//! What holds of every entity, whatever it has served.

use crate::connection::{call_outcome, notice_outcome};
use crate::entity::{reaches, Entity, RequestHandler};
use crate::error::Error;
use vstd::prelude::*;

verus! {

/// Whether handlers of type `T` answer every request with the request
/// itself.
pub open spec fn echoes<T, M>() -> bool where T: RequestHandler<Request = M, Response = M> {
    forall|before: T, request: M, response: M, after: T| #[trigger]
        before.handles(request, response, after) ==> response == request
}

/// Whether `log` reads from a handler of type `T` a list to which the
/// handling of a request adds that request at the end, and nothing else.
pub open spec fn appends<T: RequestHandler>(log: spec_fn(T) -> Seq<T::Request>) -> bool {
    forall|before: T, request: T::Request, response: T::Response, after: T| #[trigger]
        before.handles(request, response, after) ==> log(after) == log(before).push(request)
}

/// An entity that has served a request can serve the next: serving keeps
/// it well-formed, and nothing in that depends on what became of the
/// response, so a reply that nobody took stops nothing.
pub proof fn lemma_serving_goes_on<T: RequestHandler>(
    before: Entity<T>,
    request: T::Request,
    after: Entity<T>,
)
    requires
        before.wf(),
        before.serves(request, after),
    ensures
        after.wf(),
{
    let newest = after.history().last();
    assert(before.handler().handles(newest.0, newest.1, after.handler()));
}

/// A run of exchanges can be cut anywhere: the handler passes through
/// some state at the cut.
pub proof fn lemma_reaches_split<T: RequestHandler>(
    before: T,
    exchanges: Seq<(T::Request, T::Response)>,
    after: T,
    cut: int,
)
    requires
        reaches(before, exchanges, after),
        0 <= cut <= exchanges.len(),
    ensures
        exists|middle: T|
            {
                &&& #[trigger] reaches(before, exchanges.take(cut), middle)
                &&& reaches(middle, exchanges.skip(cut), after)
            },
    decreases exchanges.len(),
{
    if cut == exchanges.len() {
        assert(exchanges.take(cut) =~= exchanges);
        assert(reaches(after, exchanges.skip(cut), after));
    } else {
        let shorter = exchanges.drop_last();
        let last_but_one = choose|middle: T|
            {
                &&& reaches(before, shorter, middle)
                &&& #[trigger] middle.handles(exchanges.last().0, exchanges.last().1, after)
            };
        lemma_reaches_split(before, shorter, last_but_one, cut);
        let at_cut = choose|middle: T|
            {
                &&& #[trigger] reaches(before, shorter.take(cut), middle)
                &&& reaches(middle, shorter.skip(cut), last_but_one)
            };
        assert(shorter.take(cut) =~= exchanges.take(cut));
        assert(exchanges.skip(cut).drop_last() =~= shorter.skip(cut));
        assert(exchanges.skip(cut).last() == exchanges.last());
        assert(reaches(at_cut, exchanges.skip(cut), after));
    }
}

/// Every request is handled in the state that exactly the requests served
/// before it have left, and the requests served after it start from the
/// state that it leaves: no two are handled at once, none is handled
/// twice, and none out of turn.
pub proof fn lemma_served_in_turn<T: RequestHandler>(entity: Entity<T>, i: int)
    requires
        entity.wf(),
        0 <= i < entity.history().len(),
    ensures
        exists|before: T, after: T|
            {
                &&& #[trigger] reaches(entity.initial(), entity.history().take(i), before)
                &&& #[trigger] before.handles(
                    entity.history()[i].0,
                    entity.history()[i].1,
                    after,
                )
                &&& reaches(after, entity.history().skip(i + 1), entity.handler())
            },
{
    let history = entity.history();
    lemma_reaches_split(entity.initial(), history, entity.handler(), i + 1);
    let after = choose|middle: T|
        {
            &&& #[trigger] reaches(entity.initial(), history.take(i + 1), middle)
            &&& reaches(middle, history.skip(i + 1), entity.handler())
        };
    let upto = history.take(i + 1);
    assert(upto.drop_last() =~= history.take(i));
    assert(upto.last() == history[i]);
    let before = choose|middle: T|
        {
            &&& reaches(entity.initial(), upto.drop_last(), middle)
            &&& #[trigger] middle.handles(upto.last().0, upto.last().1, after)
        };
    assert(reaches(entity.initial(), history.take(i), before));
}

/// Behind an entity, a handler that echoes has answered every request it
/// was ever handed with that request: a caller whose request the queue
/// took and whose reply slot was filled is told `Ok` of what it sent.
pub proof fn lemma_echo_answers<T, M>(entity: Entity<T>, i: int) where
    T: RequestHandler<Request = M, Response = M>,
    requires
        entity.wf(),
        echoes::<T, M>(),
        0 <= i < entity.history().len(),
    ensures
        entity.history()[i].1 == entity.history()[i].0,
        call_outcome(true, Some(entity.history()[i].1)) == Ok::<M, Error>(
            entity.history()[i].0,
        ),
{
    lemma_served_in_turn(entity, i);
}

/// A call is told what the send on the queue came to where the queue did
/// not take its request, and what the wait on the reply slot came to where
/// it did. So a request that the queue did not take is a `RequestFailure`,
/// whatever the caller wanted and whatever lies in its reply slot.
pub proof fn lemma_call_in_two_steps<Resp>(taken: bool, reply: Option<Resp>)
    ensures
        call_outcome(taken, reply) == (match notice_outcome(taken) {
            Ok(_) => call_outcome(true, reply),
            Err(error) => Err(error),
        }),
        !taken ==> notice_outcome(taken) == Err::<(), Error>(Error::RequestFailure),
        !taken ==> call_outcome(taken, reply) == Err::<Resp, Error>(Error::RequestFailure),
{
}

/// Behind an entity, the log of a handler that logs its requests grows by
/// exactly the requests served, in the order in which they were served.
pub proof fn lemma_log_in_order<T: RequestHandler>(
    entity: Entity<T>,
    log: spec_fn(T) -> Seq<T::Request>,
)
    requires
        entity.wf(),
        appends::<T>(log),
    ensures
        log(entity.handler()) == log(entity.initial()) + entity.requests(),
{
    lemma_log_follows(entity.initial(), entity.history(), entity.handler(), log);
}

/// The log of a handler that logs its requests, after a run of exchanges.
proof fn lemma_log_follows<T: RequestHandler>(
    before: T,
    exchanges: Seq<(T::Request, T::Response)>,
    after: T,
    log: spec_fn(T) -> Seq<T::Request>,
)
    requires
        reaches(before, exchanges, after),
        appends::<T>(log),
    ensures
        log(after) == log(before) + exchanges.map_values(
            |exchange: (T::Request, T::Response)| exchange.0,
        ),
    decreases exchanges.len(),
{
    let requests = exchanges.map_values(|exchange: (T::Request, T::Response)| exchange.0);
    if exchanges.len() == 0 {
        assert(log(before) + requests =~= log(before));
    } else {
        let shorter = exchanges.drop_last();
        let middle = choose|middle: T|
            {
                &&& reaches(before, shorter, middle)
                &&& #[trigger] middle.handles(exchanges.last().0, exchanges.last().1, after)
            };
        lemma_log_follows(before, shorter, middle, log);
        let earlier = shorter.map_values(|exchange: (T::Request, T::Response)| exchange.0);
        assert(requests =~= earlier.push(exchanges.last().0));
        assert(log(before) + requests =~= (log(before) + earlier).push(exchanges.last().0));
    }
}

} // verus!
