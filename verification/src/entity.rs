//! The entity, the handler it guards, and the requests it is handed.

use tokio::sync::mpsc;
use tokio::sync::oneshot;
use vstd::prelude::*;

verus! {

/// The sending end of tokio's reply slot, `tokio::sync::oneshot::Sender`.
/// Nothing is known of what is inside one.
#[verifier::external_type_specification]
#[verifier::external_body]
#[verifier::reject_recursive_types(T)]
pub struct ExReplySender<T>(oneshot::Sender<T>);

/// The receiving end of tokio's reply slot, `tokio::sync::oneshot::Receiver`.
/// Nothing is known of what is inside one.
#[verifier::external_type_specification]
#[verifier::external_body]
#[verifier::reject_recursive_types(T)]
pub struct ExReplyReceiver<T>(oneshot::Receiver<T>);

/// The sending end of tokio's bounded queue, `tokio::sync::mpsc::Sender`.
/// Nothing is known of what is inside one.
#[verifier::external_type_specification]
#[verifier::external_body]
#[verifier::reject_recursive_types(T)]
pub struct ExQueueSender<T>(mpsc::Sender<T>);

/// The receiving end of tokio's bounded queue, `tokio::sync::mpsc::Receiver`.
/// Nothing is known of what is inside one.
#[verifier::external_type_specification]
#[verifier::external_body]
#[verifier::reject_recursive_types(T)]
pub struct ExQueueReceiver<T>(mpsc::Receiver<T>);

/// `tokio::sync::oneshot::channel` makes the two ends of a fresh reply
/// slot. It takes nothing and does not fail; nothing is claimed of the ends.
pub assume_specification<T>[ tokio::sync::oneshot::channel::<T> ]() -> (ends: (
    oneshot::Sender<T>,
    oneshot::Receiver<T>,
));

/// `tokio::sync::oneshot::Sender::send` uses up the sending end. It either
/// leaves the value in the slot and returns `Ok(())`, or, where the
/// receiving end is gone, returns `Err` with the very value it was given.
/// Which of the two happens depends on the receiver and is not claimed.
pub assume_specification<T>[ tokio::sync::oneshot::Sender::<T>::send ](
    slot: oneshot::Sender<T>,
    t: T,
) -> (sent: Result<(), T>)
    ensures
        sent matches Err(back) ==> back == t,
;

/// `tokio::sync::mpsc::channel` makes the two ends of a queue that holds up
/// to `buffer` messages. It panics on a `buffer` of zero or over its
/// semaphore's limit, an eighth of `usize::MAX`; these are left out.
/// Nothing is claimed of the ends.
pub assume_specification<T>[ tokio::sync::mpsc::channel::<T> ](buffer: usize) -> (ends: (
    mpsc::Sender<T>,
    mpsc::Receiver<T>,
))
    requires
        0 < buffer <= usize::MAX / 8,
;

/// How many requests the queue in front of an entity holds at a time.
pub const QUEUE_CAPACITY: usize = 1;

/// One request on its way to an entity.
#[derive(Debug)]
#[verifier::reject_recursive_types(Resp)]
pub enum RequestWrapper<Req, Resp> {
    /// A request whose response is to be put in the reply slot.
    WithResponse(Req, oneshot::Sender<Resp>),
    /// A request whose response nobody waits for.
    NoResponse(Req),
}

impl<Req, Resp> RequestWrapper<Req, Resp> {
    /// The request inside.
    pub open spec fn request(self) -> Req {
        match self {
            RequestWrapper::WithResponse(request, _) => request,
            RequestWrapper::NoResponse(request) => request,
        }
    }

    /// Wraps `request` with the sending end of a fresh reply slot, and
    /// hands out the receiving end for the caller to await.
    pub fn with_response(request: Req) -> (pair: (Self, oneshot::Receiver<Resp>))
        ensures
            pair.0 is WithResponse,
            pair.0.request() == request,
    {
        let (sender, receiver) = oneshot::channel();
        (RequestWrapper::WithResponse(request, sender), receiver)
    }
}

/// What became of a wrapped request that an entity served.
#[derive(Debug, PartialEq, Eq)]
pub enum Served<Resp> {
    /// Nobody waited for the response: it was dropped.
    Discarded,
    /// The response was left in the reply slot.
    Delivered,
    /// The caller had given up the reply slot: the response comes back.
    Undelivered(Resp),
}

impl<Resp> Served<Resp> {
    /// What became of a response that was handed to a reply slot, by what
    /// the slot made of it: it kept the response, or gave it back.
    pub fn from_delivery(sent: Result<(), Resp>) -> (served: Self)
        ensures
            served == (match sent {
                Ok(_) => Served::Delivered,
                Err(back) => Served::Undelivered(back),
            }),
    {
        match sent {
            Ok(_) => Served::Delivered,
            Err(back) => Served::Undelivered(back),
        }
    }
}

/// The empty queue that stands in front of an entity: it holds
/// `QUEUE_CAPACITY` requests at a time.
pub fn queue<Req, Resp>() -> (ends: (
    mpsc::Sender<RequestWrapper<Req, Resp>>,
    mpsc::Receiver<RequestWrapper<Req, Resp>>,
)) {
    mpsc::channel(QUEUE_CAPACITY)
}

/// The state that an [`Entity`] guards.
///
/// `handles` says what the handler's work amounts to: an implementation
/// chooses the relation, and `handle_request` has to stay inside it. A
/// handler that promises nothing lets it hold everywhere.
pub trait RequestHandler: Sized {
    type Request;

    type Response;

    /// Whether handling `request` in state `self` may give `response` and
    /// leave the handler as `after`.
    open spec fn handles(
        &self,
        request: Self::Request,
        response: Self::Response,
        after: Self,
    ) -> bool {
        true
    }

    /// Handles one request, with the handler to itself for as long as it
    /// takes.
    fn handle_request(&mut self, request: Self::Request) -> (response: Self::Response)
        ensures
            old(self).handles(request, response, *final(self)),
    ;
}

/// Whether a handler that starts as `before` and is handed the requests of
/// `exchanges` one after the other, first to last, may give their responses
/// and end as `after`.
pub open spec fn reaches<T: RequestHandler>(
    before: T,
    exchanges: Seq<(T::Request, T::Response)>,
    after: T,
) -> bool
    decreases exchanges.len(),
{
    if exchanges.len() == 0 {
        after == before
    } else {
        exists|middle: T|
            {
                &&& reaches(before, exchanges.drop_last(), middle)
                &&& #[trigger] middle.handles(exchanges.last().0, exchanges.last().1, after)
            }
    }
}

/// The only owner of a handler, and the record of what it has been asked.
pub struct Entity<T> where T: RequestHandler {
    object: T,
    initial: Ghost<T>,
    history: Ghost<Seq<(T::Request, T::Response)>>,
}

impl<T> Entity<T> where T: RequestHandler {
    /// The handler as it is now.
    pub closed spec fn handler(self) -> T {
        self.object
    }

    /// The handler as it was when the entity was made.
    pub closed spec fn initial(self) -> T {
        self.initial@
    }

    /// Every request served so far with the response it got, oldest first.
    pub closed spec fn history(self) -> Seq<(T::Request, T::Response)> {
        self.history@
    }

    /// The requests served so far, oldest first.
    pub open spec fn requests(self) -> Seq<T::Request> {
        self.history().map_values(|exchange: (T::Request, T::Response)| exchange.0)
    }

    /// The handler is what the initial handler becomes by the exchanges of
    /// the history, in their order and with nothing in between.
    pub open spec fn wf(self) -> bool {
        reaches(self.initial(), self.history(), self.handler())
    }

    /// Whether serving `request` takes an entity from `self` to `after`:
    /// the handler handles it, once, and the exchange is the newest of the
    /// history.
    pub open spec fn serves(self, request: T::Request, after: Self) -> bool {
        &&& after.initial() == self.initial()
        &&& after.history().len() == self.history().len() + 1
        &&& after.history().drop_last() =~= self.history()
        &&& after.history().last().0 == request
        &&& self.handler().handles(request, after.history().last().1, after.handler())
    }

    /// Puts `object` behind an entity that has served nothing yet.
    pub fn new(object: T) -> (entity: Self)
        ensures
            entity.wf(),
            entity.handler() == object,
            entity.initial() == object,
            entity.history() == Seq::<(T::Request, T::Response)>::empty(),
    {
        Entity { object, initial: Ghost(object), history: Ghost(Seq::empty()) }
    }

    /// Serves one wrapped request: hands it to the handler, which nothing
    /// else touches meanwhile, and leaves the response in the reply slot
    /// where there is one. A slot whose caller has gone is no failure of
    /// the entity: the exchange counts all the same, the response comes
    /// back to whoever runs the entity, and the next request is served as
    /// any other.
    pub fn serve(&mut self, wrapped: RequestWrapper<T::Request, T::Response>) -> (served: Served<
        T::Response,
    >)
        requires
            old(self).wf(),
        ensures
            final(self).wf(),
            old(self).serves(wrapped.request(), *final(self)),
            served is Discarded <==> wrapped is NoResponse,
            served matches Served::Undelivered(response) ==> response
                == final(self).history().last().1,
    {
        match wrapped {
            RequestWrapper::WithResponse(request, slot) => {
                let response = self.respond(request);
                Served::from_delivery(slot.send(response))
            },
            RequestWrapper::NoResponse(request) => {
                self.respond(request);
                Served::Discarded
            },
        }
    }

    /// Hands `request` to the handler and writes the exchange down.
    fn respond(&mut self, request: T::Request) -> (response: T::Response)
        requires
            old(self).wf(),
        ensures
            final(self).wf(),
            final(self).initial() == old(self).initial(),
            final(self).history() == old(self).history().push((request, response)),
            old(self).handler().handles(request, response, final(self).handler()),
    {
        let ghost before = self.object;
        let response = self.object.handle_request(request);
        proof {
            lemma_reaches_push(self.initial@, self.history@, before, request, response, self.object);
            self.history@ = self.history@.push((request, response));
        }
        response
    }
}

/// One more exchange after a run of exchanges is a run of exchanges.
proof fn lemma_reaches_push<T: RequestHandler>(
    before: T,
    exchanges: Seq<(T::Request, T::Response)>,
    middle: T,
    request: T::Request,
    response: T::Response,
    after: T,
)
    requires
        reaches(before, exchanges, middle),
        middle.handles(request, response, after),
    ensures
        reaches(before, exchanges.push((request, response)), after),
{
    let longer = exchanges.push((request, response));
    assert(longer.drop_last() =~= exchanges);
    assert(middle.handles(longer.last().0, longer.last().1, after));
}

} // verus!
