//! One entity, served by hand: no queue and no runtime.

use std::sync::{Arc, Mutex};

use entity_actor::{accepted, answered, Entity, Error, RequestHandler, RequestWrapper, Served};
use tokio::sync::mpsc::error::SendError;
use tokio::sync::oneshot::error::TryRecvError;

/// Adds up what it is handed and answers with the sum so far.
struct Sum {
    total: i64,
    seen: Arc<Mutex<Vec<i64>>>,
}

impl RequestHandler for Sum {
    type Request = i64;
    type Response = i64;

    fn handle_request(&mut self, request: i64) -> i64 {
        self.total += request;
        self.seen.lock().unwrap().push(request);
        self.total
    }
}

fn sum() -> (Entity<Sum>, Arc<Mutex<Vec<i64>>>) {
    let seen = Arc::new(Mutex::new(Vec::new()));
    (Entity::new(Sum { total: 0, seen: seen.clone() }), seen)
}

#[test]
fn a_new_entity_has_not_called_its_handler() {
    let (_entity, seen) = sum();
    assert!(seen.lock().unwrap().is_empty());
}

#[test]
fn with_response_wraps_the_request_itself() {
    let (wrapped, _receiver) = RequestWrapper::<i64, i64>::with_response(-17);
    match wrapped {
        RequestWrapper::WithResponse(request, _) => assert_eq!(request, -17),
        RequestWrapper::NoResponse(_) => panic!("no reply slot"),
    }
}

#[test]
fn the_reply_slot_is_empty_until_the_request_is_served() {
    let (wrapped, mut receiver) = RequestWrapper::<i64, i64>::with_response(4);
    assert_eq!(receiver.try_recv(), Err(TryRecvError::Empty));
    let (mut entity, _seen) = sum();
    assert_eq!(entity.serve(wrapped), Served::Delivered);
    assert_eq!(receiver.try_recv(), Ok(4));
}

#[test]
fn serve_leaves_the_response_in_the_reply_slot() {
    let (mut entity, seen) = sum();
    let (first, first_reply) = RequestWrapper::with_response(5);
    let (second, second_reply) = RequestWrapper::with_response(7);
    assert_eq!(entity.serve(first), Served::Delivered);
    assert_eq!(entity.serve(second), Served::Delivered);
    assert_eq!(answered(second_reply.blocking_recv()), Ok(12));
    assert_eq!(answered(first_reply.blocking_recv()), Ok(5));
    assert_eq!(*seen.lock().unwrap(), vec![5, 7]);
}

#[test]
fn serve_handles_a_request_without_response_once() {
    let (mut entity, seen) = sum();
    assert_eq!(entity.serve(RequestWrapper::NoResponse(3)), Served::Discarded);
    assert_eq!(*seen.lock().unwrap(), vec![3]);
    let (wrapped, reply) = RequestWrapper::with_response(10);
    assert_eq!(entity.serve(wrapped), Served::Delivered);
    assert_eq!(reply.blocking_recv(), Ok(13));
    assert_eq!(*seen.lock().unwrap(), vec![3, 10]);
}

#[test]
fn serve_hands_back_a_response_that_nobody_waits_for() {
    let (mut entity, seen) = sum();
    let (wrapped, reply) = RequestWrapper::with_response(8);
    drop(reply);
    assert_eq!(entity.serve(wrapped), Served::Undelivered(8));
    assert_eq!(*seen.lock().unwrap(), vec![8]);
    let (wrapped, reply) = RequestWrapper::with_response(-3);
    assert_eq!(entity.serve(wrapped), Served::Delivered);
    assert_eq!(answered(reply.blocking_recv()), Ok(5));
}

#[test]
fn a_request_that_was_never_served_is_a_response_failure() {
    let (wrapped, reply) = RequestWrapper::<i64, i64>::with_response(1);
    drop(wrapped);
    assert_eq!(answered(reply.blocking_recv()), Err(Error::ResponseFailure));
}

#[test]
fn a_send_that_failed_is_a_request_failure() {
    assert_eq!(accepted::<i64>(Ok(())), Ok(()));
    assert_eq!(accepted(Err(SendError(9i64))), Err(Error::RequestFailure));
}

#[test]
fn a_reply_slot_keeps_a_response_or_gives_it_back() {
    assert_eq!(Served::<i64>::from_delivery(Ok(())), Served::Delivered);
    assert_eq!(Served::from_delivery(Err(-2i64)), Served::Undelivered(-2));
}

#[test]
fn a_reply_that_arrived_is_the_answer() {
    assert_eq!(answered(Ok("pong")), Ok("pong"));
    assert_eq!(answered(Ok(0u8)), Ok(0u8));
}

#[test]
fn errors_describe_themselves() {
    assert_eq!(Error::RequestFailure.message(), "Problem peforming the request.");
    assert_eq!(Error::ResponseFailure.message(), "Failed to complete the response.");
    assert_ne!(Error::RequestFailure, Error::ResponseFailure);
}
