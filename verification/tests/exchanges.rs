use coap_client::address::{IpAddress, SocketAddress};
use coap_client::client::Client;
use coap_client::endpoint::Endpoint;
use coap_client::error::Error;
use coap_client::exchange::{Action, Event, Exchange, DEFAULT_TIMEOUT_MS};
use coap_client::message::{Code, Message};
use coap_client::options::{CoapOption, Options};

fn remote() -> SocketAddress {
    SocketAddress::new(IpAddress::V4(192, 0, 2, 1), 5683)
}

fn response(code: Code, payload: &[u8]) -> Message {
    Message { code, options: Options::new(), payload: payload.to_vec() }
}

fn run(start: Exchange, events: Vec<Event>) -> Exchange {
    let mut state = start;
    for event in events {
        state = state.step(event);
    }
    state
}

fn listening() -> Exchange {
    let state = run(
        Exchange::new(remote(), Message::new(), 5000),
        vec![Event::DatagramSent, Event::TimerStarted],
    );
    assert_eq!(state, Exchange::Listening);
    state
}

#[test]
fn content_response_in_time_is_the_result() {
    let reply = response(Code::Content, b"22.5");
    let state = run(
        Exchange::new(remote(), Message::new(), 5000),
        vec![Event::DatagramSent, Event::TimerStarted, Event::Received(reply.clone())],
    );
    assert_eq!(state, Exchange::Matched(reply.clone()));
    assert!(state.is_terminal());
    assert_eq!(state.action(), Action::Finish);
    assert_eq!(state.into_outcome(), Some(Ok(reply)));
}

#[test]
fn no_response_before_the_deadline_times_out() {
    let state = run(
        Exchange::new(remote(), Message::new(), 5000),
        vec![Event::DatagramSent, Event::TimerStarted, Event::DeadlineElapsed],
    );
    assert_eq!(state, Exchange::TimedOut);
    assert_eq!(state.action(), Action::Finish);
    assert_eq!(state.into_outcome(), Some(Err(Error::Timeout)));
}

#[test]
fn other_response_is_discarded_before_content() {
    let first = response(Code::Changed, b"no");
    let second = response(Code::Content, b"yes");
    let state = run(listening(), vec![Event::Received(first), Event::Received(second.clone())]);
    assert_eq!(state.into_outcome(), Some(Ok(second)));
}

#[test]
fn only_the_first_content_response_counts() {
    let first = response(Code::Content, b"1");
    let second = response(Code::Content, b"2");
    let state = run(
        listening(),
        vec![
            Event::Undecodable,
            Event::Received(response(Code::Other(4, 4), b"")),
            Event::Received(first.clone()),
            Event::Received(second),
            Event::DeadlineElapsed,
            Event::TransportFailed,
        ],
    );
    assert_eq!(state, Exchange::Matched(first));
}

#[test]
fn undecodable_datagrams_are_tolerated() {
    let state = run(listening(), vec![Event::Undecodable, Event::Undecodable]);
    assert_eq!(state, Exchange::Listening);
    assert_eq!(state.action(), Action::Receive);
    assert!(!state.is_terminal());
    assert_eq!(state.into_outcome(), None);
    let state = run(listening(), vec![Event::Undecodable, Event::DeadlineElapsed]);
    assert_eq!(state, Exchange::TimedOut);
}

#[test]
fn response_after_the_deadline_is_ignored() {
    let state = run(
        listening(),
        vec![Event::DeadlineElapsed, Event::Received(response(Code::Content, b"late"))],
    );
    assert_eq!(state, Exchange::TimedOut);
}

#[test]
fn states_follow_in_order() {
    let request = Message::new();
    let idle = Exchange::new(remote(), request.clone(), 1234);
    assert_eq!(idle, Exchange::Idle { address: remote(), message: request.clone(), timeout_ms: 1234 });
    assert_eq!(idle.action(), Action::Send { address: remote(), message: &request });
    let sent = idle.step(Event::DatagramSent);
    assert_eq!(sent, Exchange::Sent { timeout_ms: 1234 });
    assert_eq!(sent.action(), Action::StartTimer { timeout_ms: 1234 });
    let listening = sent.step(Event::TimerStarted);
    assert_eq!(listening, Exchange::Listening);
    assert_eq!(listening.action(), Action::Receive);
}

#[test]
fn events_that_are_not_awaited_change_nothing() {
    let request = Message::new();
    let idle = Exchange::new(remote(), request.clone(), 5000);
    let state = run(
        idle.clone(),
        vec![
            Event::TimerStarted,
            Event::Received(response(Code::Content, b"")),
            Event::DeadlineElapsed,
            Event::Undecodable,
            Event::Addresses(vec![remote()]),
            Event::LookupFailed,
        ],
    );
    assert_eq!(state, idle);
    let sent = Exchange::Sent { timeout_ms: 5000 };
    let state = run(
        sent.clone(),
        vec![Event::DatagramSent, Event::DeadlineElapsed, Event::EncodeFailed, Event::Undecodable],
    );
    assert_eq!(state, sent);
    assert_eq!(run(listening(), vec![Event::DatagramSent, Event::TimerStarted, Event::EncodeFailed]), Exchange::Listening);
}

#[test]
fn failures_end_the_exchange() {
    let idle = || Exchange::new(remote(), Message::new(), 5000);
    assert_eq!(idle().step(Event::TransportFailed), Exchange::Failed(Error::Io));
    assert_eq!(idle().step(Event::EncodeFailed), Exchange::Failed(Error::Decode));
    assert_eq!(Exchange::Sent { timeout_ms: 1 }.step(Event::TransportFailed), Exchange::Failed(Error::Io));
    assert_eq!(listening().step(Event::TransportFailed), Exchange::Failed(Error::Io));
    let failed = Exchange::Failed(Error::Io);
    assert!(failed.is_terminal());
    assert_eq!(failed.clone().step(Event::DatagramSent), failed);
    assert_eq!(failed.clone().step(Event::TransportFailed), failed);
    assert_eq!(failed.into_outcome(), Some(Err(Error::Io)));
    assert_eq!(Exchange::TimedOut.step(Event::TransportFailed), Exchange::TimedOut);
}

#[test]
fn lookup_chooses_the_first_address() {
    let request = Message::new();
    let resolving = || Exchange::Resolving {
        host: "example.com".to_string(),
        port: 5683,
        message: Message::new(),
        timeout_ms: 5000,
    };
    assert_eq!(resolving().action(), Action::Resolve { host: "example.com", port: 5683 });
    let other = SocketAddress::new(IpAddress::V6(0x2001, 0xdb8, 0, 0, 0, 0, 0, 1), 5683);
    assert_eq!(
        resolving().step(Event::Addresses(vec![remote(), other])),
        Exchange::Idle { address: remote(), message: request.clone(), timeout_ms: 5000 }
    );
    assert_eq!(
        resolving().step(Event::Addresses(vec![other, remote()])),
        Exchange::Idle { address: other, message: request, timeout_ms: 5000 }
    );
    assert_eq!(resolving().step(Event::Addresses(vec![])), Exchange::Failed(Error::ResolutionError));
    assert_eq!(resolving().step(Event::LookupFailed), Exchange::Failed(Error::ResolutionError));
    assert_eq!(resolving().step(Event::TransportFailed), Exchange::Failed(Error::Io));
    assert_eq!(resolving().step(Event::DatagramSent), resolving());
}

#[test]
fn sending_begins_the_exchange() {
    assert_eq!(DEFAULT_TIMEOUT_MS, 5000);
    let state = Client::new().send();
    assert_eq!(state, Exchange::Failed(Error::EndpointNotSet));
    assert_eq!(state.into_outcome(), Some(Err(Error::EndpointNotSet)));

    let client = Client::get("coap://192.0.2.1/a").unwrap();
    let request = client.message().clone();
    assert_eq!(request.code, Code::Get);
    assert_eq!(request.options.as_slice().to_vec(), vec![CoapOption::UriPath("a".to_string())]);
    assert_eq!(
        client.send(),
        Exchange::Idle { address: remote(), message: request, timeout_ms: 5000 }
    );

    let client = Client::get("coap://example.com/a").unwrap();
    let request = client.message().clone();
    assert_eq!(
        client.send_within(250),
        Exchange::Resolving { host: "example.com".to_string(), port: 5683, message: request, timeout_ms: 250 }
    );
}

#[test]
fn endpoint_can_be_replaced() {
    let mut client = Client::new();
    assert_eq!(client.endpoint(), &Endpoint::Unset);
    assert_eq!(client.message(), &Message::new());
    client.set_endpoint(Endpoint::Resolved(remote()));
    assert_eq!(client.endpoint(), &Endpoint::Resolved(remote()));
    let client = client.with_endpoint(Endpoint::Unresolved("h".to_string(), 9));
    assert_eq!(client.endpoint(), &Endpoint::Unresolved("h".to_string(), 9));
    assert_eq!(client.message(), &Message::new());

    let client = Client::get("coap://example.com/a").unwrap().with_endpoint(Endpoint::Resolved(remote()));
    assert_eq!(client.endpoint(), &Endpoint::Resolved(remote()));
    assert_eq!(client.message().options.len(), 2);
}

#[test]
fn fresh_message_is_an_empty_get() {
    let m = Message::new();
    assert_eq!(m.code, Code::Get);
    assert!(m.options.is_empty());
    assert!(m.payload.is_empty());
    assert!(Code::Content.is_content());
    assert!(!Code::Get.is_content());
    assert!(!Code::Other(2, 5).is_content());
}
