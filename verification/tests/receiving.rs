use parviocula::{next_receive_step, ReceiveStep, Received, RequestMessage, MAX_BODY_SIZE};

#[test]
fn closed_channel_is_a_disconnect() {
    assert!(matches!(
        next_receive_step(Received::Closed, false),
        ReceiveStep::Reply(RequestMessage::Disconnect)
    ));
}

#[test]
fn dropped_connection_is_a_disconnect() {
    for r in [Received::Closed, Received::Body, Received::Empty] {
        assert!(matches!(
            next_receive_step(r, true),
            ReceiveStep::Reply(RequestMessage::Disconnect)
        ));
    }
}

#[test]
fn waiting_body_is_read() {
    assert!(matches!(next_receive_step(Received::Body, false), ReceiveStep::ReadBody));
}

#[test]
fn item_without_body_is_a_request_without_body() {
    assert!(matches!(
        next_receive_step(Received::Empty, false),
        ReceiveStep::Reply(RequestMessage::Request { body: None })
    ));
}

#[test]
fn request_messages_have_asgi_types() {
    assert_eq!(RequestMessage::Disconnect.message_type(), "http.disconnect");
    assert_eq!(RequestMessage::Request { body: None }.message_type(), "http.request");
    assert_eq!(
        RequestMessage::Request { body: Some(b"hello".to_vec()) }.message_type(),
        "http.request"
    );
}

#[test]
fn body_limit_is_four_mebibytes() {
    assert_eq!(MAX_BODY_SIZE, 4 * 1024 * 1024);
}

#[test]
fn one_request_per_channel_then_disconnects() {
    // The channel of one request holds one body, then is closed.
    let items = [Received::Body];
    let mut requests = 0;
    for i in 0..5 {
        let received = if i < items.len() { items[i] } else { Received::Closed };
        match next_receive_step(received, false) {
            ReceiveStep::Reply(RequestMessage::Disconnect) => assert!(i >= 1),
            _ => {
                assert_eq!(i, 0);
                requests += 1;
            }
        }
    }
    assert_eq!(requests, 1);
}
