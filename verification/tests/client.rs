use johnbox::client::{Action, Message, Next, Operation, Outcome, SendError};
use johnbox::{Client, ClientType, JBProfile, JBProfileRoles, Token};

fn client(connected: bool, pc: u64) -> Client {
    Client {
        profile: JBProfile {
            id: 7,
            user_id: "u".to_string(),
            role: "player".to_string(),
            name: "Ann".to_string(),
            roles: JBProfileRoles::Player { name: "Ann".to_string() },
        },
        connected,
        pc,
        client_type: ClientType::Ecast,
        secret: Token::from([9; 12]),
    }
}

fn send(operation: Operation, message: Message) -> Action {
    Action::Send { operation, message, limit_secs: 3 }
}

const OPERATIONS: [Operation; 6] = [
    Operation::Ecast,
    Operation::Blobcast,
    Operation::Ping,
    Operation::Pong,
    Operation::Close,
    Operation::Raw,
];

#[test]
fn messages_without_a_number_are_counted() {
    let mut client = client(true, 5);
    assert_eq!(client.number(0), 5);
    assert_eq!(client.number(0), 6);
    assert_eq!(client.number(99), 99);
    assert_eq!(client.number(0), 7);
    assert_eq!(client.pc, 8);
}

#[test]
fn numbers_start_over_after_the_last() {
    let mut client = client(false, u64::MAX);
    assert_eq!(client.number(0), u64::MAX);
    assert_eq!(client.number(0), 0);
    assert_eq!(client.number(0), 1);
}

#[test]
fn ecast_text_goes_out_as_it_is() {
    let action = client(true, 0).send_ecast(Some("{\"pc\":1}".to_string()));
    assert_eq!(action, Ok(send(Operation::Ecast, Message::Text("{\"pc\":1}".to_string()))));
    assert_eq!(client(true, 0).send_ecast(None), Err(SendError::SerializeEcast));
    assert_eq!(client(false, 0).send_ecast(None), Err(SendError::SerializeEcast));
}

#[test]
fn blobcast_text_is_framed() {
    let action = client(true, 0).send_blobcast(Some("{}".to_string()));
    assert_eq!(action, Ok(send(Operation::Blobcast, Message::Text("5:::{}".to_string()))));
    assert_eq!(client(true, 0).send_blobcast(None), Err(SendError::SerializeBlobcast));
}

#[test]
fn signs_of_life_carry_their_data() {
    let ping = send(Operation::Ping, Message::Ping(vec![1, 2]));
    assert_eq!(client(true, 0).ping(vec![1, 2]), ping);
    let pong = send(Operation::Pong, Message::Pong(vec![3]));
    assert_eq!(client(true, 0).pong(vec![3]), pong);
}

#[test]
fn message_goes_out_as_it_is() {
    let action = client(true, 0).send_ws_message(Message::Text("x".to_string()));
    assert_eq!(action, send(Operation::Raw, Message::Text("x".to_string())));
    let action = client(true, 0).send_ws_message(Message::Binary(vec![0, 255]));
    assert_eq!(action, send(Operation::Raw, Message::Binary(vec![0, 255])));
    let action = client(true, 0).send_ws_message(Message::BareClose);
    assert_eq!(action, send(Operation::Raw, Message::BareClose));
}

#[test]
fn close_is_a_normal_close() {
    let close = Message::Close { code: 1000, reason: "normal close".to_string() };
    assert_eq!(client(true, 0).close(), send(Operation::Close, close));
}

#[test]
fn disconnected_client_is_sent_nothing() {
    let mut client = client(true, 0);
    client.disconnect();
    assert!(!client.connected);
    let skip = |operation| Action::Skip { operation };
    assert_eq!(client.send_ecast(Some("x".to_string())), Ok(skip(Operation::Ecast)));
    assert_eq!(client.send_blobcast(Some("x".to_string())), Ok(skip(Operation::Blobcast)));
    assert_eq!(client.ping(vec![]), skip(Operation::Ping));
    assert_eq!(client.pong(vec![]), skip(Operation::Pong));
    assert_eq!(client.close(), skip(Operation::Close));
    let raw = client.send_ws_message(Message::Text("x".to_string()));
    assert_eq!(raw, skip(Operation::Raw));
    for operation in OPERATIONS {
        let next = operation.settle(Outcome::Skipped);
        assert_eq!(next, Next { disconnect: false, report: Ok(()) });
        assert_eq!(client.conclude(next), Ok(()));
        assert!(!client.connected);
    }
}

#[test]
fn sent_message_changes_nothing() {
    for operation in OPERATIONS {
        let mut client = client(true, 3);
        let next = operation.settle(Outcome::Sent);
        assert_eq!(next, Next { disconnect: false, report: Ok(()) });
        assert_eq!(client.conclude(next), Ok(()));
        assert!(client.connected);
        assert_eq!(client.pc, 3);
        assert_eq!(client.secret.0, [9; 12]);
        assert_eq!(client.profile.id, 7);
        assert_eq!(client.client_type, ClientType::Ecast);
    }
}

#[test]
fn slow_socket_is_to_be_given_up_without_an_error() {
    for operation in OPERATIONS {
        let next = operation.settle(Outcome::TimedOut);
        assert_eq!(next, Next { disconnect: true, report: Ok(()) });
    }
}

#[test]
fn failed_socket_is_given_up_unless_it_was_closed() {
    for operation in OPERATIONS {
        let mut client = client(true, 0);
        let kept = operation == Operation::Close || operation == Operation::Raw;
        let next = operation.settle(Outcome::Failed);
        assert_eq!(next, Next { disconnect: !kept, report: Err(SendError::Send(operation)) });
        assert_eq!(client.conclude(next), Err(SendError::Send(operation)));
        assert_eq!(client.connected, kept);
    }
}

#[test]
fn errors_have_words() {
    assert_eq!(SendError::SerializeEcast.message(), "Failed to serialize ecast message");
    assert_eq!(SendError::SerializeBlobcast.message(), "Failed to serialize blobcast message");
    let words = [
        "Ecast message failed to send",
        "Blobcast message failed to send",
        "Failed to ping socket",
        "Failed to pong socket",
        "Failed to close connection",
        "WS Message failed to send",
    ];
    for (operation, message) in OPERATIONS.into_iter().zip(words) {
        assert_eq!(SendError::Send(operation).message(), message);
    }
}
