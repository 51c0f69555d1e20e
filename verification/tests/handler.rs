use mio::channel::{sync_channel, Receiver};
use newmq::message::PubSubMessage;
use newmq::server::{ClientHandle, Delivery, DeliveryStatus, Server};
use std::fmt::Debug;
use ws::util::Token;
use ws::Sender;

fn waiting<T: Debug>(queue: &Receiver<T>) -> Vec<String> {
    let mut seen = Vec::new();
    while let Ok(command) = queue.try_recv() {
        seen.push(format!("{:?}", command));
    }
    seen
}

fn error(reason: &str) -> Option<PubSubMessage> {
    Some(PubSubMessage::ERROR { msg: reason.to_owned() })
}

#[test]
fn handle_reports_the_token_of_its_sender() {
    let (tx, _rx) = sync_channel(8);
    assert_eq!(ClientHandle { client: Sender::new(Token(17), tx.clone(), 3) }.token(), 17);
    assert_eq!(ClientHandle { client: Sender::new(Token(0), tx, 3) }.token(), 0);
}

#[test]
fn decoded_command_is_passed_through() {
    let (tx, _rx) = sync_channel(8);
    let handle = ClientHandle { client: Sender::new(Token(1), tx, 0) };
    let command = PubSubMessage::PUBLISH { channel: "c".to_owned(), msg: vec![1, 2, 3] };
    assert_eq!(
        handle.parse_message(Ok(command)),
        PubSubMessage::PUBLISH { channel: "c".to_owned(), msg: vec![1, 2, 3] }
    );
    assert_eq!(handle.parse_message(Ok(PubSubMessage::OK {})), PubSubMessage::OK {});
}

#[test]
fn undecodable_input_becomes_an_error_report() {
    let (tx, _rx) = sync_channel(8);
    let handle = ClientHandle { client: Sender::new(Token(1), tx, 0) };
    let failure = serde_json::from_slice::<u32>(b"not json").unwrap_err();
    assert_eq!(
        handle.parse_message(Err(failure)),
        PubSubMessage::ERROR { msg: "serde error".to_owned() }
    );
}

#[test]
fn open_and_close_register_and_unregister() {
    let (tx, _rx) = sync_channel(8);
    let handle = ClientHandle { client: Sender::new(Token(6), tx, 0) };
    let mut server = Server::new();
    handle.on_open(&mut server);
    assert_eq!(server.lookup(6), Some(&handle.client));
    let _ = handle.on_message(&mut server, PubSubMessage::SUBSCRIBE { channel: "X".to_owned() });
    assert_eq!(server.subscribers_of(&"X".to_owned()), vec![6]);
    handle.on_close(&mut server);
    assert!(server.lookup(6).is_none());
    assert_eq!(server.subscribers_of(&"X".to_owned()), Vec::<usize>::new());
}

#[test]
fn close_before_open_is_harmless() {
    let (tx, _rx) = sync_channel(8);
    let handle = ClientHandle { client: Sender::new(Token(6), tx, 0) };
    let mut server = Server::new();
    assert_eq!(server.sub_client(7, "X".to_owned()), Ok(()));
    handle.on_close(&mut server);
    assert!(server.lookup(6).is_none());
    assert_eq!(server.subscribers_of(&"X".to_owned()), vec![7]);
}

#[test]
fn subscribe_is_acknowledged_then_refused() {
    let (tx, rx) = sync_channel(8);
    let handle = ClientHandle { client: Sender::new(Token(6), tx, 0) };
    let mut server = Server::new();
    handle.on_open(&mut server);

    let first =
        handle.on_message(&mut server, PubSubMessage::SUBSCRIBE { channel: "X".to_owned() });
    assert_eq!(first.reply, Some(PubSubMessage::OK {}));
    assert_eq!(first.deliveries, vec![]);

    let second =
        handle.on_message(&mut server, PubSubMessage::SUBSCRIBE { channel: "X".to_owned() });
    assert_eq!(second.reply, error("The client was already subscribed to this channel."));
    assert_eq!(second.deliveries, vec![]);
    assert_eq!(server.subscribers_of(&"X".to_owned()), vec![6]);
    assert_eq!(waiting(&rx), Vec::<String>::new());
}

#[test]
fn unsubscribe_is_acknowledged_then_refused() {
    let (tx, _rx) = sync_channel(8);
    let handle = ClientHandle { client: Sender::new(Token(6), tx, 0) };
    let mut server = Server::new();
    handle.on_open(&mut server);
    let _ = handle.on_message(&mut server, PubSubMessage::SUBSCRIBE { channel: "X".to_owned() });

    let first =
        handle.on_message(&mut server, PubSubMessage::UNSUBSCRIBE { channel: "X".to_owned() });
    assert_eq!(first.reply, Some(PubSubMessage::OK {}));
    assert_eq!(first.deliveries, vec![]);
    assert_eq!(server.subscribers_of(&"X".to_owned()), Vec::<usize>::new());

    let second =
        handle.on_message(&mut server, PubSubMessage::UNSUBSCRIBE { channel: "X".to_owned() });
    assert_eq!(second.reply, error("The client was never subscribed to this channel."));
    let third =
        handle.on_message(&mut server, PubSubMessage::UNSUBSCRIBE { channel: "Y".to_owned() });
    assert_eq!(third.reply, error("The client was never subscribed to this channel."));
}

#[test]
fn publish_is_acknowledged_and_fanned_out() {
    let (tx_a, rx_a) = sync_channel(8);
    let (tx_b, rx_b) = sync_channel(8);
    let a = ClientHandle { client: Sender::new(Token(1), tx_a, 0) };
    let b = ClientHandle { client: Sender::new(Token(2), tx_b, 0) };
    let mut server = Server::new();
    a.on_open(&mut server);
    b.on_open(&mut server);
    let _ = b.on_message(&mut server, PubSubMessage::SUBSCRIBE { channel: "X".to_owned() });

    let reaction = a.on_message(
        &mut server,
        PubSubMessage::PUBLISH { channel: "X".to_owned(), msg: b"hello".to_vec() },
    );

    assert_eq!(reaction.reply, Some(PubSubMessage::OK {}));
    assert_eq!(reaction.deliveries, vec![Delivery { to: 2, status: DeliveryStatus::Delivered }]);
    assert_eq!(waiting(&rx_a), Vec::<String>::new());
    assert_eq!(
        waiting(&rx_b),
        vec![
            "Command { token: Token(2), signal: Message(Binary([104, 101, 108, 108, 111])), \
             connection_id: 0 }"
                .to_owned()
        ]
    );
}

#[test]
fn publisher_that_subscribed_hears_itself() {
    let (tx_a, rx_a) = sync_channel(8);
    let a = ClientHandle { client: Sender::new(Token(1), tx_a, 0) };
    let mut server = Server::new();
    a.on_open(&mut server);
    let _ = a.on_message(&mut server, PubSubMessage::SUBSCRIBE { channel: "X".to_owned() });
    let reaction =
        a.on_message(&mut server, PubSubMessage::PUBLISH { channel: "X".to_owned(), msg: vec![7] });
    assert_eq!(reaction.reply, Some(PubSubMessage::OK {}));
    assert_eq!(reaction.deliveries, vec![Delivery { to: 1, status: DeliveryStatus::Delivered }]);
    assert_eq!(
        waiting(&rx_a),
        vec!["Command { token: Token(1), signal: Message(Binary([7])), connection_id: 0 }"
            .to_owned()]
    );
}

#[test]
fn publish_to_nobody_is_acknowledged() {
    let (tx_a, rx_a) = sync_channel(8);
    let a = ClientHandle { client: Sender::new(Token(1), tx_a, 0) };
    let mut server = Server::new();
    a.on_open(&mut server);
    let reaction = a.on_message(
        &mut server,
        PubSubMessage::PUBLISH { channel: "empty".to_owned(), msg: b"x".to_vec() },
    );
    assert_eq!(reaction.reply, Some(PubSubMessage::OK {}));
    assert_eq!(reaction.deliveries, vec![]);
    assert_eq!(waiting(&rx_a), Vec::<String>::new());
}

#[test]
fn acknowledgement_is_ignored() {
    let (tx, rx) = sync_channel(8);
    let handle = ClientHandle { client: Sender::new(Token(6), tx, 0) };
    let mut server = Server::new();
    handle.on_open(&mut server);
    let reaction = handle.on_message(&mut server, PubSubMessage::OK {});
    assert_eq!(reaction.reply, None);
    assert_eq!(reaction.deliveries, vec![]);
    assert_eq!(server.lookup(6), Some(&handle.client));
    assert_eq!(waiting(&rx), Vec::<String>::new());
}

#[test]
fn error_report_is_handed_back() {
    let (tx, rx) = sync_channel(8);
    let handle = ClientHandle { client: Sender::new(Token(6), tx, 0) };
    let mut server = Server::new();
    handle.on_open(&mut server);
    let failure = serde_json::from_slice::<u32>(b"{").unwrap_err();
    let command = handle.parse_message(Err(failure));
    let reaction = handle.on_message(&mut server, command);
    assert_eq!(reaction.reply, error("serde error"));
    assert_eq!(reaction.deliveries, vec![]);
    assert_eq!(waiting(&rx), Vec::<String>::new());
}
