use newmq::message::PubSubMessage;

#[test]
fn vec_to_message() {
    let s = String::from("s: &str");
    let mut msg = vec![s.len() as u8];
    msg.extend(s.as_bytes().to_owned());
    if let Some((len, datas)) = msg.split_first() {
        let utf8str = String::from_utf8(datas.to_owned());
        println!("len({:?})= {}", utf8str, len);
    }
}

#[test]
fn messages_compare_by_what_they_hold() {
    let a = PubSubMessage::PUBLISH { channel: "room1".to_owned(), msg: b"hi".to_vec() };
    let b = PubSubMessage::PUBLISH { channel: "room1".to_owned(), msg: b"hi".to_vec() };
    let c = PubSubMessage::PUBLISH { channel: "room1".to_owned(), msg: b"ho".to_vec() };
    assert_eq!(a, b);
    assert_ne!(a, c);
    assert_ne!(
        PubSubMessage::SUBSCRIBE { channel: "room1".to_owned() },
        PubSubMessage::UNSUBSCRIBE { channel: "room1".to_owned() }
    );
    assert_eq!(PubSubMessage::OK {}, PubSubMessage::OK {});
    assert_ne!(PubSubMessage::OK {}, PubSubMessage::ERROR { msg: String::new() });
}
