use jsonrpc_core::{Params, Value};
use kulupu::mine::SubscriptionId;
use kulupu::mine_params::{notification, Board, Publisher, Reception};
use kulupu::raw_seal::{raw_seal, seal_message};
use kulupu::web_server::{
    listen_address, new_web_server, CallAction, MinerCall, MINE_PARAMS, PUB_RAW_SEAL,
    RAWSEAL_METHOD, SUB_GET_MINE_PARAMS,
};

fn received(text: &str) -> Reception {
    Reception::Received(text.to_string())
}

fn array(values: Vec<Value>) -> Params {
    Params::Array(values)
}

#[test]
fn addresses_are_local() {
    assert_eq!(listen_address(0), "127.0.0.1:0");
    assert_eq!(listen_address(9955), "127.0.0.1:9955");
    assert_eq!(listen_address(10080), "127.0.0.1:10080");
    assert_eq!(listen_address(65535), "127.0.0.1:65535");
}

#[test]
fn web_server_methods() {
    let server = new_web_server(9955);
    assert_eq!(server.address, "127.0.0.1:9955");
    assert_eq!(MINE_PARAMS, "mine_params");
    assert_eq!(SUB_GET_MINE_PARAMS, "sub_get_mine_params");
    assert_eq!(RAWSEAL_METHOD, "raw_seal");
    assert_eq!(PUB_RAW_SEAL, "pub_raw_seal");
    assert_eq!(server.params.notification, MINE_PARAMS);
    assert_eq!(server.params.subscribe, SUB_GET_MINE_PARAMS);
    assert_eq!(server.params.unsubscribe, "unsub_params");
    assert!(server.params.unsubscribe_reply);
    assert_eq!(server.params_subscription, 1);
    assert_eq!(server.receive_timeout_secs, 1000);
    assert_eq!(server.seals.notification, RAWSEAL_METHOD);
    assert_eq!(server.seals.subscribe, PUB_RAW_SEAL);
    assert_eq!(server.seals.unsubscribe, "unsub_seal");
    assert!(server.seals.unsubscribe_reply);
}

#[test]
fn new_params_are_notified_once() {
    let mut board = Board::new();
    let mut publisher = Publisher::new();
    assert!(publisher.turn(&mut board, Reception::Busy).is_none());
    assert!(publisher.turn(&mut board, Reception::Nothing).is_none());
    let object = publisher.turn(&mut board, received("{\"height\": 7}")).unwrap();
    assert_eq!(object.len(), 1);
    assert_eq!(object.get("height"), Some(&Value::from(7)));
    assert!(publisher.turn(&mut board, Reception::Nothing).is_none());
    assert!(publisher.turn(&mut board, received("{\"height\": 7}")).is_none());
    let object = publisher.turn(&mut board, received("{\"height\":7}")).unwrap();
    assert_eq!(object.get("height"), Some(&Value::from(7)));
}

#[test]
fn params_that_are_no_object_are_skipped() {
    let mut board = Board::new();
    let mut publisher = Publisher::new();
    for text in ["", "[1]", "7", "null", "{", "{\"a\": 1} x", "nonsense"] {
        assert!(publisher.turn(&mut board, received(text)).is_none());
        assert!(publisher.turn(&mut board, Reception::Nothing).is_none());
    }
    assert_eq!(publisher.turn(&mut board, received("{}")).unwrap().len(), 0);
}

#[test]
fn subscribers_share_the_board() {
    let mut board = Board::new();
    let mut first = Publisher::new();
    let mut second = Publisher::new();
    assert!(first.turn(&mut board, received("{\"a\": 1}")).is_some());
    assert!(second.turn(&mut board, Reception::Busy).is_some());
    assert!(second.turn(&mut board, Reception::Busy).is_none());
    assert!(second.turn(&mut board, received("{\"a\": 2}")).is_some());
    assert!(second.turn(&mut board, received("{\"a\": 3}")).is_some());
    let late = first.turn(&mut board, Reception::Nothing).unwrap();
    assert_eq!(late.get("a"), Some(&Value::from(3)));
}

#[test]
fn change_is_taken_down() {
    let mut board = Board::new();
    let mut publisher = Publisher::new();
    assert_eq!(publisher.take_change(&board), None);
    board.post(received("one"));
    board.post(received("two"));
    board.post(Reception::Nothing);
    assert_eq!(publisher.take_change(&board), Some("two".to_string()));
    assert_eq!(publisher.take_change(&board), None);
    board.post(received(""));
    assert_eq!(publisher.take_change(&board), Some(String::new()));
}

#[test]
fn notification_of_parsed_params() {
    assert_eq!(notification::<u8, &str>(Ok(5)), Some(5));
    assert_eq!(notification::<u8, &str>(Err("no")), None);
}

#[test]
fn seal_is_handed_on_in_hexadecimal() {
    let values = vec![Value::from(0), Value::from(15), Value::from(171), Value::from(255)];
    assert_eq!(raw_seal(array(values)), Some("000fabff".to_string()));
    assert_eq!(raw_seal(array(vec![])), Some(String::new()));
}

#[test]
fn what_is_no_seal_is_handed_on_as_zero() {
    let zero = Some("00".to_string());
    assert_eq!(raw_seal(Params::None), zero);
    assert_eq!(raw_seal(Params::Map(serde_json::Map::new())), zero);
    assert_eq!(raw_seal(array(vec![Value::from(1), Value::from(256)])), zero);
    assert_eq!(raw_seal(array(vec![Value::from(-1)])), zero);
    assert_eq!(raw_seal(array(vec![Value::from(1.0)])), zero);
    assert_eq!(raw_seal(array(vec![Value::from("01")])), zero);
    assert_eq!(raw_seal(array(vec![Value::Null])), zero);
    assert_eq!(raw_seal(array(vec![Value::Array(vec![Value::from(1)])])), zero);
}

#[test]
fn message_of_parsed_seal() {
    assert_eq!(seal_message::<()>(Ok(vec![1, 2, 3, 15, 16])), "0102030f10");
    assert_eq!(seal_message(Err("no seal")), "00");
}

#[test]
fn unsubscribing_is_only_answered() {
    let server = new_web_server(9955);
    for number in [0, 1, 7] {
        let action = server.on_call(MinerCall::UnsubscribeParams(SubscriptionId::Number(number)));
        assert!(matches!(action, CallAction::Reply(true)));
        let id = SubscriptionId::Text(format!("never assigned {}", number));
        assert!(matches!(server.on_call(MinerCall::UnsubscribeSeal(id)), CallAction::Reply(true)));
    }
}

#[test]
fn calls_publish_and_send() {
    let server = new_web_server(9955);
    assert!(matches!(server.on_call(MinerCall::SubscribeParams), CallAction::Publish(1)));
    match server.on_call(MinerCall::RawSeal(array(vec![Value::from(171)]))) {
        CallAction::SendSeal(message) => assert_eq!(message, "ab"),
        other => panic!("{:?}", other),
    }
    match server.on_call(MinerCall::RawSeal(Params::None)) {
        CallAction::SendSeal(message) => assert_eq!(message, "00"),
        other => panic!("{:?}", other),
    }
}

#[test]
fn silence_notifies_nothing() {
    let mut board = Board::new();
    let mut publisher = Publisher::new();
    for _ in 0..5 {
        assert!(publisher.turn(&mut board, Reception::Nothing).is_none());
        assert!(publisher.turn(&mut board, Reception::Busy).is_none());
    }
}

#[test]
fn objects_of_a_run_are_notified_in_order() {
    let mut board = Board::new();
    let mut publisher = Publisher::new();
    let mut notified = Vec::new();
    for text in ["{\"a\": 1}", "{\"a\": 1}", "[]", "{\"a\": 1}", "{\"a\": 2}"] {
        if let Some(object) = publisher.turn(&mut board, received(text)) {
            notified.push(object.get("a").cloned());
        }
    }
    let expected = vec![Some(Value::from(1)), Some(Value::from(1)), Some(Value::from(2))];
    assert_eq!(notified, expected);
}

#[test]
fn run_of_seals_is_sent_in_order() {
    let server = new_web_server(9955);
    let requests = vec![
        array(vec![Value::from(1), Value::from(35)]),
        Params::None,
        array(vec![]),
        array(vec![Value::from(255)]),
        array(vec![Value::from(300)]),
    ];
    let mut sent = Vec::new();
    for params in requests {
        match server.on_call(MinerCall::RawSeal(params)) {
            CallAction::SendSeal(message) => sent.push(message),
            other => panic!("{:?}", other),
        }
    }
    assert_eq!(sent, ["0123", "00", "", "ff", "00"]);
    assert_eq!(hex::decode(&sent[0]), Ok(vec![1, 35]));
    assert_eq!(hex::decode(&sent[3]), Ok(vec![255]));
}

#[test]
fn late_subscriber_is_notified_once() {
    let mut board = Board::new();
    board.post(received("{\"a\": 1}"));
    let mut publisher = Publisher::new();
    let object = publisher.turn(&mut board, Reception::Nothing).unwrap();
    assert_eq!(object.get("a"), Some(&Value::from(1)));
    for _ in 0..3 {
        assert!(publisher.turn(&mut board, Reception::Nothing).is_none());
    }
}
