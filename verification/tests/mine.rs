use kulupu::mine::{
    difficulty_report, head_message, mine_methods, FeedEvent, HeadFeed, Mine, MineApi, MineError,
    SubscriptionId, Subscriptions,
};

type Sent = Vec<Result<u32, MineError<&'static str>>>;

const BEST: [u8; 32] = [9; 32];

fn feed() -> HeadFeed<u32> {
    let mut mine = Mine::new("client", Subscriptions::new());
    mine.subscribe_new_params(None, 1, BEST)
}

fn send(feed: &mut HeadFeed<u32>, event: FeedEvent<u32, &'static str>) -> Sent {
    feed.on_event(event)
}

#[test]
fn best_hash_where_none_is_given() {
    let mine = Mine::new("client", Subscriptions::new());
    assert_eq!(*mine.client(), "client");
    assert_eq!(mine.unwrap_or_best::<()>(None, BEST), Ok(BEST));
    assert_eq!(mine.unwrap_or_best::<()>(Some([1; 32]), BEST), Ok([1; 32]));
}

#[test]
fn head_then_further_headers() {
    let mut feed = feed();
    assert_eq!(feed.wanted(), Some(BEST));
    assert_eq!(send(&mut feed, FeedEvent::Head(Ok(Some(5)))), vec![Ok(5)]);
    assert_eq!(feed.wanted(), None);
    assert_eq!(send(&mut feed, FeedEvent::Next(6)), vec![Ok(6)]);
    assert_eq!(send(&mut feed, FeedEvent::Next(6)), vec![Ok(6)]);
    assert_eq!(send(&mut feed, FeedEvent::Head(Ok(Some(5)))), vec![]);
    assert_eq!(send(&mut feed, FeedEvent::Ended), vec![]);
    assert_eq!(send(&mut feed, FeedEvent::Next(7)), vec![]);
}

#[test]
fn early_headers_are_sent_behind_the_head() {
    let mut feed = feed();
    assert_eq!(send(&mut feed, FeedEvent::Next(8)), vec![]);
    assert_eq!(send(&mut feed, FeedEvent::Next(9)), vec![]);
    assert_eq!(feed.wanted(), Some(BEST));
    assert_eq!(send(&mut feed, FeedEvent::Head(Ok(Some(5)))), vec![Ok(5), Ok(8), Ok(9)]);
    assert_eq!(send(&mut feed, FeedEvent::Next(10)), vec![Ok(10)]);
}

#[test]
fn early_end_closes_behind_the_head() {
    for failed in [false, true] {
        let mut feed = feed();
        let end = || if failed { FeedEvent::StreamFailed } else { FeedEvent::Ended };
        assert_eq!(send(&mut feed, FeedEvent::Next(8)), vec![]);
        assert_eq!(send(&mut feed, end()), vec![]);
        assert_eq!(send(&mut feed, FeedEvent::Next(9)), vec![]);
        assert_eq!(feed.wanted(), Some(BEST));
        let missing = MineError::Other("Best header missing.".to_string());
        let sent = send(&mut feed, FeedEvent::Head(Ok(None)));
        assert_eq!(sent, vec![Err(missing), Ok(8)]);
        assert_eq!(feed.wanted(), None);
        assert_eq!(send(&mut feed, FeedEvent::Next(10)), vec![]);
    }
}

#[test]
fn missing_head_is_reported() {
    let missing = MineError::Other("Best header missing.".to_string());
    assert_eq!(head_message::<u32, &str>(Ok(None)), Err(missing));
    assert_eq!(head_message::<u32, &str>(Err("down")), Err(MineError::Client("down")));
    assert_eq!(head_message::<u32, &str>(Ok(Some(3))), Ok(3));

    let mut feed = feed();
    let sent = send(&mut feed, FeedEvent::Head(Err("down")));
    assert_eq!(sent, vec![Err(MineError::Client("down"))]);
    assert_eq!(send(&mut feed, FeedEvent::Next(6)), vec![Ok(6)]);
}

#[test]
fn failures_close_a_feed() {
    let mut unsent = feed();
    assert_eq!(send(&mut unsent, FeedEvent::Next(4)), vec![]);
    assert_eq!(send(&mut unsent, FeedEvent::SinkFailed), vec![]);
    assert_eq!(unsent.wanted(), None);
    assert_eq!(send(&mut unsent, FeedEvent::Head(Ok(Some(5)))), vec![]);

    let mut failed = feed();
    send(&mut failed, FeedEvent::Head(Ok(Some(5))));
    assert_eq!(send(&mut failed, FeedEvent::StreamFailed), vec![]);
    assert_eq!(send(&mut failed, FeedEvent::Next(6)), vec![]);

    let mut unreachable_feed = feed();
    send(&mut unreachable_feed, FeedEvent::Head(Ok(Some(5))));
    assert_eq!(send(&mut unreachable_feed, FeedEvent::SinkFailed), vec![]);
    assert_eq!(send(&mut unreachable_feed, FeedEvent::Next(6)), vec![]);
}

#[test]
fn cancelled_subscriber_is_sent_nothing_more() {
    let mut unsent = feed();
    assert_eq!(send(&mut unsent, FeedEvent::Next(4)), vec![]);
    assert_eq!(send(&mut unsent, FeedEvent::Cancelled), vec![]);
    assert_eq!(unsent.wanted(), None);
    assert_eq!(send(&mut unsent, FeedEvent::Head(Ok(Some(5)))), vec![]);
    assert_eq!(send(&mut unsent, FeedEvent::Next(6)), vec![]);

    let mut following = feed();
    assert_eq!(send(&mut following, FeedEvent::Head(Ok(Some(5)))), vec![Ok(5)]);
    assert_eq!(send(&mut following, FeedEvent::Cancelled), vec![]);
    assert_eq!(send(&mut following, FeedEvent::Next(6)), vec![]);
    assert_eq!(send(&mut following, FeedEvent::Cancelled), vec![]);
}

#[test]
fn names_of_the_calls() {
    let methods = mine_methods();
    assert_eq!(methods.notification, "mine_newParams");
    assert_eq!(methods.subscribe, ("mine_SubscribeNewParams", "Subscribe_newParams"));
    assert_eq!(methods.unsubscribe, ("mine_unsubscribeNewParams", "unsubscribe_newParams"));
}

#[test]
fn subscription_is_cancelled_once() {
    let mut subscriptions = Subscriptions::new();
    subscriptions.add(3);
    let mut mine = Mine::new((), subscriptions);
    let _: HeadFeed<u32> = mine.subscribe_new_params(None, 4, BEST);
    let mut cancel = |id| MineApi::<u32>::unsubscribe_new_params(&mut mine, None, id);
    assert_eq!(cancel(SubscriptionId::Number(4)), Ok(true));
    assert_eq!(cancel(SubscriptionId::Number(4)), Ok(false));
    assert_eq!(cancel(SubscriptionId::Text("3".to_string())), Ok(false));
    assert_eq!(cancel(SubscriptionId::Number(3)), Ok(true));
    assert_eq!(cancel(SubscriptionId::Number(3)), Ok(false));
}

#[test]
fn difficulty_failure_in_words() {
    assert_eq!(difficulty_report(Ok(17)), Ok(17));
    assert_eq!(
        difficulty_report::<u8>(Err("Unknown".to_string())),
        Err("Fetching difficulty from runtime failed: Unknown".to_string())
    );
}
