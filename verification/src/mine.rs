//! The calls by which mining parameters are subscribed to along with new heads of the chain.
//!
//! The client is asked by the node. What it answers comes in here as plain values, and what comes
//! out is what is to be asked next, or what a subscriber is to be sent.
use std::collections::{HashSet, VecDeque};

use vstd::prelude::*;

verus! {

broadcast use vstd::std_specs::hash::group_hash_axioms;

/// The hash of a block.
pub type Hash = [u8; 32];

/// Why a call fails, where `E` is what the client fails with.
#[derive(Debug, PartialEq, Eq)]
pub enum MineError<E> {
    /// The client has failed.
    Client(E),
    /// Anything else, in words.
    Other(String),
}

/// The id of a subscription.
#[derive(Debug, PartialEq, Eq)]
pub enum SubscriptionId {
    Number(u64),
    Text(String),
}

/// The subscriptions that are active, by their ids.
#[derive(Debug)]
pub struct Subscriptions {
    active: HashSet<u64>,
}

impl View for Subscriptions {
    type V = Set<u64>;

    closed spec fn view(&self) -> Set<u64> {
        self.active@
    }
}

/// Whether `id` is that of one of the subscriptions in `active`. All of these have numbers.
pub open spec fn is_active(active: Set<u64>, id: SubscriptionId) -> bool {
    id matches SubscriptionId::Number(number) && active.contains(number)
}

/// `active` without the subscription `id`.
pub open spec fn without(active: Set<u64>, id: SubscriptionId) -> Set<u64> {
    match id {
        SubscriptionId::Number(number) => active.remove(number),
        SubscriptionId::Text(_) => active,
    }
}

impl Subscriptions {
    /// No subscription yet.
    pub fn new() -> (subscriptions: Self)
        ensures
            subscriptions@ == Set::<u64>::empty(),
    {
        Subscriptions { active: HashSet::new() }
    }

    /// Makes the subscription `id` active.
    pub fn add(&mut self, id: u64)
        ensures
            final(self)@ == old(self)@.insert(id),
    {
        self.active.insert(id);
    }

    /// Ends the subscription `id`, and says whether it was active.
    pub fn cancel(&mut self, id: &SubscriptionId) -> (cancelled: bool)
        ensures
            cancelled == is_active(old(self)@, *id),
            final(self)@ == without(old(self)@, *id),
            match *id {
                SubscriptionId::Number(number) => cancelled == old(self)@.contains(number)
                    && final(self)@ == old(self)@.remove(number),
                SubscriptionId::Text(_) => !cancelled && final(self)@ == old(self)@,
            },
    {
        match id {
            SubscriptionId::Number(number) => self.active.remove(number),
            SubscriptionId::Text(_) => false,
        }
    }
}

/// How far a subscriber has been served.
#[derive(Clone, Copy, Debug)]
enum FeedStage {
    /// The header of this block is looked up, to be sent first.
    Head(Hash),
    /// Further headers are passed on as they come.
    Following,
    /// Nothing is sent any more.
    Closed,
}

/// What happens to a subscription.
#[derive(Debug)]
pub enum FeedEvent<H, E> {
    /// The first header has been looked up.
    Head(Result<Option<H>, E>),
    /// A further header has come.
    Next(H),
    /// The source of further headers has failed.
    StreamFailed,
    /// There are no further headers.
    Ended,
    /// The subscriber cannot be reached.
    SinkFailed,
    /// The subscription has been ended.
    Cancelled,
}

/// What a subscriber is sent.
pub ghost enum MessageModel<H, E> {
    /// A header.
    Header(H),
    /// That the client has failed.
    Client(E),
    /// Anything else that went wrong, in words.
    Other(Seq<char>),
}

/// The model of what a subscriber is sent.
pub open spec fn message_model<H, E>(message: Result<H, MineError<E>>) -> MessageModel<H, E> {
    match message {
        Ok(header) => MessageModel::Header(header),
        Err(MineError::Client(error)) => MessageModel::Client(error),
        Err(MineError::Other(words)) => MessageModel::Other(words@),
    }
}

/// The models of what a subscriber is sent, in order.
pub open spec fn message_models<H, E>(messages: Seq<Result<H, MineError<E>>>) -> Seq<
    MessageModel<H, E>,
> {
    messages.map_values(|message: Result<H, MineError<E>>| message_model(message))
}

/// Messages with these headers.
pub open spec fn header_messages<H, E>(headers: Seq<H>) -> Seq<MessageModel<H, E>> {
    headers.map_values(|header: H| MessageModel::<H, E>::Header(header))
}

/// What is sent for the first header.
pub open spec fn first_message<H, E>(head: Result<Option<H>, E>) -> MessageModel<H, E> {
    match head {
        Ok(Some(header)) => MessageModel::Header(header),
        Ok(None) => MessageModel::Other("Best header missing."@),
        Err(error) => MessageModel::Client(error),
    }
}

/// The model of [`HeadFeed`].
pub ghost enum FeedModel<H> {
    /// The header of the block `hash` is looked up, to be sent first. The headers `waiting` are to be
    /// sent behind it, and, where the source has `ended`, nothing else.
    Head { hash: Hash, waiting: Seq<H>, ended: bool },
    /// Further headers are passed on as they come.
    Following,
    /// Nothing is sent any more.
    Closed,
}

/// A feed that begins with the header of the block `hash`.
pub open spec fn new_feed<H>(hash: Hash) -> FeedModel<H> {
    FeedModel::Head { hash, waiting: Seq::empty(), ended: false }
}

/// What an event makes of a feed. Further headers, and their end, stand behind the first header
/// though they come sooner.
pub open spec fn next_feed<H, E>(feed: FeedModel<H>, event: FeedEvent<H, E>) -> FeedModel<H> {
    match feed {
        FeedModel::Head { hash, waiting, ended } => match event {
            FeedEvent::Head(_) => if ended {
                FeedModel::Closed
            } else {
                FeedModel::Following
            },
            FeedEvent::Next(header) => if ended {
                feed
            } else {
                FeedModel::Head { hash, waiting: waiting.push(header), ended }
            },
            FeedEvent::StreamFailed | FeedEvent::Ended => FeedModel::Head {
                hash,
                waiting,
                ended: true,
            },
            FeedEvent::SinkFailed | FeedEvent::Cancelled => FeedModel::Closed,
        },
        FeedModel::Following => match event {
            FeedEvent::Head(_) | FeedEvent::Next(_) => FeedModel::Following,
            FeedEvent::StreamFailed | FeedEvent::Ended | FeedEvent::SinkFailed
            | FeedEvent::Cancelled => FeedModel::Closed,
        },
        FeedModel::Closed => FeedModel::Closed,
    }
}

/// What a subscriber is sent in an event.
pub open spec fn feed_messages<H, E>(feed: FeedModel<H>, event: FeedEvent<H, E>) -> Seq<
    MessageModel<H, E>,
> {
    match (feed, event) {
        (FeedModel::Head { hash, waiting, ended }, FeedEvent::Head(head)) => seq![
            first_message(head),
        ] + header_messages(waiting),
        (FeedModel::Following, FeedEvent::Next(header)) => seq![MessageModel::Header(header)],
        _ => Seq::empty(),
    }
}

/// What is sent for the first header: the header itself, or why there is none.
pub fn head_message<H, E>(head: Result<Option<H>, E>) -> (message: Result<H, MineError<E>>)
    ensures
        message_model(message) == first_message(head),
        match head {
            Ok(Some(header)) => message == Ok::<H, MineError<E>>(header),
            Ok(None) => message matches Err(MineError::Other(words)) && words@
                == "Best header missing."@,
            Err(error) => message == Err::<H, MineError<E>>(MineError::Client(error)),
        },
{
    match head {
        Ok(Some(header)) => Ok(header),
        Ok(None) => Err(MineError::Other("Best header missing.".to_owned())),
        Err(error) => Err(MineError::Client(error)),
    }
}

/// The headers that one subscriber is sent: first that of the block that was best when the
/// subscription began, then those that come. What comes before the first has been looked up is held
/// back until then.
#[derive(Debug)]
pub struct HeadFeed<H> {
    stage: FeedStage,
    waiting: VecDeque<H>,
    ended: bool,
}

impl<H> View for HeadFeed<H> {
    type V = FeedModel<H>;

    closed spec fn view(&self) -> FeedModel<H> {
        match self.stage {
            FeedStage::Head(hash) => FeedModel::Head {
                hash,
                waiting: self.waiting@,
                ended: self.ended,
            },
            FeedStage::Following => FeedModel::Following,
            FeedStage::Closed => FeedModel::Closed,
        }
    }
}

impl<H> HeadFeed<H> {
    /// A feed that begins with the header of the block `hash`.
    pub fn new(hash: Hash) -> (feed: Self)
        ensures
            feed@ == new_feed::<H>(hash),
    {
        HeadFeed { stage: FeedStage::Head(hash), waiting: VecDeque::new(), ended: false }
    }

    /// The block whose header is to be looked up, until that has been done.
    pub fn wanted(&self) -> (wanted: Option<Hash>)
        ensures
            wanted == match self@ {
                FeedModel::Head { hash, waiting, ended } => Some(hash),
                _ => None,
            },
    {
        match self.stage {
            FeedStage::Head(hash) => Some(hash),
            _ => None,
        }
    }

    /// Sends the first header, and behind it what was held back.
    fn begin<E>(&mut self, head: Result<Option<H>, E>) -> (messages: Vec<Result<H, MineError<E>>>)
        ensures
            message_models(messages@) == seq![first_message(head)] + header_messages(
                old(self).waiting@,
            ),
            final(self).stage == old(self).stage,
            final(self).ended == old(self).ended,
    {
        let mut messages: Vec<Result<H, MineError<E>>> = Vec::new();
        messages.push(head_message(head));
        let ghost all = self.waiting@;
        let ghost mut sent: int = 0;
        assert(message_models(messages@) =~= seq![first_message(head)] + header_messages(
            all.take(0),
        ));
        while self.waiting.len() > 0
            invariant
                0 <= sent <= all.len(),
                self.waiting@ == all.skip(sent),
                all == old(self).waiting@,
                message_models(messages@) == seq![first_message(head)] + header_messages(
                    all.take(sent),
                ),
                self.stage == old(self).stage,
                self.ended == old(self).ended,
            decreases self.waiting@.len(),
        {
            let ghost before = messages@;
            if let Some(header) = self.waiting.pop_front() {
                messages.push(Ok(header));
                proof {
                    assert(all.skip(sent).subrange(1, all.len() - sent) =~= all.skip(sent + 1));
                    assert(header == all[sent]);
                    assert(message_models(messages@) =~= message_models(before).push(
                        MessageModel::Header(header),
                    ));
                    assert(header_messages::<H, E>(all.take(sent + 1)) =~= header_messages::<H, E>(
                        all.take(sent),
                    ).push(MessageModel::Header(header)));
                    sent = sent + 1;
                    assert(message_models(messages@) =~= seq![first_message(head)]
                        + header_messages(all.take(sent)));
                }
            }
        }
        assert(all.take(sent) =~= all);
        messages
    }

    /// Takes an event, and returns what the subscriber is to be sent, in order.
    pub fn on_event<E>(&mut self, event: FeedEvent<H, E>) -> (messages: Vec<
        Result<H, MineError<E>>,
    >)
        ensures
            final(self)@ == next_feed(old(self)@, event),
            message_models(messages@) == feed_messages(old(self)@, event),
            match (old(self)@, event) {
                (FeedModel::Head { hash, waiting, ended }, FeedEvent::Head(head)) => {
                    &&& messages@.len() == 1 + waiting.len()
                    &&& match head {
                        Ok(Some(header)) => messages@[0] == Ok::<H, MineError<E>>(header),
                        Ok(None) => messages@[0] matches Err(MineError::Other(words)) && words@
                            == "Best header missing."@,
                        Err(error) => messages@[0] == Err::<H, MineError<E>>(
                            MineError::Client(error),
                        ),
                    }
                    &&& forall|i: int|
                        #![trigger waiting[i]]
                        0 <= i < waiting.len() ==> messages@[1 + i] == Ok::<H, MineError<E>>(
                            waiting[i],
                        )
                },
                (FeedModel::Following, FeedEvent::Next(header)) => messages@.len() == 1
                    && messages@[0] == Ok::<H, MineError<E>>(header),
                _ => messages@.len() == 0,
            },
    {
        let mut messages: Vec<Result<H, MineError<E>>> = Vec::new();
        assert(message_models(messages@) =~= Seq::empty());
        match self.stage {
            FeedStage::Head(_) => match event {
                FeedEvent::Head(head) => {
                    let ghost waiting = self.waiting@;
                    messages = self.begin(head);
                    proof {
                        let models = message_models(messages@);
                        assert(models.len() == messages@.len());
                        assert(models[0] == message_model(messages@[0]));
                        assert forall|i: int|
                            #![trigger waiting[i]]
                            0 <= i < waiting.len() implies messages@[1 + i] == Ok::<
                            H,
                            MineError<E>,
                        >(waiting[i]) by {
                            assert(models[1 + i] == message_model(messages@[1 + i]));
                        }
                    }
                    self.stage =
                    if self.ended {
                        FeedStage::Closed
                    } else {
                        FeedStage::Following
                    };
                },
                FeedEvent::Next(header) => {
                    if !self.ended {
                        self.waiting.push_back(header);
                    }
                },
                FeedEvent::StreamFailed | FeedEvent::Ended => {
                    self.ended = true;
                },
                FeedEvent::SinkFailed | FeedEvent::Cancelled => {
                    self.stage = FeedStage::Closed;
                },
            },
            FeedStage::Following => match event {
                FeedEvent::Head(_) => {},
                FeedEvent::Next(header) => {
                    messages.push(Ok(header));
                    assert(message_models(messages@) =~= seq![
                        MessageModel::<H, E>::Header(header),
                    ]);
                },
                FeedEvent::StreamFailed | FeedEvent::Ended | FeedEvent::SinkFailed
                | FeedEvent::Cancelled => {
                    self.stage = FeedStage::Closed;
                },
            },
            FeedStage::Closed => {},
        }
        messages
    }
}

/// What came of asking for the difficulty. A failure is put into words that end with its own.
pub fn difficulty_report<D>(fetched: Result<D, String>) -> (report: Result<D, String>)
    ensures
        match (fetched, report) {
            (Ok(difficulty), Ok(reported)) => reported == difficulty,
            (Err(debug), Err(words)) => words@ == "Fetching difficulty from runtime failed: "@
                + debug@,
            _ => false,
        },
{
    match fetched {
        Ok(difficulty) => Ok(difficulty),
        Err(debug) => Err(
            "Fetching difficulty from runtime failed: ".to_owned().concat(debug.as_str()),
        ),
    }
}

/// The method that notifications of new heads carry.
pub const NEW_PARAMS: &'static str = "mine_newParams";

/// The method by which to subscribe to new heads.
pub const SUBSCRIBE_NEW_PARAMS: &'static str = "mine_SubscribeNewParams";

/// Another name for [`SUBSCRIBE_NEW_PARAMS`].
pub const SUBSCRIBE_ALIAS: &'static str = "Subscribe_newParams";

/// The method by which to unsubscribe from new heads.
pub const UNSUBSCRIBE_NEW_PARAMS: &'static str = "mine_unsubscribeNewParams";

/// Another name for [`UNSUBSCRIBE_NEW_PARAMS`].
pub const UNSUBSCRIBE_ALIAS: &'static str = "unsubscribe_newParams";

/// The names by which the calls of [`MineApi`] are made.
#[derive(Clone, Copy, Debug)]
pub struct MineMethods {
    /// The method that notifications carry.
    pub notification: &'static str,
    /// The method by which to subscribe, and another name for it.
    pub subscribe: (&'static str, &'static str),
    /// The method by which to unsubscribe, and another name for it.
    pub unsubscribe: (&'static str, &'static str),
}

impl MineMethods {
    /// The names of all methods that can be called.
    pub open spec fn callable(&self) -> Seq<Seq<char>> {
        seq![
            self.subscribe.0@,
            self.subscribe.1@,
            self.unsubscribe.0@,
            self.unsubscribe.1@,
        ]
    }
}

/// The names by which the calls are made.
pub fn mine_methods() -> (methods: MineMethods)
    ensures
        methods.notification@ == "mine_newParams"@,
        methods.subscribe.0@ == "mine_SubscribeNewParams"@,
        methods.subscribe.1@ == "Subscribe_newParams"@,
        methods.unsubscribe.0@ == "mine_unsubscribeNewParams"@,
        methods.unsubscribe.1@ == "unsubscribe_newParams"@,
        methods.callable().no_duplicates(),
{
    proof {
        reveal_strlit("mine_SubscribeNewParams");
        reveal_strlit("Subscribe_newParams");
        reveal_strlit("mine_unsubscribeNewParams");
        reveal_strlit("unsubscribe_newParams");
        assert("mine_SubscribeNewParams"@.len() == 23);
        assert("Subscribe_newParams"@.len() == 19);
        assert("mine_unsubscribeNewParams"@.len() == 25);
        assert("unsubscribe_newParams"@.len() == 21);
    }
    MineMethods {
        notification: NEW_PARAMS,
        subscribe: (SUBSCRIBE_NEW_PARAMS, SUBSCRIBE_ALIAS),
        unsubscribe: (UNSUBSCRIBE_NEW_PARAMS, UNSUBSCRIBE_ALIAS),
    }
}

/// The calls for mining parameters, where `Header` is the header of a block.
pub trait MineApi<Header>: Sized {
    /// What is known of who calls.
    type Metadata;

    /// What is asked for blocks.
    type Client;

    /// The client. No call changes it.
    spec fn asked(&self) -> Self::Client;

    /// The subscriptions that are active.
    spec fn active(&self) -> Set<u64>;

    /// Subscribes to new heads under the id `subscriber`, while `best_hash` is the hash of the best
    /// block, whose header comes first.
    fn subscribe_new_params(
        &mut self,
        metadata: Option<Self::Metadata>,
        subscriber: u64,
        best_hash: Hash,
    ) -> (feed: HeadFeed<Header>)
        ensures
            feed@ == new_feed::<Header>(best_hash),
            final(self).active() == old(self).active().insert(subscriber),
            final(self).asked() == old(self).asked(),
    ;

    /// Ends the subscription `id`, and says whether it was active.
    fn unsubscribe_new_params(
        &mut self,
        metadata: Option<Self::Metadata>,
        id: SubscriptionId,
    ) -> (result: Result<bool, jsonrpc_core::Error>)
        ensures
            result == Ok::<bool, jsonrpc_core::Error>(is_active(old(self).active(), id)),
            final(self).active() == without(old(self).active(), id),
            match id {
                SubscriptionId::Number(number) => result == Ok::<bool, jsonrpc_core::Error>(
                    old(self).active().contains(number),
                ) && final(self).active() == old(self).active().remove(number),
                SubscriptionId::Text(_) => result == Ok::<bool, jsonrpc_core::Error>(false)
                    && final(self).active() == old(self).active(),
            },
            final(self).asked() == old(self).asked(),
    ;
}

/// Whom the calls are made to: a client `C`, and the subscriptions.
#[derive(Debug)]
pub struct Mine<C> {
    client: C,
    subscriptions: Subscriptions,
}

impl<C> Mine<C> {
    /// The client.
    pub closed spec fn client_view(&self) -> C {
        self.client
    }

    /// The subscriptions that are active.
    pub closed spec fn subscriptions_view(&self) -> Set<u64> {
        self.subscriptions@
    }

    /// Takes the client, and the subscriptions that there are.
    pub fn new(client: C, subscriptions: Subscriptions) -> (mine: Self)
        ensures
            mine.client_view() == client,
            mine.subscriptions_view() == subscriptions@,
    {
        Mine { client, subscriptions }
    }

    /// The client.
    pub fn client(&self) -> (client: &C)
        ensures
            *client == self.client_view(),
    {
        &self.client
    }

    /// The hash that is asked for, or that of the best block where none is.
    pub fn unwrap_or_best<E>(&self, hash: Option<Hash>, best_hash: Hash) -> (result: Result<
        Hash,
        MineError<E>,
    >)
        ensures
            result == Ok::<Hash, MineError<E>>(
                match hash {
                    Some(hash) => hash,
                    None => best_hash,
                },
            ),
    {
        Ok(
            match hash {
                None => best_hash,
                Some(hash) => hash,
            },
        )
    }

    /// Makes the subscription `subscriber` active. Its feed begins with the header of `head`.
    pub fn subscribe_params<Header>(&mut self, subscriber: u64, head: Hash) -> (feed: HeadFeed<Header>)
        ensures
            feed@ == new_feed::<Header>(head),
            final(self).subscriptions_view() == old(self).subscriptions_view().insert(subscriber),
            final(self).client_view() == old(self).client_view(),
    {
        self.subscriptions.add(subscriber);
        HeadFeed::new(head)
    }
}

impl<C, Header> MineApi<Header> for Mine<C> {
    type Metadata = ();

    type Client = C;

    open spec fn asked(&self) -> C {
        self.client_view()
    }

    open spec fn active(&self) -> Set<u64> {
        self.subscriptions_view()
    }

    fn subscribe_new_params(
        &mut self,
        _metadata: Option<()>,
        subscriber: u64,
        best_hash: Hash,
    ) -> (feed: HeadFeed<Header>) {
        let head = self.unwrap_or_best::<()>(None, best_hash).unwrap();
        self.subscribe_params(subscriber, head)
    }

    fn unsubscribe_new_params(
        &mut self,
        _metadata: Option<()>,
        id: SubscriptionId,
    ) -> Result<bool, jsonrpc_core::Error> {
        Ok(self.subscriptions.cancel(&id))
    }
}

/// A subscription that has begun can be ended once, which leaves the others as they were.
pub proof fn subscription_ends_once(active: Set<u64>, id: u64)
    ensures
        is_active(active.insert(id), SubscriptionId::Number(id)),
        !is_active(
            without(active.insert(id), SubscriptionId::Number(id)),
            SubscriptionId::Number(id),
        ),
        without(active.insert(id), SubscriptionId::Number(id)) == active.remove(id),
{
    assert(active.insert(id).remove(id) =~= active.remove(id));
}

/// What a feed that begins with the block `hash` has become after `events`.
pub open spec fn feed_after<H, E>(hash: Hash, events: Seq<FeedEvent<H, E>>) -> FeedModel<H>
    decreases events.len(),
{
    if events.len() == 0 {
        new_feed(hash)
    } else {
        next_feed(feed_after(hash, events.drop_last()), events.last())
    }
}

/// What the subscriber to a feed that begins with the block `hash` is sent in `events`.
pub open spec fn sent_after<H, E>(hash: Hash, events: Seq<FeedEvent<H, E>>) -> Seq<
    MessageModel<H, E>,
>
    decreases events.len(),
{
    if events.len() == 0 {
        Seq::empty()
    } else {
        sent_after(hash, events.drop_last()) + feed_messages(
            feed_after(hash, events.drop_last()),
            events.last(),
        )
    }
}

/// What came of the first look-up of the first header, if there was one.
pub open spec fn looked_up<H, E>(events: Seq<FeedEvent<H, E>>) -> Option<Result<Option<H>, E>>
    decreases events.len(),
{
    if events.len() == 0 {
        None
    } else {
        match looked_up(events.drop_last()) {
            Some(head) => Some(head),
            None => match events.last() {
                FeedEvent::Head(head) => Some(head),
                _ => None,
            },
        }
    }
}

/// Whether the source of further headers has ended or failed.
pub open spec fn source_ended<H, E>(events: Seq<FeedEvent<H, E>>) -> bool {
    exists|i: int|
        0 <= i < events.len() && (#[trigger] events[i] is Ended || events[i] is StreamFailed)
}

/// The further headers that came before their source ended.
pub open spec fn source_headers<H, E>(events: Seq<FeedEvent<H, E>>) -> Seq<H>
    decreases events.len(),
{
    if events.len() == 0 {
        Seq::empty()
    } else {
        let before = source_headers(events.drop_last());
        match events.last() {
            FeedEvent::Next(header) => if source_ended(events.drop_last()) {
                before
            } else {
                before.push(header)
            },
            _ => before,
        }
    }
}

/// The end of a source shows in the events before the last, or in the last.
proof fn lemma_source_ended<H, E>(events: Seq<FeedEvent<H, E>>)
    requires
        events.len() > 0,
    ensures
        source_ended(events) == (source_ended(events.drop_last()) || events.last() is Ended
            || events.last() is StreamFailed),
{
    let before = events.drop_last();
    if source_ended(before) {
        let i = choose|i: int|
            0 <= i < before.len() && (#[trigger] before[i] is Ended || before[i] is StreamFailed);
        assert(events[i] == before[i]);
    }
    if source_ended(events) {
        let i = choose|i: int|
            0 <= i < events.len() && (#[trigger] events[i] is Ended || events[i] is StreamFailed);
        if i < before.len() {
            assert(before[i] == events[i]);
        }
    }
}

/// Whether an event closes a feed at once, whatever is still to be sent.
pub open spec fn cuts_off<H, E>(event: FeedEvent<H, E>) -> bool {
    event is SinkFailed || event is Cancelled
}

/// As long as a subscriber can be reached and its subscription has not been ended, it is sent what
/// came of looking up the first header, then every further header up to the end of their source, each
/// once and in order, whether they came before or after the first; until the first has been looked up
/// it is sent nothing.
pub proof fn head_then_every_header<H, E>(hash: Hash, events: Seq<FeedEvent<H, E>>)
    requires
        forall|i: int| 0 <= i < events.len() ==> !cuts_off(#[trigger] events[i]),
    ensures
        sent_after(hash, events) == match looked_up(events) {
            Some(head) => seq![first_message(head)] + header_messages(source_headers(events)),
            None => Seq::empty(),
        },
        feed_after(hash, events) == match looked_up(events) {
            Some(_) => if source_ended(events) {
                FeedModel::Closed
            } else {
                FeedModel::Following
            },
            None => FeedModel::Head {
                hash,
                waiting: source_headers(events),
                ended: source_ended(events),
            },
        },
    decreases events.len(),
{
    if events.len() > 0 {
        let before = events.drop_last();
        assert forall|i: int| 0 <= i < before.len() implies !cuts_off(#[trigger] before[i]) by {
            assert(!cuts_off(events[i]));
        }
        assert(!cuts_off(events.last()));
        head_then_every_header(hash, before);
        lemma_source_ended(events);
        if let Some(head) = looked_up(events) {
            assert(sent_after(hash, events) =~= seq![first_message(head)] + header_messages(
                source_headers(events),
            ));
        } else {
            assert(sent_after(hash, events) =~= Seq::empty());
        }
    }
}

/// A subscriber that cannot be reached, or whose subscription is ended, closes its feed; and once a
/// feed is closed nothing opens it again and nothing more is sent, not even what was held back.
pub proof fn closed_feed_stays_closed<H, E>(
    hash: Hash,
    events: Seq<FeedEvent<H, E>>,
    more: Seq<FeedEvent<H, E>>,
)
    requires
        feed_after(hash, events) is Closed || (events.len() > 0 && cuts_off(
            events.last(),
        )),
    ensures
        feed_after(hash, events + more) is Closed,
        sent_after(hash, events + more) == sent_after(hash, events),
        events.len() > 0 && cuts_off(events.last()) ==> sent_after(hash, events) == sent_after(
            hash,
            events.drop_last(),
        ),
    decreases more.len(),
{
    if events.len() > 0 && cuts_off(events.last()) {
        assert(sent_after(hash, events) =~= sent_after(hash, events.drop_last()));
    }
    if more.len() == 0 {
        assert(events + more =~= events);
    } else {
        closed_feed_stays_closed(hash, events, more.drop_last());
        assert((events + more).drop_last() =~= events + more.drop_last());
        assert(sent_after(hash, events + more) =~= sent_after(hash, events));
    }
}

/// Only numbers are ids of subscriptions: a number is active if and only if it is among the active
/// ones, and ending it takes it, and nothing else, out of these; a text ends nothing.
pub proof fn ids_are_numbers(active: Set<u64>, number: u64, text: String)
    ensures
        is_active(active, SubscriptionId::Number(number)) <==> active.contains(number),
        without(active, SubscriptionId::Number(number)) == active.remove(number),
        !is_active(active, SubscriptionId::Text(text)),
        without(active, SubscriptionId::Text(text)) == active,
{
}

/// Ending one subscription changes nothing for any other.
pub proof fn other_subscriptions_stay(active: Set<u64>, id: SubscriptionId, other: u64)
    requires
        id != SubscriptionId::Number(other),
    ensures
        is_active(without(active, id), SubscriptionId::Number(other)) <==> is_active(
            active,
            SubscriptionId::Number(other),
        ),
{
}

/// A message is modelled by the header, by the client's own error or by the words that it holds.
pub proof fn model_keeps_message<H, E>(header: H, error: E, words: String)
    ensures
        message_model(Ok::<H, MineError<E>>(header)) == MessageModel::<H, E>::Header(header),
        message_model(Err::<H, MineError<E>>(MineError::Client(error))) == MessageModel::<
            H,
            E,
        >::Client(error),
        message_model(Err::<H, MineError<E>>(MineError::Other(words))) == MessageModel::<
            H,
            E,
        >::Other(words@),
{
}

/// There is one model for each message, and one message for each header, in order.
pub proof fn models_keep_messages_in_order<H, E>(
    messages: Seq<Result<H, MineError<E>>>,
    headers: Seq<H>,
)
    ensures
        message_models(messages).len() == messages.len(),
        forall|i: int|
            0 <= i < messages.len() ==> #[trigger] message_models(messages)[i] == message_model(
                messages[i],
            ),
        header_messages::<H, E>(headers).len() == headers.len(),
        forall|i: int|
            0 <= i < headers.len() ==> #[trigger] header_messages::<H, E>(headers)[i]
                == MessageModel::<H, E>::Header(headers[i]),
{
}

/// The first thing that a subscriber is sent is the first header, that there is none, or why it could
/// not be looked up.
pub proof fn first_message_by_case<H, E>(header: H, error: E)
    ensures
        first_message(Ok::<Option<H>, E>(Some(header))) == MessageModel::<H, E>::Header(header),
        first_message(Ok::<Option<H>, E>(None)) == MessageModel::<H, E>::Other(
            "Best header missing."@,
        ),
        first_message(Err::<Option<H>, E>(error)) == MessageModel::<H, E>::Client(error),
{
}

/// A header that comes before the first has been looked up is held back behind those before it and
/// nothing is sent; one that comes after that is sent at once; one that comes once the source has
/// ended, or the feed has been closed, is dropped.
pub proof fn further_headers_wait_or_pass<H, E>(hash: Hash, waiting: Seq<H>, header: H)
    ensures
        ({
            let next = FeedEvent::<H, E>::Next(header);
            let open = FeedModel::Head { hash, waiting, ended: false };
            let ended = FeedModel::Head { hash, waiting, ended: true };
            &&& next_feed(open, next) == (FeedModel::Head {
                hash,
                waiting: waiting.push(header),
                ended: false,
            })
            &&& feed_messages(open, next).len() == 0
            &&& next_feed(ended, next) == ended
            &&& feed_messages(ended, next).len() == 0
            &&& next_feed(FeedModel::Following, next) == FeedModel::<H>::Following
            &&& feed_messages(FeedModel::Following, next) == seq![
                MessageModel::<H, E>::Header(header),
            ]
            &&& next_feed(FeedModel::Closed, next) == FeedModel::<H>::Closed
            &&& feed_messages(FeedModel::Closed, next).len() == 0
        }),
{
}

/// When the first header has been looked up, what came of it is sent, and behind it each header that
/// was held back, once and in order. Then further headers are awaited, unless their source has ended.
/// Only the first look-up counts.
pub proof fn look_up_sends_what_was_held_back<H, E>(
    hash: Hash,
    waiting: Seq<H>,
    ended: bool,
    head: Result<Option<H>, E>,
)
    ensures
        ({
            let feed = FeedModel::Head { hash, waiting, ended };
            let sent = feed_messages(feed, FeedEvent::Head(head));
            &&& sent.len() == 1 + waiting.len()
            &&& sent[0] == match head {
                Ok(Some(header)) => MessageModel::<H, E>::Header(header),
                Ok(None) => MessageModel::<H, E>::Other("Best header missing."@),
                Err(error) => MessageModel::<H, E>::Client(error),
            }
            &&& forall|i: int|
                #![trigger waiting[i]]
                0 <= i < waiting.len() ==> sent[1 + i] == MessageModel::<H, E>::Header(waiting[i])
            &&& next_feed(feed, FeedEvent::Head(head)) == if ended {
                FeedModel::<H>::Closed
            } else {
                FeedModel::<H>::Following
            }
            &&& next_feed(FeedModel::Following, FeedEvent::Head(head))
                == FeedModel::<H>::Following
            &&& feed_messages(FeedModel::Following, FeedEvent::Head(head)).len() == 0
            &&& next_feed(FeedModel::Closed, FeedEvent::Head(head)) == FeedModel::<H>::Closed
            &&& feed_messages(FeedModel::Closed, FeedEvent::Head(head)).len() == 0
        }),
{
}

/// A feed begins with nothing held back. The end of the source, be it a failure or not, closes it
/// once what was held back has been sent; a subscriber who is gone closes it at once. None of these
/// sends anything.
pub proof fn ends_close_a_feed<H, E>(
    feed: FeedModel<H>,
    hash: Hash,
    waiting: Seq<H>,
    ended: bool,
    event: FeedEvent<H, E>,
)
    requires
        !(event is Head),
        !(event is Next),
    ensures
        new_feed::<H>(hash) == (FeedModel::Head {
            hash,
            waiting: Seq::<H>::empty(),
            ended: false,
        }),
        feed_messages(feed, event).len() == 0,
        next_feed(FeedModel::Head { hash, waiting, ended }, event) == if event is Ended
            || event is StreamFailed {
            FeedModel::Head { hash, waiting, ended: true }
        } else {
            FeedModel::Closed
        },
        next_feed(FeedModel::Following, event) == FeedModel::<H>::Closed,
        next_feed(FeedModel::Closed, event) == FeedModel::<H>::Closed,
{
}

/// The headers `early`, before the first is looked up, are all held back.
proof fn lemma_early_headers_wait<H, E>(hash: Hash, early: Seq<H>)
    ensures
        ({
            let events = early.map_values(|header: H| FeedEvent::<H, E>::Next(header));
            &&& feed_after(hash, events) == (FeedModel::Head { hash, waiting: early, ended: false })
            &&& sent_after(hash, events) == Seq::<MessageModel<H, E>>::empty()
        }),
    decreases early.len(),
{
    let events = early.map_values(|header: H| FeedEvent::<H, E>::Next(header));
    if early.len() > 0 {
        let before = early.drop_last();
        lemma_early_headers_wait::<H, E>(hash, before);
        assert(events.drop_last() =~= before.map_values(
            |header: H| FeedEvent::<H, E>::Next(header),
        ));
        assert(events.last() == FeedEvent::<H, E>::Next(early.last()));
        assert(before.push(early.last()) =~= early);
        assert(sent_after(hash, events) =~= Seq::empty());
    } else {
        assert(early =~= Seq::empty());
        assert(sent_after(hash, events) =~= Seq::empty());
    }
}

/// However many headers come before the first has been looked up and however many after, a subscriber
/// is sent what came of the look-up, then the early ones, then the late ones, each once.
pub proof fn early_headers_before_late_ones<H, E>(
    hash: Hash,
    early: Seq<H>,
    head: Result<Option<H>, E>,
    late: Seq<H>,
)
    ensures
        ({
            let events = early.map_values(|header: H| FeedEvent::<H, E>::Next(header)).push(
                FeedEvent::Head(head),
            ) + late.map_values(|header: H| FeedEvent::<H, E>::Next(header));
            let first = match head {
                Ok(Some(header)) => MessageModel::<H, E>::Header(header),
                Ok(None) => MessageModel::<H, E>::Other("Best header missing."@),
                Err(error) => MessageModel::<H, E>::Client(error),
            };
            &&& sent_after(hash, events) == seq![first] + (early + late).map_values(
                |header: H| MessageModel::<H, E>::Header(header),
            )
            &&& feed_after(hash, events) == FeedModel::<H>::Following
        }),
    decreases late.len(),
{
    let as_event = |header: H| FeedEvent::<H, E>::Next(header);
    let as_message = |header: H| MessageModel::<H, E>::Header(header);
    let beginning = early.map_values(as_event).push(FeedEvent::Head(head));
    let events = beginning + late.map_values(as_event);
    let first = first_message(head);
    if late.len() == 0 {
        lemma_early_headers_wait::<H, E>(hash, early);
        assert(events =~= beginning);
        assert(beginning.drop_last() =~= early.map_values(as_event));
        assert(sent_after(hash, events) =~= seq![first] + (early + late).map_values(as_message));
    } else {
        let before = late.drop_last();
        early_headers_before_late_ones(hash, early, head, before);
        assert(events.drop_last() =~= beginning + before.map_values(as_event));
        assert(events.last() == FeedEvent::<H, E>::Next(late.last()));
        assert(sent_after(hash, events) =~= seq![first] + (early + late).map_values(as_message));
    }
}

} // verus!
