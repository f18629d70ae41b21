//! The web server that miners are served by: where it listens, and by which methods it is called.
use vstd::arithmetic::div_mod::lemma_div_denominator;
use vstd::arithmetic::power::{lemma_pow_positive, pow};
use vstd::prelude::*;

use crate::hexadecimal;
use crate::mine::SubscriptionId;
use crate::raw_seal;

verus! {

/// The method that notifications of mining parameters carry.
pub const MINE_PARAMS: &'static str = "mine_params";

/// The method by which a miner subscribes to mining parameters.
pub const SUB_GET_MINE_PARAMS: &'static str = "sub_get_mine_params";

/// The method by which a miner gives up its subscription to mining parameters.
pub const UNSUB_PARAMS: &'static str = "unsub_params";

/// The notification method that goes with the sending of seals.
pub const RAWSEAL_METHOD: &'static str = "raw_seal";

/// The method by which a miner sends a seal.
pub const PUB_RAW_SEAL: &'static str = "pub_raw_seal";

/// The method by which a miner gives up sending seals.
pub const UNSUB_SEAL: &'static str = "unsub_seal";

/// The id that every subscription to mining parameters has.
pub const PARAMS_SUBSCRIPTION: u64 = 1;

/// How many seconds to wait for mining parameters at a time.
pub const RECEIVE_TIMEOUT_SECS: u64 = 1000;

/// The decimal digits of `value`, without leading zeros.
pub open spec fn decimal(value: nat) -> Seq<char>
    decreases value,
{
    if value < 10 {
        seq![('0' as nat + value) as char]
    } else {
        decimal(value / 10).push(('0' as nat + value % 10) as char)
    }
}

/// The text of a digit.
fn digit_text(digit: u32) -> (text: &'static str)
    requires
        digit < 10,
    ensures
        text@ == seq![('0' as nat + digit) as char],
{
    proof {
        reveal_strlit("0123456789");
    }
    let start: usize = digit as usize;
    let text = "0123456789".substring_char(start, start + 1);
    assert(text@ =~= seq![('0' as nat + digit) as char]);
    text
}

/// `value` in decimal.
fn decimal_text(value: u32) -> (text: String)
    ensures
        text@ == decimal(value as nat),
    decreases value,
{
    if value < 10 {
        digit_text(value).to_owned()
    } else {
        let text = decimal_text(value / 10).concat(digit_text(value % 10));
        assert(text@ =~= decimal(value as nat));
        text
    }
}

/// The address that miners are listened to on: the given port, on this machine only.
pub fn listen_address(port: u32) -> (address: String)
    requires
        port <= u16::MAX,
    ensures
        address@ == "127.0.0.1:"@ + decimal(port as nat),
{
    "127.0.0.1:".to_owned().concat(decimal_text(port).as_str())
}

/// The methods of one subscription.
#[derive(Debug)]
pub struct SubscriptionMethods {
    /// The method that notifications carry.
    pub notification: &'static str,
    /// The method by which to subscribe.
    pub subscribe: &'static str,
    /// The method by which to unsubscribe.
    pub unsubscribe: &'static str,
    /// What unsubscribing is answered with, whoever asks.
    pub unsubscribe_reply: bool,
}

/// What a web server is started with.
#[derive(Debug)]
pub struct WebServer {
    /// Where it listens.
    pub address: String,
    /// The subscription to mining parameters.
    pub params: SubscriptionMethods,
    /// The id that each subscriber to mining parameters is given.
    pub params_subscription: u64,
    /// How many seconds it waits for mining parameters at a time.
    pub receive_timeout_secs: u64,
    /// The subscription by which seals are sent.
    pub seals: SubscriptionMethods,
}

impl WebServer {
    /// The names of all methods that can be called.
    pub open spec fn callable(&self) -> Seq<Seq<char>> {
        seq![
            self.params.subscribe@,
            self.params.unsubscribe@,
            self.seals.subscribe@,
            self.seals.unsubscribe@,
        ]
    }

    /// No two methods have one name, and unsubscribing is answered with `true`.
    pub open spec fn well_formed(&self) -> bool {
        &&& self.callable().no_duplicates()
        &&& self.params.unsubscribe_reply
        &&& self.seals.unsubscribe_reply
    }

    /// What is to be done about a call.
    pub fn on_call(&self, call: MinerCall) -> (action: CallAction)
        ensures
            action@ == action_on(*self, call@),
            match call {
                MinerCall::SubscribeParams => action == CallAction::Publish(
                    self.params_subscription,
                ),
                MinerCall::UnsubscribeParams(_) => action == CallAction::Reply(
                    self.params.unsubscribe_reply,
                ),
                MinerCall::RawSeal(params) => match raw_seal::seal_of(
                    raw_seal::positional(params),
                ) {
                    Some(seal) => if 2 * seal.len() <= isize::MAX {
                        action matches CallAction::SendSeal(text) && text@
                            == hexadecimal::hex_lower(seal)
                    } else {
                        action == CallAction::Fail
                    },
                    None => action matches CallAction::SendSeal(text) && text@ == "00"@,
                },
                MinerCall::UnsubscribeSeal(_) => action == CallAction::Reply(
                    self.seals.unsubscribe_reply,
                ),
            },
    {
        match call {
            MinerCall::SubscribeParams => CallAction::Publish(self.params_subscription),
            MinerCall::UnsubscribeParams(_) => CallAction::Reply(self.params.unsubscribe_reply),
            MinerCall::RawSeal(params) => match raw_seal::raw_seal(params) {
                Some(message) => CallAction::SendSeal(message),
                None => CallAction::Fail,
            },
            MinerCall::UnsubscribeSeal(_) => CallAction::Reply(self.seals.unsubscribe_reply),
        }
    }
}

/// A call that a miner makes.
#[derive(Debug)]
pub enum MinerCall {
    /// To be told mining parameters.
    SubscribeParams,
    /// Not to be told them any more.
    UnsubscribeParams(SubscriptionId),
    /// To hand over a seal, in the parameters of the call.
    RawSeal(jsonrpc_core::Params),
    /// To hand over no more seals.
    UnsubscribeSeal(SubscriptionId),
}

/// What is to be done about a call.
#[derive(Debug)]
pub enum CallAction {
    /// Start a publisher, which takes parameters from their channel, under this id.
    Publish(u64),
    /// Send this text on the channel for seals.
    SendSeal(String),
    /// Answer with this.
    Reply(bool),
    /// Fail: a string cannot hold the seal.
    Fail,
}

/// The model of [`MinerCall`].
pub ghost enum CallModel {
    SubscribeParams,
    UnsubscribeParams(SubscriptionId),
    /// The seal that is handed over, if what is handed over is one.
    RawSeal(Option<Seq<u8>>),
    UnsubscribeSeal(SubscriptionId),
}

/// The model of [`CallAction`].
pub ghost enum ActionModel {
    Publish(u64),
    SendSeal(Seq<char>),
    Reply(bool),
    Fail,
}

impl View for MinerCall {
    type V = CallModel;

    open spec fn view(&self) -> CallModel {
        match self {
            MinerCall::SubscribeParams => CallModel::SubscribeParams,
            MinerCall::UnsubscribeParams(id) => CallModel::UnsubscribeParams(*id),
            MinerCall::RawSeal(params) => CallModel::RawSeal(
                raw_seal::seal_of(raw_seal::positional(*params)),
            ),
            MinerCall::UnsubscribeSeal(id) => CallModel::UnsubscribeSeal(*id),
        }
    }
}

impl View for CallAction {
    type V = ActionModel;

    open spec fn view(&self) -> ActionModel {
        match self {
            CallAction::Publish(id) => ActionModel::Publish(*id),
            CallAction::SendSeal(message) => ActionModel::SendSeal(message@),
            CallAction::Reply(reply) => ActionModel::Reply(*reply),
            CallAction::Fail => ActionModel::Fail,
        }
    }
}

/// What `server` does about a call.
pub open spec fn action_on(server: WebServer, call: CallModel) -> ActionModel {
    match call {
        CallModel::SubscribeParams => ActionModel::Publish(server.params_subscription),
        CallModel::UnsubscribeParams(_) => ActionModel::Reply(server.params.unsubscribe_reply),
        CallModel::RawSeal(seal) => if raw_seal::text_fits(seal) {
            ActionModel::SendSeal(raw_seal::message_of(seal))
        } else {
            ActionModel::Fail
        },
        CallModel::UnsubscribeSeal(_) => ActionModel::Reply(server.seals.unsubscribe_reply),
    }
}

/// What a server has done.
pub ghost struct Effects {
    /// What has been sent on the channel for seals.
    pub seals: Seq<Seq<char>>,
    /// How many publishers have been started. Nothing else takes from the channel for parameters.
    pub publishers: nat,
    /// What has been answered.
    pub replies: Seq<bool>,
}

/// What an action adds to what has been done.
pub open spec fn done(before: Effects, action: ActionModel) -> Effects {
    match action {
        ActionModel::Publish(_) => Effects { publishers: before.publishers + 1, ..before },
        ActionModel::SendSeal(message) => Effects { seals: before.seals.push(message), ..before },
        ActionModel::Reply(reply) => Effects { replies: before.replies.push(reply), ..before },
        ActionModel::Fail => before,
    }
}

/// What `server` has done about `calls`.
pub open spec fn effects_of(server: WebServer, calls: Seq<CallModel>) -> Effects
    decreases calls.len(),
{
    if calls.len() == 0 {
        Effects { seals: Seq::empty(), publishers: 0, replies: Seq::empty() }
    } else {
        done(effects_of(server, calls.drop_last()), action_on(server, calls.last()))
    }
}

/// Whether `call` unsubscribes.
pub open spec fn unsubscribes(call: CallModel) -> bool {
    call is UnsubscribeParams || call is UnsubscribeSeal
}

/// A web server for miners, which listens on `port` of this machine.
pub fn new_web_server(port: u32) -> (server: WebServer)
    requires
        port <= u16::MAX,
    ensures
        server.address@ == "127.0.0.1:"@ + decimal(port as nat),
        server.params.notification@ == "mine_params"@,
        server.params.subscribe@ == "sub_get_mine_params"@,
        server.params.unsubscribe@ == "unsub_params"@,
        server.params.unsubscribe_reply,
        server.params_subscription == 1,
        server.receive_timeout_secs == 1000,
        server.seals.notification@ == "raw_seal"@,
        server.seals.subscribe@ == "pub_raw_seal"@,
        server.seals.unsubscribe@ == "unsub_seal"@,
        server.seals.unsubscribe_reply,
        server.well_formed(),
{
    let server = WebServer {
        address: listen_address(port),
        params: SubscriptionMethods {
            notification: MINE_PARAMS,
            subscribe: SUB_GET_MINE_PARAMS,
            unsubscribe: UNSUB_PARAMS,
            unsubscribe_reply: true,
        },
        params_subscription: PARAMS_SUBSCRIPTION,
        receive_timeout_secs: RECEIVE_TIMEOUT_SECS,
        seals: SubscriptionMethods {
            notification: RAWSEAL_METHOD,
            subscribe: PUB_RAW_SEAL,
            unsubscribe: UNSUB_SEAL,
            unsubscribe_reply: true,
        },
    };
    proof {
        reveal_strlit("sub_get_mine_params");
        reveal_strlit("unsub_params");
        reveal_strlit("pub_raw_seal");
        reveal_strlit("unsub_seal");
        assert("unsub_params"@[0] != "pub_raw_seal"@[0]);
        assert("sub_get_mine_params"@.len() == 19);
        assert("unsub_params"@.len() == 12);
        assert("unsub_seal"@.len() == 10);
        assert("pub_raw_seal"@.len() == 12);
    }
    server
}

/// As long as miners do nothing but unsubscribe, every call is answered with `true`, whatever the
/// id, no seal is sent, and nobody takes parameters.
pub proof fn unsubscribing_only_answers(server: WebServer, calls: Seq<CallModel>)
    requires
        server.well_formed(),
        forall|i: int| 0 <= i < calls.len() ==> unsubscribes(#[trigger] calls[i]),
    ensures
        effects_of(server, calls).seals == Seq::<Seq<char>>::empty(),
        effects_of(server, calls).publishers == 0,
        effects_of(server, calls).replies == Seq::new(calls.len(), |i: int| true),
    decreases calls.len(),
{
    if calls.len() > 0 {
        assert(unsubscribes(calls.last()));
        assert forall|i: int| 0 <= i < calls.len() - 1 implies unsubscribes(
            #[trigger] calls.drop_last()[i],
        ) by {
            assert(unsubscribes(calls[i]));
        }
        unsubscribing_only_answers(server, calls.drop_last());
    }
}

/// Wherever it comes, a call that unsubscribes leaves the seals that have been sent and the
/// publishers that have been started as they are.
pub proof fn unsubscribing_sends_and_takes_nothing(
    server: WebServer,
    calls: Seq<CallModel>,
    call: CallModel,
)
    requires
        server.well_formed(),
        unsubscribes(call),
    ensures
        ({
            let before = effects_of(server, calls);
            let after = effects_of(server, calls.push(call));
            &&& after.seals == before.seals
            &&& after.publishers == before.publishers
            &&& after.replies == before.replies.push(true)
        }),
{
    assert(calls.push(call).drop_last() =~= calls);
}

/// The seal that a call hands over, if it hands over one.
pub open spec fn seal_in(call: CallModel) -> Option<Seq<u8>> {
    match call {
        CallModel::RawSeal(seal) => seal,
        _ => None,
    }
}

/// A run of calls that hand over seals sends one text for each call, in the order of the calls: the
/// two lower-case digits of each byte of the seal, from which the seal is read back, or `00` where
/// what is handed over is no seal. Nothing is answered, and nobody takes parameters.
pub proof fn every_seal_is_sent_in_order(server: WebServer, calls: Seq<CallModel>)
    requires
        forall|i: int|
            0 <= i < calls.len() ==> (#[trigger] calls[i]) is RawSeal && raw_seal::text_fits(
                seal_in(calls[i]),
            ),
    ensures
        ({
            let sent = effects_of(server, calls).seals;
            &&& sent.len() == calls.len()
            &&& forall|i: int|
                #![trigger sent[i]]
                0 <= i < calls.len() ==> {
                    &&& sent[i] == raw_seal::message_of(seal_in(calls[i]))
                    &&& match seal_in(calls[i]) {
                        Some(seal) => sent[i] == hexadecimal::hex_lower(seal) && sent[i].len() == 2
                            * seal.len() && hexadecimal::hex_bytes(sent[i]) == Some(seal),
                        None => sent[i] == seq!['0', '0'],
                    }
                }
        }),
        effects_of(server, calls).publishers == 0,
        effects_of(server, calls).replies == Seq::<bool>::empty(),
    decreases calls.len(),
{
    if calls.len() > 0 {
        let before = calls.drop_last();
        assert forall|i: int| 0 <= i < before.len() implies (#[trigger] before[i]) is RawSeal
            && raw_seal::text_fits(seal_in(before[i])) by {
            assert(calls[i] is RawSeal);
        }
        every_seal_is_sent_in_order(server, before);
        let sent = effects_of(server, calls).seals;
        let earlier = effects_of(server, before).seals;
        assert(calls[calls.len() - 1] is RawSeal);
        assert(sent == earlier.push(raw_seal::message_of(seal_in(calls.last()))));
        assert forall|i: int|
            #![trigger sent[i]]
            0 <= i < calls.len() implies {
            &&& sent[i] == raw_seal::message_of(seal_in(calls[i]))
            &&& match seal_in(calls[i]) {
                Some(seal) => sent[i] == hexadecimal::hex_lower(seal) && sent[i].len() == 2
                    * seal.len() && hexadecimal::hex_bytes(sent[i]) == Some(seal),
                None => sent[i] == seq!['0', '0'],
            }
        } by {
            if i < before.len() {
                assert(sent[i] == earlier[i]);
                assert(before[i] == calls[i]);
            } else {
                match seal_in(calls[i]) {
                    Some(seal) => {
                        hexadecimal::hex_bytes_reads_hex_lower(seal);
                    },
                    None => {
                        assert(sent[i] =~= seq!['0', '0']);
                    },
                }
            }
        }
    }
}

/// The digits of `value` are those of the powers of ten in it, the highest that it holds first.
pub proof fn digits_by_power(value: nat)
    ensures
        decimal(value).len() > 0,
        value < pow(10, decimal(value).len()),
        decimal(value).len() > 1 ==> pow(10, (decimal(value).len() - 1) as nat) <= value,
        forall|i: int|
            #![trigger decimal(value)[i]]
            0 <= i < decimal(value).len() ==> decimal(value)[i] == "0123456789"@[(value as int
                / pow(10, (decimal(value).len() - 1 - i) as nat)) % 10],
    decreases value,
{
    reveal(pow);
    reveal_strlit("0123456789");
    let digits = decimal(value);
    if value < 10 {
        assert(pow(10, 0) == 1);
        assert(pow(10, 1) == 10 * pow(10, 0));
    } else {
        let front = decimal(value / 10);
        digits_by_power(value / 10);
        let length = front.len();
        assert(digits.len() == length + 1);
        assert(pow(10, length + 1) == 10 * pow(10, length));
        assert(pow(10, length) == 10 * pow(10, (length - 1) as nat));
        assert(pow(10, 0) == 1);
        assert forall|i: int| #![trigger digits[i]] 0 <= i < digits.len() implies digits[i]
            == "0123456789"@[(value as int / pow(10, (digits.len() - 1 - i) as nat)) % 10] by {
            if i < length {
                let power = pow(10, (length - 1 - i) as nat);
                lemma_pow_positive(10, (length - 1 - i) as nat);
                assert(pow(10, (length - i) as nat) == 10 * power);
                lemma_div_denominator(value as int, 10, power);
                assert(digits[i] == front[i]);
            }
        }
    }
}

/// The digits of `value` read from left to right give `value` back.
pub proof fn digits_give_value_back(value: nat)
    ensures
        decimal(value).fold_left(0int, |read: int, c: char| 10 * read + (c as int - '0' as int))
            == value,
    decreases value,
{
    let read_on = |read: int, c: char| 10 * read + (c as int - '0' as int);
    let digits = decimal(value);
    reveal_with_fuel(Seq::fold_left, 2);
    if value < 10 {
        assert(digits.drop_last() =~= Seq::empty());
        assert(digits.fold_left(0int, read_on) == value);
    } else {
        digits_give_value_back(value / 10);
        assert(digits.drop_last() =~= decimal(value / 10));
        assert(digits.last() as int == '0' as int + value % 10);
        assert(digits.fold_left(0int, read_on) == value);
    }
}

/// No two ports have one address.
pub proof fn ports_have_addresses_of_their_own(a: u32, b: u32)
    requires
        "127.0.0.1:"@ + decimal(a as nat) == "127.0.0.1:"@ + decimal(b as nat),
    ensures
        a == b,
{
    let front = "127.0.0.1:"@;
    assert((front + decimal(a as nat)).skip(front.len() as int) =~= decimal(a as nat));
    assert((front + decimal(b as nat)).skip(front.len() as int) =~= decimal(b as nat));
    digits_give_value_back(a as nat);
    digits_give_value_back(b as nat);
}

/// Whoever subscribes is published to under the id that the server has for subscribers, and whoever
/// unsubscribes is answered what the server answers in that subscription.
pub proof fn subscribers_are_answered(server: WebServer, id: SubscriptionId)
    ensures
        action_on(server, CallModel::SubscribeParams) == ActionModel::Publish(
            server.params_subscription,
        ),
        action_on(server, CallModel::UnsubscribeParams(id)) == ActionModel::Reply(
            server.params.unsubscribe_reply,
        ),
        action_on(server, CallModel::UnsubscribeSeal(id)) == ActionModel::Reply(
            server.seals.unsubscribe_reply,
        ),
{
}

/// Every seal whose text a string can hold is sent, two characters of `0123456789abcdef` for each of
/// its bytes; any other fails. What is no seal is sent as `00`.
pub proof fn every_seal_is_sent(server: WebServer, seal: Seq<u8>)
    ensures
        action_on(server, CallModel::RawSeal(None)) == ActionModel::SendSeal("00"@),
        match action_on(server, CallModel::RawSeal(Some(seal))) {
            ActionModel::SendSeal(text) => {
                &&& 2 * seal.len() <= isize::MAX
                &&& text.len() == 2 * seal.len()
                &&& forall|i: int|
                    #![trigger seal[i]]
                    0 <= i < seal.len() ==> text[2 * i] == "0123456789abcdef"@[seal[i] as int / 16]
                        && text[2 * i + 1] == "0123456789abcdef"@[seal[i] as int % 16]
            },
            ActionModel::Fail => 2 * seal.len() > isize::MAX,
            _ => false,
        },
{
    raw_seal::seal_is_written_out(seal);
}

/// Two seals are sent as the same text only if they are the same seal.
pub proof fn text_tells_calls_apart(server: WebServer, a: Seq<u8>, b: Seq<u8>)
    requires
        2 * a.len() <= isize::MAX,
        action_on(server, CallModel::RawSeal(Some(a))) == action_on(
            server,
            CallModel::RawSeal(Some(b)),
        ),
    ensures
        a == b,
{
    raw_seal::message_tells_seals_apart(a, b);
}

/// A call and an action are modelled by themselves, with the same ids, texts and answers.
pub proof fn models_keep_what_they_model(
    id: SubscriptionId,
    params: jsonrpc_core::Params,
    number: u64,
    text: String,
    reply: bool,
)
    ensures
        MinerCall::SubscribeParams@ == CallModel::SubscribeParams,
        MinerCall::UnsubscribeParams(id)@ == CallModel::UnsubscribeParams(id),
        MinerCall::UnsubscribeSeal(id)@ == CallModel::UnsubscribeSeal(id),
        MinerCall::RawSeal(params)@ == CallModel::RawSeal(
            raw_seal::seal_of(raw_seal::positional(params)),
        ),
        CallAction::Publish(number)@ == ActionModel::Publish(number),
        CallAction::SendSeal(text)@ == ActionModel::SendSeal(text@),
        CallAction::Reply(reply)@ == ActionModel::Reply(reply),
        CallAction::Fail@ == ActionModel::Fail,
{
}

/// One more call adds one publisher, one text or one answer behind those before, or nothing where it
/// fails.
pub proof fn one_more_call_adds_one_effect(
    server: WebServer,
    calls: Seq<CallModel>,
    call: CallModel,
)
    ensures
        ({
            let before = effects_of(server, calls);
            let after = effects_of(server, calls.push(call));
            let action = action_on(server, call);
            &&& after.publishers == before.publishers + if action is Publish {
                1int
            } else {
                0int
            }
            &&& after.seals == match action {
                ActionModel::SendSeal(text) => before.seals.push(text),
                _ => before.seals,
            }
            &&& after.replies == match action {
                ActionModel::Reply(reply) => before.replies.push(reply),
                _ => before.replies,
            }
        }),
{
    assert(calls.push(call).drop_last() =~= calls);
}

} // verus!
