//! What the subscribers to mining parameters are told.
//!
//! The newest parameters stand on a [`Board`] that all subscribers share. For each of them a
//! [`Publisher`] takes turns: it posts what it has received, if anything, and hands out what stands
//! on the board, if that is not what it saw there last.
use vstd::prelude::*;

verus! {

/// A JSON object.
#[verifier::external_type_specification]
#[verifier::external_body]
#[verifier::reject_recursive_types(K)]
#[verifier::reject_recursive_types(V)]
pub struct ExJsonMap<K, V>(serde_json::Map<K, V>);

/// A JSON value.
#[verifier::external_type_specification]
#[verifier::external_body]
pub struct ExJsonValue(serde_json::Value);

/// Why a text is not JSON of the expected kind.
#[verifier::external_type_specification]
#[verifier::external_body]
pub struct ExJsonError(serde_json::Error);

/// The members of an object: for each key, the JSON text of its value.
pub uninterp spec fn object_members(
    object: serde_json::Map<String, serde_json::Value>,
) -> Map<Seq<char>, Seq<char>>;

/// The members of the JSON object that a text holds, or `None` where it does not hold one.
pub uninterp spec fn json_object(text: Seq<char>) -> Option<Map<Seq<char>, Seq<char>>>;

/// `serde_json::from_str` into an object: what it returns depends on the text alone. Which texts
/// hold an object, and with which members, is not stated.
#[verifier::external_body]
fn parse_object(text: &str) -> (parsed: Result<
    serde_json::Map<String, serde_json::Value>,
    serde_json::Error,
>)
    ensures
        match parsed {
            Ok(object) => json_object(text@) == Some(object_members(object)),
            Err(_) => json_object(text@) is None,
        },
{
    serde_json::from_str(text)
}

/// What waiting for parameters has come to.
#[derive(Debug)]
pub enum Reception {
    /// Someone else is waiting for them.
    Busy,
    /// New parameters have come.
    Received(String),
    /// None came in time, or none will come any more.
    Nothing,
}

impl View for Reception {
    type V = Option<Seq<char>>;

    open spec fn view(&self) -> Option<Seq<char>> {
        match self {
            Reception::Received(text) => Some(text@),
            _ => None,
        }
    }
}

/// What stands on a board that showed `board` once `received` has been posted.
pub open spec fn posted(board: Seq<char>, received: Option<Seq<char>>) -> Seq<char> {
    match received {
        Some(text) => text,
        None => board,
    }
}

/// What is handed out to someone who last saw `last` and now sees `board`.
pub open spec fn changed(last: Seq<char>, board: Seq<char>) -> Option<Seq<char>> {
    if last == board {
        None
    } else {
        Some(board)
    }
}

/// The members of the object that someone who last saw `last` and now sees `board` is notified of.
/// There is none where the board has not changed, nor where it shows what is no JSON object.
pub open spec fn notified_object(last: Seq<char>, board: Seq<char>) -> Option<
    Map<Seq<char>, Seq<char>>,
> {
    match changed(last, board) {
        Some(text) => json_object(text),
        None => None,
    }
}

/// The newest parameters. Empty before any have come.
#[derive(Debug)]
pub struct Board {
    params: String,
}

impl View for Board {
    type V = Seq<char>;

    closed spec fn view(&self) -> Seq<char> {
        self.params@
    }
}

impl Board {
    /// A board on which nothing stands.
    pub fn new() -> (board: Self)
        ensures
            board@ == Seq::<char>::empty(),
    {
        Board { params: String::new() }
    }

    /// Posts what has been received, if anything, in place of what stood there.
    pub fn post(&mut self, reception: Reception)
        ensures
            final(self)@ == posted(old(self)@, reception@),
            final(self)@ == match reception {
                Reception::Received(text) => text@,
                Reception::Busy | Reception::Nothing => old(self)@,
            },
    {
        match reception {
            Reception::Received(text) => {
                self.params = text;
            },
            Reception::Busy | Reception::Nothing => {},
        }
    }
}

/// What one subscriber has seen. Empty at first.
#[derive(Debug)]
pub struct Publisher {
    mine_params: String,
}

impl View for Publisher {
    type V = Seq<char>;

    closed spec fn view(&self) -> Seq<char> {
        self.mine_params@
    }
}

impl Publisher {
    /// A subscriber who has seen nothing.
    pub fn new() -> (publisher: Self)
        ensures
            publisher@ == Seq::<char>::empty(),
    {
        Publisher { mine_params: String::new() }
    }

    /// Looks at the board, and takes down what is there if it is new.
    pub fn take_change(&mut self, board: &Board) -> (change: Option<String>)
        ensures
            final(self)@ == board@,
            match change {
                Some(text) => changed(old(self)@, board@) == Some(text@),
                None => changed(old(self)@, board@) is None,
            },
            change is None <==> old(self)@ == board@,
            change matches Some(text) ==> text@ == board@,
    {
        if self.mine_params == board.params {
            return None;
        }
        self.mine_params = board.params.clone();
        Some(self.mine_params.clone())
    }

    /// One turn: posts what has been received, and returns the object to notify the subscriber of.
    /// There is none where the board shows what the subscriber has seen, nor where it shows what is
    /// no JSON object.
    pub fn turn(&mut self, board: &mut Board, reception: Reception) -> (notified: Option<
        serde_json::Map<String, serde_json::Value>,
    >)
        ensures
            final(board)@ == posted(old(board)@, reception@),
            final(self)@ == final(board)@,
            notified_object(old(self)@, final(board)@) == match notified {
                Some(object) => Some(object_members(object)),
                None => None,
            },
            final(board)@ == match reception {
                Reception::Received(text) => text@,
                Reception::Busy | Reception::Nothing => old(board)@,
            },
            match notified {
                Some(object) => old(self)@ != final(board)@ && json_object(final(board)@) == Some(
                    object_members(object),
                ),
                None => old(self)@ == final(board)@ || json_object(final(board)@) is None,
            },
    {
        board.post(reception);
        match self.take_change(board) {
            Some(text) => notification(parse_object(text.as_str())),
            None => None,
        }
    }
}

/// What a subscriber is notified of once its parameters have been parsed: the object, or nothing at
/// all where they could not be.
pub fn notification<T, E>(parsed: Result<T, E>) -> (notified: Option<T>)
    ensures
        notified == match parsed {
            Ok(object) => Some(object),
            Err(_) => None,
        },
{
    match parsed {
        Ok(object) => Some(object),
        Err(_) => None,
    }
}

/// What happens to a board, as one subscriber sees it.
pub ghost enum BoardEvent {
    /// Someone else posts a text.
    Posted(Seq<char>),
    /// The subscriber takes a turn, in which a text came or not.
    Turn(Option<Seq<char>>),
}

/// The text that is posted in an event, if any.
pub open spec fn text_of(event: BoardEvent) -> Option<Seq<char>> {
    match event {
        BoardEvent::Posted(text) => Some(text),
        BoardEvent::Turn(received) => received,
    }
}

/// What stands on a board after `events`.
pub open spec fn board_after(board: Seq<char>, events: Seq<BoardEvent>) -> Seq<char>
    decreases events.len(),
{
    if events.len() == 0 {
        board
    } else {
        posted(board_after(board, events.drop_last()), text_of(events.last()))
    }
}

/// What a subscriber who had seen `last` has seen after `events`.
pub open spec fn seen_after(
    board: Seq<char>,
    last: Seq<char>,
    events: Seq<BoardEvent>,
) -> Seq<char>
    decreases events.len(),
{
    if events.len() == 0 {
        last
    } else {
        match events.last() {
            BoardEvent::Posted(_) => seen_after(board, last, events.drop_last()),
            BoardEvent::Turn(_) => board_after(board, events),
        }
    }
}

/// The texts that are handed out to the subscriber in `events`.
pub open spec fn handed_out(
    board: Seq<char>,
    last: Seq<char>,
    events: Seq<BoardEvent>,
) -> Seq<Seq<char>>
    decreases events.len(),
{
    if events.len() == 0 {
        Seq::empty()
    } else {
        let before = handed_out(board, last, events.drop_last());
        match events.last() {
            BoardEvent::Posted(_) => before,
            BoardEvent::Turn(_) => match changed(
                seen_after(board, last, events.drop_last()),
                board_after(board, events),
            ) {
                Some(text) => before.push(text),
                None => before,
            },
        }
    }
}

/// The texts that are posted in `events`.
pub open spec fn posted_texts(events: Seq<BoardEvent>) -> Seq<Seq<char>>
    decreases events.len(),
{
    if events.len() == 0 {
        Seq::empty()
    } else {
        match text_of(events.last()) {
            Some(text) => posted_texts(events.drop_last()).push(text),
            None => posted_texts(events.drop_last()),
        }
    }
}

/// The text in front of the one at `index`; in front of the first stands `first`.
pub open spec fn predecessor(first: Seq<char>, texts: Seq<Seq<char>>, index: int) -> Seq<char> {
    if index == 0 {
        first
    } else {
        texts[index - 1]
    }
}

/// `texts` without those that equal the one in front of them.
pub open spec fn without_repeats(first: Seq<char>, texts: Seq<Seq<char>>) -> Seq<Seq<char>>
    decreases texts.len(),
{
    if texts.len() == 0 {
        Seq::empty()
    } else {
        let before = without_repeats(first, texts.drop_last());
        if texts.last() == predecessor(first, texts, texts.len() - 1) {
            before
        } else {
            before.push(texts.last())
        }
    }
}

/// Nothing is handed out twice in a row, nor what had been seen before the first turn; and what was
/// handed out last is what has been seen. Others may post as they like.
pub proof fn nothing_is_handed_out_twice(
    board: Seq<char>,
    last: Seq<char>,
    events: Seq<BoardEvent>,
)
    ensures
        ({
            let out = handed_out(board, last, events);
            &&& forall|i: int|
                0 <= i < out.len() ==> #[trigger] out[i] != predecessor(last, out, i)
            &&& seen_after(board, last, events) == predecessor(last, out, out.len() as int)
        }),
    decreases events.len(),
{
    if events.len() > 0 {
        nothing_is_handed_out_twice(board, last, events.drop_last());
        let before = handed_out(board, last, events.drop_last());
        let out = handed_out(board, last, events);
        assert forall|i: int| 0 <= i < out.len() implies #[trigger] out[i] != predecessor(
            last,
            out,
            i,
        ) by {
            assert(predecessor(last, out, i) == predecessor(last, before, i));
            if i < before.len() {
                assert(out[i] == before[i]);
            }
        }
    }
}

/// Only what was on the board at first or has been posted is ever handed out.
pub proof fn only_posted_texts_are_handed_out(
    board: Seq<char>,
    last: Seq<char>,
    events: Seq<BoardEvent>,
)
    ensures
        forall|i: int|
            0 <= i < handed_out(board, last, events).len() ==> {
                let text = #[trigger] handed_out(board, last, events)[i];
                text == board || posted_texts(events).contains(text)
            },
    decreases events.len(),
{
    if events.len() > 0 {
        only_posted_texts_are_handed_out(board, last, events.drop_last());
        lemma_board_shows_newest(board, events);
        let before = handed_out(board, last, events.drop_last());
        let out = handed_out(board, last, events);
        let earlier = posted_texts(events.drop_last());
        let posted_so_far = posted_texts(events);
        assert forall|i: int| 0 <= i < out.len() implies {
            let text = #[trigger] out[i];
            text == board || posted_so_far.contains(text)
        } by {
            if i < before.len() {
                assert(out[i] == before[i]);
                if out[i] != board {
                    let j = choose|j: int| 0 <= j < earlier.len() && earlier[j] == before[i];
                    assert(posted_so_far[j] == out[i]);
                }
            } else if posted_so_far.len() > 0 {
                assert(posted_so_far[posted_so_far.len() - 1] == out[i]);
            }
        }
    }
}

/// The board shows the text that was posted last.
proof fn lemma_board_shows_newest(board: Seq<char>, events: Seq<BoardEvent>)
    ensures
        board_after(board, events) == predecessor(
            board,
            posted_texts(events),
            posted_texts(events).len() as int,
        ),
    decreases events.len(),
{
    if events.len() > 0 {
        lemma_board_shows_newest(board, events.drop_last());
    }
}

/// A subscriber who has seen what stands on the board, and is the only one to post, is handed every
/// text that comes, in order, but for those that repeat the one before.
pub proof fn every_new_text_is_handed_out(board: Seq<char>, events: Seq<BoardEvent>)
    requires
        forall|i: int| 0 <= i < events.len() ==> (#[trigger] events[i]) is Turn,
    ensures
        handed_out(board, board, events) == without_repeats(board, posted_texts(events)),
    decreases events.len(),
{
    if events.len() > 0 {
        let before = posted_texts(events.drop_last());
        assert(events.last() is Turn);
        assert forall|i: int| 0 <= i < events.len() - 1 implies (
        #[trigger] events.drop_last()[i]) is Turn by {
            assert(events[i] is Turn);
        }
        every_new_text_is_handed_out(board, events.drop_last());
        lemma_board_shows_newest(board, events.drop_last());
        if events.len() > 1 {
            assert(events.drop_last().last() == events[events.len() - 2]);
        }
        if let Some(text) = text_of(events.last()) {
            assert(posted_texts(events).drop_last() =~= before);
            assert(predecessor(board, posted_texts(events), before.len() as int) == predecessor(
                board,
                before,
                before.len() as int,
            ));
        }
    }
}

/// After a turn, a further one in which nothing comes hands out nothing, whether or not what was
/// handed out could be parsed.
pub proof fn quiet_turn_hands_out_nothing(
    board: Seq<char>,
    last: Seq<char>,
    events: Seq<BoardEvent>,
)
    requires
        events.len() > 0,
        events.last() is Turn,
    ensures
        handed_out(board, last, events.push(BoardEvent::Turn(None))) == handed_out(
            board,
            last,
            events,
        ),
{
    assert(events.push(BoardEvent::Turn(None)).drop_last() =~= events);
}

/// The members of the objects that the subscriber is notified of in `events`.
pub open spec fn notified_in(
    board: Seq<char>,
    last: Seq<char>,
    events: Seq<BoardEvent>,
) -> Seq<Map<Seq<char>, Seq<char>>>
    decreases events.len(),
{
    if events.len() == 0 {
        Seq::empty()
    } else {
        let before = notified_in(board, last, events.drop_last());
        match events.last() {
            BoardEvent::Posted(_) => before,
            BoardEvent::Turn(_) => match notified_object(
                seen_after(board, last, events.drop_last()),
                board_after(board, events),
            ) {
                Some(members) => before.push(members),
                None => before,
            },
        }
    }
}

/// The members of the objects among `texts`, without those texts that hold none.
pub open spec fn objects_of(texts: Seq<Seq<char>>) -> Seq<Map<Seq<char>, Seq<char>>>
    decreases texts.len(),
{
    if texts.len() == 0 {
        Seq::empty()
    } else {
        match json_object(texts.last()) {
            Some(members) => objects_of(texts.drop_last()).push(members),
            None => objects_of(texts.drop_last()),
        }
    }
}

/// A call of [`Publisher::turn`] in which `received` came adds one event to a run: it leaves on the
/// board and with the subscriber, and notifies the subscriber of, what the longer run says.
pub proof fn turn_adds_to_a_run(
    board: Seq<char>,
    last: Seq<char>,
    events: Seq<BoardEvent>,
    received: Option<Seq<char>>,
)
    ensures
        ({
            let longer = events.push(BoardEvent::Turn(received));
            let now = posted(board_after(board, events), received);
            &&& board_after(board, longer) == now
            &&& seen_after(board, last, longer) == now
            &&& notified_in(board, last, longer) == match notified_object(
                seen_after(board, last, events),
                now,
            ) {
                Some(members) => notified_in(board, last, events).push(members),
                None => notified_in(board, last, events),
            }
        }),
{
    assert(events.push(BoardEvent::Turn(received)).drop_last() =~= events);
}

/// A subscriber is notified of what is handed out to it, in order, but for what is no JSON object.
/// Others may post as they like.
pub proof fn notified_of_what_is_handed_out(
    board: Seq<char>,
    last: Seq<char>,
    events: Seq<BoardEvent>,
)
    ensures
        notified_in(board, last, events) == objects_of(handed_out(board, last, events)),
    decreases events.len(),
{
    if events.len() > 0 {
        notified_of_what_is_handed_out(board, last, events.drop_last());
        let before = handed_out(board, last, events.drop_last());
        let out = handed_out(board, last, events);
        if out != before {
            assert(out.drop_last() =~= before);
        }
    }
}

/// A subscriber who has seen what stands on the board, and is the only one to post, is notified of
/// every JSON object that comes, in order, but for texts that repeat the one before.
pub proof fn every_new_object_is_notified(board: Seq<char>, events: Seq<BoardEvent>)
    requires
        forall|i: int| 0 <= i < events.len() ==> (#[trigger] events[i]) is Turn,
    ensures
        notified_in(board, board, events) == objects_of(
            without_repeats(board, posted_texts(events)),
        ),
{
    notified_of_what_is_handed_out(board, board, events);
    every_new_text_is_handed_out(board, events);
}

/// Where nothing is ever posted, a subscriber who has seen what stands on the board is notified of
/// nothing.
pub proof fn nothing_posted_nothing_notified(board: Seq<char>, events: Seq<BoardEvent>)
    requires
        forall|i: int| 0 <= i < events.len() ==> text_of(#[trigger] events[i]) is None,
    ensures
        notified_in(board, board, events) == Seq::<Map<Seq<char>, Seq<char>>>::empty(),
        board_after(board, events) == board,
        seen_after(board, board, events) == board,
    decreases events.len(),
{
    if events.len() > 0 {
        assert(text_of(events.last()) is None);
        assert forall|i: int| 0 <= i < events.len() - 1 implies text_of(
            #[trigger] events.drop_last()[i],
        ) is None by {
            assert(text_of(events[i]) is None);
        }
        nothing_posted_nothing_notified(board, events.drop_last());
    }
}

/// Someone who subscribes late catches up: over any run of turns in which nothing comes, they are
/// handed what stands on the board once, in the first, and are notified of it if it is a JSON
/// object. Before anything has come, they are handed nothing.
pub proof fn late_subscriber_catches_up(board: Seq<char>, events: Seq<BoardEvent>)
    requires
        events.len() > 0,
        forall|i: int| 0 <= i < events.len() ==> #[trigger] events[i] == BoardEvent::Turn(None),
    ensures
        handed_out(board, Seq::empty(), events) == if board.len() == 0 {
            Seq::<Seq<char>>::empty()
        } else {
            seq![board]
        },
        notified_in(board, Seq::empty(), events) == match json_object(board) {
            Some(members) => if board.len() == 0 {
                Seq::<Map<Seq<char>, Seq<char>>>::empty()
            } else {
                seq![members]
            },
            None => Seq::empty(),
        },
        board_after(board, events) == board,
    decreases events.len(),
{
    let before = events.drop_last();
    let nothing = Seq::<char>::empty();
    assert(events.last() == BoardEvent::Turn(None));
    assert(board.len() == 0 ==> board =~= nothing);
    if before.len() == 0 {
        assert(handed_out(board, nothing, before) =~= Seq::empty());
        assert(handed_out(board, nothing, events) =~= if board.len() == 0 {
            Seq::<Seq<char>>::empty()
        } else {
            seq![board]
        });
    } else {
        assert forall|i: int| 0 <= i < before.len() implies #[trigger] before[i]
            == BoardEvent::Turn(None) by {
            assert(events[i] == BoardEvent::Turn(None));
        }
        late_subscriber_catches_up(board, before);
        assert(before.last() == BoardEvent::Turn(None));
    }
    notified_of_what_is_handed_out(board, nothing, events);
    assert(objects_of(Seq::empty()) =~= Seq::empty());
    assert(seq![board].drop_last() =~= Seq::empty());
    assert(objects_of(seq![board]) =~= match json_object(board) {
        Some(members) => seq![members],
        None => Seq::empty(),
    });
}

/// What has been received takes the place of what stood on the board, and without it the board stays
/// as it was. Whoever sees another text than the last is handed it and notified of its object, and
/// whoever sees the same is not.
pub proof fn new_texts_are_shown_and_handed_out(
    board: Seq<char>,
    last: Seq<char>,
    text: Seq<char>,
    received: String,
)
    ensures
        Reception::Received(received)@ == Some(received@),
        Reception::Busy@ is None,
        Reception::Nothing@ is None,
        posted(board, Some(text)) == text,
        posted(board, None) == board,
        changed(last, last) is None,
        last != text ==> changed(last, text) == Some(text),
        notified_object(last, last) is None,
        last != text ==> notified_object(last, text) == json_object(text),
{
}

/// The board shows the text that came last, whoever posted it, however many turns bring nothing
/// after that.
pub proof fn board_shows_what_came_last(
    board: Seq<char>,
    events: Seq<BoardEvent>,
    at: int,
    text: Seq<char>,
)
    requires
        0 <= at < events.len(),
        events[at] == BoardEvent::Posted(text) || events[at] == BoardEvent::Turn(Some(text)),
        forall|i: int| at < i < events.len() ==> #[trigger] events[i] == BoardEvent::Turn(None),
    ensures
        board_after(board, events) == text,
    decreases events.len(),
{
    if at < events.len() - 1 {
        let before = events.drop_last();
        assert(events[events.len() - 1] == BoardEvent::Turn(None));
        assert forall|i: int| at < i < before.len() implies #[trigger] before[i]
            == BoardEvent::Turn(None) by {
            assert(events[i] == BoardEvent::Turn(None));
        }
        board_shows_what_came_last(board, before, at, text);
    }
}

/// A turn that brings a text hands it out, unless it is what was seen last, and has then seen it;
/// a text that someone else posts is shown, but neither handed out nor seen before the next turn.
pub proof fn turns_hand_out_and_posts_do_not(
    board: Seq<char>,
    last: Seq<char>,
    events: Seq<BoardEvent>,
    text: Seq<char>,
)
    ensures
        ({
            let seen = seen_after(board, last, events);
            let out = handed_out(board, last, events);
            let turned = events.push(BoardEvent::Turn(Some(text)));
            let posted_too = events.push(BoardEvent::Posted(text));
            &&& board_after(board, turned) == text
            &&& seen_after(board, last, turned) == text
            &&& handed_out(board, last, turned) == if seen == text {
                out
            } else {
                out.push(text)
            }
            &&& board_after(board, posted_too) == text
            &&& seen_after(board, last, posted_too) == seen
            &&& handed_out(board, last, posted_too) == out
            &&& notified_in(board, last, posted_too) == notified_in(board, last, events)
        }),
{
    assert(events.push(BoardEvent::Turn(Some(text))).drop_last() =~= events);
    assert(events.push(BoardEvent::Posted(text)).drop_last() =~= events);
}

} // verus!
