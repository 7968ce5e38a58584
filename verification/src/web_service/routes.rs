//! The decisions of the web routes: which model listings are kept, and the
//! turn-taking of the chat socket.

use vstd::prelude::*;

verus! {

/// The successful values of `items`, in order.
pub open spec fn ok_values<T, E>(items: Seq<Result<T, E>>) -> Seq<T>
    decreases items.len(),
{
    if items.len() == 0 {
        Seq::empty()
    } else {
        let rest = ok_values(items.drop_last());
        match items.last() {
            Ok(v) => rest.push(v),
            Err(_) => rest,
        }
    }
}

/// Keeps the items a stream delivered successfully, in order, and drops the
/// failed ones.
pub fn keep_ok<T, E>(items: Vec<Result<T, E>>) -> (r: Vec<T>)
    ensures
        r@ == ok_values(items@),
        r@ == items@.filter(|x: Result<T, E>| x is Ok).map_values(|x: Result<T, E>| x->Ok_0),
        (forall|i: int| 0 <= i < items@.len() ==> #[trigger] items@[i] is Ok) ==> r@
            == items@.map_values(|x: Result<T, E>| x->Ok_0),
{
    let ghost all = items@;
    let mut r: Vec<T> = Vec::new();
    for x in it: items.into_iter()
        invariant
            it.seq() == all,
            r@ == ok_values(all.take(it.index() as int)),
    {
        proof {
            assert(all.take(it.index() as int + 1).drop_last() =~= all.take(it.index() as int));
        }
        match x {
            Ok(v) => r.push(v),
            Err(_) => {},
        }
    }
    proof {
        assert(all.take(all.len() as int) =~= all);
        lemma_ok_values_filter(all);
        lemma_ok_values_all_ok(all);
    }
    r
}

/// The successful values are exactly the `Ok` items, in order, with their
/// values taken out; nothing else is kept and none is dropped.
pub proof fn lemma_ok_values_filter<T, E>(items: Seq<Result<T, E>>)
    ensures
        ok_values(items) == items.filter(|x: Result<T, E>| x is Ok).map_values(
            |x: Result<T, E>| x->Ok_0,
        ),
    decreases items.len(),
{
    reveal(Seq::filter);
    if items.len() > 0 {
        lemma_ok_values_filter(items.drop_last());
        let sub = items.drop_last().filter(|x: Result<T, E>| x is Ok);
        assert(items.filter(|x: Result<T, E>| x is Ok) == (if items.last() is Ok {
            sub.push(items.last())
        } else {
            sub
        }));
        match items.last() {
            Ok(v) => {
                assert(sub.push(items.last()).map_values(|x: Result<T, E>| x->Ok_0) =~= sub.map_values(
                    |x: Result<T, E>| x->Ok_0,
                ).push(v));
            },
            Err(_) => {},
        }
    } else {
        assert(items.filter(|x: Result<T, E>| x is Ok).map_values(|x: Result<T, E>| x->Ok_0)
            =~= Seq::<T>::empty());
    }
}

/// Where every item was delivered, every value is kept, in order.
pub proof fn lemma_ok_values_all_ok<T, E>(items: Seq<Result<T, E>>)
    ensures
        (forall|i: int| 0 <= i < items.len() ==> #[trigger] items[i] is Ok) ==> ok_values(items)
            == items.map_values(|x: Result<T, E>| x->Ok_0),
    decreases items.len(),
{
    let f = |x: Result<T, E>| x->Ok_0;
    if items.len() > 0 && (forall|i: int| 0 <= i < items.len() ==> #[trigger] items[i] is Ok) {
        let init = items.drop_last();
        assert forall|i: int| 0 <= i < init.len() implies #[trigger] init[i] is Ok by {
            assert(init[i] == items[i]);
        }
        lemma_ok_values_all_ok(init);
        assert(items[items.len() - 1] is Ok);
        assert(items.map_values(f) =~= init.map_values(f).push(items.last()->Ok_0));
    } else if items.len() == 0 {
        assert(items.map_values(f) =~= Seq::<T>::empty());
    }
}

/// What a chat socket is doing.
#[derive(Clone, Copy, Debug, PartialEq, Eq, Structural)]
pub enum ChatState {
    /// Waiting for the client's next message.
    Listening,
    /// A query was sent to the model service; its token stream is awaited.
    AwaitingStream,
    /// Words of the reply are arriving.
    Streaming,
    /// The socket is done.
    Closed,
}

/// A message the client sent over the socket.
pub enum ClientMessage {
    /// A text message: a query for the model.
    Text(String),
    /// Any other frame (binary, ping, ...).
    Other,
}

/// What happened on the socket or on the model's token stream.
pub enum ChatEvent {
    /// The client sent a message.
    Received(ClientMessage),
    /// The client side ended or failed.
    ReceiveEnded,
    /// The model service answered with a token stream.
    StreamOpened,
    /// The model service could not be reached.
    StreamFailed,
    /// The token stream delivered a word.
    Word(String),
    /// The token stream ended or failed.
    StreamEnded,
}

/// What the socket handler does next.
pub enum ChatAction {
    /// Ask the model service for a token stream answering the query.
    OpenStream(String),
    /// Send a word of the reply to the client.
    Forward(String),
    /// Send the end of the reply (`REPLY_END`) to the client.
    EndReply,
    /// Nothing to do but wait for the next event.
    Wait,
    /// Close the socket.
    Close,
}

/// The text that ends each reply on the chat socket.
pub const REPLY_END: &'static str = "\r\n";

/// The turn-taking of the chat socket. Text queries are answered one at a
/// time: the reply's words are forwarded as they arrive and the reply ends
/// with `REPLY_END`. Other frames are ignored; the socket closes when the
/// client goes away or the model service cannot be reached. An event that
/// does not fit the state changes nothing.
pub open spec fn chat_transition(state: ChatState, event: ChatEvent) -> (ChatState, ChatAction) {
    match (state, event) {
        (ChatState::Closed, _) => (ChatState::Closed, ChatAction::Close),
        (ChatState::Listening, ChatEvent::Received(ClientMessage::Text(q))) => (
            ChatState::AwaitingStream,
            ChatAction::OpenStream(q),
        ),
        (ChatState::Listening, ChatEvent::Received(ClientMessage::Other)) => (
            ChatState::Listening,
            ChatAction::Wait,
        ),
        (ChatState::Listening, ChatEvent::ReceiveEnded) => (ChatState::Closed, ChatAction::Close),
        (ChatState::AwaitingStream, ChatEvent::StreamOpened) => (
            ChatState::Streaming,
            ChatAction::Wait,
        ),
        (ChatState::AwaitingStream, ChatEvent::StreamFailed) => (
            ChatState::Closed,
            ChatAction::Close,
        ),
        (ChatState::Streaming, ChatEvent::Word(w)) => (ChatState::Streaming, ChatAction::Forward(w)),
        (ChatState::Streaming, ChatEvent::StreamEnded) => (ChatState::Listening, ChatAction::EndReply),
        (s, _) => (s, ChatAction::Wait),
    }
}

/// One step of the chat socket: the next state and action for an event.
pub fn chat_step(state: ChatState, event: ChatEvent) -> (r: (ChatState, ChatAction))
    ensures
        r == chat_transition(state, event),
{
    match (state, event) {
        (ChatState::Closed, _) => (ChatState::Closed, ChatAction::Close),
        (ChatState::Listening, ChatEvent::Received(ClientMessage::Text(q))) => (
            ChatState::AwaitingStream,
            ChatAction::OpenStream(q),
        ),
        (ChatState::Listening, ChatEvent::Received(ClientMessage::Other)) => (
            ChatState::Listening,
            ChatAction::Wait,
        ),
        (ChatState::Listening, ChatEvent::ReceiveEnded) => (ChatState::Closed, ChatAction::Close),
        (ChatState::AwaitingStream, ChatEvent::StreamOpened) => (
            ChatState::Streaming,
            ChatAction::Wait,
        ),
        (ChatState::AwaitingStream, ChatEvent::StreamFailed) => (
            ChatState::Closed,
            ChatAction::Close,
        ),
        (ChatState::Streaming, ChatEvent::Word(w)) => (ChatState::Streaming, ChatAction::Forward(w)),
        (ChatState::Streaming, ChatEvent::StreamEnded) => (ChatState::Listening, ChatAction::EndReply),
        (s, _) => (s, ChatAction::Wait),
    }
}

/// The state and the actions after a sequence of events; once the socket
/// is closed, later events are not read.
pub open spec fn chat_run(state: ChatState, events: Seq<ChatEvent>) -> (ChatState, Seq<ChatAction>)
    decreases events.len(),
{
    if events.len() == 0 || state == ChatState::Closed {
        (state, Seq::empty())
    } else {
        let (next, action) = chat_transition(state, events[0]);
        let (last, rest) = chat_run(next, events.drop_first());
        (last, seq![action] + rest)
    }
}

/// The words of a reply, as stream events.
pub open spec fn word_events(words: Seq<String>) -> Seq<ChatEvent> {
    words.map_values(|w: String| ChatEvent::Word(w))
}

/// The words of a reply, as forwarding actions.
pub open spec fn forward_actions(words: Seq<String>) -> Seq<ChatAction> {
    words.map_values(|w: String| ChatAction::Forward(w))
}

/// A reply reaches the client whole and in order: a query answered by a
/// stream of words is forwarded word by word, then ended with
/// `REPLY_END`, and the socket listens again.
pub proof fn lemma_reply_forwarded_in_order(query: String, words: Seq<String>)
    ensures
        chat_run(
            ChatState::Listening,
            seq![ChatEvent::Received(ClientMessage::Text(query)), ChatEvent::StreamOpened]
                + word_events(words) + seq![ChatEvent::StreamEnded],
        ) == (
            ChatState::Listening,
            seq![ChatAction::OpenStream(query), ChatAction::Wait] + forward_actions(words)
                + seq![ChatAction::EndReply],
        ),
{
    let e = seq![ChatEvent::Received(ClientMessage::Text(query)), ChatEvent::StreamOpened]
        + word_events(words) + seq![ChatEvent::StreamEnded];
    assert(e.drop_first().drop_first() =~= word_events(words) + seq![ChatEvent::StreamEnded]);
    assert(e.drop_first()[0] == ChatEvent::StreamOpened);
    assert(e[0] == ChatEvent::Received(ClientMessage::Text(query)));
    assert(chat_transition(ChatState::Listening, e[0]) == (ChatState::AwaitingStream, ChatAction::OpenStream(query)));
    assert(chat_transition(ChatState::AwaitingStream, e.drop_first()[0]) == (ChatState::Streaming, ChatAction::Wait));
    lemma_streaming_words(words);
    let e1 = e.drop_first();
    let tail = forward_actions(words) + seq![ChatAction::EndReply];
    assert(e1.drop_first() =~= word_events(words) + seq![ChatEvent::StreamEnded]);
    assert(chat_run(ChatState::AwaitingStream, e1) == (ChatState::Listening, seq![ChatAction::Wait] + tail));
    assert(chat_run(ChatState::Listening, e) == (
        ChatState::Listening,
        seq![ChatAction::OpenStream(query)] + (seq![ChatAction::Wait] + tail),
    ));
    assert(seq![ChatAction::Wait] + (forward_actions(words) + seq![ChatAction::EndReply])
        =~= seq![ChatAction::Wait] + forward_actions(words) + seq![ChatAction::EndReply]);
    assert(seq![ChatAction::OpenStream(query)] + (seq![ChatAction::Wait] + forward_actions(words)
        + seq![ChatAction::EndReply]) =~= seq![ChatAction::OpenStream(query), ChatAction::Wait]
        + forward_actions(words) + seq![ChatAction::EndReply]);
}

proof fn lemma_streaming_words(words: Seq<String>)
    ensures
        chat_run(ChatState::Streaming, word_events(words) + seq![ChatEvent::StreamEnded]) == (
            ChatState::Listening,
            forward_actions(words) + seq![ChatAction::EndReply],
        ),
    decreases words.len(),
{
    let e = word_events(words) + seq![ChatEvent::StreamEnded];
    if words.len() == 0 {
        assert(e =~= seq![ChatEvent::StreamEnded]);
        assert(e.drop_first() =~= Seq::<ChatEvent>::empty());
        assert(chat_transition(ChatState::Streaming, e[0]) == (ChatState::Listening, ChatAction::EndReply));
        assert(chat_run(ChatState::Listening, e.drop_first()) == (ChatState::Listening, Seq::<ChatAction>::empty()));
        assert(seq![ChatAction::EndReply] + Seq::<ChatAction>::empty() =~= seq![ChatAction::EndReply]);
        assert(forward_actions(words) + seq![ChatAction::EndReply] =~= seq![ChatAction::EndReply]);
    } else {
        let rest = words.drop_first();
        lemma_streaming_words(rest);
        assert(e[0] == ChatEvent::Word(words[0]));
        assert(e.drop_first() =~= word_events(rest) + seq![ChatEvent::StreamEnded]);
        assert(chat_transition(ChatState::Streaming, e[0]) == (ChatState::Streaming, ChatAction::Forward(words[0])));
        assert(forward_actions(words) + seq![ChatAction::EndReply] =~= seq![ChatAction::Forward(words[0])]
            + (forward_actions(rest) + seq![ChatAction::EndReply]));
    }
}

/// The actions that do something: every action but `Wait`.
pub open spec fn effects(actions: Seq<ChatAction>) -> Seq<ChatAction>
    decreases actions.len(),
{
    if actions.len() == 0 {
        Seq::empty()
    } else if actions[0] is Wait {
        effects(actions.drop_first())
    } else {
        seq![actions[0]] + effects(actions.drop_first())
    }
}

/// A frame other than text, wherever it comes, is neither answered nor ends
/// the socket: with it, the socket reaches the same state and makes the same
/// requests and sends the same messages as without it.
pub proof fn lemma_other_frame_changes_nothing(state: ChatState, a: Seq<ChatEvent>, b: Seq<ChatEvent>)
    ensures
        chat_run(state, a + seq![ChatEvent::Received(ClientMessage::Other)] + b).0 == chat_run(
            state,
            a + b,
        ).0,
        effects(chat_run(state, a + seq![ChatEvent::Received(ClientMessage::Other)] + b).1)
            == effects(chat_run(state, a + b).1),
    decreases a.len(),
{
    let other = ChatEvent::Received(ClientMessage::Other);
    let with = a + seq![other] + b;
    let without = a + b;
    if state == ChatState::Closed {
    } else if a.len() == 0 {
        assert(with =~= seq![other] + b);
        assert(without =~= b);
        assert(with[0] == other);
        assert(with.drop_first() =~= b);
        assert(chat_transition(state, other) == (state, ChatAction::Wait));
        let rest = chat_run(state, b).1;
        assert(chat_run(state, with).1 == seq![ChatAction::Wait] + rest);
        assert((seq![ChatAction::Wait] + rest)[0] is Wait);
        assert((seq![ChatAction::Wait] + rest).drop_first() =~= rest);
    } else {
        let (next, action) = chat_transition(state, a[0]);
        lemma_other_frame_changes_nothing(next, a.drop_first(), b);
        assert(with[0] == a[0]);
        assert(without[0] == a[0]);
        assert(with.drop_first() =~= a.drop_first() + seq![other] + b);
        assert(without.drop_first() =~= a.drop_first() + b);
        let r1 = chat_run(next, with.drop_first()).1;
        let r2 = chat_run(next, without.drop_first()).1;
        assert(chat_run(state, with).1 == seq![action] + r1);
        assert(chat_run(state, without).1 == seq![action] + r2);
        assert((seq![action] + r1)[0] == action);
        assert((seq![action] + r2)[0] == action);
        assert((seq![action] + r1).drop_first() =~= r1);
        assert((seq![action] + r2).drop_first() =~= r2);
    }
}

/// The status and body of the answer to a failed request.
pub open spec fn error_response_spec(message: Seq<char>) -> (u16, Seq<char>) {
    (
        500,
        seq!['s', 'o', 'm', 'e', 't', 'h', 'i', 'n', 'g', ' ', 'w', 'e', 'n', 't', ' ', 'w', 'r', 'o', 'n', 'g', ':', ' ']
            + message,
    )
}

/// The answer to a failed request: status 500 (internal server error) and
/// the error's message after `something went wrong: `.
pub fn error_response(message: &str) -> (r: (u16, String))
    ensures
        (r.0, r.1@) == error_response_spec(message@),
{
    proof { reveal_strlit("something went wrong: "); }
    let mut body = String::from_str("something went wrong: ");
    body.append(message);
    (500, body)
}

} // verus!
