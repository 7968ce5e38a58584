use std::future::Future;
use std::pin::Pin;
use std::sync::Arc;

use model_serving::web_service::messages::{Messages, MessagesData, Role, Turn, TurnData};
use model_serving::web_service::routes::{
    chat_step, error_response, keep_ok, ChatAction, ChatEvent, ChatState, ClientMessage, REPLY_END,
};
use tower_sessions::session::{Id, Record};
use tower_sessions::session_store;
use tower_sessions::{Session, SessionStore};

#[derive(Debug)]
struct NullStore;

impl SessionStore for NullStore {
    fn save<'life0, 'life1, 'async_trait>(
        &'life0 self,
        _session_record: &'life1 Record,
    ) -> Pin<Box<dyn Future<Output = session_store::Result<()>> + Send + 'async_trait>>
    where
        'life0: 'async_trait,
        'life1: 'async_trait,
        Self: 'async_trait,
    {
        Box::pin(async { Ok(()) })
    }

    fn load<'life0, 'life1, 'async_trait>(
        &'life0 self,
        _session_id: &'life1 Id,
    ) -> Pin<Box<dyn Future<Output = session_store::Result<Option<Record>>> + Send + 'async_trait>>
    where
        'life0: 'async_trait,
        'life1: 'async_trait,
        Self: 'async_trait,
    {
        Box::pin(async { Ok(None) })
    }

    fn delete<'life0, 'life1, 'async_trait>(
        &'life0 self,
        _session_id: &'life1 Id,
    ) -> Pin<Box<dyn Future<Output = session_store::Result<()>> + Send + 'async_trait>>
    where
        'life0: 'async_trait,
        'life1: 'async_trait,
        Self: 'async_trait,
    {
        Box::pin(async { Ok(()) })
    }
}

fn text_of(t: &Turn) -> Option<&str> {
    match &t.data {
        Some(TurnData::Text(s)) => Some(s.as_str()),
        None => None,
    }
}

#[test]
fn push_msg_appends_turns_in_order() {
    let mut m = Messages { data: MessagesData::default(), session: Session::new(None, Arc::new(NullStore), None) };
    m.push_msg(Role::User, "hello".to_string());
    m.push_msg(Role::Assistant, "hi there".to_string());
    assert_eq!(m.data.len(), 2);
    let turns = m.data.turns();
    assert_eq!(turns[0].role, Role::User);
    assert_eq!(text_of(&turns[0]), Some("hello"));
    assert_eq!(turns[1].role, Role::Assistant);
    assert_eq!(text_of(&turns[1]), Some("hi there"));
    assert_eq!(Messages::MESSAGE_KEY, "MESSAGES");
}

#[test]
fn messages_data_starts_empty() {
    let mut d = MessagesData::new();
    assert_eq!(d.len(), 0);
    d.push(Turn { role: Role::System, data: None });
    assert_eq!(d.len(), 1);
    assert_eq!(text_of(&d.turns()[0]), None);
}

#[test]
fn keep_ok_drops_failures() {
    let items: Vec<Result<&str, u8>> = vec![Ok("model1"), Err(1), Ok("model2"), Ok("model3"), Err(2)];
    assert_eq!(keep_ok(items), vec!["model1", "model2", "model3"]);
    assert_eq!(keep_ok(Vec::<Result<u8, u8>>::new()), Vec::<u8>::new());
}

#[test]
fn error_response_is_internal_error() {
    let (status, body) = error_response("Missing gprc client");
    assert_eq!(status, 500);
    assert_eq!(body, "something went wrong: Missing gprc client");
}

fn text(a: &ChatAction) -> Option<&str> {
    match a {
        ChatAction::OpenStream(s) | ChatAction::Forward(s) => Some(s.as_str()),
        _ => None,
    }
}

#[test]
fn chat_answers_a_query_word_by_word() {
    let (s, a) = chat_step(ChatState::Listening, ChatEvent::Received(ClientMessage::Text("joke?".to_string())));
    assert_eq!(s, ChatState::AwaitingStream);
    assert!(matches!(a, ChatAction::OpenStream(_)));
    assert_eq!(text(&a), Some("joke?"));
    let (s, a) = chat_step(s, ChatEvent::StreamOpened);
    assert_eq!(s, ChatState::Streaming);
    assert!(matches!(a, ChatAction::Wait));
    let (s, a) = chat_step(s, ChatEvent::Word("knock".to_string()));
    assert_eq!(s, ChatState::Streaming);
    assert_eq!(text(&a), Some("knock"));
    assert!(matches!(a, ChatAction::Forward(_)));
    let (s, a) = chat_step(s, ChatEvent::StreamEnded);
    assert_eq!(s, ChatState::Listening);
    assert!(matches!(a, ChatAction::EndReply));
    assert_eq!(REPLY_END, "\r\n");
}

#[test]
fn chat_ignores_other_frames_and_closes() {
    let (s, a) = chat_step(ChatState::Listening, ChatEvent::Received(ClientMessage::Other));
    assert_eq!(s, ChatState::Listening);
    assert!(matches!(a, ChatAction::Wait));
    let (s, a) = chat_step(s, ChatEvent::ReceiveEnded);
    assert_eq!(s, ChatState::Closed);
    assert!(matches!(a, ChatAction::Close));
    let (s, a) = chat_step(s, ChatEvent::Word("late".to_string()));
    assert_eq!(s, ChatState::Closed);
    assert!(matches!(a, ChatAction::Close));
}

#[test]
fn chat_closes_when_model_service_unreachable() {
    let (s, a) = chat_step(ChatState::AwaitingStream, ChatEvent::StreamFailed);
    assert_eq!(s, ChatState::Closed);
    assert!(matches!(a, ChatAction::Close));
}

#[test]
fn chat_out_of_turn_event_changes_nothing() {
    let (s, a) = chat_step(ChatState::Listening, ChatEvent::Word("w".to_string()));
    assert_eq!(s, ChatState::Listening);
    assert!(matches!(a, ChatAction::Wait));
}

fn run_chat(events: Vec<ChatEvent>) -> (ChatState, Vec<String>) {
    let mut state = ChatState::Listening;
    let mut out = vec![];
    for e in events {
        if state == ChatState::Closed {
            break;
        }
        let (next, action) = chat_step(state, e);
        state = next;
        match action {
            ChatAction::OpenStream(q) => out.push(format!("open:{q}")),
            ChatAction::Forward(w) => out.push(format!("send:{w}")),
            ChatAction::EndReply => out.push("end".to_string()),
            ChatAction::Close => out.push("close".to_string()),
            ChatAction::Wait => {}
        }
    }
    (state, out)
}

fn events(with_other: bool) -> Vec<ChatEvent> {
    let mut v = vec![ChatEvent::Received(ClientMessage::Text("q".to_string()))];
    if with_other {
        v.push(ChatEvent::Received(ClientMessage::Other));
    }
    v.push(ChatEvent::StreamOpened);
    v.push(ChatEvent::Word("a".to_string()));
    v.push(ChatEvent::StreamEnded);
    if with_other {
        v.push(ChatEvent::Received(ClientMessage::Other));
    }
    v.push(ChatEvent::ReceiveEnded);
    v
}

#[test]
fn other_frames_change_nothing() {
    let plain = run_chat(events(false));
    assert_eq!(plain.0, ChatState::Closed);
    assert_eq!(plain.1, vec!["open:q", "send:a", "end", "close"]);
    assert_eq!(run_chat(events(true)), plain);
}

#[test]
fn turns_round_trip() {
    let d = MessagesData::from_turns(vec![
        Turn { role: Role::User, data: Some(TurnData::Text("hi".to_string())) },
        Turn { role: Role::Assistant, data: None },
    ]);
    assert_eq!(d.len(), 2);
    let turns = d.into_turns();
    assert_eq!(turns.len(), 2);
    assert_eq!(turns[0].role, Role::User);
    assert_eq!(text_of(&turns[0]), Some("hi"));
    assert_eq!(turns[1].role, Role::Assistant);
    let back = MessagesData::from_turns(turns);
    assert_eq!(text_of(&back.turns()[0]), Some("hi"));
}
