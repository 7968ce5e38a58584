//! The conversation history kept in a user's session.

use vstd::prelude::*;

verus! {

#[verifier::external_type_specification]
#[verifier::external_body]
pub struct ExSession(tower_sessions::Session);

/// Who said a turn of the conversation.
#[derive(Clone, Copy, Debug, PartialEq, Eq, Structural)]
pub enum Role {
    System,
    User,
    Assistant,
}

/// What a turn holds.
pub enum TurnData {
    Text(String),
}

/// One turn of the conversation.
pub struct Turn {
    pub role: Role,
    pub data: Option<TurnData>,
}

/// The abstract content of a turn: its role and its text, if any.
pub open spec fn turn_view(t: Turn) -> (Role, Option<Seq<char>>) {
    (
        t.role,
        match t.data {
            Some(TurnData::Text(s)) => Some(s@),
            None => None,
        },
    )
}

/// The turns of a conversation, oldest first.
pub struct MessagesData(Vec<Turn>);

impl View for MessagesData {
    type V = Seq<(Role, Option<Seq<char>>)>;

    closed spec fn view(&self) -> Self::V {
        self.0@.map_values(|t: Turn| turn_view(t))
    }
}

impl MessagesData {
    /// An empty conversation.
    pub fn new() -> (d: Self)
        ensures
            d@ == Seq::<(Role, Option<Seq<char>>)>::empty(),
    {
        let d = MessagesData(Vec::new());
        assert(d@ =~= Seq::<(Role, Option<Seq<char>>)>::empty());
        d
    }

    /// The number of turns.
    pub fn len(&self) -> (n: usize)
        ensures
            n == self@.len(),
    {
        self.0.len()
    }

    /// The turns, oldest first.
    pub fn turns(&self) -> (t: &Vec<Turn>)
        ensures
            t@.map_values(|t: Turn| turn_view(t)) == self@,
    {
        &self.0
    }

    /// Appends a turn.
    pub fn push(&mut self, turn: Turn)
        ensures
            final(self)@ == old(self)@.push(turn_view(turn)),
    {
        self.0.push(turn);
        proof {
            assert(self@ =~= old(self)@.push(turn_view(turn)));
        }
    }
}

impl MessagesData {
    /// The conversation made of `turns`, oldest first.
    pub fn from_turns(turns: Vec<Turn>) -> (d: Self)
        ensures
            d@ == turns@.map_values(|t: Turn| turn_view(t)),
    {
        MessagesData(turns)
    }

    /// The turns of the conversation, oldest first.
    pub fn into_turns(self) -> (turns: Vec<Turn>)
        ensures
            turns@.map_values(|t: Turn| turn_view(t)) == self@,
    {
        self.0
    }
}

/// A conversation stored as its list of turns and loaded back from that
/// list is the same conversation, and a list made into a conversation and
/// taken back out is the same list of turns.
pub proof fn lemma_turns_round_trip(d: MessagesData, turns: Seq<Turn>, back: MessagesData)
    requires
        turns.map_values(|t: Turn| turn_view(t)) == d@,
        back@ == turns.map_values(|t: Turn| turn_view(t)),
    ensures
        back@ == d@,
        back@.len() == turns.len(),
        forall|i: int| 0 <= i < turns.len() ==> #[trigger] back@[i] == turn_view(turns[i]),
{
}

impl Default for MessagesData {
    fn default() -> (d: Self)
        ensures
            d@ == Seq::<(Role, Option<Seq<char>>)>::empty(),
    {
        MessagesData::new()
    }
}

/// A user's conversation together with the session it is stored in.
pub struct Messages {
    pub data: MessagesData,
    pub session: tower_sessions::Session,
}

impl Messages {
    /// The session key the conversation is stored under.
    pub const MESSAGE_KEY: &'static str = "MESSAGES";

    /// Appends a text turn said by `role`; the earlier turns stay as they
    /// were, and the session is left for the caller to update.
    pub fn push_msg(&mut self, role: Role, content: String)
        ensures
            final(self).data@ == old(self).data@.push((role, Some(content@))),
            final(self).session == old(self).session,
    {
        let turn = Turn { role, data: Some(TurnData::Text(content)) };
        self.data.push(turn);
    }
}

} // verus!
