//! The per-conversation linking flow. Each conversation walks from `Start`
//! through asking for a handle, an address and a credential; the flow is a
//! pure transition from state and event to next state and actions. The
//! surrounding program performs the actions (replies, profile reads and
//! writes, reconciliation passes) and hands results back as events.
//!
//! A command that arrives in the middle of the flow cancels it, says so, and
//! is then handled as from `Start`.
use vstd::prelude::*;
use vstd::utf8::encode_utf8;
use std::collections::HashMap;

use crate::address::{checksum_text, parsed_address, Address};
use crate::bio::{embedded_address, extract, rewrite_bio, rewritten_bio};
use crate::credential::{credential_subject, uid_from_credential};
use crate::reconcile::UserProfile;

verus! {

broadcast use vstd::std_specs::hash::group_hash_axioms;

/// A command from the chat.
#[derive(Clone, Debug, PartialEq, Eq)]
pub enum Command {
    Help,
    Link,
    Register { username: String },
    Unregister { username: String },
    Update { username: String },
    Check { username: String },
    Cancel,
}

/// Where a conversation stands in the linking flow.
#[derive(Clone, Debug, PartialEq, Eq)]
pub enum ChatState {
    Start,
    LinkReceiveUsername,
    LinkReceiveAddress { username: String },
    LinkReceiveJwt { username: String, address: Address },
}

/// Something that happened in a conversation: a message, or the result of an
/// action the flow asked for.
#[derive(Clone, Debug)]
pub enum Event {
    Command(Command),
    Text(String),
    /// A message that carries no text.
    NoText,
    /// The result of `Action::LookupUser`.
    UserLookedUp { username: String, profile: Option<UserProfile> },
    /// The result of `Action::ReadProfile`: the bio, or none where the read
    /// failed.
    ProfileRead { uid: u64, credential: String, bio: Option<String> },
    /// The result of `Action::WriteBio`.
    BioWritten { ok: bool },
}

/// A message to send back.
#[derive(Clone, Debug, PartialEq, Eq)]
pub enum Reply {
    Help,
    /// Text that is no command, outside the flow.
    Usage,
    Cancelled,
    /// The flow starts; asks for the handle.
    AskUsername,
    UserNotFound,
    /// The handle was found; asks for the address.
    AskAddress,
    /// The profile already embeds this address.
    AlreadyLinked(Address),
    InvalidAddress,
    AskCredential,
    InvalidCredential,
    Linking,
    Linked,
    LinkFailed,
    SendUsername,
    SendAddress,
    SendCredential,
}

/// The reconciliation passes a command can ask for.
#[derive(Clone, Copy, Debug, PartialEq, Eq, Structural)]
pub enum Pass {
    Check,
    RegisterOrUpdate,
    UpdateRewards,
    Unregister,
}

/// Work for the surrounding program.
#[derive(Clone, Debug, PartialEq, Eq)]
pub enum Action {
    Reply(Reply),
    /// Delete the message just received: it held a credential.
    DeleteIncoming,
    /// Look a profile up by handle; answer with `Event::UserLookedUp`.
    LookupUser { username: String },
    /// Read the profile with the credential; answer with `Event::ProfileRead`.
    ReadProfile { uid: u64, credential: String },
    /// Overwrite the bio with the credential; answer with `Event::BioWritten`.
    WriteBio { uid: u64, credential: String, bio: String },
    /// Run a reconciliation pass for a handle.
    Reconcile { pass: Pass, username: String },
}

/// A command, as handled from `Start`.
pub open spec fn command_outcome(c: Command) -> (ChatState, Seq<Action>) {
    match c {
        Command::Help => (ChatState::Start, seq![Action::Reply(Reply::Help)]),
        Command::Cancel => (ChatState::Start, seq![Action::Reply(Reply::Cancelled)]),
        Command::Link => (ChatState::LinkReceiveUsername, seq![Action::Reply(Reply::AskUsername)]),
        Command::Register { username } => (
            ChatState::Start,
            seq![Action::Reconcile { pass: Pass::RegisterOrUpdate, username }],
        ),
        Command::Unregister { username } => (
            ChatState::Start,
            seq![Action::Reconcile { pass: Pass::Unregister, username }],
        ),
        Command::Update { username } => (
            ChatState::Start,
            seq![Action::Reconcile { pass: Pass::UpdateRewards, username }],
        ),
        Command::Check { username } => (
            ChatState::Start,
            seq![Action::Reconcile { pass: Pass::Check, username }],
        ),
    }
}

/// The prompt for a message without text, by state.
pub open spec fn prompt(state: ChatState) -> Reply {
    match state {
        ChatState::Start => Reply::Usage,
        ChatState::LinkReceiveUsername => Reply::SendUsername,
        ChatState::LinkReceiveAddress { .. } => Reply::SendAddress,
        ChatState::LinkReceiveJwt { .. } => Reply::SendCredential,
    }
}

/// Text in a state: a handle to look up, an address to read, a credential to
/// decode. What does not parse is answered with a prompt, in the same state.
pub open spec fn text_transition(state: ChatState, t: String, next: ChatState, actions: Seq<Action>) -> bool {
    match state {
        ChatState::Start => next == state && actions == seq![Action::Reply(Reply::Usage)],
        ChatState::LinkReceiveUsername => next == state && actions == seq![
            Action::LookupUser { username: t },
        ],
        ChatState::LinkReceiveAddress { username } => match parsed_address(t@) {
            Ok(b) => {
                &&& next matches ChatState::LinkReceiveJwt { username: u, address: a } && u == username
                    && a@ == b
                &&& actions == seq![Action::Reply(Reply::AskCredential)]
            },
            Err(_) => next == state && actions == seq![Action::Reply(Reply::InvalidAddress)],
        },
        ChatState::LinkReceiveJwt { .. } => match credential_subject(encode_utf8(t@)) {
            Ok(uid) => next == state && actions == seq![
                Action::DeleteIncoming,
                Action::Reply(Reply::Linking),
                Action::ReadProfile { uid, credential: t },
            ],
            Err(_) => next == state && actions == seq![
                Action::DeleteIncoming,
                Action::Reply(Reply::InvalidCredential),
            ],
        },
    }
}

/// A profile found by handle moves the flow on to the address, mentioning the
/// address the bio already embeds, if any.
pub open spec fn found_transition(username: String, profile: UserProfile, next: ChatState, actions: Seq<Action>) -> bool {
    &&& next == ChatState::LinkReceiveAddress { username }
    &&& match embedded_address(profile.bio@) {
        None => actions == seq![Action::Reply(Reply::AskAddress)],
        Some(b) => {
            &&& actions.len() == 2
            &&& actions[0] matches Action::Reply(Reply::AlreadyLinked(a)) && a@ == b
            &&& actions[1] == Action::Reply(Reply::AskAddress)
        },
    }
}

/// One step of the flow. A command in the middle of the flow first tells the
/// user the flow is cancelled. Results of actions that arrive in a state that
/// did not ask for them change nothing.
pub open spec fn transition(state: ChatState, event: Event, next: ChatState, actions: Seq<Action>) -> bool {
    match event {
        Event::Command(c) => if state is Start || c is Cancel {
            (next, actions) == command_outcome(c)
        } else {
            &&& next == command_outcome(c).0
            &&& actions == seq![Action::Reply(Reply::Cancelled)] + command_outcome(c).1
        },
        Event::Text(t) => text_transition(state, t, next, actions),
        Event::NoText => next == state && actions == seq![Action::Reply(prompt(state))],
        Event::UserLookedUp { username, profile } => match state {
            ChatState::LinkReceiveUsername => match profile {
                None => next == state && actions == seq![Action::Reply(Reply::UserNotFound)],
                Some(p) => found_transition(username, p, next, actions),
            },
            _ => next == state && actions == Seq::<Action>::empty(),
        },
        Event::ProfileRead { uid, credential, bio } => match state {
            ChatState::LinkReceiveJwt { address, .. } => match bio {
                Some(b) => {
                    &&& next == state
                    &&& actions.len() == 1
                    &&& actions[0] matches Action::WriteBio { uid: u, credential: c, bio: nb } && u
                        == uid && c == credential && nb@ == rewritten_bio(
                        b@,
                        checksum_text(address@),
                    )
                },
                None => next == state && actions == seq![Action::Reply(Reply::LinkFailed)],
            },
            _ => next == state && actions == Seq::<Action>::empty(),
        },
        Event::BioWritten { ok } => match state {
            ChatState::LinkReceiveJwt { .. } => if ok {
                next == ChatState::Start && actions == seq![Action::Reply(Reply::Linked)]
            } else {
                next == state && actions == seq![Action::Reply(Reply::LinkFailed)]
            },
            _ => next == state && actions == Seq::<Action>::empty(),
        },
    }
}

fn one(a: Action) -> (v: Vec<Action>)
    ensures
        v@ == seq![a],
{
    let mut v: Vec<Action> = Vec::new();
    v.push(a);
    v
}

fn two(a: Action, b: Action) -> (v: Vec<Action>)
    ensures
        v@ == seq![a, b],
{
    let mut v: Vec<Action> = Vec::new();
    v.push(a);
    v.push(b);
    v
}

fn command_step(c: Command) -> (r: (ChatState, Vec<Action>))
    ensures
        (r.0, r.1@) == command_outcome(c),
{
    match c {
        Command::Help => (ChatState::Start, one(Action::Reply(Reply::Help))),
        Command::Cancel => (ChatState::Start, one(Action::Reply(Reply::Cancelled))),
        Command::Link => (ChatState::LinkReceiveUsername, one(Action::Reply(Reply::AskUsername))),
        Command::Register { username } => (
            ChatState::Start,
            one(Action::Reconcile { pass: Pass::RegisterOrUpdate, username }),
        ),
        Command::Unregister { username } => (
            ChatState::Start,
            one(Action::Reconcile { pass: Pass::Unregister, username }),
        ),
        Command::Update { username } => (
            ChatState::Start,
            one(Action::Reconcile { pass: Pass::UpdateRewards, username }),
        ),
        Command::Check { username } => (
            ChatState::Start,
            one(Action::Reconcile { pass: Pass::Check, username }),
        ),
    }
}

fn text_step(state: ChatState, t: String) -> (r: (ChatState, Vec<Action>))
    ensures
        text_transition(state, t, r.0, r.1@),
{
    match state {
        ChatState::Start => (ChatState::Start, one(Action::Reply(Reply::Usage))),
        ChatState::LinkReceiveUsername => (
            ChatState::LinkReceiveUsername,
            one(Action::LookupUser { username: t }),
        ),
        ChatState::LinkReceiveAddress { username } => match Address::parse(t.as_str()) {
            Ok(address) => (
                ChatState::LinkReceiveJwt { username, address },
                one(Action::Reply(Reply::AskCredential)),
            ),
            Err(_) => (
                ChatState::LinkReceiveAddress { username },
                one(Action::Reply(Reply::InvalidAddress)),
            ),
        },
        ChatState::LinkReceiveJwt { username, address } => match uid_from_credential(t.as_str()) {
            Ok(uid) => {
                let ghost t0 = t;
                let mut v = two(Action::DeleteIncoming, Action::Reply(Reply::Linking));
                v.push(Action::ReadProfile { uid, credential: t });
                assert(v@ =~= seq![Action::DeleteIncoming, Action::Reply(Reply::Linking), Action::ReadProfile { uid, credential: t0 }]);
                (ChatState::LinkReceiveJwt { username, address }, v)
            },
            Err(_) => (
                ChatState::LinkReceiveJwt { username, address },
                two(Action::DeleteIncoming, Action::Reply(Reply::InvalidCredential)),
            ),
        },
    }
}

fn found_step(username: String, profile: UserProfile) -> (r: (ChatState, Vec<Action>))
    ensures
        found_transition(username, profile, r.0, r.1@),
{
    let actions = match extract(profile.bio.as_str()) {
        None => one(Action::Reply(Reply::AskAddress)),
        Some(a) => two(Action::Reply(Reply::AlreadyLinked(a)), Action::Reply(Reply::AskAddress)),
    };
    (ChatState::LinkReceiveAddress { username }, actions)
}

/// Advances a conversation by one event: its next state, and the actions for
/// the surrounding program to perform.
pub fn step(state: ChatState, event: Event) -> (r: (ChatState, Vec<Action>))
    ensures
        transition(state, event, r.0, r.1@),
{
    match event {
        Event::Command(c) => {
            let interrupts = match (&state, &c) {
                (ChatState::Start, _) => false,
                (_, Command::Cancel) => false,
                _ => true,
            };
            let (next, mut actions) = command_step(c);
            if interrupts {
                let mut all = one(Action::Reply(Reply::Cancelled));
                all.append(&mut actions);
                (next, all)
            } else {
                (next, actions)
            }
        },
        Event::Text(t) => text_step(state, t),
        Event::NoText => {
            let reply = match &state {
                ChatState::Start => Reply::Usage,
                ChatState::LinkReceiveUsername => Reply::SendUsername,
                ChatState::LinkReceiveAddress { .. } => Reply::SendAddress,
                ChatState::LinkReceiveJwt { .. } => Reply::SendCredential,
            };
            (state, one(Action::Reply(reply)))
        },
        Event::UserLookedUp { username, profile } => match state {
            ChatState::LinkReceiveUsername => match profile {
                None => (ChatState::LinkReceiveUsername, one(Action::Reply(Reply::UserNotFound))),
                Some(p) => found_step(username, p),
            },
            other => (other, Vec::new()),
        },
        Event::ProfileRead { uid, credential, bio } => match state {
            ChatState::LinkReceiveJwt { username, address } => match bio {
                Some(b) => {
                    let nb = rewrite_bio(b.as_str(), &address);
                    (
                        ChatState::LinkReceiveJwt { username, address },
                        one(Action::WriteBio { uid, credential, bio: nb }),
                    )
                },
                None => (
                    ChatState::LinkReceiveJwt { username, address },
                    one(Action::Reply(Reply::LinkFailed)),
                ),
            },
            other => (other, Vec::new()),
        },
        Event::BioWritten { ok } => match state {
            ChatState::LinkReceiveJwt { username, address } => if ok {
                (ChatState::Start, one(Action::Reply(Reply::Linked)))
            } else {
                (ChatState::LinkReceiveJwt { username, address }, one(Action::Reply(Reply::LinkFailed)))
            },
            other => (other, Vec::new()),
        },
    }
}

/// The linking state of each conversation, keyed by conversation id. A
/// conversation at `Start` holds no entry: it is dropped when its flow is
/// cancelled or completes.
pub struct SessionDirectory {
    sessions: HashMap<i64, ChatState>,
}

impl View for SessionDirectory {
    type V = Map<i64, ChatState>;

    closed spec fn view(&self) -> Map<i64, ChatState> {
        self.sessions@
    }
}

impl SessionDirectory {
    /// The state of a conversation: `Start` where it holds no entry.
    pub open spec fn state_of(&self, conversation: i64) -> ChatState {
        if self@.contains_key(conversation) {
            self@[conversation]
        } else {
            ChatState::Start
        }
    }

    pub fn new() -> (r: SessionDirectory)
        ensures
            r@ == Map::<i64, ChatState>::empty(),
    {
        SessionDirectory { sessions: HashMap::new() }
    }

    /// Whether a conversation is in the middle of the linking flow.
    pub fn in_flow(&self, conversation: i64) -> (r: bool)
        ensures
            r == self@.contains_key(conversation),
    {
        self.sessions.contains_key(&conversation)
    }

    /// Takes one event of a conversation through the flow, and returns the
    /// actions to perform. Other conversations are left as they are.
    pub fn handle(&mut self, conversation: i64, event: Event) -> (actions: Vec<Action>)
        ensures
            transition(
                old(self).state_of(conversation),
                event,
                final(self).state_of(conversation),
                actions@,
            ),
            final(self)@.contains_key(conversation) <==> final(self).state_of(conversation)
                !is Start,
            final(self)@.remove(conversation) == old(self)@.remove(conversation),
    {
        let state = match self.sessions.remove(&conversation) {
            Some(s) => s,
            None => ChatState::Start,
        };
        let (next, actions) = step(state, event);
        match next {
            ChatState::Start => {},
            other => {
                self.sessions.insert(conversation, other);
            },
        }
        assert(self@.remove(conversation) =~= old(self)@.remove(conversation));
        actions
    }
}

/// Cancelling returns a conversation to `Start` from any state, and a link
/// command after it starts a fresh flow that carries no handle or address.
pub proof fn lemma_cancel_then_link(
    state: ChatState,
    after_cancel: ChatState,
    cancel_actions: Seq<Action>,
    after_link: ChatState,
    link_actions: Seq<Action>,
)
    requires
        transition(state, Event::Command(Command::Cancel), after_cancel, cancel_actions),
        transition(after_cancel, Event::Command(Command::Link), after_link, link_actions),
    ensures
        after_cancel == ChatState::Start,
        after_link == ChatState::LinkReceiveUsername,
        transition(ChatState::Start, Event::Command(Command::Link), after_link, link_actions),
{
}

} // verus!
