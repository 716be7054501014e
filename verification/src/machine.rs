//! What a command does to the sessions, and what is to be done for the user
//! in answer.

use vstd::prelude::*;
use crate::command::{command_of, interpret, Command, MessageReference};
use crate::error::SessionError;
use crate::export::{collected, extracted, Artifact, ArtifactView};
use crate::session::{attachment_views, Attachment, AttachmentView, SessionState};
use crate::store::{session_at, ImageListMap, SessionKey};
use crate::text::{decimal, push_decimal};

verus! {

/// A message as the transport delivers it.
#[derive(Clone, Debug, PartialEq, Eq)]
pub struct MessageEvent {
    pub channel_id: u64,
    pub author_id: u64,
    pub content: String,
    pub attachments: Vec<Attachment>,
}

impl MessageEvent {
    /// The key of the session that the message belongs to.
    pub open spec fn key(self) -> SessionKey {
        SessionKey { channel_id: self.channel_id, user_id: self.author_id }
    }

    /// The key of the session that the message belongs to.
    pub fn session_key(&self) -> (key: SessionKey)
        ensures
            key == self.key(),
    {
        SessionKey { channel_id: self.channel_id, user_id: self.author_id }
    }
}

/// A line of text to send back into the channel.
#[derive(Clone, Copy, Debug, PartialEq, Eq, Structural)]
pub enum Reply {
    /// The answer to a ping.
    Pong,
    /// The session now listens.
    ListeningStarted,
    /// The state of a session: whether it listens and how many references
    /// it holds.
    Report { key: SessionKey, listening: bool, images: usize },
}

/// How a truth value is written.
pub open spec fn bool_text(b: bool) -> Seq<char> {
    if b {
        "true"@
    } else {
        "false"@
    }
}

impl Reply {
    /// The words of the reply.
    pub open spec fn text(self) -> Seq<char> {
        match self {
            Reply::Pong => "Pong!"@,
            Reply::ListeningStarted => "Please send images now"@,
            Reply::Report { key, listening, images } => "```\nChannelID: "@ + decimal(
                key.channel_id as nat,
            ) + ", UserID: "@ + decimal(key.user_id as nat) + "\nlistening: "@ + bool_text(
                listening,
            ) + ", images: "@ + decimal(images as nat) + "\n```\n"@,
        }
    }

    /// Writes the reply.
    pub fn render(&self) -> (text: String)
        ensures
            text@ == self.text(),
    {
        match self {
            Reply::Pong => String::from_str("Pong!"),
            Reply::ListeningStarted => String::from_str("Please send images now"),
            Reply::Report { key, listening, images } => {
                let mut text = String::from_str("```\nChannelID: ");
                push_decimal(&mut text, key.channel_id);
                text.append(", UserID: ");
                push_decimal(&mut text, key.user_id);
                text.append("\nlistening: ");
                if *listening {
                    text.append("true");
                } else {
                    text.append("false");
                }
                text.append(", images: ");
                push_decimal(&mut text, *images as u64);
                text.append("\n```\n");
                assert(text@ =~= self.text());
                text
            },
        }
    }
}

/// What is to be done for the user once a command was taken.
#[derive(Clone, Debug, PartialEq, Eq)]
pub enum Effect {
    /// Nothing at all.
    Nothing,
    /// Send a line of text.
    Reply(Reply),
    /// Send a file.
    Export(Artifact),
    /// Fetch the message referred to, and come back with what it carries.
    Fetch(MessageReference),
}

/// What an [`Effect`] asks for.
pub enum EffectView {
    Nothing,
    Reply(Reply),
    Export(ArtifactView),
    Fetch(MessageReference),
}

impl View for Effect {
    type V = EffectView;

    open spec fn view(&self) -> EffectView {
        match self {
            Effect::Nothing => EffectView::Nothing,
            Effect::Reply(reply) => EffectView::Reply(*reply),
            Effect::Export(artifact) => EffectView::Export(artifact@),
            Effect::Fetch(reference) => EffectView::Fetch(*reference),
        }
    }
}

/// What an answer asks for: the effect, or the error to report.
pub open spec fn outcome_of(r: Result<Effect, SessionError>) -> Result<EffectView, SessionError> {
    match r {
        Ok(effect) => Ok(effect@),
        Err(error) => Err(error),
    }
}

/// The sessions after `command` came in under `key`, and the answer to it.
///
/// The command is judged by the session that stands under `key`; where none
/// stands there, by a fresh one. Only a session that starts to listen
/// enters the store, and only the session under `key` is ever touched.
pub open spec fn step(
    sessions: Map<SessionKey, SessionState>,
    key: SessionKey,
    command: Command,
    attachments: Seq<AttachmentView>,
) -> (Map<SessionKey, SessionState>, Result<EffectView, SessionError>) {
    let session = session_at(sessions, key);
    match command {
        Command::Ping => (sessions, Ok(EffectView::Reply(Reply::Pong))),
        Command::Inspect => (
            if session.images.len() == 0 {
                sessions.remove(key)
            } else {
                sessions
            },
            Ok(
                EffectView::Reply(
                    Reply::Report {
                        key,
                        listening: session.listening,
                        images: session.images.len() as usize,
                    },
                ),
            ),
        ),
        Command::Begin => if session.listening {
            (sessions, Err(SessionError::RedundantStateTransition { listening: true }))
        } else {
            (sessions.insert(key, session.begun()), Ok(EffectView::Reply(Reply::ListeningStarted)))
        },
        Command::End => if session.listening {
            (sessions.remove(key), Ok(EffectView::Export(collected(key, session.images))))
        } else {
            (sessions, Err(SessionError::RedundantStateTransition { listening: false }))
        },
        Command::ImageCandidate => if !session.listening {
            (sessions, Ok(EffectView::Nothing))
        } else if session.is_full() {
            (sessions, Err(SessionError::CapacityExceeded))
        } else {
            (sessions.insert(key, session.offered(attachments)), Ok(EffectView::Nothing))
        },
        Command::ExtractFromReference(reference) => (sessions, Ok(EffectView::Fetch(reference))),
        Command::Unrecognized => (sessions, Ok(EffectView::Nothing)),
    }
}

/// The sessions after a message came in, and the answer to it: the message
/// gives its command under the key of its sender and channel; a message
/// whose command is refused changes nothing.
pub open spec fn react(sessions: Map<SessionKey, SessionState>, event: MessageEvent) -> (
    Map<SessionKey, SessionState>,
    Result<EffectView, SessionError>,
) {
    match command_of(event.content@) {
        Ok(command) => step(sessions, event.key(), command, attachment_views(event.attachments@)),
        Err(error) => (sessions, Err(error)),
    }
}

/// The answer to an extraction once the transport has tried to fetch the
/// message: its attachments as a file, or an error where it had none to give.
pub open spec fn extraction(key: SessionKey, fetched: Option<Seq<AttachmentView>>) -> Result<
    EffectView,
    SessionError,
> {
    match fetched {
        Some(attachments) => Ok(EffectView::Export(extracted(key, attachments))),
        None => Err(SessionError::InvalidReference),
    }
}

/// Answers an extraction asked for under `key`, given the attachments of
/// the message that was fetched, or `None` where fetching it failed.
pub fn finish_extraction(key: SessionKey, fetched: Option<&Vec<Attachment>>) -> (r: Result<
    Effect,
    SessionError,
>)
    ensures
        outcome_of(r) == extraction(
            key,
            match fetched {
                Some(attachments) => Some(attachment_views(attachments@)),
                None => None,
            },
        ),
{
    match fetched {
        Some(attachments) => Ok(Effect::Export(Artifact::extracted(key, attachments))),
        None => Err(SessionError::InvalidReference),
    }
}

impl ImageListMap {
    /// Takes `command` for the session under `key`; `attachments` are those
    /// of the message that gave it.
    pub fn apply(&mut self, key: SessionKey, command: Command, attachments: &Vec<Attachment>) -> (r:
        Result<Effect, SessionError>)
        ensures
            final(self)@ == step(old(self)@, key, command, attachment_views(attachments@)).0,
            outcome_of(r) == step(old(self)@, key, command, attachment_views(attachments@)).1,
    {
        match command {
            Command::Ping => Ok(Effect::Reply(Reply::Pong)),
            Command::Inspect => {
                let (listening, images) = match self.get(key) {
                    Some(session) => (session.listening, session.images.len()),
                    None => (false, 0),
                };
                if images == 0 {
                    self.remove(key);
                }
                Ok(Effect::Reply(Reply::Report { key, listening, images }))
            },
            Command::Begin => {
                let session = self.get_or_create(key);
                let begun = session.begin();
                assert(self@ =~= step(old(self)@, key, command, attachment_views(attachments@)).0);
                match begun {
                    Ok(()) => Ok(Effect::Reply(Reply::ListeningStarted)),
                    Err(error) => Err(error),
                }
            },
            Command::End => {
                let listening = match self.get(key) {
                    Some(session) => session.listening,
                    None => false,
                };
                if !listening {
                    return Err(SessionError::RedundantStateTransition { listening: false });
                }
                match self.remove(key) {
                    Some(session) => Ok(Effect::Export(Artifact::collected(key, &session.images))),
                    None => Err(SessionError::RedundantStateTransition { listening: false }),
                }
            },
            Command::ImageCandidate => {
                if !self.contains(key) {
                    return Ok(Effect::Nothing);
                }
                let session = self.get_or_create(key);
                let offered = session.offer(attachments);
                assert(self@ =~= step(old(self)@, key, command, attachment_views(attachments@)).0);
                match offered {
                    Ok(()) => Ok(Effect::Nothing),
                    Err(error) => Err(error),
                }
            },
            Command::ExtractFromReference(reference) => Ok(Effect::Fetch(reference)),
            Command::Unrecognized => Ok(Effect::Nothing),
        }
    }

    /// Takes a message: reads its command and applies it under the key of
    /// its sender and channel.
    pub fn handle(&mut self, event: &MessageEvent) -> (r: Result<Effect, SessionError>)
        ensures
            final(self)@ == react(old(self)@, *event).0,
            outcome_of(r) == react(old(self)@, *event).1,
    {
        match interpret(event.content.as_str()) {
            Ok(command) => self.apply(event.session_key(), command, &event.attachments),
            Err(error) => Err(error),
        }
    }
}

} // verus!
