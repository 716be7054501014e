//! From the text of a message to the command it gives.

use vstd::prelude::*;
use crate::error::SessionError;
use crate::text::{
    after_last, begins_with, find_last, last_index_of, numeral, read_numeral, second_word, spells,
    take_second_word, to_chars,
};

verus! {

/// The place of a message: its channel, and its number in that channel.
#[derive(Clone, Copy, Debug, PartialEq, Eq, Structural)]
pub struct MessageReference {
    pub channel_id: u64,
    pub message_id: u64,
}

/// What a message asks for.
#[derive(Clone, Copy, Debug, PartialEq, Eq, Structural)]
pub enum Command {
    /// Answer, to show that the service is there.
    Ping,
    /// Report the state of the sender's session.
    Inspect,
    /// Start listening.
    Begin,
    /// Stop listening and hand over what was gathered.
    End,
    /// No command: a message that may carry attachments for a listening
    /// session.
    ImageCandidate,
    /// Hand over the attachments of the message that is referred to.
    ExtractFromReference(MessageReference),
    /// Nothing this service knows: to be passed over.
    Unrecognized,
}

/// The message that a link refers to. A link is cut at each `/`; its last
/// part is the numeral of the message, the part before that the numeral of
/// the channel. A link without `/`, or with another thing than a numeral in
/// one of the two places, refers to nothing.
pub open spec fn reference_of(link: Seq<char>) -> Option<MessageReference> {
    let cut = last_index_of(link, '/');
    if cut < 0 {
        None
    } else {
        match (numeral(after_last(link.take(cut), '/')), numeral(after_last(link, '/'))) {
            (Some(channel_id), Some(message_id)) => Some(
                MessageReference { channel_id, message_id },
            ),
            _ => None,
        }
    }
}

/// The command that a message of this content gives. The four plain
/// commands are matched letter for letter. A content that begins with
/// `!extract` asks for an extraction, and its second word is the link; where
/// that link refers to nothing the command is refused. Every other content
/// is no command, and the message a candidate for its attachments.
pub open spec fn command_of(content: Seq<char>) -> Result<Command, SessionError> {
    if content == "!ping"@ {
        Ok(Command::Ping)
    } else if content == "!debug"@ {
        Ok(Command::Inspect)
    } else if content == "!begin"@ {
        Ok(Command::Begin)
    } else if content == "!end"@ {
        Ok(Command::End)
    } else if "!extract"@.is_prefix_of(content) {
        match reference_of(second_word(content)) {
            Some(reference) => Ok(Command::ExtractFromReference(reference)),
            None => Err(SessionError::InvalidReference),
        }
    } else {
        Ok(Command::ImageCandidate)
    }
}

/// Reads the reference that the characters of a link make.
pub fn read_reference(link: &Vec<char>) -> (r: Option<MessageReference>)
    ensures
        r == reference_of(link@),
{
    let end: usize = link.len();
    assert(link@.take(end as int) =~= link@);
    let cut: usize = match find_last(link, end, '/') {
        Some(cut) => cut,
        None => { return None; },
    };
    let start: usize = match find_last(link, cut, '/') {
        Some(slash) => slash + 1,
        None => 0,
    };
    assert(link@.subrange(start as int, cut as int) =~= after_last(link@.take(cut as int), '/'));
    assert(link@.subrange(cut + 1, end as int) =~= after_last(link@, '/'));
    let channel = read_numeral(link, start, cut);
    let message = read_numeral(link, cut + 1, end);
    match (channel, message) {
        (Some(channel_id), Some(message_id)) => Some(MessageReference { channel_id, message_id }),
        _ => None,
    }
}

/// Reads the reference that a link makes.
pub fn parse_reference(link: &str) -> (r: Result<MessageReference, SessionError>)
    ensures
        r == match reference_of(link@) {
            Some(reference) => Ok::<MessageReference, SessionError>(reference),
            None => Err::<MessageReference, SessionError>(SessionError::InvalidReference),
        },
{
    let chars = to_chars(link);
    match read_reference(&chars) {
        Some(reference) => Ok(reference),
        None => Err(SessionError::InvalidReference),
    }
}

/// Reads the command that a message of this content gives.
pub fn interpret(content: &str) -> (r: Result<Command, SessionError>)
    ensures
        r == command_of(content@),
{
    let chars = to_chars(content);
    let end: usize = chars.len();
    assert(chars@.subrange(0, end as int) =~= content@);
    if spells(&chars, 0, end, "!ping") {
        Ok(Command::Ping)
    } else if spells(&chars, 0, end, "!debug") {
        Ok(Command::Inspect)
    } else if spells(&chars, 0, end, "!begin") {
        Ok(Command::Begin)
    } else if spells(&chars, 0, end, "!end") {
        Ok(Command::End)
    } else if begins_with(&chars, "!extract") {
        let link = take_second_word(&chars);
        match read_reference(&link) {
            Some(reference) => Ok(Command::ExtractFromReference(reference)),
            None => Err(SessionError::InvalidReference),
        }
    } else {
        Ok(Command::ImageCandidate)
    }
}

} // verus!
