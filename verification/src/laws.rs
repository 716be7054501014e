//! What holds of the sessions whatever commands come in.

use vstd::prelude::*;
use crate::command::{Command, MessageReference};
use crate::error::SessionError;
use crate::export::{all_urls, collected, extracted, join_lines};
use crate::machine::{step, EffectView, Reply};
use crate::session::{image_urls, AttachmentView, SessionState, MAX_IMAGES_PER_SECTION};
use crate::store::{session_at, SessionKey};
use crate::text::{decimal, digits_value, is_digit, numeral};

verus! {

/// Every session in the store is well formed.
pub open spec fn all_well_formed(sessions: Map<SessionKey, SessionState>) -> bool {
    forall|key: SessionKey| #[trigger] sessions.contains_key(key) ==> sessions[key].well_formed()
}

/// The sessions after a row of messages without command came in under
/// `key`, each with its attachments, oldest first.
pub open spec fn after_candidates(
    sessions: Map<SessionKey, SessionState>,
    key: SessionKey,
    batches: Seq<Seq<AttachmentView>>,
) -> Map<SessionKey, SessionState>
    decreases batches.len(),
{
    if batches.len() == 0 {
        sessions
    } else {
        step(
            after_candidates(sessions, key, batches.drop_last()),
            key,
            Command::ImageCandidate,
            batches.last(),
        ).0
    }
}

/// What a listening session that starts with `images` holds after a row of
/// messages: the images of each message in turn, but for the messages that
/// found the session full.
pub open spec fn gathered(images: Seq<Seq<char>>, batches: Seq<Seq<AttachmentView>>) -> Seq<
    Seq<char>,
>
    decreases batches.len(),
{
    if batches.len() == 0 {
        images
    } else {
        let before = gathered(images, batches.drop_last());
        if before.len() > MAX_IMAGES_PER_SECTION {
            before
        } else {
            before + image_urls(batches.last())
        }
    }
}

/// The references of all the images in a row of messages, oldest first.
pub open spec fn all_image_urls(batches: Seq<Seq<AttachmentView>>) -> Seq<Seq<char>>
    decreases batches.len(),
{
    if batches.len() == 0 {
        Seq::empty()
    } else {
        all_image_urls(batches.drop_last()) + image_urls(batches.last())
    }
}

/// A command touches no session but the one under its key.
pub proof fn law_other_sessions_untouched(
    sessions: Map<SessionKey, SessionState>,
    key: SessionKey,
    command: Command,
    attachments: Seq<AttachmentView>,
    other: SessionKey,
)
    requires
        other != key,
    ensures
        step(sessions, key, command, attachments).0.contains_key(other) == sessions.contains_key(
            other,
        ),
        sessions.contains_key(other) ==> step(sessions, key, command, attachments).0[other]
            == sessions[other],
{
}

/// A session gains references only while it listens: whatever command
/// reaches a session that does not, it holds afterwards what it held.
pub proof fn law_only_listening_sessions_grow(
    sessions: Map<SessionKey, SessionState>,
    key: SessionKey,
    command: Command,
    attachments: Seq<AttachmentView>,
)
    requires
        !session_at(sessions, key).listening,
    ensures
        session_at(step(sessions, key, command, attachments).0, key).images == session_at(
            sessions,
            key,
        ).images,
{
}

/// If no idle session holds references, none does after a command.
pub proof fn law_well_formed_stays(
    sessions: Map<SessionKey, SessionState>,
    key: SessionKey,
    command: Command,
    attachments: Seq<AttachmentView>,
)
    requires
        all_well_formed(sessions),
    ensures
        all_well_formed(step(sessions, key, command, attachments).0),
{
    let after = step(sessions, key, command, attachments).0;
    assert forall|k: SessionKey| #[trigger] after.contains_key(k) implies after[k].well_formed() by {
        if k != key {
            assert(sessions.contains_key(k));
        } else if sessions.contains_key(key) {
            assert(sessions[key].well_formed());
        }
    }
}

/// If every session in the store listens, so does every session after a
/// command: the store holds the sessions that are under way, and no others.
pub proof fn law_store_holds_listening_sessions(
    sessions: Map<SessionKey, SessionState>,
    key: SessionKey,
    command: Command,
    attachments: Seq<AttachmentView>,
)
    requires
        forall|k: SessionKey| #[trigger] sessions.contains_key(k) ==> sessions[k].listening,
    ensures
        forall|k: SessionKey| #[trigger]
            step(sessions, key, command, attachments).0.contains_key(k) ==> step(
                sessions,
                key,
                command,
                attachments,
            ).0[k].listening,
{
    let after = step(sessions, key, command, attachments).0;
    assert forall|k: SessionKey| #[trigger] after.contains_key(k) implies after[k].listening by {
        if k != key {
            assert(sessions.contains_key(k));
        } else if sessions.contains_key(key) {
            assert(sessions[key].listening);
        }
    }
}

/// A message adds at most as many references as it has attachments. So a
/// session fed one attachment at a time never holds more than one
/// reference above the limit.
pub proof fn law_growth_is_bounded(session: SessionState, attachments: Seq<AttachmentView>)
    ensures
        session.offered(attachments).images.len() <= session.images.len() + attachments.len(),
        session.images.len() <= MAX_IMAGES_PER_SECTION + 1 && attachments.len() <= 1
            ==> session.offered(attachments).images.len() <= MAX_IMAGES_PER_SECTION + 1,
{
    broadcast use Seq::lemma_filter_len;

    assert(image_urls(attachments).len() <= attachments.len());
}

/// While no message carries more than one attachment, no session comes to
/// hold more than one reference above the limit.
pub proof fn law_single_attachments_keep_the_bound(
    sessions: Map<SessionKey, SessionState>,
    key: SessionKey,
    command: Command,
    attachments: Seq<AttachmentView>,
)
    requires
        attachments.len() <= 1,
        forall|k: SessionKey| #[trigger]
            sessions.contains_key(k) ==> sessions[k].images.len() <= MAX_IMAGES_PER_SECTION + 1,
    ensures
        forall|k: SessionKey| #[trigger]
            step(sessions, key, command, attachments).0.contains_key(k) ==> step(
                sessions,
                key,
                command,
                attachments,
            ).0[k].images.len() <= MAX_IMAGES_PER_SECTION + 1,
{
    let after = step(sessions, key, command, attachments).0;
    law_growth_is_bounded(session_at(sessions, key), attachments);
    assert forall|k: SessionKey| #[trigger] after.contains_key(k) implies after[k].images.len()
        <= MAX_IMAGES_PER_SECTION + 1 by {
        if k != key {
            assert(sessions.contains_key(k));
        } else if sessions.contains_key(key) {
            assert(sessions[key].images.len() <= MAX_IMAGES_PER_SECTION + 1);
        }
    }
}

/// After a row of messages a listening session holds what `gathered` says,
/// and still listens.
pub proof fn lemma_after_candidates(
    sessions: Map<SessionKey, SessionState>,
    key: SessionKey,
    batches: Seq<Seq<AttachmentView>>,
)
    requires
        session_at(sessions, key).listening,
    ensures
        session_at(after_candidates(sessions, key, batches), key) == (SessionState {
            listening: true,
            images: gathered(session_at(sessions, key).images, batches),
        }),
        after_candidates(sessions, key, batches).contains_key(key) == sessions.contains_key(key),
    decreases batches.len(),
{
    if batches.len() > 0 {
        lemma_after_candidates(sessions, key, batches.drop_last());
    }
}

/// Begin, any number of messages, End: the file that End hands over holds
/// what the session gathered from those messages, oldest first, and the
/// session is gone.
pub proof fn law_export_holds_what_was_gathered(
    sessions: Map<SessionKey, SessionState>,
    key: SessionKey,
    batches: Seq<Seq<AttachmentView>>,
)
    requires
        session_at(sessions, key).well_formed(),
        !session_at(sessions, key).listening,
    ensures
        ({
            let begun = step(sessions, key, Command::Begin, Seq::empty());
            let fed = after_candidates(begun.0, key, batches);
            let ended = step(fed, key, Command::End, Seq::empty());
            &&& begun.1 == Ok::<EffectView, SessionError>(
                EffectView::Reply(Reply::ListeningStarted),
            )
            &&& ended.1 == Ok::<EffectView, SessionError>(
                EffectView::Export(collected(key, gathered(Seq::empty(), batches))),
            )
            &&& !ended.0.contains_key(key)
        }),
{
    let begun = step(sessions, key, Command::Begin, Seq::empty());
    assert(session_at(sessions, key).images =~= Seq::empty());
    lemma_after_candidates(begun.0, key, batches);
}

/// Nothing is lost of a row of messages so long as the session was not
/// full when the last of them came: it then holds the references of all
/// their images, oldest first.
pub proof fn law_nothing_lost_within_capacity(batches: Seq<Seq<AttachmentView>>)
    requires
        batches.len() > 0 ==> all_image_urls(batches.drop_last()).len() <= MAX_IMAGES_PER_SECTION,
    ensures
        gathered(Seq::empty(), batches) == all_image_urls(batches),
    decreases batches.len(),
{
    if batches.len() > 0 {
        let earlier = batches.drop_last();
        if earlier.len() > 0 {
            assert(all_image_urls(earlier.drop_last()).len() <= all_image_urls(earlier).len());
        }
        law_nothing_lost_within_capacity(earlier);
    }
}

/// Begin twice in a row: the second is turned away, and leaves the session
/// listening with the references it had.
pub proof fn law_begin_twice(
    sessions: Map<SessionKey, SessionState>,
    key: SessionKey,
    first_with: Seq<AttachmentView>,
    second_with: Seq<AttachmentView>,
)
    ensures
        ({
            let first = step(sessions, key, Command::Begin, first_with);
            let second = step(first.0, key, Command::Begin, second_with);
            &&& second.1 == Err::<EffectView, SessionError>(
                SessionError::RedundantStateTransition { listening: true },
            )
            &&& second.0 == first.0
            &&& second.0.contains_key(key)
            &&& second.0[key].listening
            &&& second.0[key].images == session_at(sessions, key).images
        }),
{
}

/// A listening session that holds more than the limit turns a message away
/// and keeps what it has; one that holds the limit or less takes the images
/// of the message.
pub proof fn law_capacity_boundary(
    sessions: Map<SessionKey, SessionState>,
    key: SessionKey,
    attachments: Seq<AttachmentView>,
)
    requires
        session_at(sessions, key).listening,
    ensures
        ({
            let before = session_at(sessions, key);
            let after = step(sessions, key, Command::ImageCandidate, attachments);
            if before.images.len() > MAX_IMAGES_PER_SECTION {
                &&& after.1 == Err::<EffectView, SessionError>(SessionError::CapacityExceeded)
                &&& after.0 == sessions
            } else {
                &&& after.1 == Ok::<EffectView, SessionError>(EffectView::Nothing)
                &&& after.0.contains_key(key)
                &&& after.0[key].listening
                &&& after.0[key].images == before.images + image_urls(attachments)
            }
        }),
{
}

/// End where nothing listens is turned away, and leaves no session behind.
pub proof fn law_end_without_begin(
    sessions: Map<SessionKey, SessionState>,
    key: SessionKey,
    attachments: Seq<AttachmentView>,
)
    requires
        !session_at(sessions, key).listening,
    ensures
        step(sessions, key, Command::End, attachments) == (
            sessions,
            Err::<EffectView, SessionError>(
                SessionError::RedundantStateTransition { listening: false },
            ),
        ),
        !sessions.contains_key(key) ==> !step(
            sessions,
            key,
            Command::End,
            attachments,
        ).0.contains_key(key),
{
}

/// Once End was taken the session is gone: an inspection then reports a
/// fresh session, not what the ended one held.
pub proof fn law_ended_session_is_gone(
    sessions: Map<SessionKey, SessionState>,
    key: SessionKey,
    end_with: Seq<AttachmentView>,
    inspect_with: Seq<AttachmentView>,
)
    requires
        session_at(sessions, key).listening,
    ensures
        ({
            let ended = step(sessions, key, Command::End, end_with);
            let inspected = step(ended.0, key, Command::Inspect, inspect_with);
            &&& ended.1 is Ok
            &&& !ended.0.contains_key(key)
            &&& session_at(ended.0, key) == SessionState::fresh()
            &&& inspected.1 == Ok::<EffectView, SessionError>(
                EffectView::Reply(Reply::Report { key, listening: false, images: 0 }),
            )
            &&& inspected.0 == ended.0
        }),
{
    let ended = step(sessions, key, Command::End, end_with);
    let inspected = step(ended.0, key, Command::Inspect, inspect_with);
    assert(inspected.0 =~= ended.0);
}

/// An inspection of a key that holds no session reports a fresh one and
/// leaves none behind.
pub proof fn law_inspection_leaves_nothing(
    sessions: Map<SessionKey, SessionState>,
    key: SessionKey,
    attachments: Seq<AttachmentView>,
)
    requires
        !sessions.contains_key(key),
    ensures
        step(sessions, key, Command::Inspect, attachments) == (
            sessions,
            Ok::<EffectView, SessionError>(
                EffectView::Reply(Reply::Report { key, listening: false, images: 0 }),
            ),
        ),
{
    assert(sessions.remove(key) =~= sessions);
}

/// An extraction changes no session, and the file for a message with three
/// attachments holds their three references, in their order, line by line.
pub proof fn law_extraction(
    sessions: Map<SessionKey, SessionState>,
    key: SessionKey,
    reference: MessageReference,
    attachments: Seq<AttachmentView>,
    a: AttachmentView,
    b: AttachmentView,
    c: AttachmentView,
)
    ensures
        step(sessions, key, Command::ExtractFromReference(reference), attachments) == (
            sessions,
            Ok::<EffectView, SessionError>(EffectView::Fetch(reference)),
        ),
        extracted(key, seq![a, b, c]).content == a.url + "\r\n"@ + b.url + "\r\n"@ + c.url,
{
    let urls = all_urls(seq![a, b, c]);
    assert(urls =~= seq![a.url, b.url, c.url]);
    assert(urls.drop_last() =~= seq![a.url, b.url]);
    assert(urls.drop_last().drop_last() =~= seq![a.url]);
    reveal_with_fuel(join_lines, 4);
}

/// The decimal numeral of a number is a row of digits that writes it.
pub proof fn lemma_decimal_is_digits(n: nat)
    ensures
        decimal(n).len() > 0,
        forall|i: int| 0 <= i < decimal(n).len() ==> is_digit(#[trigger] decimal(n)[i]),
        digits_value(decimal(n)) == n,
    decreases n,
{
    if n < 10 {
        assert(decimal(n).drop_last() =~= Seq::empty());
        reveal_with_fuel(digits_value, 2);
    } else {
        lemma_decimal_is_digits(n / 10);
        assert(decimal(n).drop_last() =~= decimal(n / 10));
    }
}

/// A number that was written out reads back as itself: so does each part
/// of a key, and each part of a reference.
pub proof fn law_decimal_reads_back(n: u64)
    ensures
        numeral(decimal(n as nat)) == Some(n),
{
    lemma_decimal_is_digits(n as nat);
    assert(is_digit(decimal(n as nat)[0]));
}

} // verus!
