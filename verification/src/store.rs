//! The sessions that are alive, each under the key of its user and channel.

use vstd::prelude::*;
use std::collections::HashMap;
use crate::session::{ImageList, SessionState};
use crate::text::{decimal, push_decimal};

verus! {

broadcast use vstd::std_specs::hash::group_hash_axioms;

/// Names one session: a user in a channel.
#[derive(Clone, Copy, Debug, PartialEq, Eq, Hash, Structural)]
pub struct SessionKey {
    pub channel_id: u64,
    pub user_id: u64,
}

impl SessionKey {
    /// The number under which the store files the session: the channel in
    /// the upper 64 bits, the user in the lower.
    pub open spec fn index(self) -> u128 {
        (self.channel_id * 0x1_0000_0000_0000_0000 + self.user_id) as u128
    }

    /// Computes the number under which the store files the session.
    pub fn slot(&self) -> (slot: u128)
        ensures
            slot == self.index(),
    {
        (self.channel_id as u128) * 0x1_0000_0000_0000_0000u128 + (self.user_id as u128)
    }

    /// The key written out: channel, a bar, user.
    pub open spec fn label(self) -> Seq<char> {
        decimal(self.channel_id as nat) + "|"@ + decimal(self.user_id as nat)
    }

    /// Writes the key out.
    pub fn label_text(&self) -> (text: String)
        ensures
            text@ == self.label(),
    {
        let mut text = String::new();
        push_decimal(&mut text, self.channel_id);
        text.append("|");
        push_decimal(&mut text, self.user_id);
        assert(text@ =~= self.label());
        text
    }
}

/// Two keys are filed under one number only if they are one key.
pub proof fn lemma_index_injective(a: SessionKey, b: SessionKey)
    ensures
        a.index() == b.index() <==> a == b,
{
}

/// The sessions that are alive. A session enters on first use and leaves
/// when it ends; the store holds nothing else.
pub struct ImageListMap {
    pub map: HashMap<u128, ImageList>,
}

impl View for ImageListMap {
    type V = Map<SessionKey, SessionState>;

    open spec fn view(&self) -> Map<SessionKey, SessionState> {
        sessions_of(self.map@)
    }
}

/// The sessions that are filed in `filed`, each under its key.
pub open spec fn sessions_of(filed: Map<u128, ImageList>) -> Map<SessionKey, SessionState> {
    Map::new(
        |key: SessionKey| filed.contains_key(key.index()),
        |key: SessionKey| filed[key.index()]@,
    )
}

/// Filing a session under the number of a key puts it under that key.
pub proof fn lemma_sessions_of_insert(
    filed: Map<u128, ImageList>,
    key: SessionKey,
    session: ImageList,
)
    ensures
        sessions_of(filed.insert(key.index(), session)) == sessions_of(filed).insert(
            key,
            session@,
        ),
{
    assert forall|other: SessionKey| other.index() == key.index() implies other == key by {
        lemma_index_injective(other, key);
    }
    assert(sessions_of(filed.insert(key.index(), session)) =~= sessions_of(filed).insert(
        key,
        session@,
    ));
}

/// Taking out what is filed under the number of a key takes out the
/// session of that key.
pub proof fn lemma_sessions_of_remove(filed: Map<u128, ImageList>, key: SessionKey)
    ensures
        sessions_of(filed.remove(key.index())) == sessions_of(filed).remove(key),
{
    assert forall|other: SessionKey| other.index() == key.index() implies other == key by {
        lemma_index_injective(other, key);
    }
    assert(sessions_of(filed.remove(key.index())) =~= sessions_of(filed).remove(key));
}

/// The session that `sessions` holds under `key`, or a fresh one where it
/// holds none.
pub open spec fn session_at(sessions: Map<SessionKey, SessionState>, key: SessionKey) -> SessionState {
    if sessions.contains_key(key) {
        sessions[key]
    } else {
        SessionState::fresh()
    }
}

impl ImageListMap {
    /// A store without sessions.
    pub fn new() -> (store: Self)
        ensures
            store@ == Map::<SessionKey, SessionState>::empty(),
    {
        let store = ImageListMap { map: HashMap::new() };
        assert(store@ =~= Map::<SessionKey, SessionState>::empty());
        store
    }

    /// Whether a session is alive under `key`.
    pub fn contains(&self, key: SessionKey) -> (r: bool)
        ensures
            r == self@.contains_key(key),
    {
        self.map.contains_key(&key.slot())
    }

    /// The session under `key`, if one is alive.
    pub fn get(&self, key: SessionKey) -> (r: Option<&ImageList>)
        ensures
            match r {
                Some(session) => self@.contains_key(key) && session@ == self@[key],
                None => !self@.contains_key(key),
            },
    {
        self.map.get(&key.slot())
    }

    /// Hands out the session under `key` for change, after making a fresh
    /// one where none is alive. Whatever the caller leaves in it is what the
    /// store then holds under `key`; no other session is touched.
    pub fn get_or_create(&mut self, key: SessionKey) -> (session: &mut ImageList)
        ensures
            session@ == session_at(old(self)@, key),
            final(self)@ == old(self)@.insert(key, final(session)@),
    {
        let slot = key.slot();
        proof {
            assert forall|session: ImageList| #[trigger]
                sessions_of(self.map@.insert(slot, session)) == self@.insert(key, session@) by {
                lemma_sessions_of_insert(self.map@, key, session);
            }
        }
        self.map.entry(slot).or_insert(ImageList::new())
    }

    /// Takes the session under `key` out of the store and returns it; where
    /// none is alive the store stays as it is.
    pub fn remove(&mut self, key: SessionKey) -> (r: Option<ImageList>)
        ensures
            final(self)@ == old(self)@.remove(key),
            match r {
                Some(session) => old(self)@.contains_key(key) && session@ == old(self)@[key],
                None => !old(self)@.contains_key(key),
            },
    {
        let slot = key.slot();
        let r = self.map.remove(&slot);
        proof {
            lemma_sessions_of_remove(old(self).map@, key);
        }
        r
    }
}

} // verus!
