//! The session manager: the Double Ratchet sessions of a client, one for
//! each contact, with what is known of their use.

use vstd::prelude::*;
use core::marker::PhantomData;
use crate::crypto::double_ratchet::{restored_state, snapshot_of, DoubleRatchetSession, SessionState};
use crate::crypto::provider::CryptoProvider;
use crate::crypto::storage_format::{bincode_decode, bincode_encode, bincode_snapshot};
use crate::error::CryptoError;
use crate::utils::time::current_timestamp;

verus! {

/// How many sessions a manager holds unless it is told otherwise.
pub const DEFAULT_MAX_SESSIONS: usize = 100;

/// What is known of a session, as plain values.
pub struct MetadataView {
    pub session_id: Seq<char>,
    pub contact_id: Seq<char>,
    pub created_at: i64,
    pub last_used: i64,
    pub message_count: u64,
}

/// What is known of the use of a session.
#[derive(Debug)]
pub struct SessionMetadata {
    pub session_id: String,
    pub contact_id: String,
    /// When the session was added.
    pub created_at: i64,
    /// When the session was last handed out to be used.
    pub last_used: i64,
    /// How often the session was handed out to be used.
    pub message_count: u64,
}

impl View for SessionMetadata {
    type V = MetadataView;

    open spec fn view(&self) -> MetadataView {
        MetadataView {
            session_id: self.session_id@,
            contact_id: self.contact_id@,
            created_at: self.created_at,
            last_used: self.last_used,
            message_count: self.message_count,
        }
    }
}

impl MetadataView {
    /// The metadata after the session was handed out at the time `now`:
    /// one more use is counted, up to the largest count there is.
    pub open spec fn touched(self, now: i64) -> MetadataView {
        MetadataView {
            last_used: now,
            message_count: if self.message_count < u64::MAX {
                (self.message_count + 1) as u64
            } else {
                self.message_count
            },
            ..self
        }
    }
}

impl SessionMetadata {
    /// The metadata of a session added at the time `now`.
    pub fn new_at(session_id: String, contact_id: String, now: i64) -> (metadata: Self)
        ensures
            metadata@ == (MetadataView {
                session_id: session_id@,
                contact_id: contact_id@,
                created_at: now,
                last_used: now,
                message_count: 0,
            }),
    {
        SessionMetadata { session_id, contact_id, created_at: now, last_used: now, message_count: 0 }
    }

    /// The metadata of a session added now: made and last used at the
    /// same time, never yet handed out.
    pub fn new(session_id: String, contact_id: String) -> (metadata: Self)
        ensures
            metadata@.session_id == session_id@,
            metadata@.contact_id == contact_id@,
            metadata@.message_count == 0,
            metadata@.last_used == metadata@.created_at,
            metadata@.created_at >= 0,
    {
        Self::new_at(session_id, contact_id, current_timestamp())
    }

    /// Records that the session was handed out at the time `now`.
    pub fn update_last_used_at(&mut self, now: i64)
        ensures
            final(self)@ == old(self)@.touched(now),
    {
        self.last_used = now;
        if self.message_count < u64::MAX {
            self.message_count = self.message_count + 1;
        }
    }

    /// Records that the session was handed out now.
    pub fn update_last_used(&mut self)
        ensures
            exists|now: i64| now >= 0 && final(self)@ == #[trigger] old(self)@.touched(now),
    {
        let now = current_timestamp();
        self.update_last_used_at(now);
        assert(final(self)@ == old(self)@.touched(now));
    }
}

/// A session with its metadata, as plain values.
pub struct StoreView {
    pub session: SessionState,
    pub metadata: MetadataView,
}

/// A session with its metadata.
pub struct SessionStore<P: CryptoProvider> {
    pub session: DoubleRatchetSession<P>,
    pub metadata: SessionMetadata,
}

impl<P: CryptoProvider> View for SessionStore<P> {
    type V = StoreView;

    open spec fn view(&self) -> StoreView {
        StoreView { session: self.session@, metadata: self.metadata@ }
    }
}

/// The stores of a list, in its order.
pub open spec fn stores_view<P: CryptoProvider>(stores: Seq<SessionStore<P>>) -> Seq<StoreView> {
    stores.map_values(|s: SessionStore<P>| s@)
}

/// Whether some store of the list is for the contact.
pub open spec fn has_contact(sessions: Seq<StoreView>, contact_id: Seq<char>) -> bool {
    exists|i: int| 0 <= i < sessions.len() && (#[trigger] sessions[i]).metadata.contact_id == contact_id
}

/// The place of the store for a contact.
pub open spec fn contact_index(sessions: Seq<StoreView>, contact_id: Seq<char>) -> int {
    choose|i: int| 0 <= i < sessions.len() && (#[trigger] sessions[i]).metadata.contact_id == contact_id
}

/// Whether no two stores of the list are for the same contact.
pub open spec fn contacts_distinct(sessions: Seq<StoreView>) -> bool {
    forall|i: int, j: int|
        0 <= i < j < sessions.len() ==> (#[trigger] sessions[i]).metadata.contact_id != (
        #[trigger] sessions[j]).metadata.contact_id
}

/// Whether the store at `i` is the least recently used: none was used
/// earlier, and those before it were used later.
pub open spec fn is_least_recent_at(sessions: Seq<StoreView>, i: int) -> bool {
    &&& 0 <= i < sessions.len()
    &&& forall|j: int| 0 <= j < sessions.len() ==> sessions[i].metadata.last_used <= (#[trigger] sessions[j]).metadata.last_used
    &&& forall|j: int| 0 <= j < i ==> sessions[i].metadata.last_used < (#[trigger] sessions[j]).metadata.last_used
}

/// The place of the least recently used store of a list that is not empty.
pub open spec fn least_recent_index(sessions: Seq<StoreView>) -> int {
    choose|i: int| is_least_recent_at(sessions, i)
}

/// The list without its least recently used store.
pub open spec fn without_least_recent(sessions: Seq<StoreView>) -> Seq<StoreView> {
    if sessions.len() == 0 {
        sessions
    } else {
        sessions.remove(least_recent_index(sessions))
    }
}

/// The list without the store for a contact.
pub open spec fn without_contact(sessions: Seq<StoreView>, contact_id: Seq<char>) -> Seq<StoreView> {
    if has_contact(sessions, contact_id) {
        sessions.remove(contact_index(sessions, contact_id))
    } else {
        sessions
    }
}

/// Whether a session last used at `last_used` was used less than
/// `max_age_seconds` before the time `now`.
pub open spec fn used_within(last_used: i64, max_age_seconds: i64, now: i64) -> bool {
    now - last_used < max_age_seconds
}

/// The stores of a list that were used less than `max_age_seconds` ago.
pub open spec fn recently_used(sessions: Seq<StoreView>, max_age_seconds: i64, now: i64) -> Seq<StoreView> {
    sessions.filter(|s: StoreView| used_within(s.metadata.last_used, max_age_seconds, now))
}

/// What a session manager holds.
pub struct SessionManagerState {
    /// The stores, in the order in which they were added.
    pub sessions: Seq<StoreView>,
    /// How many sessions the manager is meant to hold.
    pub max_sessions: usize,
}

impl SessionManagerState {
    /// The limit the manager keeps: it always has room for one session.
    pub open spec fn limit(self) -> int {
        if self.max_sessions == 0 {
            1
        } else {
            self.max_sessions as int
        }
    }

    /// The invariant of every reachable state: one store for each contact,
    /// and no more stores than the limit.
    pub open spec fn well_formed(self) -> bool {
        &&& contacts_distinct(self.sessions)
        &&& self.sessions.len() <= self.limit()
    }

    /// The state after a session was added for a contact at the time
    /// `now`. A full manager first drops its least recently used session;
    /// then the new session takes the place of the one the contact had.
    pub open spec fn added(self, contact_id: Seq<char>, session: SessionState, now: i64) -> SessionManagerState {
        let room = if self.sessions.len() >= self.max_sessions {
            without_least_recent(self.sessions)
        } else {
            self.sessions
        };
        SessionManagerState {
            sessions: without_contact(room, contact_id).push(
                StoreView {
                    session,
                    metadata: MetadataView {
                        session_id: session.session_id,
                        contact_id,
                        created_at: now,
                        last_used: now,
                        message_count: 0,
                    },
                },
            ),
            ..self
        }
    }
}

/// The outcome of restoring a session for a contact from stored bytes at
/// the time `now`: bytes that hold no snapshot fail with `Serialization`,
/// a snapshot that does not restore fails as restoring fails, and else the
/// restored session is added.
pub open spec fn deserialized<P: CryptoProvider>(
    state: SessionManagerState,
    contact_id: Seq<char>,
    data: Seq<u8>,
    now: i64,
) -> Result<SessionManagerState, CryptoError> {
    match bincode_snapshot(data) {
        None => Err(CryptoError::Serialization),
        Some(snapshot) => match restored_state::<P>(snapshot) {
            Err(e) => Err(e),
            Ok(session) => Ok(state.added(contact_id, session, now)),
        },
    }
}

/// The outcome of restoring one session after another at the time `now`:
/// the state reached, and the first failure if there was one, after which
/// nothing more is restored.
pub open spec fn imported<P: CryptoProvider>(
    state: SessionManagerState,
    entries: Seq<(Seq<char>, Seq<u8>)>,
    now: i64,
) -> (SessionManagerState, Result<(), CryptoError>)
    decreases entries.len(),
{
    if entries.len() == 0 {
        (state, Ok(()))
    } else {
        let before = imported::<P>(state, entries.drop_last(), now);
        if before.1 is Err {
            before
        } else {
            match deserialized::<P>(before.0, entries.last().0, entries.last().1, now) {
                Ok(next) => (next, Ok(())),
                Err(e) => (before.0, Err(e)),
            }
        }
    }
}

/// The contacts and stored bytes of a list of entries.
pub open spec fn entries_view(entries: Seq<(String, Vec<u8>)>) -> Seq<(Seq<char>, Seq<u8>)> {
    entries.map_values(|e: (String, Vec<u8>)| (e.0@, e.1@))
}

/// Removing a store keeps the contacts distinct.
pub proof fn lemma_remove_keeps_distinct(sessions: Seq<StoreView>, i: int)
    requires
        contacts_distinct(sessions),
        0 <= i < sessions.len(),
    ensures
        contacts_distinct(sessions.remove(i)),
        forall|contact: Seq<char>| !has_contact(sessions, contact) ==> !has_contact(sessions.remove(i), contact),
        !has_contact(sessions.remove(i), sessions[i].metadata.contact_id),
{
    let after = sessions.remove(i);
    assert forall|a: int, b: int| 0 <= a < b < after.len() implies (#[trigger] after[a]).metadata.contact_id != (
    #[trigger] after[b]).metadata.contact_id by {
        let a0 = if a < i { a } else { a + 1 };
        let b0 = if b < i { b } else { b + 1 };
        assert(after[a] == sessions[a0]);
        assert(after[b] == sessions[b0]);
    }
    assert forall|contact: Seq<char>| !has_contact(sessions, contact) implies !has_contact(after, contact) by {
        if has_contact(after, contact) {
            let a = contact_index(after, contact);
            let a0 = if a < i { a } else { a + 1 };
            assert(after[a] == sessions[a0]);
        }
    }
    if has_contact(after, sessions[i].metadata.contact_id) {
        let a = contact_index(after, sessions[i].metadata.contact_id);
        let a0 = if a < i { a } else { a + 1 };
        assert(after[a] == sessions[a0]);
    }
}

/// Adding a session keeps a well-formed manager well formed, and
/// afterwards the manager has the session for the contact.
pub proof fn lemma_added_is_well_formed(state: SessionManagerState, contact_id: Seq<char>, session: SessionState, now: i64)
    requires
        state.well_formed(),
    ensures
        state.added(contact_id, session, now).well_formed(),
        has_contact(state.added(contact_id, session, now).sessions, contact_id),
        state.added(contact_id, session, now).sessions.last().session == session,
{
    let room = if state.sessions.len() >= state.max_sessions {
        without_least_recent(state.sessions)
    } else {
        state.sessions
    };
    if state.sessions.len() >= state.max_sessions && state.sessions.len() > 0 {
        lemma_least_recent_exists(state.sessions);
        lemma_remove_keeps_distinct(state.sessions, least_recent_index(state.sessions));
    }
    assert(contacts_distinct(room));
    let cleared = without_contact(room, contact_id);
    if has_contact(room, contact_id) {
        lemma_remove_keeps_distinct(room, contact_index(room, contact_id));
    }
    assert(contacts_distinct(cleared));
    assert(!has_contact(cleared, contact_id));
    let after = state.added(contact_id, session, now).sessions;
    assert(after == cleared.push(after.last()));
    assert forall|a: int, b: int| 0 <= a < b < after.len() implies (#[trigger] after[a]).metadata.contact_id != (
    #[trigger] after[b]).metadata.contact_id by {
        if b < cleared.len() {
            assert(after[a] == cleared[a]);
            assert(after[b] == cleared[b]);
        } else {
            assert(after[a] == cleared[a]);
        }
    }
    assert(after[after.len() - 1].metadata.contact_id == contact_id);
}

/// A list that is not empty has a least recently used store.
pub proof fn lemma_least_recent_exists(sessions: Seq<StoreView>)
    requires
        sessions.len() > 0,
    ensures
        is_least_recent_at(sessions, least_recent_index(sessions)),
{
    lemma_least_recent_among(sessions, sessions.len() as int);
    assert(sessions.take(sessions.len() as int) =~= sessions);
    let i = choose|i: int| is_least_recent_at(sessions, i);
    assert(is_least_recent_at(sessions, i));
}

/// Among the first `n` stores of a list there is one that none of them
/// was used before, and that those before it were used after.
proof fn lemma_least_recent_among(sessions: Seq<StoreView>, n: int)
    requires
        0 < n <= sessions.len(),
    ensures
        exists|i: int| is_least_recent_at(sessions.take(n), i),
    decreases n,
{
    let prefix = sessions.take(n);
    if n == 1 {
        assert(is_least_recent_at(prefix, 0));
    } else {
        lemma_least_recent_among(sessions, n - 1);
        let shorter = sessions.take(n - 1);
        let i = choose|i: int| is_least_recent_at(shorter, i);
        assert forall|j: int| 0 <= j < n - 1 implies shorter[j] == prefix[j] by {}
        assert(shorter[i] == prefix[i]);
        if prefix[n - 1].metadata.last_used < prefix[i].metadata.last_used {
            assert forall|j: int| 0 <= j < prefix.len() implies prefix[n - 1].metadata.last_used <= (
            #[trigger] prefix[j]).metadata.last_used by {
                if j < n - 1 {
                    assert(shorter[j] == prefix[j]);
                }
            }
            assert forall|j: int| 0 <= j < n - 1 implies prefix[n - 1].metadata.last_used < (
            #[trigger] prefix[j]).metadata.last_used by {
                assert(shorter[j] == prefix[j]);
            }
            assert(is_least_recent_at(prefix, n - 1));
        } else {
            assert forall|j: int| 0 <= j < prefix.len() implies prefix[i].metadata.last_used <= (
            #[trigger] prefix[j]).metadata.last_used by {
                if j < n - 1 {
                    assert(shorter[j] == prefix[j]);
                }
            }
            assert forall|j: int| 0 <= j < i implies prefix[i].metadata.last_used < (#[trigger] prefix[j]).metadata.last_used by {
                assert(shorter[j] == prefix[j]);
            }
            assert(is_least_recent_at(prefix, i));
        }
    }
}

/// Once restoring has failed, the entries that follow change nothing.
proof fn lemma_import_failure_stays<P: CryptoProvider>(
    state: SessionManagerState,
    entries: Seq<(Seq<char>, Seq<u8>)>,
    failed: int,
    now: i64,
)
    requires
        0 <= failed <= entries.len(),
        imported::<P>(state, entries.take(failed), now).1 is Err,
    ensures
        imported::<P>(state, entries, now) == imported::<P>(state, entries.take(failed), now),
    decreases entries.len(),
{
    if failed < entries.len() {
        assert(entries.drop_last().take(failed) =~= entries.take(failed));
        lemma_import_failure_stays::<P>(state, entries.drop_last(), failed, now);
    } else {
        assert(entries.take(failed) =~= entries);
    }
}

/// The sessions of one client over the suite `P`.
pub struct SessionManager<P: CryptoProvider> {
    sessions: Vec<SessionStore<P>>,
    max_sessions: usize,
    _phantom: PhantomData<P>,
}

impl<P: CryptoProvider> View for SessionManager<P> {
    type V = SessionManagerState;

    closed spec fn view(&self) -> SessionManagerState {
        SessionManagerState { sessions: stores_view(self.sessions@), max_sessions: self.max_sessions }
    }
}

impl<P: CryptoProvider> SessionManager<P> {
    /// A manager without sessions that holds up to
    /// [`DEFAULT_MAX_SESSIONS`] of them.
    pub fn new() -> (manager: Self)
        ensures
            manager@ == (SessionManagerState { sessions: Seq::empty(), max_sessions: DEFAULT_MAX_SESSIONS }),
            manager@.well_formed(),
    {
        Self::with_capacity(DEFAULT_MAX_SESSIONS)
    }

    /// A manager without sessions that holds up to `max_sessions` of them.
    pub fn with_capacity(max_sessions: usize) -> (manager: Self)
        ensures
            manager@ == (SessionManagerState { sessions: Seq::empty(), max_sessions }),
            manager@.well_formed(),
    {
        let manager = SessionManager { sessions: Vec::new(), max_sessions, _phantom: PhantomData };
        assert(manager@.sessions =~= Seq::empty());
        manager
    }

    /// The place of the store for a contact, if there is one.
    fn find(&self, contact_id: &str) -> (found: Option<usize>)
        requires
            self@.well_formed(),
        ensures
            found is Some <==> has_contact(self@.sessions, contact_id@),
            found matches Some(i) ==> i < self@.sessions.len() && i == contact_index(self@.sessions, contact_id@)
                && self@.sessions[i as int].metadata.contact_id == contact_id@,
    {
        let key = contact_id.to_owned();
        let ghost view = stores_view(self.sessions@);
        let mut i: usize = 0;
        while i < self.sessions.len()
            invariant
                i <= self.sessions@.len(),
                view == stores_view(self.sessions@),
                view == self@.sessions,
                contacts_distinct(view),
                key@ == contact_id@,
                forall|j: int| 0 <= j < i ==> (#[trigger] view[j]).metadata.contact_id != contact_id@,
            decreases self.sessions@.len() - i,
        {
            if self.sessions[i].metadata.contact_id == key {
                assert(view[i as int].metadata.contact_id == contact_id@);
                let ghost chosen = contact_index(view, contact_id@);
                assert(chosen == i) by {
                    if chosen < i {
                        assert(view[chosen].metadata.contact_id != contact_id@);
                    }
                    if i < chosen {
                        assert(view[i as int].metadata.contact_id != view[chosen].metadata.contact_id);
                    }
                }
                return Some(i);
            }
            i += 1;
        }
        None
    }

    /// The place of the least recently used store of a manager that has
    /// sessions.
    fn find_least_recent(&self) -> (found: usize)
        requires
            self@.sessions.len() > 0,
        ensures
            found == least_recent_index(self@.sessions),
            is_least_recent_at(self@.sessions, found as int),
    {
        let ghost view = stores_view(self.sessions@);
        let mut best: usize = 0;
        let mut i: usize = 1;
        while i < self.sessions.len()
            invariant
                0 <= best < i <= self.sessions@.len(),
                view == stores_view(self.sessions@),
                forall|j: int| 0 <= j < i ==> view[best as int].metadata.last_used <= (#[trigger] view[j]).metadata.last_used,
                forall|j: int| 0 <= j < best ==> view[best as int].metadata.last_used < (#[trigger] view[j]).metadata.last_used,
            decreases self.sessions@.len() - i,
        {
            if self.sessions[i].metadata.last_used < self.sessions[best].metadata.last_used {
                best = i;
            }
            i += 1;
        }
        proof {
            assert(is_least_recent_at(view, best as int));
            let chosen = least_recent_index(view);
            assert(is_least_recent_at(view, chosen));
            if chosen < best {
                assert(view[best as int].metadata.last_used < view[chosen].metadata.last_used);
                assert(view[chosen].metadata.last_used <= view[best as int].metadata.last_used);
            }
            if best < chosen {
                assert(view[chosen].metadata.last_used < view[best as int].metadata.last_used);
                assert(view[best as int].metadata.last_used <= view[chosen].metadata.last_used);
            }
        }
        best
    }

    /// Adds a session for a contact at the time `now`. A full manager
    /// first drops its least recently used session; then the new session
    /// takes the place of the one the contact had. It never fails.
    pub fn add_session_at(&mut self, contact_id: String, session: DoubleRatchetSession<P>, now: i64) -> (r: Result<
        (),
        CryptoError,
    >)
        requires
            old(self)@.well_formed(),
        ensures
            r is Ok,
            final(self)@ == old(self)@.added(contact_id@, session@, now),
            final(self)@.well_formed(),
    {
        proof {
            lemma_added_is_well_formed(self@, contact_id@, session@, now);
        }
        if self.sessions.len() >= self.max_sessions {
            let _ = self.cleanup_old_sessions();
        }
        let ghost room = self@.sessions;
        match self.find(contact_id.as_str()) {
            Some(i) => {
                let ghost before = stores_view(self.sessions@);
                self.sessions.remove(i);
                assert(stores_view(self.sessions@) =~= before.remove(i as int));
            },
            None => {},
        }
        let ghost cleared = self@.sessions;
        assert(cleared == without_contact(room, contact_id@));
        let session_id = session.session_id().to_owned();
        let metadata = SessionMetadata::new_at(session_id, contact_id, now);
        let store = SessionStore { session, metadata };
        self.sessions.push(store);
        assert(stores_view(self.sessions@) =~= cleared.push(store@));
        Ok(())
    }

    /// Adds a session for a contact now. It never fails, and afterwards
    /// the manager has the session for the contact.
    pub fn add_session(&mut self, contact_id: String, session: DoubleRatchetSession<P>) -> (r: Result<(), CryptoError>)
        requires
            old(self)@.well_formed(),
        ensures
            r is Ok,
            exists|now: i64| now >= 0 && final(self)@ == #[trigger] old(self)@.added(contact_id@, session@, now),
            final(self)@.well_formed(),
            has_contact(final(self)@.sessions, contact_id@),
    {
        let now = current_timestamp();
        proof {
            lemma_added_is_well_formed(self@, contact_id@, session@, now);
        }
        let r = self.add_session_at(contact_id, session, now);
        assert(final(self)@ == old(self)@.added(contact_id@, session@, now));
        r
    }

    /// The session held for a contact.
    pub fn get_session(&self, contact_id: &str) -> (r: Option<&DoubleRatchetSession<P>>)
        requires
            self@.well_formed(),
        ensures
            r is Some <==> has_contact(self@.sessions, contact_id@),
            r matches Some(session) ==> session@ == self@.sessions[contact_index(
                self@.sessions,
                contact_id@,
            )].session,
    {
        match self.find(contact_id) {
            Some(i) => {
                assert(stores_view(self.sessions@)[i as int] == self.sessions@[i as int]@);
                Some(&self.sessions[i].session)
            },
            None => None,
        }
    }

    /// The session held for a contact, to be used, at the time `now`: the
    /// use is recorded in the metadata, and what the caller does to the
    /// session is what becomes of the session held.
    pub fn get_session_mut_at(&mut self, contact_id: &str, now: i64) -> (r: Option<&mut DoubleRatchetSession<P>>)
        requires
            old(self)@.well_formed(),
        ensures
            r is Some <==> has_contact(old(self)@.sessions, contact_id@),
            r is None ==> final(self)@ == old(self)@,
            r matches Some(session) ==> {
                let i = contact_index(old(self)@.sessions, contact_id@);
                &&& (*session)@ == old(self)@.sessions[i].session
                &&& final(self)@ == (SessionManagerState {
                    sessions: old(self)@.sessions.update(
                        i,
                        StoreView {
                            session: (*final(session))@,
                            metadata: old(self)@.sessions[i].metadata.touched(now),
                        },
                    ),
                    ..old(self)@
                })
            },
    {
        match self.find(contact_id) {
            Some(i) => {
                let ghost before = self.sessions@;
                assert(stores_view(before)[i as int] == before[i as int]@);
                let store = &mut self.sessions[i];
                store.metadata.update_last_used_at(now);
                proof {
                    let after = before.update(i as int, *final(store));
                    assert(stores_view(after) =~= stores_view(before).update(i as int, (*final(store))@));
                }
                Some(&mut store.session)
            },
            None => None,
        }
    }

    /// The session held for a contact, to be used now.
    pub fn get_session_mut(&mut self, contact_id: &str) -> (r: Option<&mut DoubleRatchetSession<P>>)
        requires
            old(self)@.well_formed(),
        ensures
            r is Some <==> has_contact(old(self)@.sessions, contact_id@),
            r is None ==> final(self)@ == old(self)@,
            r matches Some(session) ==> {
                let i = contact_index(old(self)@.sessions, contact_id@);
                &&& (*session)@ == old(self)@.sessions[i].session
                &&& exists|now: i64|
                    now >= 0 && final(self)@ == (SessionManagerState {
                        sessions: old(self)@.sessions.update(
                            i,
                            StoreView {
                                session: (*final(session))@,
                                metadata: #[trigger] old(self)@.sessions[i].metadata.touched(now),
                            },
                        ),
                        ..old(self)@
                    })
            },
    {
        let now = current_timestamp();
        self.get_session_mut_at(contact_id, now)
    }

    /// Whether a session is held for a contact.
    pub fn has_session(&self, contact_id: &str) -> (held: bool)
        requires
            self@.well_formed(),
        ensures
            held == has_contact(self@.sessions, contact_id@),
    {
        self.find(contact_id).is_some()
    }

    /// Takes the session held for a contact out of the manager.
    pub fn remove_session(&mut self, contact_id: &str) -> (r: Option<DoubleRatchetSession<P>>)
        requires
            old(self)@.well_formed(),
        ensures
            r is Some <==> has_contact(old(self)@.sessions, contact_id@),
            r matches Some(session) ==> session@ == old(self)@.sessions[contact_index(
                old(self)@.sessions,
                contact_id@,
            )].session,
            final(self)@ == (SessionManagerState {
                sessions: without_contact(old(self)@.sessions, contact_id@),
                ..old(self)@
            }),
            final(self)@.well_formed(),
            !has_contact(final(self)@.sessions, contact_id@),
    {
        match self.find(contact_id) {
            Some(i) => {
                let ghost before = stores_view(self.sessions@);
                proof {
                    lemma_remove_keeps_distinct(before, i as int);
                }
                let store = self.sessions.remove(i);
                assert(before[i as int] == store@);
                assert(stores_view(self.sessions@) =~= before.remove(i as int));
                Some(store.session)
            },
            None => None,
        }
    }

    /// What is known of the session held for a contact.
    pub fn get_metadata(&self, contact_id: &str) -> (r: Option<&SessionMetadata>)
        requires
            self@.well_formed(),
        ensures
            r is Some <==> has_contact(self@.sessions, contact_id@),
            r matches Some(metadata) ==> metadata@ == self@.sessions[contact_index(
                self@.sessions,
                contact_id@,
            )].metadata,
    {
        match self.find(contact_id) {
            Some(i) => {
                assert(stores_view(self.sessions@)[i as int] == self.sessions@[i as int]@);
                Some(&self.sessions[i].metadata)
            },
            None => None,
        }
    }

    /// The contacts a session is held for, in the order of the stores.
    pub fn get_active_contacts(&self) -> (contacts: Vec<String>)
        ensures
            contacts@.len() == self@.sessions.len(),
            forall|i: int| 0 <= i < contacts@.len() ==> (#[trigger] contacts@[i])@ == self@.sessions[i].metadata.contact_id,
    {
        let ghost view = stores_view(self.sessions@);
        let mut contacts: Vec<String> = Vec::new();
        let mut i: usize = 0;
        while i < self.sessions.len()
            invariant
                i <= self.sessions@.len(),
                view == stores_view(self.sessions@),
                contacts@.len() == i,
                forall|j: int| 0 <= j < i ==> (#[trigger] contacts@[j])@ == view[j].metadata.contact_id,
            decreases self.sessions@.len() - i,
        {
            assert(view[i as int] == self.sessions@[i as int]@);
            contacts.push(self.sessions[i].metadata.contact_id.clone());
            i += 1;
        }
        contacts
    }

    /// How many sessions are held: never more than the limit.
    pub fn session_count(&self) -> (count: usize)
        ensures
            count == self@.sessions.len(),
    {
        self.sessions.len()
    }

    /// How many sessions the manager is meant to hold.
    pub fn max_sessions(&self) -> (max: usize)
        ensures
            max == self@.max_sessions,
    {
        self.max_sessions
    }

    /// Drops the least recently used session, if there is any session. It
    /// never fails.
    pub fn cleanup_old_sessions(&mut self) -> (r: Result<(), CryptoError>)
        requires
            old(self)@.well_formed(),
        ensures
            r is Ok,
            final(self)@ == (SessionManagerState {
                sessions: without_least_recent(old(self)@.sessions),
                ..old(self)@
            }),
            final(self)@.well_formed(),
    {
        if self.sessions.len() > 0 {
            let oldest = self.find_least_recent();
            let ghost before = stores_view(self.sessions@);
            proof {
                lemma_remove_keeps_distinct(before, oldest as int);
            }
            self.sessions.remove(oldest);
            assert(stores_view(self.sessions@) =~= before.remove(oldest as int));
        }
        Ok(())
    }

    /// Drops the sessions that were not used within `max_age_seconds`
    /// before the time `now`.
    pub fn cleanup_sessions_older_than_at(&mut self, max_age_seconds: i64, now: i64)
        requires
            old(self)@.well_formed(),
        ensures
            final(self)@ == (SessionManagerState {
                sessions: recently_used(old(self)@.sessions, max_age_seconds, now),
                ..old(self)@
            }),
            final(self)@.well_formed(),
    {
        let ghost whole = stores_view(self.sessions@);
        let ghost pred = |s: StoreView| used_within(s.metadata.last_used, max_age_seconds, now);
        let ghost done: int = 0;
        let mut i: usize = 0;
        proof {
            reveal(Seq::filter);
            assert(whole.take(0).filter(pred) =~= Seq::empty());
            assert(whole.skip(0) =~= whole);
            assert(stores_view(self.sessions@) =~= whole.take(0).filter(pred) + whole.skip(0));
        }
        while i < self.sessions.len()
            invariant
                0 <= done <= whole.len(),
                pred == (|s: StoreView| used_within(s.metadata.last_used, max_age_seconds, now)),
                i == whole.take(done).filter(pred).len(),
                stores_view(self.sessions@) == whole.take(done).filter(pred) + whole.skip(done),
                contacts_distinct(stores_view(self.sessions@)),
                self.max_sessions == old(self).max_sessions,
                stores_view(self.sessions@).len() <= old(self)@.limit(),
            decreases whole.len() - done,
        {
            let ghost current = stores_view(self.sessions@);
            let ghost kept = whole.take(done).filter(pred);
            proof {
                reveal(Seq::filter);
                assert(current[i as int] == whole.skip(done)[0]);
                assert(whole.take(done + 1).drop_last() =~= whole.take(done));
                assert(whole.take(done + 1).last() == whole[done]);
                assert(current[i as int] == self.sessions@[i as int]@);
            }
            if (now as i128) - (self.sessions[i].metadata.last_used as i128) < max_age_seconds as i128 {
                proof {
                    assert(whole.take(done + 1).filter(pred) =~= kept.push(whole[done]));
                    assert(current =~= whole.take(done + 1).filter(pred) + whole.skip(done + 1));
                }
                i += 1;
            } else {
                proof {
                    lemma_remove_keeps_distinct(current, i as int);
                    assert(whole.take(done + 1).filter(pred) =~= kept);
                    assert(current.remove(i as int) =~= kept + whole.skip(done + 1));
                }
                self.sessions.remove(i);
                assert(stores_view(self.sessions@) =~= current.remove(i as int));
            }
            proof {
                done = done + 1;
            }
        }
        proof {
            assert(whole.skip(done).len() == 0);
            assert(whole.take(done) =~= whole);
            assert(stores_view(self.sessions@) =~= whole.filter(pred));
        }
    }

    /// Drops the sessions that were not used within `max_age_seconds`
    /// before now.
    pub fn cleanup_sessions_older_than(&mut self, max_age_seconds: i64)
        requires
            old(self)@.well_formed(),
        ensures
            exists|now: i64|
                now >= 0 && final(self)@ == (SessionManagerState {
                    sessions: #[trigger] recently_used(old(self)@.sessions, max_age_seconds, now),
                    ..old(self)@
                }),
            final(self)@.well_formed(),
    {
        let now = current_timestamp();
        self.cleanup_sessions_older_than_at(max_age_seconds, now);
        assert(final(self)@ == (SessionManagerState {
            sessions: recently_used(old(self)@.sessions, max_age_seconds, now),
            ..old(self)@
        }));
    }

    /// The stored form of the session held for a contact: the bytes of
    /// its snapshot, from which the snapshot can be read back. It fails
    /// without a session for the contact, with `SessionNotFound`, and not
    /// otherwise.
    pub fn serialize_session(&self, contact_id: &str) -> (r: Result<Vec<u8>, CryptoError>)
        requires
            self@.well_formed(),
        ensures
            !has_contact(self@.sessions, contact_id@) ==> (r matches Err(e) && e == CryptoError::SessionNotFound),
            has_contact(self@.sessions, contact_id@) ==> {
                let snapshot = snapshot_of(self@.sessions[contact_index(self@.sessions, contact_id@)].session);
                r matches Ok(bytes) && bincode_snapshot(bytes@) == Some(snapshot)
            },
    {
        let session = match self.get_session(contact_id) {
            Some(session) => session,
            None => {
                return Err(CryptoError::SessionNotFound);
            },
        };
        let snapshot = session.to_serializable();
        match bincode_encode(&snapshot) {
            Some(bytes) => Ok(bytes),
            None => Err(CryptoError::Serialization),
        }
    }

    /// Restores a session for a contact from its stored form at the time
    /// `now` and adds it. On failure the manager is unchanged.
    pub fn deserialize_session_at(&mut self, contact_id: String, data: &[u8], now: i64) -> (r: Result<
        (),
        CryptoError,
    >)
        requires
            old(self)@.well_formed(),
        ensures
            match deserialized::<P>(old(self)@, contact_id@, data@, now) {
                Ok(state) => r is Ok && final(self)@ == state,
                Err(e) => r matches Err(f) && f == e && final(self)@ == old(self)@,
            },
            final(self)@.well_formed(),
    {
        let snapshot = match bincode_decode(data) {
            Some(snapshot) => snapshot,
            None => {
                return Err(CryptoError::Serialization);
            },
        };
        let session = DoubleRatchetSession::<P>::from_serializable(snapshot)?;
        self.add_session_at(contact_id, session, now)
    }

    /// Restores a session for a contact from its stored form and adds it
    /// now. On failure the manager is unchanged.
    pub fn deserialize_session(&mut self, contact_id: String, data: &[u8]) -> (r: Result<(), CryptoError>)
        requires
            old(self)@.well_formed(),
        ensures
            exists|now: i64|
                now >= 0 && match #[trigger] deserialized::<P>(old(self)@, contact_id@, data@, now) {
                    Ok(state) => r is Ok && final(self)@ == state,
                    Err(e) => r matches Err(f) && f == e && final(self)@ == old(self)@,
                },
            final(self)@.well_formed(),
    {
        let now = current_timestamp();
        let ghost outcome = deserialized::<P>(self@, contact_id@, data@, now);
        let r = self.deserialize_session_at(contact_id, data, now);
        assert(match outcome {
            Ok(state) => r is Ok && final(self)@ == state,
            Err(e) => r matches Err(f) && f == e && final(self)@ == old(self)@,
        });
        r
    }

    /// The stored form of every session held, with its contact, in the
    /// order of the stores. It does not fail.
    pub fn export_all_sessions(&self) -> (r: Result<Vec<(String, Vec<u8>)>, CryptoError>)
        ensures
            r matches Ok(exported) && {
                &&& exported@.len() == self@.sessions.len()
                &&& forall|i: int|
                    0 <= i < exported@.len() ==> {
                        &&& (#[trigger] exported@[i]).0@ == self@.sessions[i].metadata.contact_id
                        &&& bincode_snapshot(exported@[i].1@) == Some(snapshot_of(self@.sessions[i].session))
                    }
            },
    {
        let ghost view = stores_view(self.sessions@);
        let mut exported: Vec<(String, Vec<u8>)> = Vec::new();
        let mut i: usize = 0;
        while i < self.sessions.len()
            invariant
                i <= self.sessions@.len(),
                view == stores_view(self.sessions@),
                exported@.len() == i,
                forall|j: int|
                    0 <= j < i ==> {
                        &&& (#[trigger] exported@[j]).0@ == view[j].metadata.contact_id
                        &&& bincode_snapshot(exported@[j].1@) == Some(snapshot_of(view[j].session))
                    },
            decreases self.sessions@.len() - i,
        {
            assert(view[i as int] == self.sessions@[i as int]@);
            let snapshot = self.sessions[i].session.to_serializable();
            let bytes = match bincode_encode(&snapshot) {
                Some(bytes) => bytes,
                None => {
                    return Err(CryptoError::Serialization);
                },
            };
            exported.push((self.sessions[i].metadata.contact_id.clone(), bytes));
            i += 1;
        }
        Ok(exported)
    }

    /// Restores one session after another from its stored form at the
    /// time `now`, and stops at the first that fails. The sessions
    /// restored before it stay.
    pub fn import_all_sessions_at(&mut self, sessions: Vec<(String, Vec<u8>)>, now: i64) -> (r: Result<
        (),
        CryptoError,
    >)
        requires
            old(self)@.well_formed(),
        ensures
            (final(self)@, r) == imported::<P>(old(self)@, entries_view(sessions@), now),
            final(self)@.well_formed(),
    {
        let ghost entries = entries_view(sessions@);
        let mut i: usize = 0;
        assert(entries.take(0) =~= Seq::empty());
        while i < sessions.len()
            invariant
                i <= sessions@.len(),
                entries == entries_view(sessions@),
                self@.well_formed(),
                imported::<P>(old(self)@, entries.take(i as int), now) == (self@, Ok::<(), CryptoError>(())),
            decreases sessions@.len() - i,
        {
            let ghost before = self@;
            proof {
                assert(entries.take(i + 1).drop_last() =~= entries.take(i as int));
                assert(entries.take(i + 1).last() == entries[i as int]);
                assert(entries[i as int] == (sessions@[i as int].0@, sessions@[i as int].1@));
            }
            let contact_id = sessions[i].0.clone();
            match self.deserialize_session_at(contact_id, sessions[i].1.as_slice(), now) {
                Ok(()) => {},
                Err(e) => {
                    proof {
                        lemma_import_failure_stays::<P>(old(self)@, entries, i + 1, now);
                    }
                    return Err(e);
                },
            }
            i += 1;
        }
        assert(entries.take(sessions@.len() as int) =~= entries);
        Ok(())
    }

    /// Restores one session after another from its stored form, now, and
    /// stops at the first that fails.
    pub fn import_all_sessions(&mut self, sessions: Vec<(String, Vec<u8>)>) -> (r: Result<(), CryptoError>)
        requires
            old(self)@.well_formed(),
        ensures
            exists|now: i64|
                now >= 0 && (final(self)@, r) == #[trigger] imported::<P>(old(self)@, entries_view(sessions@), now),
            final(self)@.well_formed(),
    {
        let now = current_timestamp();
        let ghost entries = entries_view(sessions@);
        let r = self.import_all_sessions_at(sessions, now);
        assert((final(self)@, r) == imported::<P>(old(self)@, entries, now));
        r
    }

    /// Drops every session.
    pub fn clear_all(&mut self)
        ensures
            final(self)@ == (SessionManagerState { sessions: Seq::empty(), ..old(self)@ }),
            final(self)@.well_formed(),
    {
        self.sessions.clear();
        assert(stores_view(self.sessions@) =~= Seq::empty());
    }
}

impl<P: CryptoProvider> Default for SessionManager<P> {
    fn default() -> (manager: Self)
        ensures
            manager@ == (SessionManagerState { sessions: Seq::empty(), max_sessions: DEFAULT_MAX_SESSIONS }),
    {
        Self::new()
    }
}

} // verus!
