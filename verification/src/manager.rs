//! The connection manager: it joins the profile collection and the secret
//! namespace, and fixes the order of the two writes of an upsert. The profile
//! is written first, so that a failure can leave a profile without a secret
//! but never a secret without a profile.
//!
//! Nothing here serialises concurrent callers: two upserts that interleave
//! between reading and writing the profile document can lose one of the two
//! changes, unless the caller holds a lock around the whole sequence.

use vstd::prelude::*;
use crate::connection::{clone_all, text_view, views, Connection, ConnectionView};
use crate::error::Error;
use crate::profiles::{
    find_connection, has_id, is_first, load_all, loaded, unique_ids, upsert,
    upsert_is_idempotent, upsert_keeps_ids, upsert_keeps_ids_unique, upserted,
};
use crate::secrets::SecretStore;

verus! {

/// Where an upsert stands, and with it what the caller has to do next.
#[derive(Debug, PartialEq, Eq)]
pub enum UpsertState {
    /// Write `records` as the whole profile document.
    SavingProfiles { records: Vec<Connection>, id: String, secret: String },
    /// The profile document is written: write `secret` under `id`.
    SavingSecret { id: String, secret: String },
    /// Nothing is left to do.
    Finished { outcome: Result<(), Error> },
}

/// Starts an upsert from the profile document as it was read: the state asks
/// for the document to be written with `connection` in it.
pub fn begin_upsert(document: Option<Vec<Connection>>, connection: Connection, secret: String) -> (state:
    UpsertState)
    ensures
        match state {
            UpsertState::SavingProfiles { records, id, secret: pending } => {
                &&& views(records@) == upserted(loaded(document), connection@)
                &&& id@ == connection.id@
                &&& pending == secret
            },
            _ => false,
        },
{
    let id = connection.id.clone();
    let mut records = load_all(document);
    upsert(&mut records, connection);
    UpsertState::SavingProfiles { records, id, secret }
}

/// The state that follows `state` once the write it asked for has succeeded
/// (`written`) or failed.
pub open spec fn advanced(state: UpsertState, written: bool) -> UpsertState {
    match state {
        UpsertState::SavingProfiles { id, secret, .. } => if written {
            UpsertState::SavingSecret { id, secret }
        } else {
            UpsertState::Finished { outcome: Err(Error::StoreUnavailable) }
        },
        UpsertState::SavingSecret { .. } => if written {
            UpsertState::Finished { outcome: Ok(()) }
        } else {
            UpsertState::Finished { outcome: Err(Error::PartialUpsertFailure) }
        },
        UpsertState::Finished { .. } => state,
    }
}

/// Takes an upsert one step further. A failed profile write ends it before
/// the secret is touched; a failed secret write ends it as a partial failure.
pub fn advance_upsert(state: UpsertState, written: bool) -> (next: UpsertState)
    ensures
        next == advanced(state, written),
{
    match state {
        UpsertState::SavingProfiles { id, secret, .. } => if written {
            UpsertState::SavingSecret { id, secret }
        } else {
            UpsertState::Finished { outcome: Err(Error::StoreUnavailable) }
        },
        UpsertState::SavingSecret { .. } => if written {
            UpsertState::Finished { outcome: Ok(()) }
        } else {
            UpsertState::Finished { outcome: Err(Error::PartialUpsertFailure) }
        },
        UpsertState::Finished { outcome } => UpsertState::Finished { outcome },
    }
}

/// The outcome of a finished write to a store: success, or the store being
/// unavailable.
pub fn write_outcome(written: bool) -> (outcome: Result<(), Error>)
    ensures
        outcome == if written {
            Ok::<(), Error>(())
        } else {
            Err(Error::StoreUnavailable)
        },
{
    if written {
        Ok(())
    } else {
        Err(Error::StoreUnavailable)
    }
}

/// Whether a secret may be written under `id`: only where a profile is stored
/// under it.
pub fn require_connection(records: &Vec<Connection>, id: &String) -> (outcome: Result<(), Error>)
    ensures
        outcome == if has_id(views(records@), id@) {
            Ok::<(), Error>(())
        } else {
            Err(Error::ConnectionNotFound)
        },
{
    match find_connection(records, id) {
        Some(_) => Ok(()),
        None => Err(Error::ConnectionNotFound),
    }
}

/// Joins the profile stored under `id` with its secret. Without a profile the
/// result is `ConnectionNotFound`; with a profile and no secret it is
/// `TokenNotFound`; a profile is never handed out without its secret.
pub fn resolve(records: &Vec<Connection>, id: &String, token: Option<String>) -> (result: Result<
    (Connection, String),
    Error,
>)
    ensures
        match result {
            Ok((connection, secret)) => {
                &&& token == Some(secret)
                &&& exists|i: int|
                    is_first(views(records@), id@, i) && connection@ == views(records@)[i]
            },
            Err(e) => if has_id(views(records@), id@) {
                e == Error::TokenNotFound && token.is_none()
            } else {
                e == Error::ConnectionNotFound
            },
        },
{
    match find_connection(records, id) {
        None => Err(Error::ConnectionNotFound),
        Some(i) => {
            assert(has_id(views(records@), id@)) by {
                assert(views(records@)[i as int].id == id@);
            }
            match token {
                None => Err(Error::TokenNotFound),
                Some(secret) => {
                    let connection = records[i].clone();
                    assert(is_first(views(records@), id@, i as int) && connection@ == views(
                        records@,
                    )[i as int]);
                    Ok((connection, secret))
                },
            }
        },
    }
}

/// The result of an upsert, by which of its two writes the backend accepts.
pub open spec fn upsert_outcome(profiles_writable: bool, secrets_writable: bool) -> Result<
    (),
    Error,
> {
    if !profiles_writable {
        Err(Error::StoreUnavailable)
    } else if !secrets_writable {
        Err(Error::PartialUpsertFailure)
    } else {
        Ok(())
    }
}

/// Both stores held in memory. Each store accepts writes or refuses them all,
/// as its flag says, which stands for a backend that fails.
#[derive(Debug)]
pub struct MemoryStores {
    pub profiles: Option<Vec<Connection>>,
    pub secrets: SecretStore,
    pub profiles_writable: bool,
    pub secrets_writable: bool,
}

impl MemoryStores {
    /// The stored profile collection.
    pub open spec fn records(&self) -> Seq<ConnectionView> {
        loaded(self.profiles)
    }

    /// Every stored secret belongs to a stored profile.
    pub open spec fn no_orphan_secrets(&self) -> bool {
        forall|id: Seq<char>| #[trigger]
            self.secrets@.contains_key(id) ==> has_id(self.records(), id)
    }

    /// Stores that were never written to, and that accept writes.
    pub fn new() -> (stores: MemoryStores)
        ensures
            stores.profiles.is_none(),
            stores.no_orphan_secrets(),
            stores.records() == Seq::<ConnectionView>::empty(),
            stores.secrets@ == Map::<Seq<char>, Seq<char>>::empty(),
            stores.profiles_writable,
            stores.secrets_writable,
    {
        MemoryStores {
            profiles: None,
            secrets: SecretStore::new(),
            profiles_writable: true,
            secrets_writable: true,
        }
    }

    /// The profile document as a reader gets it: a copy, or nothing where it
    /// was never written.
    pub fn read_document(&self) -> (document: Option<Vec<Connection>>)
        ensures
            loaded(document) == self.records(),
            document.is_some() == self.profiles.is_some(),
    {
        match &self.profiles {
            Some(records) => Some(clone_all(records)),
            None => None,
        }
    }

    /// Replaces the whole profile document. Fails only where the store
    /// refuses writes, and then changes nothing; the secrets are never
    /// touched.
    pub fn save_all(&mut self, records: &Vec<Connection>) -> (outcome: Result<(), Error>)
        ensures
            outcome == if old(self).profiles_writable {
                Ok::<(), Error>(())
            } else {
                Err(Error::StoreUnavailable)
            },
            outcome.is_ok() ==> final(self).profiles.is_some() && final(self).records() == views(
                records@,
            ),
            outcome.is_err() ==> final(self).profiles == old(self).profiles,
            final(self).secrets == old(self).secrets,
            final(self).profiles_writable == old(self).profiles_writable,
            final(self).secrets_writable == old(self).secrets_writable,
    {
        if self.profiles_writable {
            self.profiles = Some(clone_all(records));
        }
        write_outcome(self.profiles_writable)
    }

    /// Writes one secret. Fails only where the store refuses writes, and
    /// then changes nothing; the profile document is never touched.
    pub fn write_secret(&mut self, id: &String, secret: &String) -> (outcome: Result<(), Error>)
        ensures
            outcome == if old(self).secrets_writable {
                Ok::<(), Error>(())
            } else {
                Err(Error::StoreUnavailable)
            },
            final(self).secrets@ == if outcome.is_ok() {
                old(self).secrets@.insert(id@, secret@)
            } else {
                old(self).secrets@
            },
            final(self).profiles == old(self).profiles,
            final(self).profiles_writable == old(self).profiles_writable,
            final(self).secrets_writable == old(self).secrets_writable,
    {
        if self.secrets_writable {
            self.secrets.set(id.clone(), secret.clone());
        }
        write_outcome(self.secrets_writable)
    }

    /// Every stored profile, in stored order; none where nothing was stored.
    pub fn list_connections(&self) -> (records: Vec<Connection>)
        ensures
            views(records@) == self.records(),
            self.profiles.is_none() ==> records@.len() == 0,
    {
        let records = load_all(self.read_document());
        assert(views(records@).len() == records@.len());
        records
    }

    /// The secret stored under `id`, if any.
    pub fn get_token(&self, id: &String) -> (token: Option<String>)
        ensures
            text_view(token) == self.secrets.lookup(id@),
    {
        self.secrets.get(id)
    }

    /// Stores a profile and its secret, the profile first. Where the profile
    /// write fails nothing is changed; where only the secret write fails the
    /// profile stays written and the failure says so. No outcome leaves a
    /// secret without a profile, or two profiles with one id.
    pub fn upsert_connection(&mut self, connection: Connection, secret: String) -> (result: Result<
        (),
        Error,
    >)
        ensures
            result == upsert_outcome(old(self).profiles_writable, old(self).secrets_writable),
            final(self).records() == if old(self).profiles_writable {
                upserted(old(self).records(), connection@)
            } else {
                old(self).records()
            },
            final(self).secrets@ == if result.is_ok() {
                old(self).secrets@.insert(connection.id@, secret@)
            } else {
                old(self).secrets@
            },
            old(self).no_orphan_secrets() ==> final(self).no_orphan_secrets(),
            unique_ids(old(self).records()) ==> unique_ids(final(self).records()),
            final(self).profiles_writable == old(self).profiles_writable,
            final(self).secrets_writable == old(self).secrets_writable,
    {
        let ghost record = connection@;
        let saving = begin_upsert(self.read_document(), connection, secret);
        let saved = match &saving {
            UpsertState::SavingProfiles { records, .. } => self.save_all(records).is_ok(),
            _ => false,
        };
        let next = advance_upsert(saving, saved);
        let written = match &next {
            UpsertState::SavingSecret { id, secret } => self.write_secret(id, secret).is_ok(),
            _ => false,
        };
        let result = match advance_upsert(next, written) {
            UpsertState::Finished { outcome } => outcome,
            _ => Err(Error::StoreUnavailable),
        };
        proof {
            if unique_ids(old(self).records()) {
                upsert_keeps_ids_unique(old(self).records(), record);
            }
            if old(self).no_orphan_secrets() {
                assert forall|id: Seq<char>| #[trigger]
                    self.secrets@.contains_key(id) implies has_id(self.records(), id) by {
                    upsert_keeps_ids(old(self).records(), record, id);
                }
            }
        }
        result
    }

    /// Replaces the secret of a stored profile and leaves every profile as it
    /// is. An id without a profile is refused before anything is written.
    pub fn set_token(&mut self, id: &String, token: &String) -> (result: Result<(), Error>)
        ensures
            result == if !has_id(old(self).records(), id@) {
                Err::<(), Error>(Error::ConnectionNotFound)
            } else if !old(self).secrets_writable {
                Err(Error::StoreUnavailable)
            } else {
                Ok(())
            },
            final(self).secrets@ == if result.is_ok() {
                old(self).secrets@.insert(id@, token@)
            } else {
                old(self).secrets@
            },
            old(self).no_orphan_secrets() ==> final(self).no_orphan_secrets(),
            final(self).profiles == old(self).profiles,
            final(self).profiles_writable == old(self).profiles_writable,
            final(self).secrets_writable == old(self).secrets_writable,
    {
        let records = self.list_connections();
        match require_connection(&records, id) {
            Err(e) => Err(e),
            Ok(()) => self.write_secret(id, token),
        }
    }

    /// The profile stored under `id` together with its secret.
    pub fn resolve_for_request(&self, id: &String) -> (result: Result<(Connection, String), Error>)
        ensures
            match result {
                Ok((connection, secret)) => {
                    &&& self.secrets.lookup(id@) == Some(secret@)
                    &&& exists|i: int|
                        is_first(self.records(), id@, i) && connection@ == self.records()[i]
                },
                Err(e) => if has_id(self.records(), id@) {
                    e == Error::TokenNotFound && self.secrets.lookup(id@).is_none()
                } else {
                    e == Error::ConnectionNotFound
                },
            },
    {
        let records = self.list_connections();
        let token = self.get_token(id);
        resolve(&records, id, token)
    }
}

/// An upsert repeated with the same profile and secret changes neither store
/// a second time; and where the ids were unique, exactly one record has the
/// id afterwards.
pub proof fn upsert_twice_is_upsert_once(
    records: Seq<ConnectionView>,
    secrets: Map<Seq<char>, Seq<char>>,
    record: ConnectionView,
    secret: Seq<char>,
)
    ensures
        upserted(upserted(records, record), record) == upserted(records, record),
        secrets.insert(record.id, secret).insert(record.id, secret) == secrets.insert(
            record.id,
            secret,
        ),
        secrets.insert(record.id, secret)[record.id] == secret,
        unique_ids(records) ==> exists|i: int|
            {
                &&& 0 <= i < upserted(records, record).len()
                &&& upserted(records, record)[i] == record
                &&& forall|j: int|
                    0 <= j < upserted(records, record).len() && j != i ==> (
                    #[trigger] upserted(records, record)[j]).id != record.id
            },
{
    upsert_is_idempotent(records, record);
    assert(secrets.insert(record.id, secret).insert(record.id, secret) =~= secrets.insert(
        record.id,
        secret,
    ));
}

} // verus!
