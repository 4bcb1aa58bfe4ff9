//! The secret namespace: one opaque token per connection id, kept apart from
//! the profile collection.

use vstd::prelude::*;
use crate::connection::text_view;

verus! {

#[verifier::external_type_specification]
#[verifier::external_body]
pub struct ExJsonValue(serde_json::Value);

/// The text that `serde_json::Value::as_str` yields for a JSON value: the
/// string it holds, or nothing where it is no string.
pub uninterp spec fn json_text(value: serde_json::Value) -> Option<Seq<char>>;

/// Calls `serde_json::Value::as_str` and copies the borrowed text. The result
/// is not proved here: it is taken to be the text named by [`json_text`].
#[verifier::external_body]
fn text_of_json(value: &serde_json::Value) -> (text: Option<String>)
    ensures
        text_view(text) == json_text(*value),
{
    value.as_str().map(String::from)
}

/// The secret that an entry of the token document stands for: the text of a
/// JSON string, and nothing for a missing entry or any other JSON value.
pub open spec fn entry_secret(entry: Option<&serde_json::Value>) -> Option<Seq<char>> {
    match entry {
        Some(value) => json_text(*value),
        None => None,
    }
}

/// Reads the secret out of what a lookup in the token document returned.
pub fn stored_token(entry: Option<&serde_json::Value>) -> (token: Option<String>)
    ensures
        text_view(token) == entry_secret(entry),
{
    match entry {
        Some(value) => text_of_json(value),
        None => None,
    }
}

/// One entry of the secret namespace.
#[derive(Debug)]
struct SecretEntry {
    id: String,
    secret: String,
}

/// Some entry is stored under `id`.
spec fn has_entry(entries: Seq<SecretEntry>, id: Seq<char>) -> bool {
    exists|i: int| 0 <= i < entries.len() && (#[trigger] entries[i]).id@ == id
}

/// `i` is the position of the first entry under `id`.
spec fn is_first_entry(entries: Seq<SecretEntry>, id: Seq<char>, i: int) -> bool {
    &&& 0 <= i < entries.len()
    &&& entries[i].id@ == id
    &&& forall|j: int| 0 <= j < i ==> (#[trigger] entries[j]).id@ != id
}

/// The position of the first entry under `id`.
spec fn first_entry(entries: Seq<SecretEntry>, id: Seq<char>) -> int {
    choose|i: int| is_first_entry(entries, id, i)
}

/// The mapping from id to secret that a sequence of entries stands for.
spec fn secrets_of(entries: Seq<SecretEntry>) -> Map<Seq<char>, Seq<char>> {
    Map::new(
        |id: Seq<char>| has_entry(entries, id),
        |id: Seq<char>| entries[first_entry(entries, id)].secret@,
    )
}

/// An id with an entry has a first entry, and only one position is the first.
proof fn first_entry_is_first(entries: Seq<SecretEntry>, id: Seq<char>, k: int)
    requires
        0 <= k < entries.len(),
        entries[k].id@ == id,
    ensures
        is_first_entry(entries, id, first_entry(entries, id)),
        is_first_entry(entries, id, k) ==> first_entry(entries, id) == k,
    decreases k,
{
    if forall|j: int| 0 <= j < k ==> (#[trigger] entries[j]).id@ != id {
        assert(is_first_entry(entries, id, k));
        let f = first_entry(entries, id);
        if f < k {
            assert(entries[f].id@ == id);
        }
    } else {
        let j = choose|j: int| 0 <= j < k && (#[trigger] entries[j]).id@ == id;
        first_entry_is_first(entries, id, j);
    }
}

/// Replacing the secret of the first entry under `id`, or appending an entry
/// where there is none, maps `id` to the new secret and leaves every other id
/// as it was.
proof fn write_is_insert(before: Seq<SecretEntry>, after: Seq<SecretEntry>, entry: SecretEntry)
    requires
        has_entry(before, entry.id@) ==> after == before.update(
            first_entry(before, entry.id@),
            entry,
        ),
        !has_entry(before, entry.id@) ==> after == before.push(entry),
    ensures
        secrets_of(after) == secrets_of(before).insert(entry.id@, entry.secret@),
{
    let id = entry.id@;
    let target = secrets_of(before).insert(id, entry.secret@);
    let at = if has_entry(before, id) {
        let k = choose|k: int| 0 <= k < before.len() && (#[trigger] before[k]).id@ == id;
        first_entry_is_first(before, id, k);
        first_entry(before, id)
    } else {
        before.len() as int
    };
    assert(after[at] == entry);
    assert forall|j: int| 0 <= j < before.len() implies (#[trigger] after[j]).id@
        == before[j].id@ by {}
    assert forall|j: int| 0 <= j < at implies (#[trigger] after[j]).id@ != id by {
        assert(before[j].id@ != id);
    }
    assert(is_first_entry(after, id, at));
    first_entry_is_first(after, id, at);
    assert forall|other: Seq<char>| has_entry(after, other) <==> (other == id || has_entry(
        before,
        other,
    )) by {
        if has_entry(after, other) && other != id {
            let k = choose|k: int| 0 <= k < after.len() && (#[trigger] after[k]).id@ == other;
            assert(before[k].id@ == other);
        }
        if has_entry(before, other) {
            let k = choose|k: int| 0 <= k < before.len() && (#[trigger] before[k]).id@ == other;
            assert(after[k].id@ == other);
        }
    }
    assert forall|other: Seq<char>| has_entry(before, other) && other != id implies secrets_of(
        after,
    )[other] == secrets_of(before)[other] by {
        let k = choose|k: int| 0 <= k < before.len() && (#[trigger] before[k]).id@ == other;
        first_entry_is_first(before, other, k);
        let f = first_entry(before, other);
        assert(after[f] == before[f]);
        assert forall|j: int| 0 <= j < f implies (#[trigger] after[j]).id@ != other by {
            assert(before[j].id@ != other);
        }
        assert(is_first_entry(after, other, f));
        first_entry_is_first(after, other, f);
    }
    assert(secrets_of(after) =~= target);
}

/// An in-memory secret namespace: at most one secret per connection id.
#[derive(Debug)]
pub struct SecretStore {
    entries: Vec<SecretEntry>,
}

impl View for SecretStore {
    type V = Map<Seq<char>, Seq<char>>;

    closed spec fn view(&self) -> Map<Seq<char>, Seq<char>> {
        secrets_of(self.entries@)
    }
}

impl SecretStore {
    /// What `get` returns for `id`: the secret stored under it, if any.
    pub open spec fn lookup(&self, id: Seq<char>) -> Option<Seq<char>> {
        if self@.contains_key(id) {
            Some(self@[id])
        } else {
            None
        }
    }

    /// A namespace without secrets.
    pub fn new() -> (store: SecretStore)
        ensures
            store@ == Map::<Seq<char>, Seq<char>>::empty(),
    {
        let store = SecretStore { entries: Vec::new() };
        assert(store@ =~= Map::<Seq<char>, Seq<char>>::empty());
        store
    }

    fn position(&self, id: &String) -> (found: Option<usize>)
        ensures
            match found {
                Some(i) => is_first_entry(self.entries@, id@, i as int) && first_entry(
                    self.entries@,
                    id@,
                ) == i,
                None => !has_entry(self.entries@, id@),
            },
    {
        let mut i: usize = 0;
        while i < self.entries.len()
            invariant
                i <= self.entries.len(),
                forall|j: int| 0 <= j < i ==> (#[trigger] self.entries@[j]).id@ != id@,
            decreases self.entries.len() - i,
        {
            if self.entries[i].id.eq(id) {
                proof {
                    first_entry_is_first(self.entries@, id@, i as int);
                }
                return Some(i);
            }
            i += 1;
        }
        None
    }

    /// The secret stored under `id`, or nothing where none was ever set.
    pub fn get(&self, id: &String) -> (secret: Option<String>)
        ensures
            text_view(secret) == self.lookup(id@),
    {
        match self.position(id) {
            Some(i) => Some(self.entries[i].secret.clone()),
            None => None,
        }
    }

    /// Stores `secret` under `id`, in place of any secret that was there; no
    /// other id is touched.
    pub fn set(&mut self, id: String, secret: String)
        ensures
            final(self)@ == old(self)@.insert(id@, secret@),
    {
        let found = self.position(&id);
        let entry = SecretEntry { id, secret };
        proof {
            if found.is_some() {
                assert(has_entry(self.entries@, entry.id@));
            }
        }
        match found {
            Some(i) => {
                self.entries.set(i, entry);
            },
            None => {
                self.entries.push(entry);
            },
        }
        proof {
            write_is_insert(old(self).entries@, self.entries@, entry);
        }
    }
}

} // verus!
