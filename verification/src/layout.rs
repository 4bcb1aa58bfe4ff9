//! Where the two stores live: the names of their documents, and the key of
//! the profile collection inside its document.

use vstd::prelude::*;

verus! {

/// The name of the document that holds the profile collection.
pub open spec fn profile_document() -> Seq<char> {
    "connections.json"@
}

/// The name of the document that holds the secrets.
pub open spec fn secret_document() -> Seq<char> {
    "tokens.json"@
}

/// The key of the profile collection inside its document.
pub open spec fn profile_key() -> Seq<char> {
    "connections"@
}

/// The name of the profile document.
pub fn profile_document_name() -> (name: &'static str)
    ensures
        name@ == profile_document(),
{
    "connections.json"
}

/// The name of the secret document.
pub fn secret_document_name() -> (name: &'static str)
    ensures
        name@ == secret_document(),
{
    "tokens.json"
}

/// The key under which the profile collection is stored.
pub fn profile_key_name() -> (name: &'static str)
    ensures
        name@ == profile_key(),
{
    "connections"
}

/// Profiles and secrets never share a document.
pub proof fn documents_are_distinct()
    ensures
        profile_document() != secret_document(),
{
    reveal_strlit("connections.json");
    reveal_strlit("tokens.json");
    assert(profile_document().len() == 16);
    assert(secret_document().len() == 11);
}

} // verus!
