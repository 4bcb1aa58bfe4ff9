use connection_store::connection::Connection;
use connection_store::error::Error;
use connection_store::layout::{profile_document_name, profile_key_name, secret_document_name};
use connection_store::manager::{
    advance_upsert, begin_upsert, require_connection, resolve, write_outcome, MemoryStores,
    UpsertState,
};

fn c1() -> Connection {
    Connection {
        id: "c1".to_string(),
        organization: "org".to_string(),
        project: "proj".to_string(),
        base_url: "https://dev.azure.com/org".to_string(),
        label: None,
        auth_method: "pat".to_string(),
    }
}

fn named(id: &str) -> Connection {
    Connection { id: id.to_string(), ..c1() }
}

fn text(s: &str) -> String {
    s.to_string()
}

#[test]
fn list_connections_on_fresh_stores_is_empty() {
    let stores = MemoryStores::new();
    assert_eq!(stores.list_connections(), Vec::new());
}

#[test]
fn get_token_missing_on_empty_store_is_absent() {
    let stores = MemoryStores::new();
    assert_eq!(stores.get_token(&text("missing")), None);
}

#[test]
fn upsert_then_read_back() {
    let mut stores = MemoryStores::new();
    assert_eq!(stores.upsert_connection(c1(), text("tok123")), Ok(()));
    let listed = stores.list_connections();
    assert_eq!(listed.len(), 1);
    assert_eq!(listed[0].id, "c1");
    assert_eq!(listed[0], c1());
    assert_eq!(stores.get_token(&text("c1")), Some(text("tok123")));
    assert_eq!(stores.resolve_for_request(&text("c1")), Ok((c1(), text("tok123"))));
}

#[test]
fn set_token_replaces_secret_and_keeps_profile() {
    let mut stores = MemoryStores::new();
    assert_eq!(stores.upsert_connection(c1(), text("tok123")), Ok(()));
    assert_eq!(stores.set_token(&text("c1"), &text("newtok")), Ok(()));
    assert_eq!(stores.get_token(&text("c1")), Some(text("newtok")));
    let listed = stores.list_connections();
    assert_eq!(listed.len(), 1);
    assert_eq!(listed[0].base_url, "https://dev.azure.com/org");
    assert_eq!(listed, vec![c1()]);
}

#[test]
fn upsert_twice_is_idempotent() {
    let mut stores = MemoryStores::new();
    assert_eq!(stores.upsert_connection(named("a"), text("ta")), Ok(()));
    assert_eq!(stores.upsert_connection(c1(), text("tok123")), Ok(()));
    assert_eq!(stores.upsert_connection(c1(), text("tok123")), Ok(()));
    let listed = stores.list_connections();
    assert_eq!(listed, vec![named("a"), c1()]);
    assert_eq!(listed.iter().filter(|c| c.id == "c1").count(), 1);
    assert_eq!(stores.get_token(&text("c1")), Some(text("tok123")));
}

#[test]
fn upsert_with_changed_base_url_updates_in_place() {
    let mut stores = MemoryStores::new();
    for id in ["a", "c1", "z"] {
        assert_eq!(stores.upsert_connection(named(id), text(id)), Ok(()));
    }
    let changed = Connection { base_url: text("https://example.test/org"), ..c1() };
    assert_eq!(stores.upsert_connection(changed.clone(), text("c1")), Ok(()));
    assert_eq!(stores.list_connections(), vec![named("a"), changed, named("z")]);
}

#[test]
fn upsert_of_one_profile_leaves_other_secrets() {
    let mut stores = MemoryStores::new();
    assert_eq!(stores.upsert_connection(named("a"), text("ta")), Ok(()));
    assert_eq!(stores.upsert_connection(named("b"), text("tb")), Ok(()));
    assert_eq!(stores.get_token(&text("a")), Some(text("ta")));
    assert_eq!(stores.get_token(&text("b")), Some(text("tb")));
}

#[test]
fn save_all_leaves_secrets_and_write_secret_leaves_profiles() {
    let mut stores = MemoryStores::new();
    assert_eq!(stores.upsert_connection(named("a"), text("ta")), Ok(()));
    assert_eq!(stores.save_all(&vec![named("b")]), Ok(()));
    assert_eq!(stores.get_token(&text("a")), Some(text("ta")));
    assert_eq!(stores.get_token(&text("b")), None);
    assert_eq!(stores.list_connections(), vec![named("b")]);
    assert_eq!(stores.write_secret(&text("q"), &text("tq")), Ok(()));
    assert_eq!(stores.list_connections(), vec![named("b")]);
    assert_eq!(stores.get_token(&text("q")), Some(text("tq")));
}

#[test]
fn upsert_aborts_before_secret_when_profile_write_fails() {
    let mut stores = MemoryStores::new();
    stores.profiles_writable = false;
    assert_eq!(stores.upsert_connection(c1(), text("tok123")), Err(Error::StoreUnavailable));
    assert_eq!(stores.list_connections(), Vec::new());
    assert_eq!(stores.get_token(&text("c1")), None);
}

#[test]
fn upsert_reports_partial_failure_when_secret_write_fails() {
    let mut stores = MemoryStores::new();
    stores.secrets_writable = false;
    assert_eq!(stores.upsert_connection(c1(), text("tok123")), Err(Error::PartialUpsertFailure));
    assert_eq!(stores.list_connections(), vec![c1()]);
    assert_eq!(stores.get_token(&text("c1")), None);
    assert_eq!(stores.resolve_for_request(&text("c1")), Err(Error::TokenNotFound));
    stores.secrets_writable = true;
    assert_eq!(stores.set_token(&text("c1"), &text("tok123")), Ok(()));
    assert_eq!(stores.resolve_for_request(&text("c1")), Ok((c1(), text("tok123"))));
}

#[test]
fn set_token_refuses_unknown_connection() {
    let mut stores = MemoryStores::new();
    assert_eq!(stores.set_token(&text("c1"), &text("tok")), Err(Error::ConnectionNotFound));
    assert_eq!(stores.get_token(&text("c1")), None);
}

#[test]
fn set_token_reports_store_failure() {
    let mut stores = MemoryStores::new();
    assert_eq!(stores.upsert_connection(c1(), text("tok123")), Ok(()));
    stores.secrets_writable = false;
    assert_eq!(stores.set_token(&text("c1"), &text("newtok")), Err(Error::StoreUnavailable));
    assert_eq!(stores.get_token(&text("c1")), Some(text("tok123")));
}

#[test]
fn resolve_for_request_unknown_connection() {
    let stores = MemoryStores::new();
    assert_eq!(stores.resolve_for_request(&text("c1")), Err(Error::ConnectionNotFound));
}

#[test]
fn resolve_for_request_profile_without_secret() {
    let mut stores = MemoryStores::new();
    assert_eq!(stores.save_all(&vec![c1()]), Ok(()));
    assert_eq!(stores.resolve_for_request(&text("c1")), Err(Error::TokenNotFound));
}

#[test]
fn resolve_joins_profile_and_secret() {
    let records = vec![named("a"), c1()];
    assert_eq!(
        resolve(&records, &text("c1"), Some(text("tok123"))),
        Ok((c1(), text("tok123")))
    );
    assert_eq!(resolve(&records, &text("c1"), None), Err(Error::TokenNotFound));
    assert_eq!(
        resolve(&records, &text("nope"), Some(text("tok123"))),
        Err(Error::ConnectionNotFound)
    );
    assert_eq!(resolve(&records, &text("nope"), None), Err(Error::ConnectionNotFound));
}

#[test]
fn resolve_keeps_empty_secret_distinct_from_absence() {
    let records = vec![c1()];
    assert_eq!(resolve(&records, &text("c1"), Some(String::new())), Ok((c1(), String::new())));
}

#[test]
fn require_connection_looks_up_the_profile() {
    let records = vec![c1()];
    assert_eq!(require_connection(&records, &text("c1")), Ok(()));
    assert_eq!(require_connection(&records, &text("c2")), Err(Error::ConnectionNotFound));
    assert_eq!(require_connection(&Vec::new(), &text("c1")), Err(Error::ConnectionNotFound));
}

#[test]
fn write_outcome_reports_failure() {
    assert_eq!(write_outcome(true), Ok(()));
    assert_eq!(write_outcome(false), Err(Error::StoreUnavailable));
}

#[test]
fn begin_upsert_asks_for_the_updated_document() {
    let state = begin_upsert(Some(vec![named("a")]), c1(), text("tok123"));
    assert_eq!(
        state,
        UpsertState::SavingProfiles {
            records: vec![named("a"), c1()],
            id: text("c1"),
            secret: text("tok123"),
        }
    );
    let fresh = begin_upsert(None, c1(), text("tok123"));
    assert_eq!(
        fresh,
        UpsertState::SavingProfiles { records: vec![c1()], id: text("c1"), secret: text("tok123") }
    );
}

#[test]
fn advance_upsert_follows_the_write_order() {
    let saving = begin_upsert(None, c1(), text("tok123"));
    let next = advance_upsert(saving, true);
    assert_eq!(next, UpsertState::SavingSecret { id: text("c1"), secret: text("tok123") });
    let done = advance_upsert(next, true);
    assert_eq!(done, UpsertState::Finished { outcome: Ok(()) });
    assert_eq!(advance_upsert(done, false), UpsertState::Finished { outcome: Ok(()) });
}

#[test]
fn advance_upsert_stops_on_failed_writes() {
    let saving = begin_upsert(None, c1(), text("tok123"));
    assert_eq!(
        advance_upsert(saving, false),
        UpsertState::Finished { outcome: Err(Error::StoreUnavailable) }
    );
    let pending = UpsertState::SavingSecret { id: text("c1"), secret: text("tok123") };
    assert_eq!(
        advance_upsert(pending, false),
        UpsertState::Finished { outcome: Err(Error::PartialUpsertFailure) }
    );
}

#[test]
fn error_messages() {
    assert_eq!(Error::StoreUnavailable.message(), "Failed to access store");
    assert_eq!(Error::ConnectionNotFound.message(), "Connection not found");
    assert_eq!(Error::TokenNotFound.message(), "Token not found for connection");
    assert_eq!(
        Error::PartialUpsertFailure.message(),
        "Connection saved, but failed to save token"
    );
}

#[test]
fn store_documents_are_separate() {
    assert_eq!(profile_document_name(), "connections.json");
    assert_eq!(secret_document_name(), "tokens.json");
    assert_eq!(profile_key_name(), "connections");
    assert_ne!(profile_document_name(), secret_document_name());
}
