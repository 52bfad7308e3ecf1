use fedimint_observer::cache::FederationConfigCache;
use fedimint_observer::cache::FederationId;
use fedimint_observer::document::doc_eq;
use fedimint_observer::document::ConfigDocument;
use fedimint_observer::document::ModuleConfigEntry;
use fedimint_observer::document::ModulePayload;

fn fed(n: u64) -> FederationId {
    FederationId { w0: n, w1: n.wrapping_mul(3), w2: 7, w3: 9 }
}

fn doc(global: &str) -> ConfigDocument {
    ConfigDocument {
        global: global.to_owned(),
        modules: vec![(
            0u16,
            ModuleConfigEntry {
                kind: "mint".to_owned(),
                payload: ModulePayload::Decoded("{\"issuance\":true}".to_owned()),
            },
        )],
    }
}

#[test]
fn repeated_fetch_hits_the_cache_without_drift() {
    let mut cache = FederationConfigCache::empty();
    let id = fed(1);
    assert!(cache.lookup(id).is_none());

    let fetched = doc("{\"v\":1}");
    let drift = cache.commit(id, fetched);
    assert!(!drift);

    // A later fetch for the same identity is served from the store with the
    // very same document.
    let hit = cache.lookup(id).expect("the store must hold the committed document");
    assert!(doc_eq(&hit, &doc("{\"v\":1}")));

    // Committing an unchanged re-fetch reports no drift.
    let drift = cache.commit(id, doc("{\"v\":1}"));
    assert!(!drift);
}

#[test]
fn changed_remote_document_reports_exactly_one_drift() {
    let mut cache = FederationConfigCache::empty();
    let id = fed(2);
    assert!(!cache.commit(id, doc("{\"v\":1}")));

    // The remote changed: the second commit drifts, and the store holds the
    // newer document afterwards.
    let drift = cache.commit(id, doc("{\"v\":2}"));
    assert!(drift);
    let held = cache.lookup(id).unwrap();
    assert!(doc_eq(&held, &doc("{\"v\":2}")));

    // A third commit of the now-current document drifts no further.
    assert!(!cache.commit(id, doc("{\"v\":2}")));
}

#[test]
fn racing_first_fetches_leave_one_entry_last_write_winning() {
    let mut cache = FederationConfigCache::empty();
    let id = fed(3);
    // Three racing fetchers all missed and fetched; the exclusive lock
    // serialized their commits in this order.
    cache.commit(id, doc("{\"n\":1}"));
    cache.commit(id, doc("{\"n\":2}"));
    cache.commit(id, doc("{\"n\":3}"));
    let held = cache.lookup(id).unwrap();
    assert!(doc_eq(&held, &doc("{\"n\":3}")));
}

#[test]
fn identities_do_not_interfere() {
    let mut cache = FederationConfigCache::empty();
    cache.commit(fed(1), doc("{\"a\":1}"));
    cache.commit(fed(2), doc("{\"b\":2}"));
    assert!(doc_eq(&cache.lookup(fed(1)).unwrap(), &doc("{\"a\":1}")));
    assert!(doc_eq(&cache.lookup(fed(2)).unwrap(), &doc("{\"b\":2}")));
    assert!(cache.lookup(fed(3)).is_none());
}

#[test]
fn default_store_is_empty() {
    let cache = FederationConfigCache::default();
    assert!(cache.lookup(fed(1)).is_none());
}
