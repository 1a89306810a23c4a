use danmakuhub::api::{link_allowed, AppState};
use danmakuhub::registry::{Acquire, InFlightRegistry};
use danmakuhub::resolver::{Resolution, Resolver};
use danmakuhub::store::{HashStore, StoreError};
use danmakuhub::visits::{record_visit, VisitStore};

#[test]
fn resolve_on_empty_store_triggers_one_fetch_then_finds_digest() {
    let mut resolver = Resolver::new();
    let filename = String::from("movie.mkv");
    let link = String::from("https://cdn.example/movie.mkv");

    let first = resolver.resolve(&filename, &link, true);
    let job = match first {
        Resolution::NotFoundYet { fetch: Some(job) } => job,
        _ => panic!("a miss on an empty store must order a background fetch"),
    };
    assert_eq!(job.filename, filename);
    assert_eq!(job.link, link);

    let body: Vec<u8> = b"leading bytes of the remote resource".to_vec();
    let stored = resolver.complete_fetch(&filename, Some(&body)).expect("a fetched body is stored");
    assert_eq!(stored.len(), 32);
    assert!(stored.chars().all(|c| c.is_ascii_hexdigit() && !c.is_ascii_uppercase()));

    let later = resolver.resolve(&filename, &String::new(), false);
    match later {
        Resolution::Found(hash) => assert_eq!(hash, stored),
        _ => panic!("a stored hash must be found on the read-only path"),
    }

    // once stored, even a write-triggering call answers from the store
    // and orders no further fetch
    let triggered = resolver.resolve(&filename, &link, true);
    match triggered {
        Resolution::Found(hash) => assert_eq!(hash, stored),
        _ => panic!("a stored hash must be found on the write-triggering path too"),
    }
}

#[test]
fn completed_fetch_stores_the_exact_digest_of_the_body() {
    let mut resolver = Resolver::new();
    let filename = String::from("movie.mkv");
    let link = String::from("https://cdn.example/movie.mkv");

    let first = resolver.resolve(&filename, &link, true);
    assert!(matches!(first, Resolution::NotFoundYet { fetch: Some(_) }));

    let body: Vec<u8> = b"abc".to_vec();
    let stored = resolver.complete_fetch(&filename, Some(&body));
    assert_eq!(stored.as_deref(), Some("900150983cd24fb0d6963f7d28e17f72"));

    match resolver.resolve(&filename, &String::new(), false) {
        Resolution::Found(hash) => assert_eq!(hash, "900150983cd24fb0d6963f7d28e17f72"),
        _ => panic!("the digest of the fetched body must be found"),
    }
}

#[test]
fn second_resolve_while_in_flight_starts_no_fetch() {
    let mut resolver = Resolver::new();
    let filename = String::from("x.mp4");
    let link = String::from("https://cdn.example/x.mp4");

    let first = resolver.resolve(&filename, &link, true);
    assert!(matches!(first, Resolution::NotFoundYet { fetch: Some(_) }));

    let second = resolver.resolve(&filename, &link, true);
    assert!(matches!(second, Resolution::NotFoundYet { fetch: None }));
}

#[test]
fn read_only_resolve_has_no_side_effects() {
    let mut resolver = Resolver::new();
    let filename = String::from("movie.mkv");
    let link = String::from("https://cdn.example/movie.mkv");

    let read = resolver.resolve(&filename, &link, false);
    assert!(matches!(read, Resolution::NotFoundYet { fetch: None }));

    let write = resolver.resolve(&filename, &link, true);
    assert!(matches!(write, Resolution::NotFoundYet { fetch: Some(_) }));
}

#[test]
fn failed_fetch_writes_nothing_and_allows_retry() {
    let mut resolver = Resolver::new();
    let filename = String::from("movie.mkv");
    let link = String::from("https://cdn.example/movie.mkv");

    let first = resolver.resolve(&filename, &link, true);
    assert!(matches!(first, Resolution::NotFoundYet { fetch: Some(_) }));

    assert!(resolver.complete_fetch(&filename, None).is_none());

    let read = resolver.resolve(&filename, &link, false);
    assert!(matches!(read, Resolution::NotFoundYet { fetch: None }));

    let retry = resolver.resolve(&filename, &link, true);
    assert!(matches!(retry, Resolution::NotFoundYet { fetch: Some(_) }));
}

#[test]
fn restore_overwrites_and_resolve_answers_the_latest() {
    let mut resolver = Resolver::new();
    let filename = String::from("movie.mkv");

    resolver.restore(&filename, &String::from("00000000000000000000000000000000"));
    resolver.restore(&filename, &String::from("ffffffffffffffffffffffffffffffff"));

    match resolver.resolve(&filename, &String::new(), false) {
        Resolution::Found(hash) => {
            assert_eq!(hash, "ffffffffffffffffffffffffffffffff");
        },
        _ => panic!("a restored record must be found"),
    }
}

#[test]
fn record_visit_counts_one_two_three() {
    let mut visits = VisitStore::new();
    let filename = String::from("movie.mkv");

    assert_eq!(record_visit(&mut visits, &filename), 1);
    assert_eq!(record_visit(&mut visits, &filename), 2);
    assert_eq!(record_visit(&mut visits, &filename), 3);
}

#[test]
fn visit_counters_are_independent_per_filename() {
    let mut visits = VisitStore::new();
    let one = String::from("a.mkv");
    let two = String::from("b.mkv");

    assert_eq!(record_visit(&mut visits, &one), 1);
    assert_eq!(record_visit(&mut visits, &two), 1);
    assert_eq!(record_visit(&mut visits, &one), 2);
}

#[test]
fn saturated_counter_rejects_the_write_and_reports_the_sentinel() {
    let mut visits = VisitStore::new();
    let filename = String::from("movie.mkv");

    visits.restore(&filename, i64::MAX);
    assert_eq!(visits.increment_and_get(&filename), Err(StoreError::CounterOverflow));
    assert_eq!(record_visit(&mut visits, &filename), -1);
    assert_eq!(visits.increment_and_get(&String::from("other.mkv")), Ok(1));
}

#[test]
fn registry_acquire_is_exclusive_until_release() {
    let mut registry = InFlightRegistry::new();
    let filename = String::from("movie.mkv");

    assert!(!registry.contains(&filename));
    assert_eq!(registry.try_acquire(&filename), Acquire::Acquired);
    assert!(registry.contains(&filename));
    assert_eq!(registry.try_acquire(&filename), Acquire::AlreadyInFlight);

    registry.release(&filename);
    assert!(!registry.contains(&filename));
    assert_eq!(registry.try_acquire(&filename), Acquire::Acquired);
}

#[test]
fn hash_store_gets_what_was_upserted() {
    let mut store = HashStore::new();
    let filename = String::from("movie.mkv");

    assert!(store.get(&filename).is_none());
    store.upsert(&filename, &String::from("aa"));
    assert_eq!(store.get(&filename), Some(String::from("aa")));
    store.upsert(&filename, &String::from("bb"));
    assert_eq!(store.get(&filename), Some(String::from("bb")));
    assert!(store.get(&String::from("other.mkv")).is_none());
}

#[test]
fn link_allow_list_is_a_prefix_check() {
    let link = String::from("https://cdn.example/movie.mkv");
    let allowed = vec![String::from("https://other.example/"), String::from("https://cdn.example/")];
    assert!(link_allowed(&link, &allowed));

    let closed = vec![String::from("https://other.example/")];
    assert!(!link_allowed(&link, &closed));

    let open = vec![String::new()];
    assert!(link_allowed(&link, &open));

    let none: Vec<String> = Vec::new();
    assert!(!link_allowed(&link, &none));
}

#[test]
fn app_state_starts_empty_around_its_configuration() {
    let mut state = AppState::new(
        String::from("danmakuhub.db"),
        vec![String::from("https://cdn.example/")],
        String::from("id"),
        String::new(),
    );
    assert_eq!(state.dbpath, "danmakuhub.db");
    assert_eq!(state.app_id, "id");

    let filename = String::from("movie.mkv");
    let read = state.resolver.resolve(&filename, &String::new(), false);
    assert!(matches!(read, Resolution::NotFoundYet { fetch: None }));
    assert_eq!(record_visit(&mut state.visits, &filename), 1);
}
