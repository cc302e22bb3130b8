use tetr_monitor::client::{
    TetrRecord, TetrUser, TetrUser40lRecord, TetrUserBlitzRecord, TetrUserConnections,
    TetrUserRankRecord, TetrUserRecord, TetrUserZenRecord,
};
use tetr_monitor::error::{DbError, FetchError};
use tetr_monitor::pipeline::{
    bulk_add, monitor_from_user, refresh_all, stats_from_fetch, usernames_joined, RefreshFailure,
};
use tetr_monitor::store::{Monitor, MonitorStats, Store};

fn user(id: &str, username: &str) -> TetrUser {
    TetrUser {
        _id: id.to_string(),
        username: username.to_string(),
        ts: Some("2021-04-01T12:00:00.000Z".to_string()),
        gamesplayed: 42,
        gameswon: 17,
        gametime: 12_345,
        country: Some("FI".to_string()),
        connections: TetrUserConnections { discord: None },
    }
}

#[test]
fn add_one_resolved_identity_inserts_one_row() {
    let mut store = Store::new();
    let results = vec![("alice".to_string(), Ok(user("id-a", "alice")))];
    let summary = bulk_add(&mut store, &"c1".to_string(), results);
    assert_eq!(summary.inserted, 1);
    assert_eq!(summary.duplicate, 0);
    assert!(summary.failed.is_empty());
    let listed = store.list(&"c1".to_string());
    assert_eq!(listed.len(), 1);
    assert_eq!(listed[0].username, "alice");
    assert_eq!(listed[0].user_id, "id-a");
    assert_eq!(listed[0].game_time, 12_345);
    assert_eq!(listed[0].games_played, 42);
    assert_eq!(listed[0].last_match_id, None);
}

#[test]
fn add_same_identity_again_is_one_duplicate() {
    let mut store = Store::new();
    let first = vec![("alice".to_string(), Ok(user("id-a", "alice")))];
    bulk_add(&mut store, &"c1".to_string(), first);
    let again = vec![("alice".to_string(), Ok(user("id-a", "alice")))];
    let summary = bulk_add(&mut store, &"c1".to_string(), again);
    assert_eq!(summary.inserted, 0);
    assert_eq!(summary.duplicate, 1);
    assert!(summary.failed.is_empty());
    assert_eq!(store.list(&"c1".to_string()).len(), 1);
}

#[test]
fn add_with_one_transport_failure_reports_it() {
    let mut store = Store::new();
    let results = vec![
        ("alice".to_string(), Ok(user("id-a", "alice"))),
        ("bob".to_string(), Err(FetchError::TransportError)),
        ("carol".to_string(), Ok(user("id-c", "carol"))),
    ];
    let summary = bulk_add(&mut store, &"c1".to_string(), results);
    assert_eq!(summary.inserted, 2);
    assert_eq!(summary.duplicate, 0);
    assert_eq!(
        summary.failed,
        vec![("bob".to_string(), FetchError::TransportError)]
    );
    let listed = store.list(&"c1".to_string());
    assert_eq!(listed.len(), 2);
    assert_eq!(listed[0].username, "alice");
    assert_eq!(listed[1].username, "carol");
}

#[test]
fn add_duplicate_within_one_batch_counts_once() {
    let mut store = Store::new();
    let results = vec![
        ("alice".to_string(), Ok(user("id-a", "alice"))),
        ("alice".to_string(), Ok(user("id-a", "alice"))),
    ];
    let summary = bulk_add(&mut store, &"c1".to_string(), results);
    assert_eq!(summary.inserted, 1);
    assert_eq!(summary.duplicate, 1);
    assert!(summary.failed.is_empty());
    assert_eq!(store.len(), 1);
}

#[test]
fn add_classifies_every_error_kind() {
    let mut store = Store::new();
    let results = vec![
        ("a".to_string(), Err(FetchError::TransportError)),
        (
            "b".to_string(),
            Err(FetchError::RemoteApiError("no such user".to_string())),
        ),
        ("c".to_string(), Err(FetchError::MalformedResponse)),
        ("d".to_string(), Err(FetchError::IdentityNotFound)),
    ];
    let summary = bulk_add(&mut store, &"c1".to_string(), results);
    assert_eq!(summary.inserted, 0);
    assert_eq!(summary.duplicate, 0);
    assert_eq!(summary.failed.len(), 4);
    assert_eq!(summary.failed[0].0, "a");
    assert_eq!(summary.failed[1].1, FetchError::RemoteApiError("no such user".to_string()));
    assert_eq!(summary.failed[2].1, FetchError::MalformedResponse);
    assert_eq!(summary.failed[3].1, FetchError::IdentityNotFound);
    assert_eq!(store.len(), 0);
}

fn fresh_stats(username: &str, game_time: u64) -> MonitorStats {
    MonitorStats {
        username: username.to_string(),
        game_time,
        games_played: 50,
        last_personal_best_blitz: Some(1234),
        last_personal_best_40l: Some(88_000),
    }
}

#[test]
fn refresh_empty_monitor_set_reports_zeros_and_writes_nothing() {
    let mut store = Store::new();
    let summary = refresh_all(&mut store, &"c1".to_string(), Vec::new());
    assert_eq!(summary.attempted, 0);
    assert_eq!(summary.succeeded, 0);
    assert!(summary.failed.is_empty());
    assert_eq!(store.len(), 0);
}

#[test]
fn refresh_updates_rows_and_aggregates_failures() {
    let mut store = Store::new();
    let adds = vec![
        ("alice".to_string(), Ok(user("id-a", "alice"))),
        ("bob".to_string(), Ok(user("id-b", "bob"))),
    ];
    bulk_add(&mut store, &"c1".to_string(), adds);
    let results = vec![
        ("id-a".to_string(), Ok(fresh_stats("alice", 20_000))),
        ("id-b".to_string(), Err(FetchError::TransportError)),
        ("id-x".to_string(), Ok(fresh_stats("xavier", 1))),
    ];
    let summary = refresh_all(&mut store, &"c1".to_string(), results);
    assert_eq!(summary.attempted, 3);
    assert_eq!(summary.succeeded, 1);
    assert_eq!(summary.failed.len(), 2);
    assert_eq!(
        summary.failed[0],
        ("id-b".to_string(), RefreshFailure::Fetch(FetchError::TransportError))
    );
    assert_eq!(
        summary.failed[1],
        ("id-x".to_string(), RefreshFailure::Store(DbError::NotFoundInStore))
    );
    let listed = store.list(&"c1".to_string());
    assert_eq!(listed[0].game_time, 20_000);
    assert_eq!(listed[0].games_played, 50);
    assert_eq!(listed[0].last_personal_best_40l, Some(88_000));
    assert_eq!(listed[1].game_time, 12_345);
}

#[test]
fn monitor_from_user_projects_the_snapshot() {
    let m = monitor_from_user(&"c9".to_string(), &user("id-z", "zoe"));
    assert_eq!(
        m,
        Monitor {
            channel_id: "c9".to_string(),
            user_id: "id-z".to_string(),
            username: "zoe".to_string(),
            last_match_id: None,
            game_time: 12_345,
            games_played: 42,
            last_personal_best_blitz: None,
            last_personal_best_40l: None,
        }
    );
}

#[test]
fn stats_from_fetch_projects_personal_bests() {
    let records = TetrUserRecord {
        records: TetrUserRankRecord {
            _40l: TetrUser40lRecord {
                record: Some(TetrRecord { ts: "2021-05-01T00:00:00Z".to_string(), score: 91_500 }),
                rank: Some(12),
            },
            blitz: TetrUserBlitzRecord { record: None, rank: None },
        },
        zen: TetrUserZenRecord { level: 3, score: 9000 },
    };
    let s = stats_from_fetch(&user("id-a", "alice"), &records);
    assert_eq!(s.username, "alice");
    assert_eq!(s.game_time, 12_345);
    assert_eq!(s.games_played, 42);
    assert_eq!(s.last_personal_best_40l, Some(91_500));
    assert_eq!(s.last_personal_best_blitz, None);
}

#[test]
fn usernames_joined_lists_one_per_line() {
    let mut store = Store::new();
    let adds = vec![
        ("alice".to_string(), Ok(user("id-a", "alice"))),
        ("bob".to_string(), Ok(user("id-b", "bob"))),
        ("carol".to_string(), Ok(user("id-c", "carol"))),
    ];
    bulk_add(&mut store, &"c1".to_string(), adds);
    let listed = store.list(&"c1".to_string());
    assert_eq!(usernames_joined(&listed), "alice\nbob\ncarol");
    assert_eq!(usernames_joined(&Vec::new()), "");
}
