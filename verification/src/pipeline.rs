use vstd::prelude::*;
use vstd::string::StringExecFns;

use crate::client::{TetrUser, TetrUserRecord};
use crate::error::{DbError, FetchError};
use crate::store::{
    ambiguous_user_match, apply_stats, has_key, key_collision, lemma_lone_user_match,
    lemma_lone_user_match_unique, lone_user_match, no_user_match, Monitor, MonitorStats, Store,
};

verus! {

/// The monitor row the add flow creates for a freshly resolved identity:
/// identity and statistics are projected from the snapshot, the cursor and
/// personal-best fields start empty.
pub open spec fn new_monitor(channel_id: String, user: TetrUser) -> Monitor {
    Monitor {
        channel_id: channel_id,
        user_id: user._id,
        username: user.username,
        last_match_id: None,
        game_time: user.gametime,
        games_played: user.gamesplayed,
        last_personal_best_blitz: None,
        last_personal_best_40l: None,
    }
}

/// Builds the row that the add flow persists for a resolved identity.
pub fn monitor_from_user(channel_id: &String, user: &TetrUser) -> (m: Monitor)
    ensures
        m == new_monitor(*channel_id, *user),
{
    Monitor {
        channel_id: channel_id.clone(),
        user_id: user._id.clone(),
        username: user.username.clone(),
        last_match_id: None,
        game_time: user.gametime,
        games_played: user.gamesplayed,
        last_personal_best_blitz: None,
        last_personal_best_40l: None,
    }
}

/// The refreshable fields as the refresh flow projects them from a fresh
/// snapshot and its per-mode records.
pub open spec fn projected_stats(user: TetrUser, records: TetrUserRecord) -> MonitorStats {
    MonitorStats {
        username: user.username,
        game_time: user.gametime,
        games_played: user.gamesplayed,
        last_personal_best_blitz: match records.records.blitz.record {
            Some(r) => Some(r.score),
            None => None,
        },
        last_personal_best_40l: match records.records._40l.record {
            Some(r) => Some(r.score),
            None => None,
        },
    }
}

/// Projects the refreshable fields out of a snapshot and its records.
pub fn stats_from_fetch(user: &TetrUser, records: &TetrUserRecord) -> (s: MonitorStats)
    ensures
        s == projected_stats(*user, *records),
{
    MonitorStats {
        username: user.username.clone(),
        game_time: user.gametime,
        games_played: user.gamesplayed,
        last_personal_best_blitz: match &records.records.blitz.record {
            Some(r) => Some(r.score),
            None => None,
        },
        last_personal_best_40l: match &records.records._40l.record {
            Some(r) => Some(r.score),
            None => None,
        },
    }
}

/// How the add flow classified one input identity.
pub ghost enum AddOutcome {
    Inserted,
    Duplicate,
    FetchFailed(FetchError),
}

/// The add flow's state as it works through the fetch results: the store
/// rows, the running counts, the failure list, and one classification per
/// input handled so far.
pub ghost struct BulkAddState {
    pub rows: Seq<Monitor>,
    pub inserted: nat,
    pub duplicate: nat,
    pub failed: Seq<(String, FetchError)>,
    pub outcomes: Seq<(String, AddOutcome)>,
}

pub open spec fn bulk_init(rows: Seq<Monitor>) -> BulkAddState {
    BulkAddState {
        rows: rows,
        inserted: 0,
        duplicate: 0,
        failed: Seq::empty(),
        outcomes: Seq::empty(),
    }
}

/// One input identity's effect on the add flow: a fetch failure is recorded,
/// a resolved identity is inserted unless its (channel, username) key is
/// already present, in which case it is the duplicate outcome.
pub open spec fn bulk_step(
    st: BulkAddState,
    channel_id: String,
    item: (String, Result<TetrUser, FetchError>),
) -> BulkAddState {
    match item.1 {
        Result::Err(e) => BulkAddState {
            failed: st.failed.push((item.0, e)),
            outcomes: st.outcomes.push((item.0, AddOutcome::FetchFailed(e))),
            ..st
        },
        Result::Ok(user) => {
            let m = new_monitor(channel_id, user);
            if has_key(st.rows, m.channel_id@, m.username@) {
                BulkAddState {
                    duplicate: st.duplicate + 1,
                    outcomes: st.outcomes.push((item.0, AddOutcome::Duplicate)),
                    ..st
                }
            } else {
                BulkAddState {
                    rows: st.rows.push(m),
                    inserted: st.inserted + 1,
                    outcomes: st.outcomes.push((item.0, AddOutcome::Inserted)),
                    ..st
                }
            }
        },
    }
}

/// The add flow over a whole batch of fetch results, in order.
pub open spec fn bulk_fold(
    st: BulkAddState,
    channel_id: String,
    items: Seq<(String, Result<TetrUser, FetchError>)>,
) -> BulkAddState
    decreases items.len(),
{
    if items.len() == 0 {
        st
    } else {
        bulk_step(bulk_fold(st, channel_id, items.drop_last()), channel_id, items.last())
    }
}

proof fn lemma_bulk_fold_take_step(
    st: BulkAddState,
    channel_id: String,
    items: Seq<(String, Result<TetrUser, FetchError>)>,
    i: int,
)
    requires
        0 <= i < items.len(),
    ensures
        bulk_fold(st, channel_id, items.take(i + 1)) == bulk_step(
            bulk_fold(st, channel_id, items.take(i)),
            channel_id,
            items[i],
        ),
{
    assert(items.take(i + 1).drop_last() =~= items.take(i));
    assert(items.take(i + 1).last() == items[i]);
}

/// Every input contributes exactly one unit to the counts-plus-failures
/// total, and exactly one classification.
pub proof fn lemma_bulk_fold_totals(
    st: BulkAddState,
    channel_id: String,
    items: Seq<(String, Result<TetrUser, FetchError>)>,
)
    ensures
        ({
            let end = bulk_fold(st, channel_id, items);
            end.inserted + end.duplicate + end.failed.len() == st.inserted + st.duplicate
                + st.failed.len() + items.len() && end.outcomes.len() == st.outcomes.len()
                + items.len()
        }),
    decreases items.len(),
{
    if items.len() > 0 {
        lemma_bulk_fold_totals(st, channel_id, items.drop_last());
    }
}

proof fn lemma_bulk_fold_outcomes(
    st: BulkAddState,
    channel_id: String,
    items: Seq<(String, Result<TetrUser, FetchError>)>,
)
    ensures
        ({
            let end = bulk_fold(st, channel_id, items);
            end.outcomes.len() == st.outcomes.len() + items.len() && (forall|k: int|
                0 <= k < st.outcomes.len() ==> end.outcomes[k] == st.outcomes[k]) && (forall|k: int|
                0 <= k < items.len() ==> (#[trigger] end.outcomes[st.outcomes.len() + k]).0
                    == items[k].0)
        }),
    decreases items.len(),
{
    if items.len() > 0 {
        lemma_bulk_fold_outcomes(st, channel_id, items.drop_last());
    }
}

/// Law: the add flow classifies every input identity exactly once.  The
/// classification sequence has one entry per input, in input order, and the
/// entry at each position carries that position's identity.
pub proof fn lemma_bulk_add_exactly_once(
    rows: Seq<Monitor>,
    channel_id: String,
    items: Seq<(String, Result<TetrUser, FetchError>)>,
)
    ensures
        bulk_fold(bulk_init(rows), channel_id, items).outcomes.len() == items.len(),
        forall|k: int|
            0 <= k < items.len() ==> (#[trigger] bulk_fold(
                bulk_init(rows),
                channel_id,
                items,
            ).outcomes[k]).0 == items[k].0,
{
    lemma_bulk_fold_outcomes(bulk_init(rows), channel_id, items);
    let end = bulk_fold(bulk_init(rows), channel_id, items);
    assert forall|k: int| 0 <= k < items.len() implies (#[trigger] end.outcomes[k]).0
        == items[k].0 by {
        assert(end.outcomes[0 + k].0 == items[k].0);
    }
}

/// What the add flow reports: how many rows were inserted, how many inputs
/// were already present, and which identities failed with what error.
#[derive(Debug, PartialEq, Eq)]
pub struct BulkAddSummary {
    pub inserted: usize,
    pub duplicate: usize,
    pub failed: Vec<(String, FetchError)>,
}

/// The add flow's persistence phase: classifies every fetch result, inserts
/// the resolved identities one at a time (a failure on one does not roll back
/// the others), and aggregates the outcome.
pub fn bulk_add(
    store: &mut Store,
    channel_id: &String,
    results: Vec<(String, Result<TetrUser, FetchError>)>,
) -> (summary: BulkAddSummary)
    requires
        old(store).inv(),
    ensures
        final(store).inv(),
        ({
            let st = bulk_fold(bulk_init(old(store)@), *channel_id, results@);
            final(store)@ == st.rows && summary.inserted as nat == st.inserted
                && summary.duplicate as nat == st.duplicate && summary.failed@ == st.failed
        }),
        summary.inserted + summary.duplicate + summary.failed@.len() == results@.len(),
{
    let mut inserted: usize = 0;
    let mut duplicate: usize = 0;
    let mut failed: Vec<(String, FetchError)> = Vec::new();
    let mut i: usize = 0;
    proof {
        assert(results@.take(0) =~= Seq::<(String, Result<TetrUser, FetchError>)>::empty());
    }
    while i < results.len()
        invariant
            i <= results@.len(),
            old(store).inv(),
            store.inv(),
            inserted <= i,
            duplicate <= i,
            ({
                let st = bulk_fold(bulk_init(old(store)@), *channel_id, results@.take(i as int));
                store@ == st.rows && inserted as nat == st.inserted && duplicate as nat
                    == st.duplicate && failed@ == st.failed
            }),
        decreases results@.len() - i,
    {
        proof {
            lemma_bulk_fold_take_step(bulk_init(old(store)@), *channel_id, results@, i as int);
        }
        let item = &results[i];
        match &item.1 {
            Err(e) => {
                failed.push((item.0.clone(), e.duplicate()));
            },
            Ok(user) => {
                let m = monitor_from_user(channel_id, user);
                match store.insert(m) {
                    Ok(()) => {
                        inserted = inserted + 1;
                    },
                    Err(err) => {
                        match err {
                            DbError::Duplicate => {
                                duplicate = duplicate + 1;
                            },
                            DbError::Internal => {
                                proof {
                                    assert(false);
                                }
                            },
                            DbError::NotFoundInStore => {
                                proof {
                                    assert(false);
                                }
                            },
                        }
                    },
                }
            },
        }
        i = i + 1;
    }
    proof {
        assert(results@.take(results@.len() as int) =~= results@);
        lemma_bulk_fold_totals(bulk_init(old(store)@), *channel_id, results@);
    }
    BulkAddSummary { inserted, duplicate, failed }
}

/// How the refresh flow failed for one stored identity.
#[derive(Debug, PartialEq, Eq)]
pub enum RefreshFailure {
    Fetch(FetchError),
    Store(DbError),
}

/// The refresh flow's state as it works through the fetch results: the store
/// rows, the success count, and the failure list.
pub ghost struct RefreshState {
    pub rows: Seq<Monitor>,
    pub succeeded: nat,
    pub failed: Seq<(String, RefreshFailure)>,
}

pub open spec fn refresh_init(rows: Seq<Monitor>) -> RefreshState {
    RefreshState { rows: rows, succeeded: 0, failed: Seq::empty() }
}

/// One stored identity's effect on the refresh flow: a fetch failure is
/// recorded; fresh statistics overwrite the one row of the channel that
/// carries the user id, and anything but exactly one affected row — or a new
/// username colliding with another row — is recorded as a store failure.
pub open spec fn refresh_step(
    st: RefreshState,
    channel_id: String,
    item: (String, Result<MonitorStats, FetchError>),
) -> RefreshState {
    match item.1 {
        Result::Err(e) => RefreshState {
            failed: st.failed.push((item.0, RefreshFailure::Fetch(e))),
            ..st
        },
        Result::Ok(stats) => {
            if no_user_match(st.rows, channel_id@, item.0@) {
                RefreshState {
                    failed: st.failed.push(
                        (item.0, RefreshFailure::Store(DbError::NotFoundInStore)),
                    ),
                    ..st
                }
            } else if ambiguous_user_match(st.rows, channel_id@, item.0@) {
                RefreshState {
                    failed: st.failed.push((item.0, RefreshFailure::Store(DbError::Internal))),
                    ..st
                }
            } else {
                let i = choose|i: int| lone_user_match(st.rows, channel_id@, item.0@, i);
                if key_collision(st.rows, i, channel_id@, stats.username@) {
                    RefreshState {
                        failed: st.failed.push((item.0, RefreshFailure::Store(DbError::Internal))),
                        ..st
                    }
                } else {
                    RefreshState {
                        rows: st.rows.update(i, apply_stats(st.rows[i], stats)),
                        succeeded: st.succeeded + 1,
                        ..st
                    }
                }
            }
        },
    }
}

/// The refresh flow over a whole batch of fetch results, in order.
pub open spec fn refresh_fold(
    st: RefreshState,
    channel_id: String,
    items: Seq<(String, Result<MonitorStats, FetchError>)>,
) -> RefreshState
    decreases items.len(),
{
    if items.len() == 0 {
        st
    } else {
        refresh_step(refresh_fold(st, channel_id, items.drop_last()), channel_id, items.last())
    }
}

proof fn lemma_refresh_fold_take_step(
    st: RefreshState,
    channel_id: String,
    items: Seq<(String, Result<MonitorStats, FetchError>)>,
    i: int,
)
    requires
        0 <= i < items.len(),
    ensures
        refresh_fold(st, channel_id, items.take(i + 1)) == refresh_step(
            refresh_fold(st, channel_id, items.take(i)),
            channel_id,
            items[i],
        ),
{
    assert(items.take(i + 1).drop_last() =~= items.take(i));
    assert(items.take(i + 1).last() == items[i]);
}

/// Every input contributes exactly one unit to the success-plus-failure total.
pub proof fn lemma_refresh_fold_totals(
    st: RefreshState,
    channel_id: String,
    items: Seq<(String, Result<MonitorStats, FetchError>)>,
)
    ensures
        ({
            let end = refresh_fold(st, channel_id, items);
            end.succeeded + end.failed.len() == st.succeeded + st.failed.len() + items.len()
        }),
    decreases items.len(),
{
    if items.len() > 0 {
        lemma_refresh_fold_totals(st, channel_id, items.drop_last());
    }
}

/// Law: the refresh flow over an empty batch touches no row and reports
/// nothing: zero successes and zero failures.
pub proof fn lemma_refresh_empty(rows: Seq<Monitor>, channel_id: String)
    ensures
        refresh_fold(refresh_init(rows), channel_id, Seq::empty()) == refresh_init(rows),
        refresh_init(rows).rows == rows,
        refresh_init(rows).succeeded == 0,
        refresh_init(rows).failed.len() == 0,
{
}

/// What the refresh flow reports: how many identities it attempted, how many
/// refreshed, and which failed with what error.
#[derive(Debug, PartialEq, Eq)]
pub struct RefreshSummary {
    pub attempted: usize,
    pub succeeded: usize,
    pub failed: Vec<(String, RefreshFailure)>,
}

/// The refresh flow's persistence phase: every fetched statistics snapshot is
/// written over its row, one row at a time; per-item failures are recorded
/// and never abort the batch.
pub fn refresh_all(
    store: &mut Store,
    channel_id: &String,
    results: Vec<(String, Result<MonitorStats, FetchError>)>,
) -> (summary: RefreshSummary)
    requires
        old(store).inv(),
    ensures
        final(store).inv(),
        ({
            let st = refresh_fold(refresh_init(old(store)@), *channel_id, results@);
            final(store)@ == st.rows && summary.succeeded as nat == st.succeeded
                && summary.failed@ == st.failed
        }),
        summary.attempted == results@.len(),
        summary.succeeded + summary.failed@.len() == results@.len(),
{
    let attempted = results.len();
    let mut succeeded: usize = 0;
    let mut failed: Vec<(String, RefreshFailure)> = Vec::new();
    let mut i: usize = 0;
    proof {
        assert(results@.take(0) =~= Seq::<(String, Result<MonitorStats, FetchError>)>::empty());
    }
    while i < results.len()
        invariant
            i <= results@.len(),
            old(store).inv(),
            store.inv(),
            succeeded <= i,
            ({
                let st = refresh_fold(
                    refresh_init(old(store)@),
                    *channel_id,
                    results@.take(i as int),
                );
                store@ == st.rows && succeeded as nat == st.succeeded && failed@ == st.failed
            }),
        decreases results@.len() - i,
    {
        proof {
            lemma_refresh_fold_take_step(refresh_init(old(store)@), *channel_id, results@, i as int);
        }
        let item = &results[i];
        match &item.1 {
            Err(e) => {
                failed.push((item.0.clone(), RefreshFailure::Fetch(e.duplicate())));
            },
            Ok(stats) => {
                proof {
                    let pre = store@;
                    if !no_user_match(pre, channel_id@, item.0@) && !ambiguous_user_match(
                        pre,
                        channel_id@,
                        item.0@,
                    ) {
                        lemma_lone_user_match(pre, channel_id@, item.0@);
                        let w = choose|w: int|
                            #[trigger] lone_user_match(pre, channel_id@, item.0@, w);
                        let c = choose|c: int|
                            #[trigger] lone_user_match(pre, channel_id@, item.0@, c);
                        lemma_lone_user_match_unique(pre, channel_id@, item.0@, w, c);
                    }
                }
                match store.update_stats(channel_id, &item.0, stats.duplicate()) {
                    Ok(()) => {
                        succeeded = succeeded + 1;
                    },
                    Err(e) => {
                        failed.push((item.0.clone(), RefreshFailure::Store(e)));
                    },
                }
            },
        }
        i = i + 1;
    }
    proof {
        assert(results@.take(results@.len() as int) =~= results@);
        lemma_refresh_fold_totals(refresh_init(old(store)@), *channel_id, results@);
    }
    RefreshSummary { attempted, succeeded, failed }
}

/// The monitored usernames of a channel listing, one per line.
pub open spec fn usernames_joined_spec(rows: Seq<Monitor>) -> Seq<char>
    decreases rows.len(),
{
    if rows.len() == 0 {
        Seq::empty()
    } else if rows.len() == 1 {
        rows[0].username@
    } else {
        usernames_joined_spec(rows.drop_last()) + "\n"@ + rows.last().username@
    }
}

/// Joins the usernames of the listed rows with newlines, in order.
pub fn usernames_joined(monitors: &Vec<Monitor>) -> (r: String)
    ensures
        r@ == usernames_joined_spec(monitors@),
{
    let mut r = String::new();
    let mut i: usize = 0;
    proof {
        assert(monitors@.take(0) =~= Seq::<Monitor>::empty());
    }
    while i < monitors.len()
        invariant
            i <= monitors@.len(),
            r@ == usernames_joined_spec(monitors@.take(i as int)),
        decreases monitors@.len() - i,
    {
        proof {
            lemma_usernames_joined_step(monitors@, i as int);
        }
        if i > 0 {
            r.append("\n");
        }
        r.append(monitors[i].username.as_str());
        i = i + 1;
    }
    proof {
        assert(monitors@.take(monitors@.len() as int) =~= monitors@);
    }
    r
}

proof fn lemma_usernames_joined_step(rows: Seq<Monitor>, i: int)
    requires
        0 <= i < rows.len(),
    ensures
        i == 0 ==> usernames_joined_spec(rows.take(1)) == rows[0].username@,
        i > 0 ==> usernames_joined_spec(rows.take(i + 1)) == usernames_joined_spec(rows.take(i))
            + "\n"@ + rows[i].username@,
{
    assert(rows.take(i + 1).drop_last() =~= rows.take(i));
    assert(rows.take(i + 1).last() == rows[i]);
    if i == 0 {
        assert(rows.take(1)[0] == rows[0]);
    }
}

} // verus!
