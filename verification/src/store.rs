use vstd::prelude::*;
use vstd::string::StringExecFns;

use crate::error::DbError;

verus! {

/// One persisted watch-list row: an external player identity bound to one
/// chat channel.  Play time is held in whole seconds.
#[derive(Debug, PartialEq, Eq)]
pub struct Monitor {
    pub channel_id: String,
    pub user_id: String,
    pub username: String,
    pub last_match_id: Option<String>,
    pub game_time: u64,
    pub games_played: i32,
    pub last_personal_best_blitz: Option<i32>,
    pub last_personal_best_40l: Option<i32>,
}

impl Monitor {
    /// An equal copy of the row.
    pub fn duplicate(&self) -> (r: Monitor)
        ensures
            r == *self,
    {
        Monitor {
            channel_id: self.channel_id.clone(),
            user_id: self.user_id.clone(),
            username: self.username.clone(),
            last_match_id: match &self.last_match_id {
                Some(s) => Some(s.clone()),
                None => None,
            },
            game_time: self.game_time,
            games_played: self.games_played,
            last_personal_best_blitz: self.last_personal_best_blitz,
            last_personal_best_40l: self.last_personal_best_40l,
        }
    }
}

/// The refreshable fields of a row.  `user_id` is immutable once stored;
/// everything here may be overwritten by the refresh flow.
#[derive(Debug, PartialEq, Eq)]
pub struct MonitorStats {
    pub username: String,
    pub game_time: u64,
    pub games_played: i32,
    pub last_personal_best_blitz: Option<i32>,
    pub last_personal_best_40l: Option<i32>,
}

impl MonitorStats {
    /// An equal copy.
    pub fn duplicate(&self) -> (r: MonitorStats)
        ensures
            r == *self,
    {
        MonitorStats {
            username: self.username.clone(),
            game_time: self.game_time,
            games_played: self.games_played,
            last_personal_best_blitz: self.last_personal_best_blitz,
            last_personal_best_40l: self.last_personal_best_40l,
        }
    }
}

/// The row's uniqueness key matches the given (channel, username) pair.
pub open spec fn same_key(m: Monitor, channel_id: Seq<char>, username: Seq<char>) -> bool {
    m.channel_id@ == channel_id && m.username@ == username
}

/// Some row carries the given (channel, username) key.
pub open spec fn has_key(rows: Seq<Monitor>, channel_id: Seq<char>, username: Seq<char>) -> bool {
    exists|i: int| 0 <= i < rows.len() && same_key(#[trigger] rows[i], channel_id, username)
}

/// The row binds the given user id to the given channel.
pub open spec fn same_user(m: Monitor, channel_id: Seq<char>, user_id: Seq<char>) -> bool {
    m.channel_id@ == channel_id && m.user_id@ == user_id
}

/// No row of the channel carries the given user id.
pub open spec fn no_user_match(rows: Seq<Monitor>, channel_id: Seq<char>, user_id: Seq<char>) -> bool {
    forall|i: int| 0 <= i < rows.len() ==> !same_user(#[trigger] rows[i], channel_id, user_id)
}

/// Row `i` is the only row of the channel carrying the given user id.
pub open spec fn lone_user_match(
    rows: Seq<Monitor>,
    channel_id: Seq<char>,
    user_id: Seq<char>,
    i: int,
) -> bool {
    &&& 0 <= i < rows.len()
    &&& same_user(rows[i], channel_id, user_id)
    &&& forall|j: int| 0 <= j < rows.len() && j != i ==> !same_user(#[trigger] rows[j], channel_id, user_id)
}

/// Two distinct rows of the channel carry the given user id.
pub open spec fn ambiguous_user_match(
    rows: Seq<Monitor>,
    channel_id: Seq<char>,
    user_id: Seq<char>,
) -> bool {
    exists|a: int, b: int|
        0 <= a < b < rows.len() && same_user(#[trigger] rows[a], channel_id, user_id) && same_user(
            #[trigger] rows[b],
            channel_id,
            user_id,
        )
}

/// A row other than `i` already holds the (channel, username) key.
pub open spec fn key_collision(
    rows: Seq<Monitor>,
    i: int,
    channel_id: Seq<char>,
    username: Seq<char>,
) -> bool {
    exists|j: int| 0 <= j < rows.len() && j != i && same_key(#[trigger] rows[j], channel_id, username)
}

/// At most one row per (channel, username): the store's uniqueness invariant.
pub open spec fn keys_distinct(rows: Seq<Monitor>) -> bool {
    forall|i: int, j: int| #![trigger rows[i], rows[j]]
        0 <= i < j < rows.len() ==> !(rows[i].channel_id@ == rows[j].channel_id@
            && rows[i].username@ == rows[j].username@)
}

/// The row with the refreshable fields overwritten from `stats`.
pub open spec fn apply_stats(m: Monitor, stats: MonitorStats) -> Monitor {
    Monitor {
        channel_id: m.channel_id,
        user_id: m.user_id,
        username: stats.username,
        last_match_id: m.last_match_id,
        game_time: stats.game_time,
        games_played: stats.games_played,
        last_personal_best_blitz: stats.last_personal_best_blitz,
        last_personal_best_40l: stats.last_personal_best_40l,
    }
}

/// The predicate selecting a channel's rows.
pub open spec fn channel_pred(channel_id: Seq<char>) -> spec_fn(Monitor) -> bool {
    |m: Monitor| m.channel_id@ == channel_id
}

/// The persisted monitor rows, in insertion order, with duplicate detection
/// on the (channel, username) key.
pub struct Store {
    pub rows: Vec<Monitor>,
}

impl View for Store {
    type V = Seq<Monitor>;

    open spec fn view(&self) -> Seq<Monitor> {
        self.rows@
    }
}

impl Store {
    /// Uniqueness invariant, established by `new` and kept by every method.
    pub open spec fn inv(&self) -> bool {
        keys_distinct(self@)
    }

    pub fn new() -> (s: Store)
        ensures
            s@.len() == 0,
            s.inv(),
    {
        Store { rows: Vec::new() }
    }

    pub fn len(&self) -> (n: usize)
        ensures
            n == self@.len(),
    {
        self.rows.len()
    }

    /// The channel's rows, in insertion order.
    pub fn list(&self, channel_id: &String) -> (r: Vec<Monitor>)
        ensures
            r@ == self@.filter(channel_pred(channel_id@)),
    {
        let mut r: Vec<Monitor> = Vec::new();
        let mut i: usize = 0;
        proof {
            assert(self@.take(0).filter(channel_pred(channel_id@)) =~= Seq::<Monitor>::empty());
        }
        while i < self.rows.len()
            invariant
                i <= self@.len(),
                r@ == self@.take(i as int).filter(channel_pred(channel_id@)),
            decreases self@.len() - i,
        {
            proof {
                lemma_filter_take_step(self@, channel_pred(channel_id@), i as int);
            }
            if self.rows[i].channel_id == *channel_id {
                r.push(self.rows[i].duplicate());
            }
            i = i + 1;
        }
        proof {
            assert(self@.take(self@.len() as int) =~= self@);
        }
        r
    }

    /// Inserts a row, detecting a duplicate (channel, username) key.  The
    /// duplicate outcome is a classification, not a corruption of the store:
    /// the store is unchanged by it.
    pub fn insert(&mut self, m: Monitor) -> (r: Result<(), DbError>)
        requires
            old(self).inv(),
        ensures
            final(self).inv(),
            has_key(old(self)@, m.channel_id@, m.username@) ==> r == Err::<(), DbError>(
                DbError::Duplicate,
            ) && final(self)@ == old(self)@,
            !has_key(old(self)@, m.channel_id@, m.username@) ==> r == Ok::<(), DbError>(())
                && final(self)@ == old(self)@.push(m),
    {
        let mut i: usize = 0;
        while i < self.rows.len()
            invariant
                i <= self@.len(),
                *self == *old(self),
                self.inv(),
                forall|k: int| 0 <= k < i ==> !same_key(#[trigger] self@[k], m.channel_id@, m.username@),
            decreases self@.len() - i,
        {
            if self.rows[i].channel_id == m.channel_id && self.rows[i].username == m.username {
                proof {
                    assert(same_key(self@[i as int], m.channel_id@, m.username@));
                }
                return Err(DbError::Duplicate);
            }
            i = i + 1;
        }
        proof {
            assert(!has_key(self@, m.channel_id@, m.username@));
        }
        let ghost prior = self@;
        self.rows.push(m);
        proof {
            assert forall|a: int, b: int| #![trigger self@[a], self@[b]]
                0 <= a < b < self@.len() implies !(self@[a].channel_id@ == self@[b].channel_id@
                && self@[a].username@ == self@[b].username@) by {
                if b == self@.len() - 1 {
                    assert(self@[a] == prior[a]);
                    assert(!same_key(prior[a], m.channel_id@, m.username@));
                } else {
                    assert(self@[a] == prior[a] && self@[b] == prior[b]);
                }
            }
        }
        Ok(())
    }

    /// The first row of the channel carrying the user id, if any.
    fn find_user(&self, channel_id: &String, user_id: &String) -> (r: Option<usize>)
        ensures
            match r {
                Some(f) => f < self@.len() && same_user(self@[f as int], channel_id@, user_id@)
                    && forall|k: int|
                    0 <= k < f ==> !same_user(#[trigger] self@[k], channel_id@, user_id@),
                None => no_user_match(self@, channel_id@, user_id@),
            },
    {
        let mut f: usize = 0;
        while f < self.rows.len()
            invariant
                f <= self@.len(),
                forall|k: int| 0 <= k < f ==> !same_user(#[trigger] self@[k], channel_id@, user_id@),
            decreases self@.len() - f,
        {
            if self.rows[f].channel_id == *channel_id && self.rows[f].user_id == *user_id {
                return Some(f);
            }
            f = f + 1;
        }
        None
    }

    /// Overwrites the refreshable fields of the channel's row carrying the
    /// given user id.  Exactly one row must be affected: an absent target is
    /// `NotFoundInStore`, and more than one candidate row — or a new username
    /// that would break the (channel, username) uniqueness — is `Internal`.
    pub fn update_stats(
        &mut self,
        channel_id: &String,
        user_id: &String,
        stats: MonitorStats,
    ) -> (r: Result<(), DbError>)
        requires
            old(self).inv(),
        ensures
            final(self).inv(),
            no_user_match(old(self)@, channel_id@, user_id@) ==> r == Err::<(), DbError>(
                DbError::NotFoundInStore,
            ) && final(self)@ == old(self)@,
            ambiguous_user_match(old(self)@, channel_id@, user_id@) ==> r == Err::<(), DbError>(
                DbError::Internal,
            ) && final(self)@ == old(self)@,
            forall|i: int| #[trigger] lone_user_match(old(self)@, channel_id@, user_id@, i) ==> (
                (key_collision(old(self)@, i, channel_id@, stats.username@) ==> r == Err::<(), DbError>(
                    DbError::Internal,
                ) && final(self)@ == old(self)@) && (!key_collision(
                    old(self)@,
                    i,
                    channel_id@,
                    stats.username@,
                ) ==> r == Ok::<(), DbError>(()) && final(self)@ == old(self)@.update(
                    i,
                    apply_stats(old(self)@[i], stats),
                ))),
    {
        // First pass: the first row of the channel carrying the user id.
        let found = self.find_user(channel_id, user_id);
        let f: usize = match found {
            None => {
                proof {
                    assert(no_user_match(self@, channel_id@, user_id@));
                }
                return Err(DbError::NotFoundInStore);
            },
            Some(f) => f,
        };
        let n = self.rows.len();
        assert(f < n && same_user(self@[f as int], channel_id@, user_id@));
        // Second pass: any other row carrying the same user id.
        let mut j: usize = f + 1;
        while j < self.rows.len()
            invariant
                f < j,
                j <= self@.len(),
                f < self@.len(),
                *self == *old(self),
                self.inv(),
                same_user(self@[f as int], channel_id@, user_id@),
                forall|k: int| 0 <= k < f ==> !same_user(#[trigger] self@[k], channel_id@, user_id@),
                forall|k: int| f < k < j ==> !same_user(#[trigger] self@[k], channel_id@, user_id@),
            decreases self@.len() - j,
        {
            if self.rows[j].channel_id == *channel_id && self.rows[j].user_id == *user_id {
                proof {
                    assert(same_user(self@[j as int], channel_id@, user_id@));
                    assert(ambiguous_user_match(self@, channel_id@, user_id@));
                }
                return Err(DbError::Internal);
            }
            j = j + 1;
        }
        proof {
            assert forall|i: int| #[trigger] lone_user_match(self@, channel_id@, user_id@, i)
                implies i == f as int by {
                if i != f as int {
                    assert(!same_user(self@[i], channel_id@, user_id@));
                }
            }
            assert(lone_user_match(self@, channel_id@, user_id@, f as int));
        }
        // Third pass: a row, other than the target, already holding the new
        // (channel, username) key.
        let mut c: usize = 0;
        while c < self.rows.len()
            invariant
                c <= self@.len(),
                f < self@.len(),
                *self == *old(self),
                self.inv(),
                lone_user_match(self@, channel_id@, user_id@, f as int),
                forall|i: int| #[trigger] lone_user_match(self@, channel_id@, user_id@, i) ==> i
                    == f as int,
                forall|k: int|
                    0 <= k < c && k != f as int ==> !same_key(
                        #[trigger] self@[k],
                        channel_id@,
                        stats.username@,
                    ),
            decreases self@.len() - c,
        {
            if c != f && self.rows[c].channel_id == *channel_id && self.rows[c].username
                == stats.username {
                proof {
                    assert(same_key(self@[c as int], channel_id@, stats.username@));
                    assert(key_collision(self@, f as int, channel_id@, stats.username@));
                    assert(same_user(self@[f as int], channel_id@, user_id@));
                    assert(!no_user_match(self@, channel_id@, user_id@));
                    assert(!ambiguous_user_match(self@, channel_id@, user_id@)) by {
                        if ambiguous_user_match(self@, channel_id@, user_id@) {
                            let (a, b) = choose|a: int, b: int|
                                0 <= a < b < self@.len() && same_user(
                                    #[trigger] self@[a],
                                    channel_id@,
                                    user_id@,
                                ) && same_user(#[trigger] self@[b], channel_id@, user_id@);
                            assert(a != f as int || b != f as int);
                        }
                    }
                }
                return Err(DbError::Internal);
            }
            c = c + 1;
        }
        proof {
            assert(!key_collision(self@, f as int, channel_id@, stats.username@));
            assert(!no_user_match(self@, channel_id@, user_id@));
            assert(!ambiguous_user_match(self@, channel_id@, user_id@)) by {
                if ambiguous_user_match(self@, channel_id@, user_id@) {
                    let (a, b) = choose|a: int, b: int|
                        0 <= a < b < self@.len() && same_user(
                            #[trigger] self@[a],
                            channel_id@,
                            user_id@,
                        ) && same_user(#[trigger] self@[b], channel_id@, user_id@);
                    assert(a != f as int || b != f as int);
                }
            }
        }
        let ghost prior = self@;
        let current = self.rows[f].duplicate();
        let updated = Monitor {
            channel_id: current.channel_id,
            user_id: current.user_id,
            username: stats.username,
            last_match_id: current.last_match_id,
            game_time: stats.game_time,
            games_played: stats.games_played,
            last_personal_best_blitz: stats.last_personal_best_blitz,
            last_personal_best_40l: stats.last_personal_best_40l,
        };
        self.rows.set(f, updated);
        proof {
            assert(self@ == prior.update(f as int, apply_stats(prior[f as int], stats)));
            assert forall|a: int, b: int| #![trigger self@[a], self@[b]]
                0 <= a < b < self@.len() implies !(self@[a].channel_id@ == self@[b].channel_id@
                && self@[a].username@ == self@[b].username@) by {
                if a == f as int {
                    assert(self@[b] == prior[b]);
                    assert(!same_key(prior[b], channel_id@, stats.username@));
                } else if b == f as int {
                    assert(self@[a] == prior[a]);
                    assert(!same_key(prior[a], channel_id@, stats.username@));
                } else {
                    assert(self@[a] == prior[a] && self@[b] == prior[b]);
                }
            }
        }
        Ok(())
    }

    /// Removes the channel's row with the given username and returns it;
    /// absent a match the store is unchanged.
    pub fn delete(&mut self, channel_id: &String, username: &String) -> (r: Result<Monitor, DbError>)
        requires
            old(self).inv(),
        ensures
            final(self).inv(),
            !has_key(old(self)@, channel_id@, username@) ==> r == Err::<Monitor, DbError>(
                DbError::NotFoundInStore,
            ) && final(self)@ == old(self)@,
            has_key(old(self)@, channel_id@, username@) ==> (r matches Ok(m) && exists|i: int|
                0 <= i < old(self)@.len() && same_key(#[trigger] old(self)@[i], channel_id@, username@)
                    && m == old(self)@[i] && final(self)@ == old(self)@.remove(i)),
    {
        let mut i: usize = 0;
        while i < self.rows.len()
            invariant
                i <= self@.len(),
                *self == *old(self),
                self.inv(),
                forall|k: int| 0 <= k < i ==> !same_key(#[trigger] self@[k], channel_id@, username@),
            decreases self@.len() - i,
        {
            if self.rows[i].channel_id == *channel_id && self.rows[i].username == *username {
                let ghost prior = self@;
                let m = self.rows.remove(i);
                proof {
                    assert(same_key(prior[i as int], channel_id@, username@));
                    lemma_keys_distinct_remove(prior, i as int);
                }
                return Ok(m);
            }
            i = i + 1;
        }
        proof {
            assert(!has_key(self@, channel_id@, username@));
        }
        Err(DbError::NotFoundInStore)
    }
}

/// Row `i` is the only row carrying the (channel, username) key.
pub open spec fn lone_key(rows: Seq<Monitor>, channel_id: Seq<char>, username: Seq<char>, i: int) -> bool {
    &&& 0 <= i < rows.len()
    &&& same_key(rows[i], channel_id, username)
    &&& forall|j: int| 0 <= j < rows.len() && j != i ==> !same_key(#[trigger] rows[j], channel_id, username)
}

/// Law: inserting the same (channel, username) key twice yields exactly one
/// stored row.  The first insert on a store without the key appends the row
/// (by `Store::insert`'s contract); this shows that the key is then present —
/// so a second insert of the same key returns the duplicate outcome and
/// leaves the store unchanged, again by that contract — and that exactly one
/// row carries it.
pub proof fn lemma_insert_twice(rows: Seq<Monitor>, m1: Monitor, m2: Monitor)
    requires
        !has_key(rows, m1.channel_id@, m1.username@),
        m2.channel_id@ == m1.channel_id@,
        m2.username@ == m1.username@,
    ensures
        has_key(rows.push(m1), m2.channel_id@, m2.username@),
        lone_key(rows.push(m1), m2.channel_id@, m2.username@, rows.len() as int),
{
    let grown = rows.push(m1);
    assert(grown[rows.len() as int] == m1);
    assert(same_key(grown[rows.len() as int], m2.channel_id@, m2.username@));
    assert forall|j: int| 0 <= j < grown.len() && j != rows.len() as int implies !same_key(
        #[trigger] grown[j],
        m2.channel_id@,
        m2.username@,
    ) by {
        assert(grown[j] == rows[j]);
    }
}

/// Classifies a database driver's error code for a failed insert: the
/// unique-violation code — and only that code — is the duplicate outcome;
/// everything else, a missing code included, is an internal store failure.
pub fn classify_insert_failure(code: Option<&String>) -> (e: DbError)
    ensures
        match code {
            Some(c) => e == (if c@ == "23505"@ {
                DbError::Duplicate
            } else {
                DbError::Internal
            }),
            None => e == DbError::Internal,
        },
{
    match code {
        Some(c) => {
            let unique_violation = String::from_str("23505");
            if *c == unique_violation {
                DbError::Duplicate
            } else {
                DbError::Internal
            }
        },
        None => DbError::Internal,
    }
}

/// Exactly one row must be affected by a write; any other count is an
/// internal store failure, never silently ignored.
pub fn check_rows_affected(rows_affected: u64) -> (r: Result<(), DbError>)
    ensures
        rows_affected == 1 ==> r == Ok::<(), DbError>(()),
        rows_affected != 1 ==> r == Err::<(), DbError>(DbError::Internal),
{
    if rows_affected == 1 {
        Ok(())
    } else {
        Err(DbError::Internal)
    }
}

/// Where a channel has a row for the user id but not two, it has exactly one.
pub proof fn lemma_lone_user_match(rows: Seq<Monitor>, channel_id: Seq<char>, user_id: Seq<char>)
    requires
        !no_user_match(rows, channel_id, user_id),
        !ambiguous_user_match(rows, channel_id, user_id),
    ensures
        exists|i: int| #[trigger] lone_user_match(rows, channel_id, user_id, i),
{
    assert(exists|i: int| 0 <= i < rows.len() && same_user(#[trigger] rows[i], channel_id, user_id));
    let w = choose|w: int| 0 <= w < rows.len() && same_user(#[trigger] rows[w], channel_id, user_id);
    assert forall|j: int| 0 <= j < rows.len() && j != w implies !same_user(
        #[trigger] rows[j],
        channel_id,
        user_id,
    ) by {
        if same_user(rows[j], channel_id, user_id) {
            assert(ambiguous_user_match(rows, channel_id, user_id));
        }
    }
    assert(lone_user_match(rows, channel_id, user_id, w));
}

/// A lone match is unique.
pub proof fn lemma_lone_user_match_unique(
    rows: Seq<Monitor>,
    channel_id: Seq<char>,
    user_id: Seq<char>,
    i: int,
    j: int,
)
    requires
        lone_user_match(rows, channel_id, user_id, i),
        lone_user_match(rows, channel_id, user_id, j),
    ensures
        i == j,
{
}

/// Removing a row keeps the remaining keys pairwise distinct.
proof fn lemma_keys_distinct_remove(rows: Seq<Monitor>, i: int)
    requires
        keys_distinct(rows),
        0 <= i < rows.len(),
    ensures
        keys_distinct(rows.remove(i)),
{
    let rest = rows.remove(i);
    assert forall|a: int, b: int| #![trigger rest[a], rest[b]]
        0 <= a < b < rest.len() implies !(rest[a].channel_id@ == rest[b].channel_id@
        && rest[a].username@ == rest[b].username@) by {
        let a0: int = if a < i { a } else { a + 1 };
        let b0: int = if b < i { b } else { b + 1 };
        assert(rest[a] == rows[a0]);
        assert(rest[b] == rows[b0]);
    }
}

/// One forward step of `filter` over a growing prefix.
proof fn lemma_filter_take_step(s: Seq<Monitor>, pred: spec_fn(Monitor) -> bool, i: int)
    requires
        0 <= i < s.len(),
    ensures
        s.take(i + 1).filter(pred) == if pred(s[i]) {
            s.take(i as int).filter(pred).push(s[i])
        } else {
            s.take(i as int).filter(pred)
        },
{
    reveal_with_fuel(Seq::<_>::filter, 2);
    assert(s.take(i + 1).drop_last() =~= s.take(i as int));
    assert(s.take(i + 1).last() == s[i]);
}

} // verus!
