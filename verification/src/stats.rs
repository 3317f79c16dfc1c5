use vstd::prelude::*;
use std::time::{Duration, Instant};
use crate::text::{join_strings, joined, texts};

verus! {

/// A point in time, carried through unchanged: nothing here reads it.
#[verifier::external_type_specification]
#[verifier::external_body]
pub struct ExInstant(Instant);

/// Calls `Instant::now`. Nothing is claimed of the result: it is the time.
#[verifier::external_body]
fn clock_now() -> Instant {
    Instant::now()
}

/// The duration of the given number of whole seconds.
pub uninterp spec fn duration_of_secs(secs: u64) -> Duration;

/// Calls `Duration::from_secs`. Claimed: the result is `duration_of_secs` of
/// the count (the function depends on its argument alone).
#[verifier::external_body]
fn duration_from_secs(secs: u64) -> (d: Duration)
    ensures
        d == duration_of_secs(secs),
{
    Duration::from_secs(secs)
}

/// How many seconds must pass between two status logs.
pub const STATUS_LOG_INTERVAL_SECS: u64 = 5;

/// How many recently processed users the statistics remember.
pub const RECENT_USERS: usize = 10;

/// The recent-users list after a user was processed successfully: the user
/// goes at the end, and the oldest entry leaves once there are more than ten.
pub open spec fn recent_after(recent: Seq<Seq<char>>, user_id: Seq<char>) -> Seq<Seq<char>> {
    let longer = recent.push(user_id);
    if longer.len() > RECENT_USERS {
        longer.drop_first()
    } else {
        longer
    }
}

/// The recent-users list after a run of successful users, starting empty.
pub open spec fn recent_of(successes: Seq<Seq<char>>) -> Seq<Seq<char>>
    decreases successes.len(),
{
    if successes.len() == 0 {
        seq![]
    } else {
        recent_after(recent_of(successes.drop_last()), successes.last())
    }
}

/// What recording a processed user does: one more user processed, counted as
/// a success or a failure; a success joins the recent list; nothing else changes.
pub open spec fn user_processed_effect(before: Statistics, after: Statistics, user_id: Seq<char>, success: bool) -> bool {
    &&& after.processed_users == before.processed_users + 1
    &&& after.successful_users == before.successful_users + (if success { 1int } else { 0int })
    &&& after.failed_users == before.failed_users + (if success { 0int } else { 1int })
    &&& after.skipped_users == before.skipped_users
    &&& after.total_users == before.total_users
    &&& texts(after.last_processed_users@) == (if success {
        recent_after(texts(before.last_processed_users@), user_id)
    } else {
        texts(before.last_processed_users@)
    })
    &&& after.start_time == before.start_time
    &&& after.last_log_time == before.last_log_time
    &&& after.batch_start_time == before.batch_start_time
    &&& after.last_batch_duration == before.last_batch_duration
}

/// What recording a finished batch does: it sets the last batch's duration
/// and nothing else.
pub open spec fn batch_completed_effect(before: Statistics, after: Statistics, duration: Duration) -> bool {
    &&& after.last_batch_duration == duration
    &&& after.total_users == before.total_users
    &&& after.processed_users == before.processed_users
    &&& after.skipped_users == before.skipped_users
    &&& after.successful_users == before.successful_users
    &&& after.failed_users == before.failed_users
    &&& after.start_time == before.start_time
    &&& after.last_log_time == before.last_log_time
    &&& after.batch_start_time == before.batch_start_time
    &&& after.last_processed_users == before.last_processed_users
}

/// What a status log or the start of a batch does: it sets a time and leaves
/// every counter and the recent list as they were.
pub open spec fn time_update_effect(before: Statistics, after: Statistics) -> bool {
    &&& after.total_users == before.total_users
    &&& after.processed_users == before.processed_users
    &&& after.skipped_users == before.skipped_users
    &&& after.successful_users == before.successful_users
    &&& after.failed_users == before.failed_users
    &&& after.last_processed_users == before.last_processed_users
}

/// One call on the statistics of a run.
pub enum StatisticsStep {
    /// `user_processed` with this user and outcome.
    UserProcessed { user_id: Seq<char>, success: bool },
    /// `batch_completed` with this duration.
    BatchCompleted { duration: Duration },
    /// A status log or a new batch's start, which only sets a time.
    TimeUpdated,
}

/// `after` is what the step makes of `before`.
pub open spec fn step_effect(before: Statistics, after: Statistics, step: StatisticsStep) -> bool {
    match step {
        StatisticsStep::UserProcessed { user_id, success } => user_processed_effect(before, after, user_id, success),
        StatisticsStep::BatchCompleted { duration } => batch_completed_effect(before, after, duration),
        StatisticsStep::TimeUpdated => time_update_effect(before, after),
    }
}

/// Counters and timings of a bulk update run.
pub struct Statistics {
    /// Users to process in all.
    pub total_users: u64,
    /// Users processed so far, the skipped ones included.
    pub processed_users: u64,
    /// Users skipped because an earlier run processed them.
    pub skipped_users: u64,
    /// Users processed successfully.
    pub successful_users: u64,
    /// Users that failed to process.
    pub failed_users: u64,
    /// When the run started.
    pub start_time: Instant,
    /// When the status was last logged.
    pub last_log_time: Instant,
    /// When the current batch started.
    pub batch_start_time: Instant,
    /// How long the previous batch took.
    pub last_batch_duration: Duration,
    /// The most recently processed users, oldest first.
    pub last_processed_users: Vec<String>,
}

impl Statistics {
    /// The counters add up and the recent-users list is bounded.
    pub open spec fn wf(&self) -> bool {
        &&& self.processed_users == self.skipped_users + self.successful_users + self.failed_users
        &&& self.last_processed_users@.len() <= RECENT_USERS
    }

    /// The run's fixed facts hold: the counters add up, the recent list is
    /// bounded, and the run covers `total` users of which `previously` were
    /// processed by an earlier run.
    pub open spec fn keeps_run(&self, total: u64, previously: u64) -> bool {
        &&& self.wf()
        &&& self.total_users == total
        &&& self.skipped_users == previously
    }

    /// Statistics for a run over `total_users`, of which `previously_processed`
    /// were processed by an earlier run and count as processed and skipped.
    pub fn new(total_users: u64, previously_processed: usize) -> (stats: Self)
        ensures
            stats.wf(),
            stats.total_users == total_users,
            stats.processed_users == previously_processed as u64,
            stats.skipped_users == previously_processed as u64,
            stats.successful_users == 0,
            stats.failed_users == 0,
            stats.start_time == stats.last_log_time,
            stats.start_time == stats.batch_start_time,
            stats.last_processed_users@.len() == 0,
            stats.last_batch_duration == duration_of_secs(0),
            stats.keeps_run(total_users, previously_processed as u64),
    {
        let now = clock_now();
        Statistics {
            total_users,
            processed_users: previously_processed as u64,
            skipped_users: previously_processed as u64,
            successful_users: 0,
            failed_users: 0,
            start_time: now,
            last_log_time: now,
            batch_start_time: now,
            last_batch_duration: duration_from_secs(0),
            last_processed_users: Vec::with_capacity(RECENT_USERS),
        }
    }

    /// Records that a user was processed, successfully or not.
    pub fn user_processed(&mut self, user_id: &str, success: bool)
        requires
            old(self).processed_users < u64::MAX,
            success ==> old(self).successful_users < u64::MAX,
            !success ==> old(self).failed_users < u64::MAX,
        ensures
            old(self).wf() ==> final(self).wf(),
            user_processed_effect(*old(self), *final(self), user_id@, success),
    {
        self.processed_users = self.processed_users + 1;
        if success {
            self.successful_users = self.successful_users + 1;
            let ghost before = texts(self.last_processed_users@);
            self.last_processed_users.push(String::from_str(user_id));
            assert(texts(self.last_processed_users@) =~= before.push(user_id@));
            if self.last_processed_users.len() > RECENT_USERS {
                let ghost longer = texts(self.last_processed_users@);
                self.last_processed_users.remove(0);
                assert(texts(self.last_processed_users@) =~= longer.drop_first());
            }
        } else {
            self.failed_users = self.failed_users + 1;
        }
    }

    /// Records how long the batch that just finished took.
    pub fn batch_completed(&mut self, duration: Duration)
        ensures
            batch_completed_effect(*old(self), *final(self), duration),
    {
        self.last_batch_duration = duration;
    }

    /// Decides whether the status is logged now, `secs_since_last_log` after
    /// the last log: it is when at least five seconds have passed, and then
    /// the log time becomes `now`. Nothing else changes.
    pub fn begin_status_log(&mut self, now: Instant, secs_since_last_log: u64) -> (due: bool)
        ensures
            due == (secs_since_last_log >= STATUS_LOG_INTERVAL_SECS),
            time_update_effect(*old(self), *final(self)),
            final(self).last_log_time == (if due { now } else { old(self).last_log_time }),
            final(self).start_time == old(self).start_time,
            final(self).batch_start_time == old(self).batch_start_time,
            final(self).last_batch_duration == old(self).last_batch_duration,
    {
        if secs_since_last_log >= STATUS_LOG_INTERVAL_SECS {
            self.last_log_time = now;
            true
        } else {
            false
        }
    }

    /// The users still to process.
    pub fn remaining_users(&self) -> (remaining: u64)
        requires
            self.processed_users <= self.total_users,
        ensures
            remaining == self.total_users - self.processed_users,
    {
        self.total_users - self.processed_users
    }

    /// The recent users as the status log shows them: `None` when there are
    /// none, otherwise the ids joined with `", "`.
    pub fn recent_users_text(&self) -> (s: String)
        ensures
            s@ == (if self.last_processed_users@.len() == 0 {
                "None"@
            } else {
                joined(texts(self.last_processed_users@), ", "@)
            }),
    {
        if self.last_processed_users.is_empty() {
            String::from_str("None")
        } else {
            join_strings(&self.last_processed_users, ", ")
        }
    }
}

/// Over any sequence of calls after `Statistics::new(total, previously)`, the
/// counters add up (processed = skipped + successful + failed), the skipped
/// count and the total stay what `new` set, and at most ten users are recent.
pub proof fn lemma_run_keeps_counters(run: Seq<Statistics>, steps: Seq<StatisticsStep>, total: u64, previously: u64)
    requires
        run.len() == steps.len() + 1,
        run[0].keeps_run(total, previously),
        forall|i: int| 0 <= i < steps.len() ==> step_effect(run[i], run[i + 1], #[trigger] steps[i]),
    ensures
        forall|i: int| 0 <= i < run.len() ==> #[trigger] run[i].keeps_run(total, previously),
    decreases steps.len(),
{
    if steps.len() > 0 {
        let n = steps.len() - 1;
        lemma_run_keeps_counters(run.drop_last(), steps.drop_last(), total, previously);
        assert(run.drop_last()[n].keeps_run(total, previously));
        let before = run[n];
        let after = run[n + 1];
        assert(step_effect(before, after, steps[n]));
        match steps[n] {
            StatisticsStep::UserProcessed { user_id, success } => {
                let old_len = before.last_processed_users@.len();
                assert(texts(before.last_processed_users@).len() == old_len);
                assert(texts(after.last_processed_users@).len() == after.last_processed_users@.len());
            },
            _ => {},
        }
        assert forall|i: int| 0 <= i < run.len() implies #[trigger] run[i].keeps_run(total, previously) by {
            if i < run.len() - 1 {
                assert(run[i] == run.drop_last()[i]);
            }
        }
    }
}

/// After any run of successful users the recent-users list holds the last ten
/// of them (all of them while there are fewer), oldest first.
pub proof fn lemma_recent_users_are_last_ten(successes: Seq<Seq<char>>)
    ensures
        recent_of(successes) == successes.subrange(
            if successes.len() > RECENT_USERS { successes.len() - RECENT_USERS } else { 0 },
            successes.len() as int,
        ),
    decreases successes.len(),
{
    if successes.len() > 0 {
        let rest = successes.drop_last();
        lemma_recent_users_are_last_ten(rest);
        let start = if rest.len() > RECENT_USERS { rest.len() - RECENT_USERS } else { 0 };
        let start2 = if successes.len() > RECENT_USERS { successes.len() - RECENT_USERS } else { 0 };
        let longer = rest.subrange(start, rest.len() as int).push(successes.last());
        assert(longer =~= successes.subrange(start, successes.len() as int));
        if longer.len() > RECENT_USERS {
            assert(longer.drop_first() =~= successes.subrange(start2, successes.len() as int));
        } else {
            assert(start == start2);
        }
    } else {
        assert(successes.subrange(0, 0) =~= Seq::<Seq<char>>::empty());
    }
}

} // verus!
