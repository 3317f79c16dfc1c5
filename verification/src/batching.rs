use vstd::prelude::*;
use crate::text::{decimal, decimal_string, join_strings, joined, texts};

verus! {

/// How many users the runner processes at once.
pub const BATCH_SIZE: usize = 100;

/// What one offered user does to the pending batch: a user processed by an
/// earlier run is skipped; any other joins the batch, and a batch that
/// reaches `BATCH_SIZE` is handed out and a new one begins.
pub open spec fn offer_step(pending: Seq<Seq<char>>, user_id: Seq<char>, already_processed: bool) -> (
    Seq<Seq<char>>,
    Option<Seq<Seq<char>>>,
) {
    if already_processed {
        (pending, None)
    } else {
        let grown = pending.push(user_id);
        if grown.len() >= BATCH_SIZE {
            (seq![], Some(grown))
        } else {
            (grown, None)
        }
    }
}

/// The batches handed out, and the batch still pending, after offering the
/// users in order to an empty batcher.
pub open spec fn run_batches(offers: Seq<(Seq<char>, bool)>) -> (Seq<Seq<Seq<char>>>, Seq<Seq<char>>)
    decreases offers.len(),
{
    if offers.len() == 0 {
        (seq![], seq![])
    } else {
        let (batches, pending) = run_batches(offers.drop_last());
        let (next, full) = offer_step(pending, offers.last().0, offers.last().1);
        match full {
            Some(b) => (batches.push(b), next),
            None => (batches, next),
        }
    }
}

/// The ids of the users that were not processed before, in order.
pub open spec fn unprocessed(offers: Seq<(Seq<char>, bool)>) -> Seq<Seq<char>>
    decreases offers.len(),
{
    if offers.len() == 0 {
        seq![]
    } else if offers.last().1 {
        unprocessed(offers.drop_last())
    } else {
        unprocessed(offers.drop_last()).push(offers.last().0)
    }
}

/// Collects the users of a run into batches.
pub struct UserBatcher {
    /// The users of the batch being filled, in the order they came.
    pub pending: Vec<String>,
}

impl UserBatcher {
    /// A batch being filled is never full.
    pub open spec fn wf(&self) -> bool {
        self.pending@.len() < BATCH_SIZE
    }

    /// A batcher with nothing pending.
    pub fn new() -> (b: Self)
        ensures
            b.wf(),
            b.pending@.len() == 0,
    {
        UserBatcher { pending: Vec::with_capacity(BATCH_SIZE) }
    }

    /// Offers a user; hands back a full batch when this user completes one.
    pub fn offer(&mut self, user_id: String, already_processed: bool) -> (full: Option<Vec<String>>)
        ensures
            old(self).wf() ==> final(self).wf(),
            ({
                let (next, batch) = offer_step(texts(old(self).pending@), user_id@, already_processed);
                &&& texts(final(self).pending@) == next
                &&& match full {
                    Some(b) => batch == Some(texts(b@)),
                    None => batch is None,
                }
            }),
    {
        if already_processed {
            return None;
        }
        let ghost before = texts(self.pending@);
        self.pending.push(user_id);
        assert(texts(self.pending@) =~= before.push(user_id@));
        if self.pending.len() >= BATCH_SIZE {
            let mut batch: Vec<String> = Vec::with_capacity(BATCH_SIZE);
            std::mem::swap(&mut batch, &mut self.pending);
            assert(texts(self.pending@) =~= Seq::<Seq<char>>::empty());
            Some(batch)
        } else {
            None
        }
    }

    /// Ends the run: hands back the last batch when it holds anyone.
    pub fn finish(self) -> (last: Option<Vec<String>>)
        ensures
            self.pending@.len() == 0 ==> last is None,
            self.pending@.len() > 0 ==> last == Some(self.pending),
    {
        if self.pending.is_empty() {
            None
        } else {
            Some(self.pending)
        }
    }
}

/// The batches of a run, followed by what is still pending, are exactly the
/// users not processed before, in order; every batch handed out holds
/// exactly `BATCH_SIZE` users, and fewer are pending.
pub proof fn lemma_batches_partition_unprocessed(offers: Seq<(Seq<char>, bool)>)
    ensures
        ({
            let (batches, pending) = run_batches(offers);
            &&& batches.flatten() + pending == unprocessed(offers)
            &&& forall|i: int| 0 <= i < batches.len() ==> #[trigger] batches[i].len() == BATCH_SIZE
            &&& pending.len() < BATCH_SIZE
        }),
    decreases offers.len(),
{
    if offers.len() > 0 {
        let rest = offers.drop_last();
        lemma_batches_partition_unprocessed(rest);
        let (batches, pending) = run_batches(rest);
        let (id, done) = offers.last();
        if !done {
            let grown = pending.push(id);
            assert(batches.flatten() + grown =~= unprocessed(rest).push(id));
            if grown.len() >= BATCH_SIZE {
                batches.lemma_flatten_push(grown);
                assert(batches.push(grown).flatten() + seq![] =~= batches.flatten() + grown);
                let all = batches.push(grown);
                assert forall|i: int| 0 <= i < all.len() implies #[trigger] all[i].len() == BATCH_SIZE by {
                    if i < batches.len() {
                        assert(all[i] == batches[i]);
                    }
                }
            }
        }
    } else {
        assert(Seq::<Seq<Seq<char>>>::empty().flatten() =~= Seq::<Seq<char>>::empty());
    }
}

/// How many of the outcomes are failures.
pub open spec fn failures(outcomes: Seq<bool>) -> nat
    decreases outcomes.len(),
{
    if outcomes.len() == 0 {
        0
    } else {
        failures(outcomes.drop_last()) + if outcomes.last() { 0nat } else { 1nat }
    }
}

/// The warning logged after a batch: none when every user succeeded,
/// otherwise how many failed.
pub open spec fn failure_warning(outcomes: Seq<bool>) -> Option<Seq<char>> {
    if failures(outcomes) == 0 {
        None
    } else {
        Some("WARNING: "@ + decimal(failures(outcomes)) + " users in this batch failed to process"@)
    }
}

/// The failures are the outcomes that are `false`; a warning is given
/// exactly when at least one user failed, and it names how many failed.
pub proof fn lemma_failure_warning_when_any_failed(outcomes: Seq<bool>)
    ensures
        failures(outcomes) == outcomes.filter(|b: bool| !b).len(),
        failure_warning(outcomes) is Some <==> exists|i: int| 0 <= i < outcomes.len() && !outcomes[i],
        failure_warning(outcomes) is Some ==> failure_warning(outcomes).unwrap() == "WARNING: "@ + decimal(
            outcomes.filter(|b: bool| !b).len(),
        ) + " users in this batch failed to process"@,
    decreases outcomes.len(),
{
    reveal_with_fuel(Seq::filter, 1);
    if outcomes.len() > 0 {
        let rest = outcomes.drop_last();
        lemma_failure_warning_when_any_failed(rest);
        assert(rest.filter(|b: bool| !b) == outcomes.drop_last().filter(|b: bool| !b));
        if exists|i: int| 0 <= i < rest.len() && !rest[i] {
            let i = choose|i: int| 0 <= i < rest.len() && !rest[i];
            assert(!outcomes[i]);
        }
        if exists|i: int| 0 <= i < outcomes.len() && !outcomes[i] {
            let i = choose|i: int| 0 <= i < outcomes.len() && !outcomes[i];
            if i < rest.len() {
                assert(!rest[i]);
            }
        }
    } else {
        assert(outcomes.filter(|b: bool| !b) =~= Seq::<bool>::empty());
    }
}

/// Counts the users of a batch that failed.
pub fn count_failures(outcomes: &Vec<bool>) -> (n: usize)
    ensures
        n == failures(outcomes@),
{
    let len = outcomes.len();
    let mut n: usize = 0;
    let mut i: usize = 0;
    while i < len
        invariant
            len == outcomes@.len(),
            i <= len,
            n == failures(outcomes@.take(i as int)),
            n <= i,
        decreases len - i,
    {
        assert(outcomes@.take(i + 1).drop_last() =~= outcomes@.take(i as int));
        if !outcomes[i] {
            n = n + 1;
        }
        i = i + 1;
    }
    assert(outcomes@.take(len as int) =~= outcomes@);
    n
}

/// The warning to log after a batch whose users had these outcomes (`true`
/// for success), as `failure_warning` says.
pub fn batch_failure_warning(outcomes: &Vec<bool>) -> (warning: Option<String>)
    ensures
        match failure_warning(outcomes@) {
            Some(text) => warning matches Some(w) && w@ == text,
            None => warning is None,
        },
{
    let n = count_failures(outcomes);
    if n == 0 {
        None
    } else {
        let mut w = String::from_str("WARNING: ");
        let count = decimal_string(n as u64);
        w.append(count.as_str());
        w.append(" users in this batch failed to process");
        proof {
            reveal_strlit("WARNING: ");
            reveal_strlit(" users in this batch failed to process");
        }
        assert(w@ =~= failure_warning(outcomes@).unwrap());
        Some(w)
    }
}

/// How a batch is named in the log: every id when there are at most five,
/// otherwise the first two and how many others.
pub open spec fn batch_description(user_ids: Seq<Seq<char>>) -> Seq<char> {
    if user_ids.len() <= 5 {
        joined(user_ids, ", "@)
    } else {
        user_ids[0] + ", "@ + user_ids[1] + " and "@ + decimal((user_ids.len() - 2) as nat) + " others"@
    }
}

/// Names a batch for the log, as `batch_description` says.
pub fn describe_batch(user_ids: &Vec<String>) -> (s: String)
    ensures
        s@ == batch_description(texts(user_ids@)),
{
    if user_ids.len() <= 5 {
        join_strings(user_ids, ", ")
    } else {
        let mut s = user_ids[0].clone();
        s.append(", ");
        s.append(user_ids[1].as_str());
        s.append(" and ");
        let others = decimal_string((user_ids.len() - 2) as u64);
        s.append(others.as_str());
        s.append(" others");
        proof {
            reveal_strlit(", ");
            reveal_strlit(" and ");
            reveal_strlit(" others");
        }
        assert(s@ =~= batch_description(texts(user_ids@)));
        s
    }
}

} // verus!
