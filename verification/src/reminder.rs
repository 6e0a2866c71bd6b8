//! The reminder engine's data and rules: per-member thresholds, the
//! monotonic last-played timestamp, and the two-clause eligibility gate that
//! allows at most one notice per cooldown window.

use vstd::prelude::*;
use vstd::seq_lib::*;
use crate::clock::SECONDS_PER_DAY;

verus! {

/// Days that must pass after a notice before the next one may be sent.
pub const COOLDOWN_DAYS: i64 = 5;

/// One member's reminder state.
#[derive(Clone, Copy)]
pub struct ReminderRecord {
    pub user_id: i64,
    pub threshold_days: i32,
    pub last_played: i64,
    pub last_reminded: Option<i64>,
}

/// The eligibility gate: the member has idled past their own threshold, and
/// the cooldown since the last notice has lapsed.  A member never reminded
/// is always past the cooldown, so a first notice is never blocked.
pub open spec fn eligible(rec: ReminderRecord, now: int) -> bool {
    &&& now - rec.last_played > rec.threshold_days * (SECONDS_PER_DAY as int)
    &&& match rec.last_reminded {
        Option::Some(t) => now - t > (COOLDOWN_DAYS as int) * (SECONDS_PER_DAY as int),
        Option::None => true,
    }
}

/// Decides the eligibility gate for one record.
pub fn is_eligible(rec: ReminderRecord, now: i64) -> (b: bool)
    ensures
        b == eligible(rec, now as int),
{
    let idle: i128 = (now as i128) - (rec.last_played as i128);
    let threshold: i128 = (rec.threshold_days as i128) * 86400;
    if idle <= threshold {
        return false;
    }
    match rec.last_reminded {
        Option::None => true,
        Option::Some(t) => {
            let since: i128 = (now as i128) - (t as i128);
            since > 432000
        },
    }
}

/// Reminder cooldown, first half: a member reminded at some time is not
/// eligible again at any moment up to the end of the cooldown window,
/// however long they have idled.
pub proof fn lemma_reminder_cooldown_holds(rec: ReminderRecord, now: int)
    requires
        rec.last_reminded is Some,
        now <= rec.last_reminded.unwrap() + (COOLDOWN_DAYS as int) * (SECONDS_PER_DAY as int),
    ensures
        !eligible(rec, now),
{
}

/// Reminder cooldown, second half: at any moment past the cooldown window, a
/// member still idling past their threshold is eligible again.
pub proof fn lemma_reminder_cooldown_lapses(rec: ReminderRecord, now: int)
    requires
        rec.last_reminded is Some,
        now > rec.last_reminded.unwrap() + (COOLDOWN_DAYS as int) * (SECONDS_PER_DAY as int),
        now - rec.last_played > rec.threshold_days * (SECONDS_PER_DAY as int),
    ensures
        eligible(rec, now),
{
}

proof fn lemma_filter_singleton_rec(r: ReminderRecord, pred: spec_fn(ReminderRecord) -> bool)
    ensures
        seq![r].filter(pred) == if pred(r) {
            seq![r]
        } else {
            Seq::<ReminderRecord>::empty()
        },
{
    assert(seq![r].drop_last() =~= Seq::<ReminderRecord>::empty());
    reveal_with_fuel(Seq::filter, 2);
    if pred(r) {
        assert(seq![r].filter(pred) =~= seq![r]);
    } else {
        assert(seq![r].filter(pred) =~= Seq::<ReminderRecord>::empty());
    }
}

/// The records eligible at `now`.
pub open spec fn due_filter(now: int) -> spec_fn(ReminderRecord) -> bool {
    |r: ReminderRecord| eligible(r, now)
}

/// The reminder store: one record per member.
pub struct ReminderStore {
    pub records: Vec<ReminderRecord>,
}

/// Well-formedness of the store: no member holds two records.
pub open spec fn store_wf(s: Seq<ReminderRecord>) -> bool {
    forall|i: int, j: int| 0 <= i < j < s.len() ==> s[i].user_id != s[j].user_id
}

impl ReminderStore {
    /// An empty store.
    pub fn new() -> (s: ReminderStore)
        ensures
            s.records@.len() == 0,
            store_wf(s.records@),
    {
        ReminderStore { records: Vec::new() }
    }

    /// Finds the member's record.
    fn find(&self, user_id: i64) -> (r: Option<usize>)
        ensures
            match r {
                Option::Some(i) => i < self.records@.len() && self.records@[i as int].user_id
                    == user_id,
                Option::None => forall|i: int|
                    0 <= i < self.records@.len() ==> self.records@[i].user_id != user_id,
            },
    {
        let mut i: usize = 0;
        while i < self.records.len()
            invariant
                i <= self.records@.len(),
                forall|k: int| 0 <= k < i ==> self.records@[k].user_id != user_id,
            decreases self.records@.len() - i,
        {
            if self.records[i].user_id == user_id {
                return Option::Some(i);
            }
            i = i + 1;
        }
        Option::None
    }

    /// Sets the member's idle threshold in days.  A member with a record
    /// keeps their timestamps; a new member starts counting from `now`,
    /// never reminded.
    pub fn set_threshold(&mut self, user_id: i64, days: i32, now: i64)
        requires
            store_wf(old(self).records@),
        ensures
            store_wf(final(self).records@),
            (forall|i: int|
                0 <= i < old(self).records@.len() ==> old(self).records@[i].user_id != user_id)
                ==> final(self).records@ == old(self).records@.push(
                (ReminderRecord {
                    user_id,
                    threshold_days: days,
                    last_played: now,
                    last_reminded: Option::None,
                }),
            ),
            forall|i: int|
                0 <= i < old(self).records@.len() && old(self).records@[i].user_id == user_id
                    ==> final(self).records@ == old(self).records@.update(
                    i,
                    (ReminderRecord { threshold_days: days, ..old(self).records@[i] }),
                ),
    {
        match self.find(user_id) {
            Option::Some(i) => {
                let old_rec = self.records[i];
                let new_rec = ReminderRecord { threshold_days: days, ..old_rec };
                let ghost before = self.records@;
                self.records.remove(i);
                self.records.insert(i, new_rec);
                proof {
                    assert(self.records@ =~= before.update(i as int, new_rec));
                }
            },
            Option::None => {
                self.records.push(
                    ReminderRecord {
                        user_id,
                        threshold_days: days,
                        last_played: now,
                        last_reminded: Option::None,
                    },
                );
            },
        }
    }

    /// Removes the member's record, disabling reminders for them.
    pub fn clear_threshold(&mut self, user_id: i64)
        requires
            store_wf(old(self).records@),
        ensures
            store_wf(final(self).records@),
            (forall|i: int|
                0 <= i < old(self).records@.len() ==> old(self).records@[i].user_id != user_id)
                ==> final(self).records@ == old(self).records@,
            forall|i: int|
                0 <= i < old(self).records@.len() && old(self).records@[i].user_id == user_id
                    ==> final(self).records@ == old(self).records@.remove(i),
    {
        match self.find(user_id) {
            Option::Some(i) => {
                self.records.remove(i);
            },
            Option::None => {},
        }
    }

    /// Brings the member's last-played timestamp up to `ts`, never back: the
    /// stored value becomes the maximum of the two, so a stale or
    /// out-of-order observation never regresses it.  A member without a
    /// record is left untouched.
    pub fn touch_last_played(&mut self, user_id: i64, ts: i64)
        requires
            store_wf(old(self).records@),
        ensures
            store_wf(final(self).records@),
            final(self).records@.len() == old(self).records@.len(),
            forall|i: int|
                0 <= i < old(self).records@.len() && old(self).records@[i].user_id != user_id
                    ==> final(self).records@[i] == old(self).records@[i],
            (forall|i: int|
                0 <= i < old(self).records@.len() ==> old(self).records@[i].user_id != user_id)
                ==> final(self).records@ == old(self).records@,
            forall|i: int|
                0 <= i < old(self).records@.len() && old(self).records@[i].user_id == user_id
                    ==> final(self).records@[i] == (ReminderRecord {
                    last_played: if ts > old(self).records@[i].last_played {
                        ts
                    } else {
                        old(self).records@[i].last_played
                    },
                    ..old(self).records@[i]
                }),
    {
        match self.find(user_id) {
            Option::Some(i) => {
                let old_rec = self.records[i];
                let higher: i64 = if ts > old_rec.last_played {
                    ts
                } else {
                    old_rec.last_played
                };
                let new_rec = ReminderRecord { last_played: higher, ..old_rec };
                let ghost before = self.records@;
                self.records.remove(i);
                self.records.insert(i, new_rec);
                proof {
                    assert(self.records@ =~= before.update(i as int, new_rec));
                }
            },
            Option::None => {},
        }
    }

    /// Records that the member was just reminded, starting their cooldown at
    /// `now`.  A member without a record is left untouched.
    pub fn touch_last_reminded(&mut self, user_id: i64, now: i64)
        requires
            store_wf(old(self).records@),
        ensures
            store_wf(final(self).records@),
            final(self).records@.len() == old(self).records@.len(),
            forall|i: int|
                0 <= i < old(self).records@.len() && old(self).records@[i].user_id != user_id
                    ==> final(self).records@[i] == old(self).records@[i],
            forall|i: int|
                0 <= i < old(self).records@.len() && old(self).records@[i].user_id == user_id
                    ==> final(self).records@[i] == (ReminderRecord {
                    last_reminded: Option::Some(now),
                    ..old(self).records@[i]
                }),
    {
        match self.find(user_id) {
            Option::Some(i) => {
                let old_rec = self.records[i];
                let new_rec = ReminderRecord { last_reminded: Option::Some(now), ..old_rec };
                let ghost before = self.records@;
                self.records.remove(i);
                self.records.insert(i, new_rec);
                proof {
                    assert(self.records@ =~= before.update(i as int, new_rec));
                }
            },
            Option::None => {},
        }
    }

    /// The members due a reminder at `now`, in stored order.
    pub fn list_due(&self, now: i64) -> (due: Vec<ReminderRecord>)
        ensures
            due@ == self.records@.filter(due_filter(now as int)),
    {
        let ghost pred = due_filter(now as int);
        let mut due: Vec<ReminderRecord> = Vec::new();
        let mut i: usize = 0;
        while i < self.records.len()
            invariant
                i <= self.records@.len(),
                due@ == self.records@.take(i as int).filter(due_filter(now as int)),
            decreases self.records@.len() - i,
        {
            let rec = self.records[i];
            proof {
                assert(self.records@.take(i + 1) =~= self.records@.take(i as int) + seq![rec]);
                Seq::filter_distributes_over_add(
                    self.records@.take(i as int),
                    seq![rec],
                    due_filter(now as int),
                );
                lemma_filter_singleton_rec(rec, due_filter(now as int));
            }
            if is_eligible(rec, now) {
                due.push(rec);
                proof {
                    assert(due@ =~= self.records@.take(i + 1).filter(due_filter(now as int)));
                }
            } else {
                proof {
                    assert(due@ =~= self.records@.take(i + 1).filter(due_filter(now as int)));
                }
            }
            i = i + 1;
        }
        proof {
            assert(self.records@.take(self.records@.len() as int) =~= self.records@);
        }
        due
    }
}

} // verus!
