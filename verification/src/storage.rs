//! Practice-progress bookkeeping persisted between sessions.
//!
//! The structures here hold the scores; reading and writing them to disk
//! is the surrounding application's business.

use vstd::prelude::*;
use vstd::string::*;

use crate::bricks::QuizDifficulty;
use crate::text::str_eq;

verus! {

/// Statistics for one brick.
#[derive(Debug, Clone, Default)]
pub struct BrickStats {
    /// How often the brick appeared in a quiz.
    pub times_seen: u32,
    /// How often it was identified correctly.
    pub times_correct: u32,
    /// The running streak of correct identifications.
    pub current_streak: u32,
    /// The best streak reached.
    pub best_streak: u32,
    /// When the brick was last quizzed.
    pub last_seen: Option<String>,
}

/// Ghost view of [`BrickStats`].
pub struct BrickStatsView {
    pub times_seen: u32,
    pub times_correct: u32,
    pub current_streak: u32,
    pub best_streak: u32,
    pub last_seen: Option<Seq<char>>,
}

impl View for BrickStats {
    type V = BrickStatsView;

    open spec fn view(&self) -> BrickStatsView {
        BrickStatsView {
            times_seen: self.times_seen,
            times_correct: self.times_correct,
            current_streak: self.current_streak,
            best_streak: self.best_streak,
            last_seen: match self.last_seen {
                Some(ref x) => Some(x@),
                None => None,
            },
        }
    }
}

/// Whether the accuracy of `correct` answers out of `seen` reaches the
/// given percentage.
pub open spec fn accuracy_at_least(correct: int, seen: int, percent: int) -> bool {
    seen > 0 && correct * 100 >= seen * percent
}

impl BrickStats {
    /// Whether the brick counts as mastered: at least ten attempts at
    /// eighty percent accuracy or better.
    pub open spec fn is_mastered_spec(self) -> bool {
        self.times_seen >= 10 && accuracy_at_least(
            self.times_correct as int,
            self.times_seen as int,
            80,
        )
    }

    /// Whether the brick counts as mastered.
    pub fn is_mastered(&self) -> (r: bool)
        ensures
            r == self.is_mastered_spec(),
    {
        self.times_seen >= 10 && (self.times_correct as u64) * 100 >= (self.times_seen as u64) * 80
    }

    /// Record one quiz result and stamp the sighting.
    pub fn record(&mut self, correct: bool)
        requires
            old(self).times_seen < u32::MAX,
            old(self).times_correct < u32::MAX,
            old(self).current_streak < u32::MAX,
        ensures
            records_one(*old(self), *final(self), correct),
    {
        self.times_seen = self.times_seen + 1;
        if correct {
            self.times_correct = self.times_correct + 1;
            self.current_streak = self.current_streak + 1;
            if self.current_streak > self.best_streak {
                self.best_streak = self.current_streak;
            }
        } else {
            self.current_streak = 0;
        }
        self.last_seen = Some(now_rfc3339());
    }
}

/// How one recorded result relates the new statistics to the old.
pub open spec fn records_one(pre: BrickStats, post: BrickStats, correct: bool) -> bool {
    &&& post.times_seen == pre.times_seen + 1
    &&& post.last_seen is Some
    &&& (correct ==> {
        &&& post.times_correct == pre.times_correct + 1
        &&& post.current_streak == pre.current_streak + 1
        &&& post.best_streak == if pre.current_streak + 1 > pre.best_streak {
            (pre.current_streak + 1) as u32
        } else {
            pre.best_streak
        }
    })
    &&& (!correct ==> {
        &&& post.times_correct == pre.times_correct
        &&& post.current_streak == 0
        &&& post.best_streak == pre.best_streak
    })
}

/// Relies on chrono's `Local::now` and `to_rfc3339`: the current local
/// time as an RFC 3339 stamp.  The result depends on the clock, so
/// nothing is promised of it.
#[verifier::external_body]
fn now_rfc3339() -> (r: String) {
    chrono::Local::now().to_rfc3339()
}

/// Relies on chrono's `Local::now` and its `format`: today's date as
/// `YYYY-MM-DD`.  The result depends on the clock, so nothing is
/// promised of it.
#[verifier::external_body]
fn today_string() -> (r: String) {
    chrono::Local::now().format("%Y-%m-%d").to_string()
}

/// Relies on chrono's `NaiveDate::parse_from_str`, `Local::now`,
/// `date_naive` and `pred_opt`: whether the given `YYYY-MM-DD` string
/// names yesterday's date.  The result depends on the clock, so nothing
/// is promised of it.
#[verifier::external_body]
fn is_yesterday(date_str: &str) -> (r: bool) {
    if let Ok(date) = chrono::NaiveDate::parse_from_str(date_str, "%Y-%m-%d") {
        let today = chrono::Local::now().date_naive();
        let yesterday = today.pred_opt().unwrap_or(today);
        date == yesterday
    } else {
        false
    }
}

/// The daily streak after one practice session: unchanged on a repeat
/// visit the same day, extended when the last practice was yesterday,
/// and restarted otherwise.
pub fn next_daily_streak(prev: u32, had_last: bool, same_day: bool, practiced_yesterday: bool) -> (r:
    u32)
    requires
        prev < u32::MAX,
    ensures
        r == spec_next_daily_streak(prev, had_last, same_day, practiced_yesterday),
{
    if !had_last {
        1
    } else if same_day {
        prev
    } else if practiced_yesterday {
        prev + 1
    } else {
        1
    }
}

/// View of [`next_daily_streak`].
pub open spec fn spec_next_daily_streak(
    prev: u32,
    had_last: bool,
    same_day: bool,
    practiced_yesterday: bool,
) -> u32 {
    if !had_last {
        1u32
    } else if same_day {
        prev
    } else if practiced_yesterday {
        (prev + 1) as u32
    } else {
        1u32
    }
}

/// The index of the first entry with the given key.
pub open spec fn spec_find_entry(s: Seq<(String, BrickStats)>, name: Seq<char>, i: int) -> Option<
    int,
>
    decreases s.len() - i,
{
    if i < 0 || i >= s.len() {
        None
    } else if s[i].0@ == name {
        Some(i)
    } else {
        spec_find_entry(s, name, i + 1)
    }
}

/// The views of the remembered brick names.
pub open spec fn names_view(v: Seq<String>) -> Seq<Seq<char>> {
    v.map_values(|s: String| s@)
}

/// The user's persisted practice progress.
#[derive(Debug, Clone, Default)]
pub struct UserProgress {
    /// Quiz sessions completed.
    pub total_sessions: u32,
    /// Questions answered over all sessions.
    pub total_questions: u32,
    /// Correct answers over all sessions.
    pub total_correct: u32,
    /// The best streak ever reached.
    pub best_streak_ever: u32,
    /// Consecutive days practised.
    pub daily_streak: u32,
    /// The last practice date, as `YYYY-MM-DD`.
    pub last_practice_date: Option<String>,
    /// Per-brick statistics, keyed by brick name.
    pub brick_stats: Vec<(String, BrickStats)>,
    /// The difficulty the user last chose.
    pub difficulty: QuizDifficulty,
    /// The bricks identified reliably enough to count as mastered.
    pub mastered_bricks: Vec<String>,
}

impl UserProgress {
    /// Record a finished quiz session: the totals grow, the best streak
    /// is updated, and the daily streak moves as
    /// [`next_daily_streak`] prescribes for today's date.
    pub fn record_session(&mut self, correct: u32, total: u32, streak: u32)
        requires
            old(self).total_sessions < u32::MAX,
            old(self).total_questions + total <= u32::MAX,
            old(self).total_correct + correct <= u32::MAX,
            old(self).daily_streak < u32::MAX,
        ensures
            final(self).total_sessions == old(self).total_sessions + 1,
            final(self).total_questions == old(self).total_questions + total,
            final(self).total_correct == old(self).total_correct + correct,
            final(self).best_streak_ever == if streak > old(self).best_streak_ever {
                streak
            } else {
                old(self).best_streak_ever
            },
            final(self).last_practice_date is Some,
            final(self).daily_streak == old(self).daily_streak || final(self).daily_streak == old(
                self,
            ).daily_streak + 1 || final(self).daily_streak == 1,
            final(self).brick_stats == old(self).brick_stats,
            final(self).mastered_bricks == old(self).mastered_bricks,
            final(self).difficulty == old(self).difficulty,
    {
        self.total_sessions = self.total_sessions + 1;
        self.total_questions = self.total_questions + total;
        self.total_correct = self.total_correct + correct;

        if streak > self.best_streak_ever {
            self.best_streak_ever = streak;
        }

        let today = today_string();
        let (had_last, same_day, was_yesterday) = match &self.last_practice_date {
            Some(last) => {
                let same = str_eq(last.as_str(), today.as_str());
                let yesterday = is_yesterday(last.as_str());
                (true, same, yesterday)
            },
            None => (false, false, false),
        };
        self.daily_streak = next_daily_streak(self.daily_streak, had_last, same_day, was_yesterday);
        self.last_practice_date = Some(today);
    }

    /// Record one brick quiz result: the brick's statistics are updated
    /// (created fresh on first sight), and a brick that thereby becomes
    /// mastered is added to the mastered list once.
    pub fn record_brick_result(&mut self, brick_name: &str, correct: bool)
        requires
            forall|i: int|
                0 <= i < old(self).brick_stats@.len() ==> {
                    &&& (#[trigger] old(self).brick_stats@[i]).1.times_seen < u32::MAX
                    &&& old(self).brick_stats@[i].1.times_correct < u32::MAX
                    &&& old(self).brick_stats@[i].1.current_streak < u32::MAX
                },
        ensures
            match spec_find_entry(old(self).brick_stats@, brick_name@, 0) {
                Some(i) => {
                    &&& final(self).brick_stats@.len() == old(self).brick_stats@.len()
                    &&& forall|j: int|
                        0 <= j < final(self).brick_stats@.len() && j != i
                            ==> #[trigger] final(self).brick_stats@[j] == old(self).brick_stats@[j]
                    &&& final(self).brick_stats@[i].0 == old(self).brick_stats@[i].0
                    &&& records_one(
                        old(self).brick_stats@[i].1,
                        final(self).brick_stats@[i].1,
                        correct,
                    )
                },
                None => {
                    &&& final(self).brick_stats@.len() == old(self).brick_stats@.len() + 1
                    &&& forall|j: int|
                        0 <= j < old(self).brick_stats@.len()
                            ==> #[trigger] final(self).brick_stats@[j] == old(self).brick_stats@[j]
                    &&& final(self).brick_stats@.last().0@ == brick_name@
                    &&& records_one(
                        BrickStats {
                            times_seen: 0,
                            times_correct: 0,
                            current_streak: 0,
                            best_streak: 0,
                            last_seen: None,
                        },
                        final(self).brick_stats@.last().1,
                        correct,
                    )
                },
            },
            ({
                let updated = match spec_find_entry(old(self).brick_stats@, brick_name@, 0) {
                    Some(i) => final(self).brick_stats@[i].1,
                    None => final(self).brick_stats@.last().1,
                };
                if updated.is_mastered_spec() && !names_view(old(self).mastered_bricks@).contains(
                    brick_name@,
                ) {
                    names_view(final(self).mastered_bricks@) == names_view(
                        old(self).mastered_bricks@,
                    ).push(brick_name@)
                } else {
                    names_view(final(self).mastered_bricks@) == names_view(
                        old(self).mastered_bricks@,
                    )
                }
            }),
            final(self).total_sessions == old(self).total_sessions,
            final(self).daily_streak == old(self).daily_streak,
    {
        let idx = self.find_entry(brick_name);
        let at = match idx {
            Some(i) => i,
            None => {
                let fresh = BrickStats {
                    times_seen: 0,
                    times_correct: 0,
                    current_streak: 0,
                    best_streak: 0,
                    last_seen: None,
                };
                self.brick_stats.push((String::from_str(brick_name), fresh));
                self.brick_stats.len() - 1
            },
        };
        let ghost pre = self.brick_stats@;
        proof {
            assert(pre[at as int].1.times_seen < u32::MAX && pre[at as int].1.times_correct
                < u32::MAX && pre[at as int].1.current_streak < u32::MAX) by {
                if spec_find_entry(old(self).brick_stats@, brick_name@, 0) is Some {
                    assert(old(self).brick_stats@[at as int].1.times_seen < u32::MAX);
                }
            };
        }
        let (key, mut stats) = self.brick_stats.remove(at);
        stats.record(correct);
        let mastered_now = stats.is_mastered();
        self.brick_stats.insert(at, (key, stats));
        proof {
            assert(self.brick_stats@.len() == pre.len());
            assert(forall|j: int|
                0 <= j < pre.len() && j != at ==> #[trigger] self.brick_stats@[j] == pre[j]);
        }
        if mastered_now && !self.mastered_contains(brick_name) {
            let ghost before = names_view(self.mastered_bricks@);
            self.mastered_bricks.push(String::from_str(brick_name));
            proof {
                assert(names_view(self.mastered_bricks@) =~= before.push(brick_name@));
            }
        }
    }

    /// The position of a brick's statistics, if it was seen before.
    fn find_entry(&self, name: &str) -> (r: Option<usize>)
        ensures
            match r {
                Some(i) => Some(i as int) == spec_find_entry(self.brick_stats@, name@, 0) && i
                    < self.brick_stats@.len(),
                None => spec_find_entry(self.brick_stats@, name@, 0) is None,
            },
    {
        let mut i: usize = 0;
        while i < self.brick_stats.len()
            invariant
                i <= self.brick_stats@.len(),
                spec_find_entry(self.brick_stats@, name@, 0) == spec_find_entry(
                    self.brick_stats@,
                    name@,
                    i as int,
                ),
            decreases self.brick_stats@.len() - i,
        {
            if str_eq(self.brick_stats[i].0.as_str(), name) {
                return Some(i);
            }
            i += 1;
        }
        None
    }

    /// Whether a brick is already on the mastered list.
    fn mastered_contains(&self, name: &str) -> (r: bool)
        ensures
            r == names_view(self.mastered_bricks@).contains(name@),
    {
        let mut i: usize = 0;
        while i < self.mastered_bricks.len()
            invariant
                i <= self.mastered_bricks@.len(),
                forall|j: int| 0 <= j < i ==> (#[trigger] self.mastered_bricks@[j])@ != name@,
            decreases self.mastered_bricks@.len() - i,
        {
            if str_eq(self.mastered_bricks[i].as_str(), name) {
                proof {
                    assert(names_view(self.mastered_bricks@)[i as int] == name@);
                }
                return true;
            }
            i += 1;
        }
        proof {
            assert forall|k: int|
                0 <= k < names_view(self.mastered_bricks@).len() implies names_view(
                self.mastered_bricks@,
            )[k] != name@ by {
                assert(names_view(self.mastered_bricks@)[k] == self.mastered_bricks@[k]@);
            }
        }
        false
    }

    /// The bricks that need work: seen at least three times with
    /// accuracy under sixty percent, weakest first.
    pub fn weak_bricks(&self) -> (r: Vec<(String, BrickStats)>)
        ensures
            forall|i: int|
                0 <= i < r@.len() ==> is_weak((#[trigger] r@[i]).1) && entry_in(
                    r@[i].0@,
                    r@[i].1@,
                    self.brick_stats@,
                ),
            forall|i: int, j: int|
                0 <= i < j < r@.len() ==> acc_before(
                    (#[trigger] r@[i]).1,
                    (#[trigger] r@[j]).1,
                    true,
                ),
            r@.len() == self.brick_stats@.filter(|p: (String, BrickStats)| is_weak(p.1)).len(),
            forall|i: int|
                0 <= i < self.brick_stats@.len() && is_weak((#[trigger] self.brick_stats@[i]).1)
                    ==> exists|j: int|
                    0 <= j < r@.len() && (#[trigger] r@[j]).0@ == self.brick_stats@[i].0@
                        && r@[j].1@ == self.brick_stats@[i].1@,
    {
        let mut picked = self.filter_stats(true);
        let ghost collected = picked@;
        sort_by_accuracy(&mut picked, true);
        proof {
            assert forall|i: int|
                0 <= i < self.brick_stats@.len() && is_weak(
                (#[trigger] self.brick_stats@[i]).1,
            ) implies exists|j: int|
                0 <= j < picked@.len() && (#[trigger] picked@[j]).0@ == self.brick_stats@[i].0@
                    && picked@[j].1@ == self.brick_stats@[i].1@ by {
                let w = choose|w: int|
                    0 <= w < collected.len() && (#[trigger] collected[w]).0@
                        == self.brick_stats@[i].0@ && collected[w].1@ == self.brick_stats@[i].1@;
                assert(entry_in(collected[w].0@, collected[w].1@, picked@));
            }
        }
        picked
    }

    /// The bricks that go well: seen at least five times with accuracy
    /// of eighty percent or better, strongest first.
    pub fn strong_bricks(&self) -> (r: Vec<(String, BrickStats)>)
        ensures
            forall|i: int|
                0 <= i < r@.len() ==> is_strong((#[trigger] r@[i]).1) && entry_in(
                    r@[i].0@,
                    r@[i].1@,
                    self.brick_stats@,
                ),
            forall|i: int, j: int|
                0 <= i < j < r@.len() ==> acc_before(
                    (#[trigger] r@[i]).1,
                    (#[trigger] r@[j]).1,
                    false,
                ),
            r@.len() == self.brick_stats@.filter(|p: (String, BrickStats)| is_strong(p.1)).len(),
            forall|i: int|
                0 <= i < self.brick_stats@.len() && is_strong((#[trigger] self.brick_stats@[i]).1)
                    ==> exists|j: int|
                    0 <= j < r@.len() && (#[trigger] r@[j]).0@ == self.brick_stats@[i].0@
                        && r@[j].1@ == self.brick_stats@[i].1@,
    {
        let mut picked = self.filter_stats(false);
        let ghost collected = picked@;
        sort_by_accuracy(&mut picked, false);
        proof {
            assert forall|i: int|
                0 <= i < self.brick_stats@.len() && is_strong(
                (#[trigger] self.brick_stats@[i]).1,
            ) implies exists|j: int|
                0 <= j < picked@.len() && (#[trigger] picked@[j]).0@ == self.brick_stats@[i].0@
                    && picked@[j].1@ == self.brick_stats@[i].1@ by {
                let w = choose|w: int|
                    0 <= w < collected.len() && (#[trigger] collected[w]).0@
                        == self.brick_stats@[i].0@ && collected[w].1@ == self.brick_stats@[i].1@;
                assert(entry_in(collected[w].0@, collected[w].1@, picked@));
            }
        }
        picked
    }

    /// Collect the entries passing the weak or strong test.
    fn filter_stats(&self, weak: bool) -> (r: Vec<(String, BrickStats)>)
        ensures
            forall|i: int|
                0 <= i < r@.len() ==> (if weak {
                    is_weak((#[trigger] r@[i]).1)
                } else {
                    is_strong(r@[i].1)
                }) && entry_in(r@[i].0@, r@[i].1@, self.brick_stats@),
            weak ==> r@.len() == self.brick_stats@.filter(
                |p: (String, BrickStats)| is_weak(p.1),
            ).len(),
            !weak ==> r@.len() == self.brick_stats@.filter(
                |p: (String, BrickStats)| is_strong(p.1),
            ).len(),
            forall|i: int|
                0 <= i < self.brick_stats@.len() && (if weak {
                    is_weak((#[trigger] self.brick_stats@[i]).1)
                } else {
                    is_strong(self.brick_stats@[i].1)
                }) ==> exists|j: int|
                    0 <= j < r@.len() && (#[trigger] r@[j]).0@ == self.brick_stats@[i].0@
                        && r@[j].1@ == self.brick_stats@[i].1@,
    {
        let mut r: Vec<(String, BrickStats)> = Vec::new();
        let mut i: usize = 0;
        proof {
            assert(self.brick_stats@.subrange(0, 0) =~= Seq::<(String, BrickStats)>::empty());
            assert(Seq::<(String, BrickStats)>::empty().filter(
                |p: (String, BrickStats)| is_weak(p.1),
            ) =~= Seq::<(String, BrickStats)>::empty());
            assert(Seq::<(String, BrickStats)>::empty().filter(
                |p: (String, BrickStats)| is_strong(p.1),
            ) =~= Seq::<(String, BrickStats)>::empty());
        }
        while i < self.brick_stats.len()
            invariant
                i <= self.brick_stats@.len(),
                forall|k: int|
                    0 <= k < r@.len() ==> (if weak {
                        is_weak((#[trigger] r@[k]).1)
                    } else {
                        is_strong(r@[k].1)
                    }) && entry_in(r@[k].0@, r@[k].1@, self.brick_stats@),
                weak ==> r@.len() == self.brick_stats@.subrange(0, i as int).filter(
                    |p: (String, BrickStats)| is_weak(p.1),
                ).len(),
                !weak ==> r@.len() == self.brick_stats@.subrange(0, i as int).filter(
                    |p: (String, BrickStats)| is_strong(p.1),
                ).len(),
                forall|k: int|
                    0 <= k < i && (if weak {
                        is_weak((#[trigger] self.brick_stats@[k]).1)
                    } else {
                        is_strong(self.brick_stats@[k].1)
                    }) ==> exists|j: int|
                        0 <= j < r@.len() && (#[trigger] r@[j]).0@ == self.brick_stats@[k].0@
                            && r@[j].1@ == self.brick_stats@[k].1@,
            decreases self.brick_stats@.len() - i,
        {
            proof {
                let pre = self.brick_stats@.subrange(0, i as int);
                assert(self.brick_stats@.subrange(0, i + 1) =~= pre.push(
                    self.brick_stats@[i as int],
                ));
                pre.lemma_filter_push(
                    self.brick_stats@[i as int],
                    |p: (String, BrickStats)| is_weak(p.1),
                );
                pre.lemma_filter_push(
                    self.brick_stats@[i as int],
                    |p: (String, BrickStats)| is_strong(p.1),
                );
            }
            let ghost r0 = r@;
            let entry = &self.brick_stats[i];
            let s = &entry.1;
            let seen64 = s.times_seen as u64;
            let correct64 = s.times_correct as u64;
            let take = if weak {
                s.times_seen >= 3 && correct64 * 100 < seen64 * 60
            } else {
                s.times_seen >= 5 && correct64 * 100 >= seen64 * 80
            };
            if take {
                let copy = (entry.0.clone(), duplicate_stats(s));
                r.push(copy);
                proof {
                    assert(entry_in(r@.last().0@, r@.last().1@, self.brick_stats@)) by {
                        assert(self.brick_stats@[i as int].0@ == r@.last().0@
                            && self.brick_stats@[i as int].1@ == r@.last().1@);
                    };
                    assert(r@[r@.len() - 1].0@ == self.brick_stats@[i as int].0@
                        && r@[r@.len() - 1].1@ == self.brick_stats@[i as int].1@);
                }
            }
            proof {
                assert forall|k: int|
                    0 <= k < i + 1 && (if weak {
                        is_weak((#[trigger] self.brick_stats@[k]).1)
                    } else {
                        is_strong(self.brick_stats@[k].1)
                    }) implies exists|j: int|
                    0 <= j < r@.len() && (#[trigger] r@[j]).0@ == self.brick_stats@[k].0@
                        && r@[j].1@ == self.brick_stats@[k].1@ by {
                    if k < i {
                        let j0 = choose|j0: int|
                            0 <= j0 < r0.len() && (#[trigger] r0[j0]).0@
                                == self.brick_stats@[k].0@ && r0[j0].1@
                                == self.brick_stats@[k].1@;
                        assert(r@[j0].0@ == self.brick_stats@[k].0@ && r@[j0].1@
                            == self.brick_stats@[k].1@);
                    } else {
                        assert(take);
                        assert(r@[r@.len() - 1].0@ == self.brick_stats@[k].0@ && r@[r@.len()
                            - 1].1@ == self.brick_stats@[k].1@);
                    }
                }
            }
            i += 1;
        }
        proof {
            assert(self.brick_stats@.subrange(0, self.brick_stats@.len() as int)
                =~= self.brick_stats@);
        }
        r
    }

    /// The difficulty suggested by past performance: high accuracy and
    /// enough mastered bricks unlock the harder levels.
    pub fn suggested_difficulty(&self) -> (r: QuizDifficulty)
        ensures
            r == spec_suggested_difficulty(
                self.total_correct as int,
                self.total_questions as int,
                self.mastered_bricks@.len() as int,
            ),
    {
        let correct64 = self.total_correct as u64;
        let questions64 = self.total_questions as u64;
        let mastered_count = self.mastered_bricks.len();

        if self.total_questions > 0 && correct64 * 100 >= questions64 * 85 && mastered_count >= 5 {
            QuizDifficulty::Advanced
        } else if self.total_questions > 0 && correct64 * 100 >= questions64 * 70 && mastered_count
            >= 3 {
            QuizDifficulty::Intermediate
        } else {
            QuizDifficulty::Beginner
        }
    }
}

/// View of [`UserProgress::suggested_difficulty`].
pub open spec fn spec_suggested_difficulty(correct: int, questions: int, mastered: int) -> QuizDifficulty {
    if accuracy_at_least(correct, questions, 85) && mastered >= 5 {
        QuizDifficulty::Advanced
    } else if accuracy_at_least(correct, questions, 70) && mastered >= 3 {
        QuizDifficulty::Intermediate
    } else {
        QuizDifficulty::Beginner
    }
}

/// Whether a brick's record calls for more practice.
pub open spec fn is_weak(s: BrickStats) -> bool {
    s.times_seen >= 3 && !accuracy_at_least(s.times_correct as int, s.times_seen as int, 60)
}

/// Whether a brick's record is reliably good.
pub open spec fn is_strong(s: BrickStats) -> bool {
    s.times_seen >= 5 && accuracy_at_least(s.times_correct as int, s.times_seen as int, 80)
}

/// Whether an entry with this name and record stands in the stored
/// statistics.
pub open spec fn entry_in(name: Seq<char>, sv: BrickStatsView, s: Seq<(String, BrickStats)>) -> bool {
    exists|i: int| 0 <= i < s.len() && (#[trigger] s[i]).0@ == name && s[i].1@ == sv
}

/// Whether the first record's accuracy is strictly below the second's,
/// compared as exact fractions.
pub open spec fn accuracy_less(a: BrickStats, b: BrickStats) -> bool {
    a.times_correct * b.times_seen < b.times_correct * a.times_seen
}

/// A field-for-field copy of a brick record.
fn duplicate_stats(s: &BrickStats) -> (r: BrickStats)
    ensures
        r == *s,
{
    let last_seen = match &s.last_seen {
        Some(x) => Some(x.clone()),
        None => None,
    };
    let r = BrickStats {
        times_seen: s.times_seen,
        times_correct: s.times_correct,
        current_streak: s.current_streak,
        best_streak: s.best_streak,
        last_seen,
    };
    proof {
        assert(r.last_seen == s.last_seen);
    }
    r
}

/// Whether `a` may come before `b` in an accuracy ordering.
fn accuracy_le(a: &BrickStats, b: &BrickStats, ascending: bool) -> (r: bool)
    ensures
        r == acc_before(*a, *b, ascending),
{
    let x = a.times_correct as u64;
    let y = b.times_seen as u64;
    let p = b.times_correct as u64;
    let q = a.times_seen as u64;
    proof {
        assert(x * y <= 0xFFFF_FFFF_FFFF_FFFF && p * q <= 0xFFFF_FFFF_FFFF_FFFF)
            by (nonlinear_arith)
            requires
                x < 0x1_0000_0000,
                y < 0x1_0000_0000,
                p < 0x1_0000_0000,
                q < 0x1_0000_0000,
        {
        }
    }
    let a64 = x * y;
    let b64 = p * q;
    if ascending {
        a64 <= b64
    } else {
        b64 <= a64
    }
}

/// Whether every element of `a` also stands, by view, in `b`.
pub open spec fn elements_from(a: Seq<(String, BrickStats)>, b: Seq<(String, BrickStats)>) -> bool {
    forall|i: int| 0 <= i < a.len() ==> entry_in((#[trigger] a[i]).0@, a[i].1@, b)
}

/// Whether `x` may stand before `y` in the requested accuracy order.
pub open spec fn acc_before(x: BrickStats, y: BrickStats, ascending: bool) -> bool {
    if ascending {
        !accuracy_less(y, x)
    } else {
        !accuracy_less(x, y)
    }
}

/// The accuracy order is transitive over records that were seen at all.
proof fn lemma_acc_before_trans(x: BrickStats, y: BrickStats, z: BrickStats, ascending: bool)
    requires
        x.times_seen > 0,
        y.times_seen > 0,
        z.times_seen > 0,
        acc_before(x, y, ascending),
        acc_before(y, z, ascending),
    ensures
        acc_before(x, z, ascending),
{
    if ascending {
        assert(x.times_correct * z.times_seen <= z.times_correct * x.times_seen)
            by (nonlinear_arith)
            requires
                x.times_seen > 0,
                y.times_seen > 0,
                z.times_seen > 0,
                x.times_correct * y.times_seen <= y.times_correct * x.times_seen,
                y.times_correct * z.times_seen <= z.times_correct * y.times_seen,
        {
        }
    } else {
        assert(z.times_correct * x.times_seen <= x.times_correct * z.times_seen)
            by (nonlinear_arith)
            requires
                x.times_seen > 0,
                y.times_seen > 0,
                z.times_seen > 0,
                y.times_correct * x.times_seen <= x.times_correct * y.times_seen,
                z.times_correct * y.times_seen <= y.times_correct * z.times_seen,
        {
        }
    }
}

/// Arrange entries by accuracy, weakest or strongest first.  Every
/// element of the result is one of the input's.
fn sort_by_accuracy(v: &mut Vec<(String, BrickStats)>, ascending: bool)
    requires
        forall|i: int| 0 <= i < old(v)@.len() ==> (#[trigger] old(v)@[i]).1.times_seen > 0,
    ensures
        final(v)@.len() == old(v)@.len(),
        elements_from(final(v)@, old(v)@),
        elements_from(old(v)@, final(v)@),
        forall|i: int, j: int|
            0 <= i < j < final(v)@.len() ==> acc_before(
                (#[trigger] final(v)@[i]).1,
                (#[trigger] final(v)@[j]).1,
                ascending,
            ),
{
    let mut i: usize = 1;
    while i < v.len()
        invariant
            v@.len() == old(v)@.len(),
            elements_from(v@, old(v)@),
            elements_from(old(v)@, v@),
            forall|k: int| 0 <= k < v@.len() ==> (#[trigger] v@[k]).1.times_seen > 0,
            1 <= i || v@.len() == 0,
            i <= v@.len() || v@.len() == 0,
            forall|a: int, b: int|
                0 <= a < b < i ==> acc_before((#[trigger] v@[a]).1, (#[trigger] v@[b]).1, ascending),
        decreases v@.len() - i,
    {
        let mut j: usize = i;
        while j > 0
            invariant
                0 <= j <= i < v@.len(),
                v@.len() == old(v)@.len(),
                elements_from(v@, old(v)@),
                elements_from(old(v)@, v@),
                forall|k: int| 0 <= k < v@.len() ==> (#[trigger] v@[k]).1.times_seen > 0,
                forall|a: int, b: int|
                    0 <= a < b <= i && b != j ==> acc_before(
                        (#[trigger] v@[a]).1,
                        (#[trigger] v@[b]).1,
                        ascending,
                    ),
                forall|a: int|
                    j < a <= i ==> acc_before(v@[j as int].1, (#[trigger] v@[a]).1, ascending),
            ensures
                0 <= j <= i < v@.len(),
                v@.len() == old(v)@.len(),
                elements_from(v@, old(v)@),
                elements_from(old(v)@, v@),
                forall|k: int| 0 <= k < v@.len() ==> (#[trigger] v@[k]).1.times_seen > 0,
                j > 0 ==> acc_before(v@[j - 1].1, v@[j as int].1, ascending),
                forall|a: int, b: int|
                    0 <= a < b <= i && b != j ==> acc_before(
                        (#[trigger] v@[a]).1,
                        (#[trigger] v@[b]).1,
                        ascending,
                    ),
                forall|a: int|
                    j < a <= i ==> acc_before(v@[j as int].1, (#[trigger] v@[a]).1, ascending),
            decreases j,
        {
            if accuracy_le(&v[j - 1].1, &v[j].1, ascending) {
                break;
            }
            let ghost before = v@;
            let moved = v.remove(j - 1);
            v.insert(j, moved);
            proof {
                assert(v@ =~= before.update(j - 1, before[j as int]).update(j as int, before[j - 1]));
                assert forall|a: int|
                    0 <= a < old(v)@.len() implies entry_in(
                    (#[trigger] old(v)@[a]).0@,
                    old(v)@[a].1@,
                    v@,
                ) by {
                    let w = choose|w: int|
                        0 <= w < before.len() && (#[trigger] before[w]).0@ == old(v)@[a].0@
                            && before[w].1@ == old(v)@[a].1@;
                    if w == j - 1 {
                        assert(v@[j as int].0@ == old(v)@[a].0@ && v@[j as int].1@
                            == old(v)@[a].1@);
                    } else if w == j {
                        assert(v@[j - 1].0@ == old(v)@[a].0@ && v@[j - 1].1@ == old(v)@[a].1@);
                    } else {
                        assert(v@[w].0@ == old(v)@[a].0@ && v@[w].1@ == old(v)@[a].1@);
                    }
                }
            }
            j -= 1;
        }
        proof {
            let cur = v@;
            let jj = j as int;
            assert forall|a: int, b: int| 0 <= a < b <= i implies acc_before(
                (#[trigger] cur[a]).1,
                (#[trigger] cur[b]).1,
                ascending,
            ) by {
                if b == jj && jj > 0 && a < jj - 1 {
                    lemma_acc_before_trans(cur[a].1, cur[jj - 1].1, cur[jj].1, ascending);
                }
            }
        }
        i += 1;
    }
}

} // verus!
