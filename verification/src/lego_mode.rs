//! Session score keeping for the brick-identification quiz.

use vstd::prelude::*;

verus! {

/// The running score of one quiz session.
#[derive(Debug, Clone, Default)]
pub struct QuizScore {
    pub correct: u32,
    pub total: u32,
    pub streak: u32,
    pub best_streak: u32,
}

impl QuizScore {
    /// Record one answer: totals grow, a correct answer extends the
    /// streak (and the best streak where it is beaten), a wrong one
    /// breaks it.
    pub fn record(&mut self, correct: bool)
        requires
            old(self).total < u32::MAX,
            old(self).correct < u32::MAX,
            old(self).streak < u32::MAX,
        ensures
            final(self).total == old(self).total + 1,
            correct ==> {
                &&& final(self).correct == old(self).correct + 1
                &&& final(self).streak == old(self).streak + 1
                &&& final(self).best_streak == if old(self).streak + 1 > old(self).best_streak {
                    (old(self).streak + 1) as u32
                } else {
                    old(self).best_streak
                }
            },
            !correct ==> {
                &&& final(self).correct == old(self).correct
                &&& final(self).streak == 0
                &&& final(self).best_streak == old(self).best_streak
            },
    {
        self.total = self.total + 1;
        if correct {
            self.correct = self.correct + 1;
            self.streak = self.streak + 1;
            if self.streak > self.best_streak {
                self.best_streak = self.streak;
            }
        } else {
            self.streak = 0;
        }
    }

    /// Reset the score to a fresh session.
    pub fn reset(&mut self)
        ensures
            final(self).correct == 0,
            final(self).total == 0,
            final(self).streak == 0,
            final(self).best_streak == 0,
    {
        self.correct = 0;
        self.total = 0;
        self.streak = 0;
        self.best_streak = 0;
    }
}

} // verus!
