use vstd::prelude::*;

verus! {

/// At most this many scores are retained.
pub const HIGH_SCORES_MAX_SIZE: usize = 10;

/// One finished game: its score and the Unix timestamp of when it ended.
#[derive(Clone, Copy, Debug, PartialEq, Eq, Structural)]
pub struct HighScore {
    pub score: u32,
    pub time: i64,
}

/// The best scores of one game, highest first, at most
/// `HIGH_SCORES_MAX_SIZE` of them. `path` names the directory the
/// surrounding program keeps them in; this crate only carries it along.
#[derive(Debug)]
pub struct HighScores {
    pub path: String,
    pub entries: Vec<HighScore>,
}

/// Scores never rise along the list.
pub open spec fn sorted_desc(s: Seq<HighScore>) -> bool {
    forall|i: int, j: int| 0 <= i < j < s.len() ==> s[i].score >= s[j].score
}

/// Relies on chrono::Local::now for the current Unix timestamp. Nothing is
/// assumed of the value, since it depends on the clock. chrono documents a
/// panic when the system clock reads before the Unix epoch; callers of
/// `HighScores::add` inherit that environmental failure.
#[verifier::external_body]
fn now_timestamp() -> i64 {
    chrono::Local::now().timestamp()
}

impl HighScore {
    pub fn score(&self) -> (r: u32)
        ensures
            r == self.score,
    {
        self.score
    }

    pub fn time(&self) -> (r: i64)
        ensures
            r == self.time,
    {
        self.time
    }
}

impl HighScores {
    /// The list is sorted, highest first, and within the size cap.
    pub open spec fn wf(self) -> bool {
        &&& sorted_desc(self.entries@)
        &&& self.entries@.len() <= HIGH_SCORES_MAX_SIZE
    }

    /// An empty score list for the game kept under `path`.
    pub fn new(path: String) -> (r: HighScores)
        ensures
            r.wf(),
            r.path@ == path@,
            r.entries@.len() == 0,
    {
        HighScores { path, entries: Vec::new() }
    }

    /// Records `score` at the current time. The entry lands after every
    /// at-least-as-high score and before every lower one; if the list would
    /// then exceed the cap, the lowest entry falls off the end.
    pub fn add(&mut self, score: u32)
        requires
            old(self).wf(),
        ensures
            final(self).wf(),
            final(self).path@ == old(self).path@,
            exists|j: int, t: i64|
                #![trigger old(self).entries@.insert(j, HighScore { score, time: t })]
                {
                    let inserted = old(self).entries@.insert(
                        j,
                        HighScore { score, time: t },
                    );
                    &&& 0 <= j <= old(self).entries@.len()
                    &&& (forall|k: int| 0 <= k < j ==> old(self).entries@[k].score >= score)
                    &&& (forall|k: int|
                        j <= k < old(self).entries@.len() ==> old(self).entries@[k].score < score)
                    &&& final(self).entries@ == (if inserted.len() > HIGH_SCORES_MAX_SIZE {
                        inserted.drop_last()
                    } else {
                        inserted
                    })
                },
    {
        let time = now_timestamp();
        let entry = HighScore { score, time };

        let n = self.entries.len();
        let mut j: usize = 0;
        while j < n && self.entries[j].score >= score
            invariant
                n == self.entries@.len(),
                0 <= j <= n,
                forall|k: int| 0 <= k < j ==> self.entries@[k].score >= score,
            decreases n - j,
        {
            j = j + 1;
        }
        proof {
            assert(forall|k: int|
                j <= k < self.entries@.len() ==> self.entries@[k].score < score) by {
                assert(sorted_desc(self.entries@));
                if j < self.entries@.len() {
                    assert(self.entries@[j as int].score < score);
                }
            }
        }

        self.entries.insert(j, entry);

        if self.entries.len() > HIGH_SCORES_MAX_SIZE {
            let last = self.entries.len() - 1;
            self.entries.remove(last);
            proof {
                assert(self.entries@ =~= old(self).entries@.insert(
                    j as int,
                    entry,
                ).drop_last());
            }
        }
    }

    /// A copy of the entries, highest score first.
    pub fn entries(&self) -> (r: Vec<HighScore>)
        ensures
            r@ == self.entries@,
    {
        let mut r: Vec<HighScore> = Vec::new();
        let n = self.entries.len();
        for i in 0..n
            invariant
                n == self.entries@.len(),
                r@ == self.entries@.take(i as int),
        {
            r.push(self.entries[i]);
            proof {
                assert(r@ =~= self.entries@.take(i as int + 1));
            }
        }
        proof {
            assert(self.entries@.take(n as int) =~= self.entries@);
        }
        r
    }

    /// The score a new game must beat to enter a full list; zero while the
    /// list still has room.
    pub fn min(&self) -> (r: u32)
        ensures
            r == (if self.entries@.len() < HIGH_SCORES_MAX_SIZE {
                0u32
            } else {
                self.entries@.last().score
            }),
    {
        if self.entries.len() < HIGH_SCORES_MAX_SIZE {
            return 0;
        }

        self.entries[self.entries.len() - 1].score
    }

    /// The best score so far, zero when none is recorded.
    pub fn max(&self) -> (r: u32)
        ensures
            r == (if self.entries@.len() == 0 {
                0u32
            } else {
                self.entries@[0].score
            }),
    {
        if self.entries.len() == 0 {
            return 0;
        }

        self.entries[0].score
    }
}

} // verus!
