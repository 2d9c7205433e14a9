use vstd::multiset::Multiset;
use vstd::prelude::*;

use crate::chat_session::sat_add;
use crate::game::{GameMessage, GameRecord};
use crate::outcome::Outcome;

verus! {

broadcast use vstd::seq_lib::group_to_multiset_ensures;

/// Running totals of a run: errors, timeouts, and the records of the
/// sessions that succeeded, in arrival order.
pub struct Report<T> {
    pub errors: usize,
    pub timeouts: usize,
    pub records: Vec<T>,
}

impl<T> View for Report<T> {
    type V = (nat, nat, Seq<T>);

    open spec fn view(&self) -> (nat, nat, Seq<T>) {
        (self.errors as nat, self.timeouts as nat, self.records@)
    }
}

/// The totals after taking in one more outcome.
pub open spec fn tally_step<T>(t: (nat, nat, Seq<T>), o: Outcome<T>) -> (nat, nat, Seq<T>) {
    match o {
        Outcome::Success(r) => (t.0, t.1, t.2.push(r)),
        Outcome::Timeout => (t.0, t.1 + 1, t.2),
        Outcome::Error(_) => (t.0 + 1, t.1, t.2),
    }
}

/// The totals of a sequence of outcomes taken in order.
pub open spec fn tally<T>(s: Seq<Outcome<T>>) -> (nat, nat, Seq<T>)
    decreases s.len(),
{
    if s.len() == 0 {
        (0, 0, Seq::empty())
    } else {
        tally_step(tally(s.drop_last()), s.last())
    }
}

/// What one outcome adds to the multiset of records.
pub open spec fn record_of<T>(o: Outcome<T>) -> Multiset<T> {
    match o {
        Outcome::Success(r) => Multiset::singleton(r),
        _ => Multiset::empty(),
    }
}

pub open spec fn error_of<T>(o: Outcome<T>) -> nat {
    if o is Error {
        1
    } else {
        0
    }
}

pub open spec fn timeout_of<T>(o: Outcome<T>) -> nat {
    if o is Timeout {
        1
    } else {
        0
    }
}

/// Every outcome is counted exactly once: errors, timeouts and successes add
/// up to the number of outcomes taken in.
pub proof fn lemma_tally_counts_every_outcome<T>(s: Seq<Outcome<T>>)
    ensures
        tally(s).0 + tally(s).1 + tally(s).2.len() == s.len(),
    decreases s.len(),
{
    if s.len() > 0 {
        lemma_tally_counts_every_outcome(s.drop_last());
    }
}

proof fn lemma_tally_remove<T>(s: Seq<Outcome<T>>, i: int)
    requires
        0 <= i < s.len(),
    ensures
        tally(s).0 == tally(s.remove(i)).0 + error_of(s[i]),
        tally(s).1 == tally(s.remove(i)).1 + timeout_of(s[i]),
        tally(s).2.to_multiset() =~= tally(s.remove(i)).2.to_multiset().add(record_of(s[i])),
    decreases s.len(),
{
    let t = tally(s.remove(i));
    if i == s.len() - 1 {
        assert(s.remove(i) =~= s.drop_last());
        match s[i] {
            Outcome::Success(r) => {
                assert(tally(s).2 == t.2.push(r));
            },
            _ => {},
        }
    } else {
        let d = s.drop_last();
        lemma_tally_remove(d, i);
        assert(s.remove(i).drop_last() =~= d.remove(i));
        assert(s.remove(i).last() == s.last());
        assert(d[i] == s[i]);
        match s.last() {
            Outcome::Success(r) => {
                assert(tally(s).2 == tally(d).2.push(r));
                assert(t.2 == tally(d.remove(i)).2.push(r));
            },
            _ => {},
        }
    }
}

/// The totals depend only on which outcomes came in, not on their order:
/// two sequences that are permutations of each other give the same error
/// and timeout counts and the same records, as a multiset.
pub proof fn lemma_tally_order_independent<T>(s1: Seq<Outcome<T>>, s2: Seq<Outcome<T>>)
    requires
        s1.to_multiset() == s2.to_multiset(),
    ensures
        tally(s1).0 == tally(s2).0,
        tally(s1).1 == tally(s2).1,
        tally(s1).2.to_multiset() == tally(s2).2.to_multiset(),
    decreases s1.len(),
{
    if s1.len() == 0 {
        assert(s1.to_multiset().len() == 0);
        assert(s2.to_multiset().len() == s2.len());
        assert(s2.len() == 0);
        assert(s2 =~= Seq::<Outcome<T>>::empty());
        assert(s1 =~= Seq::<Outcome<T>>::empty());
    } else {
        let a = s1.last();
        let p = s1.drop_last();
        assert(p.push(a) =~= s1);
        assert(s1.to_multiset() =~= p.to_multiset().insert(a));
        assert(s2.to_multiset().count(a) > 0);
        assert(s2.contains(a));
        let i = choose|i: int| 0 <= i < s2.len() && s2[i] == a;
        assert(s2.remove(i).to_multiset() =~= s2.to_multiset().remove(a));
        assert(p.to_multiset() =~= s2.remove(i).to_multiset());
        lemma_tally_order_independent(p, s2.remove(i));
        lemma_tally_remove(s2, i);
        match a {
            Outcome::Success(r) => {
                assert(tally(s1).2 == tally(p).2.push(r));
                assert(tally(s1).2.to_multiset() =~= tally(p).2.to_multiset().insert(r));
            },
            _ => {},
        }
    }
}

impl<T> Report<T> {
    pub fn new() -> (r: Report<T>)
        ensures
            r@ == tally(Seq::<Outcome<T>>::empty()),
    {
        Report { errors: 0, timeouts: 0, records: Vec::new() }
    }

    /// Takes in the outcome of one session.
    pub fn record(&mut self, outcome: Outcome<T>)
        requires
            old(self).errors + old(self).timeouts + old(self).records.len() < usize::MAX,
        ensures
            final(self)@ == tally_step(old(self)@, outcome),
    {
        match outcome {
            Outcome::Success(r) => self.records.push(r),
            Outcome::Timeout => self.timeouts = self.timeouts + 1,
            Outcome::Error(_) => self.errors = self.errors + 1,
        }
    }

    /// Number of outcomes taken in.
    pub fn total(&self) -> (r: usize)
        requires
            self.errors + self.timeouts + self.records.len() <= usize::MAX,
        ensures
            r == self@.0 + self@.1 + self@.2.len(),
    {
        self.errors + self.timeouts + self.records.len()
    }
}

/// Totals of the game rounds: ticks and shots summed over the players, and
/// the wins of each role.
#[derive(Clone, Copy, Debug, PartialEq, Eq, Structural)]
pub struct GameResult {
    pub ticks: usize,
    pub bullets_fired: usize,
    pub p1_won: usize,
    pub p2_won: usize,
}

/// `GameResult` after one more player's round, each sum held at the largest
/// machine word.
pub open spec fn game_result_step(g: GameResult, r: GameRecord) -> GameResult {
    let m = usize::MAX as nat;
    GameResult {
        ticks: sat_add(g.ticks as nat, r.ticks as nat, m) as usize,
        bullets_fired: sat_add(g.bullets_fired as nat, r.bullets_fired as nat, m) as usize,
        p1_won: if r.won && r.player == 1 {
            sat_add(g.p1_won as nat, 1, m) as usize
        } else {
            g.p1_won
        },
        p2_won: if r.won && r.player == 2 {
            sat_add(g.p2_won as nat, 1, m) as usize
        } else {
            g.p2_won
        },
    }
}

pub open spec fn game_result_of(s: Seq<GameRecord>) -> GameResult
    decreases s.len(),
{
    if s.len() == 0 {
        GameResult { ticks: 0, bullets_fired: 0, p1_won: 0, p2_won: 0 }
    } else {
        game_result_step(game_result_of(s.drop_last()), s.last())
    }
}

proof fn lemma_game_step_commutes(g: GameResult, a: GameRecord, b: GameRecord)
    ensures
        game_result_step(game_result_step(g, a), b) == game_result_step(game_result_step(g, b), a),
{
}

proof fn lemma_game_result_remove(s: Seq<GameRecord>, i: int)
    requires
        0 <= i < s.len(),
    ensures
        game_result_of(s) == game_result_step(game_result_of(s.remove(i)), s[i]),
    decreases s.len(),
{
    if i == s.len() - 1 {
        assert(s.remove(i) =~= s.drop_last());
    } else {
        let d = s.drop_last();
        lemma_game_result_remove(d, i);
        assert(s.remove(i).drop_last() =~= d.remove(i));
        assert(s.remove(i).last() == s.last());
        lemma_game_step_commutes(game_result_of(d.remove(i)), s[i], s.last());
    }
}

/// The game totals depend only on which rounds came in, not on their order.
pub proof fn lemma_game_result_order_independent(s1: Seq<GameRecord>, s2: Seq<GameRecord>)
    requires
        s1.to_multiset() == s2.to_multiset(),
    ensures
        game_result_of(s1) == game_result_of(s2),
    decreases s1.len(),
{
    if s1.len() == 0 {
        assert(s1.to_multiset().len() == 0);
        assert(s2.to_multiset().len() == s2.len());
        assert(s2 =~= Seq::<GameRecord>::empty());
        assert(s1 =~= Seq::<GameRecord>::empty());
    } else {
        let a = s1.last();
        let p = s1.drop_last();
        assert(p.push(a) =~= s1);
        assert(s1.to_multiset() =~= p.to_multiset().insert(a));
        assert(s2.to_multiset().count(a) > 0);
        assert(s2.contains(a));
        let i = choose|i: int| 0 <= i < s2.len() && s2[i] == a;
        assert(s2.remove(i).to_multiset() =~= s2.to_multiset().remove(a));
        assert(p.to_multiset() =~= s2.remove(i).to_multiset());
        lemma_game_result_order_independent(p, s2.remove(i));
        lemma_game_result_remove(s2, i);
    }
}

impl GameResult {
    pub fn new() -> (r: GameResult)
        ensures
            r == game_result_of(Seq::empty()),
    {
        GameResult { ticks: 0, bullets_fired: 0, p1_won: 0, p2_won: 0 }
    }

    /// Adds one player's finished round.
    pub fn add_record(&mut self, r: GameRecord)
        ensures
            *final(self) == game_result_step(*old(self), r),
    {
        self.ticks = self.ticks.saturating_add(r.ticks as usize);
        self.bullets_fired = self.bullets_fired.saturating_add(r.bullets_fired as usize);
        if r.won && r.player == 1 {
            self.p1_won = self.p1_won.saturating_add(1);
        }
        if r.won && r.player == 2 {
            self.p2_won = self.p2_won.saturating_add(1);
        }
    }

    /// Adds the round of `player` when `msg` is its stop message; any other
    /// message leaves the totals as they are.
    pub fn add(&mut self, msg: GameMessage, player: usize)
        ensures
            msg matches GameMessage::Stop { ticks, bullets_fired, won, .. } ==> *final(self)
                == game_result_step(
                *old(self),
                GameRecord { ticks, bullets_fired, won, player },
            ),
            !(msg is Stop) ==> *final(self) == *old(self),
    {
        if let GameMessage::Stop { ticks, bullets_fired, won, .. } = msg {
            self.add_record(GameRecord { ticks, bullets_fired, won, player });
        }
    }

    /// The totals of a sequence of finished rounds.
    pub fn summarize(records: &Vec<GameRecord>) -> (r: GameResult)
        ensures
            r == game_result_of(records@),
    {
        let mut g = GameResult::new();
        let mut i: usize = 0;
        while i < records.len()
            invariant
                i <= records@.len(),
                g == game_result_of(records@.subrange(0, i as int)),
            decreases records.len() - i,
        {
            assert(records@.subrange(0, i + 1).drop_last() =~= records@.subrange(0, i as int));
            g.add_record(records[i]);
            i = i + 1;
        }
        assert(records@.subrange(0, records@.len() as int) =~= records@);
        g
    }
}

} // verus!
