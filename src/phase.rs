use vstd::prelude::*;
use crate::model::{Outcome, Role, State};
use crate::game::{game_wf, GameView, Player, WerewolfGame};

verus! {

/// Whether `p` still owes an action before phase `s` may end.
pub open spec fn obliged(s: State, p: Player) -> bool {
    p.alive && !p.acted && match s {
        State::Lovers => p.role == Role::Amor,
        State::Night => p.role == Role::Werewolf,
        State::Bewitch => p.role matches Role::Witch { heals, poisons } && (heals > 0 || poisons > 0),
        State::Election => true,
        State::Day => true,
        _ => false,
    }
}

/// Whether the current phase is complete and may advance on its own.
pub open spec fn ready(g: GameView) -> bool {
    match g.state {
        State::Pending => g.roles.len() == 0,
        State::Ended => false,
        _ => forall|i: int| 0 <= i < g.players.len() ==> !obliged(g.state, #[trigger] g.players[i]),
    }
}

/// What the ballot of `p` adds to the tally of `t`; the mayor's counts `mv` times.
pub open spec fn ballot_weight(p: Player, mv: usize, t: usize) -> int {
    if p.ballot == Some(t) {
        if p.is_mayor { mv as int } else { 1 }
    } else {
        0
    }
}

pub open spec fn votes_for(ps: Seq<Player>, mv: usize, t: usize) -> int
    decreases ps.len(),
{
    if ps.len() == 0 {
        0
    } else {
        votes_for(ps.drop_last(), mv, t) + ballot_weight(ps.last(), mv, t)
    }
}

/// Participant `i` has strictly more votes than every other participant.
pub open spec fn strict_winner(ps: Seq<Player>, mv: usize, i: int) -> bool {
    &&& 0 <= i < ps.len()
    &&& forall|j: int| 0 <= j < ps.len() && j != i
        ==> votes_for(ps, mv, #[trigger] ps[j].id) < votes_for(ps, mv, ps[i].id)
}

/// The handle with strictly most votes, or none on a tie.
pub open spec fn plurality(ps: Seq<Player>, mv: usize) -> Option<usize> {
    if exists|i: int| strict_winner(ps, mv, i) {
        Some(ps[choose|i: int| strict_winner(ps, mv, i)].id)
    } else {
        None
    }
}

pub open spec fn counted(p: Player, wolf: bool) -> bool {
    p.alive && (p.role == Role::Werewolf) == wolf
}

/// Living werewolves (`wolf`) or living others (`!wolf`).
pub open spec fn count_alive(ps: Seq<Player>, wolf: bool) -> nat
    decreases ps.len(),
{
    if ps.len() == 0 {
        0
    } else {
        count_alive(ps.drop_last(), wolf) + if counted(ps.last(), wolf) { 1nat } else { 0nat }
    }
}

/// The winner, if the game is decided.
pub open spec fn outcome_of(ps: Seq<Player>) -> Option<Outcome> {
    if count_alive(ps, true) == 0 {
        Some(Outcome::Villagers)
    } else if count_alive(ps, true) >= count_alive(ps, false) {
        Some(Outcome::Werewolves)
    } else {
        None
    }
}

/// A participant after a phase ends: `k1` and `k2` die, `mayor`, if set,
/// becomes the only mayor, and the per-phase action and ballot are cleared.
pub open spec fn step_player(p: Player, k1: Option<usize>, k2: Option<usize>, mayor: Option<usize>) -> Player {
    Player {
        alive: p.alive && k1 != Some(p.id) && k2 != Some(p.id),
        is_mayor: if mayor is Some { mayor == Some(p.id) } else { p.is_mayor },
        acted: false,
        ballot: None,
        ..p
    }
}

pub open spec fn stepped(ps: Seq<Player>, k1: Option<usize>, k2: Option<usize>, mayor: Option<usize>) -> Seq<Player> {
    Seq::new(ps.len(), |i: int| step_player(ps[i], k1, k2, mayor))
}

/// The two deaths that end the current phase.
pub open spec fn phase_kills(g: GameView) -> (Option<usize>, Option<usize>) {
    match g.state {
        State::Bewitch => (g.victim, g.poisoned),
        State::Day => (plurality(g.players, g.mayor_votes), None),
        _ => (None, None),
    }
}

pub open spec fn phase_mayor(g: GameView) -> Option<usize> {
    if g.state == State::Election { plurality(g.players, g.mayor_votes) } else { None }
}

pub open spec fn after_phase(g: GameView) -> Seq<Player> {
    stepped(g.players, phase_kills(g).0, phase_kills(g).1, phase_mayor(g))
}

pub open spec fn amor_alive(ps: Seq<Player>) -> bool {
    exists|i: int| 0 <= i < ps.len() && ps[i].alive && ps[i].role == Role::Amor
}

/// The phase that follows the current one.
pub open spec fn next_state(g: GameView) -> State {
    match g.state {
        State::Pending => if amor_alive(g.players) { State::Lovers } else { State::Night },
        State::Lovers => State::Night,
        State::Night => State::Bewitch,
        State::Bewitch => if outcome_of(after_phase(g)) is Some { State::Ended } else { State::Election },
        State::Election => if plurality(g.players, g.mayor_votes) is Some { State::Day } else { State::Election },
        State::Day => if outcome_of(after_phase(g)) is Some { State::Ended } else { State::Night },
        State::Ended => State::Ended,
    }
}

/// The game after one phase ends; an ended game stays as it is.
pub open spec fn advanced(g: GameView) -> GameView {
    if g.state == State::Ended {
        g
    } else {
        GameView {
            players: after_phase(g),
            state: next_state(g),
            victim: if g.state == State::Bewitch { None } else { g.victim },
            poisoned: if g.state == State::Bewitch { None } else { g.poisoned },
            outcome: if g.state == State::Bewitch || g.state == State::Day {
                outcome_of(after_phase(g))
            } else {
                g.outcome
            },
            ..g
        }
    }
}

/// The game after advancing through complete phases, at most `n` times.
pub open spec fn settled(g: GameView, n: nat) -> GameView
    decreases n,
{
    if n == 0 || !ready(g) {
        g
    } else {
        settled(advanced(g), (n - 1) as nat)
    }
}

proof fn lemma_votes_bound(ps: Seq<Player>, mv: usize, t: usize)
    ensures
        0 <= votes_for(ps, mv, t) <= ps.len() * 0x1_0000_0000_0000_0000,
    decreases ps.len(),
{
    if ps.len() > 0 {
        lemma_votes_bound(ps.drop_last(), mv, t);
    }
}

impl WerewolfGame {
    /// The weighted number of ballots cast for `t`.
    pub fn tally(&self, t: usize) -> (r: u128)
        ensures
            r == votes_for(self.players@, self.mayor_votes, t),
    {
        let ghost ps = self.players@;
        let mut sum: u128 = 0;
        let mut i: usize = 0;
        while i < self.players.len()
            invariant
                i <= ps.len(),
                ps == self.players@,
                sum == votes_for(ps.take(i as int), self.mayor_votes, t),
            decreases ps.len() - i,
        {
            proof {
                lemma_votes_bound(ps.take(i as int), self.mayor_votes, t);
                assert(ps.take(i + 1).drop_last() =~= ps.take(i as int));
            }
            let p = self.players[i];
            if let Some(b) = p.ballot {
                if b == t {
                    if p.is_mayor {
                        sum = sum + self.mayor_votes as u128;
                    } else {
                        sum = sum + 1;
                    }
                }
            }
            i = i + 1;
        }
        assert(ps.take(ps.len() as int) =~= ps);
        sum
    }

    /// The handle with strictly most votes, or `None` on a tie.
    pub fn winner(&self) -> (r: Option<usize>)
        requires
            game_wf(*self),
        ensures
            r == plurality(self.players@, self.mayor_votes),
    {
        let ghost ps = self.players@;
        let ghost mv = self.mayor_votes;
        let n = self.players.len();
        if n == 0 {
            return None;
        }
        let mut best: usize = 0;
        let mut best_votes: u128 = self.tally(self.players[0].id);
        let mut tie = false;
        let mut i: usize = 1;
        while i < n
            invariant
                ps == self.players@,
                mv == self.mayor_votes,
                n == ps.len(),
                1 <= i <= n,
                best < i,
                best_votes == votes_for(ps, mv, ps[best as int].id),
                forall|j: int| 0 <= j < i ==> votes_for(ps, mv, #[trigger] ps[j].id) <= best_votes,
                !tie ==> forall|j: int| 0 <= j < i && j != best
                    ==> votes_for(ps, mv, #[trigger] ps[j].id) < best_votes,
                tie ==> exists|j: int| 0 <= j < i && j != best
                    && votes_for(ps, mv, #[trigger] ps[j].id) == best_votes,
            decreases n - i,
        {
            let v = self.tally(self.players[i].id);
            if v > best_votes {
                best = i;
                best_votes = v;
                tie = false;
            } else if v == best_votes {
                tie = true;
                assert(votes_for(ps, mv, ps[i as int].id) == best_votes);
            }
            i = i + 1;
        }
        if tie {
            assert forall|w: int| !strict_winner(ps, mv, w) by {
                if strict_winner(ps, mv, w) {
                    let j = choose|j: int| 0 <= j < n && j != best
                        && votes_for(ps, mv, #[trigger] ps[j].id) == best_votes;
                    if w == best {
                        assert(votes_for(ps, mv, ps[j].id) < votes_for(ps, mv, ps[w].id));
                    } else {
                        assert(votes_for(ps, mv, ps[best as int].id) < votes_for(ps, mv, ps[w].id));
                    }
                }
            }
            None
        } else {
            assert(strict_winner(ps, mv, best as int));
            let ghost c = choose|w: int| strict_winner(ps, mv, w);
            assert(c == best) by {
                if c != best {
                    assert(votes_for(ps, mv, ps[best as int].id) < votes_for(ps, mv, ps[c].id));
                }
            }
            Some(self.players[best].id)
        }
    }

    fn count(&self, wolf: bool) -> (r: usize)
        ensures
            r == count_alive(self.players@, wolf),
    {
        let ghost ps = self.players@;
        let mut c: usize = 0;
        let mut i: usize = 0;
        while i < self.players.len()
            invariant
                i <= ps.len(),
                ps == self.players@,
                c == count_alive(ps.take(i as int), wolf),
                c <= i,
            decreases ps.len() - i,
        {
            proof {
                assert(ps.take(i + 1).drop_last() =~= ps.take(i as int));
            }
            let p = self.players[i];
            if p.alive && (p.role == Role::Werewolf) == wolf {
                c = c + 1;
            }
            i = i + 1;
        }
        assert(ps.take(ps.len() as int) =~= ps);
        c
    }

    /// The winner of the game as the participants stand now, if decided.
    pub fn decided(&self) -> (r: Option<Outcome>)
        ensures
            r == outcome_of(self.players@),
    {
        let wolves = self.count(true);
        let others = self.count(false);
        if wolves == 0 {
            Some(Outcome::Villagers)
        } else if wolves >= others {
            Some(Outcome::Werewolves)
        } else {
            None
        }
    }

    fn has_living_amor(&self) -> (r: bool)
        ensures
            r == amor_alive(self.players@),
    {
        let mut i: usize = 0;
        while i < self.players.len()
            invariant
                i <= self.players@.len(),
                forall|j: int| 0 <= j < i ==> !(self.players@[j].alive && self.players@[j].role == Role::Amor),
            decreases self.players@.len() - i,
        {
            if self.players[i].alive && self.players[i].role == Role::Amor {
                return true;
            }
            i = i + 1;
        }
        false
    }

    /// Whether the current phase is complete.
    pub fn is_ready(&self) -> (r: bool)
        ensures
            r == ready(self@),
    {
        match self.state {
            State::Pending => return self.roles.len() == 0,
            State::Ended => return false,
            _ => {},
        }
        let mut i: usize = 0;
        while i < self.players.len()
            invariant
                i <= self.players@.len(),
                self.state != State::Pending && self.state != State::Ended,
                forall|j: int| 0 <= j < i ==> !obliged(self.state, #[trigger] self.players@[j]),
            decreases self.players@.len() - i,
        {
            let p = self.players[i];
            let owes = p.alive && !p.acted && match self.state {
                State::Lovers => p.role == Role::Amor,
                State::Night => p.role == Role::Werewolf,
                State::Bewitch => match p.role {
                    Role::Witch { heals, poisons } => heals > 0 || poisons > 0,
                    _ => false,
                },
                _ => true,
            };
            if owes {
                assert(self@.players[i as int] == p);
                return false;
            }
            i = i + 1;
        }
        true
    }

    fn step_players(&mut self, k1: Option<usize>, k2: Option<usize>, mayor: Option<usize>)
        requires
            game_wf(*old(self)),
        ensures
            game_wf(*final(self)),
            final(self).players@ == stepped(old(self).players@, k1, k2, mayor),
            final(self).roles == old(self).roles,
            final(self).state == old(self).state,
            final(self).mayor_votes == old(self).mayor_votes,
            final(self).victim == old(self).victim,
            final(self).poisoned == old(self).poisoned,
            final(self).outcome == old(self).outcome,
    {
        let ghost ps = self.players@;
        let mut i: usize = 0;
        while i < self.players.len()
            invariant
                self.players@.len() == ps.len(),
                i <= ps.len(),
                forall|j: int| 0 <= j < i ==> self.players@[j] == step_player(ps[j], k1, k2, mayor),
                forall|j: int| i <= j < ps.len() ==> self.players@[j] == ps[j],
                self.roles == old(self).roles,
                self.state == old(self).state,
                self.mayor_votes == old(self).mayor_votes,
                self.victim == old(self).victim,
                self.poisoned == old(self).poisoned,
                self.outcome == old(self).outcome,
            decreases ps.len() - i,
        {
            let mut p = self.players[i];
            let hit1 = match k1 { Some(k) => k == p.id, None => false };
            let hit2 = match k2 { Some(k) => k == p.id, None => false };
            p.alive = p.alive && !hit1 && !hit2;
            if let Some(m) = mayor {
                p.is_mayor = m == p.id;
            }
            p.acted = false;
            p.ballot = None;
            self.players.set(i, p);
            i = i + 1;
        }
        proof {
            let fs = self.players@;
            assert(fs =~= stepped(ps, k1, k2, mayor));
            assert forall|i: int| 0 <= i < fs.len() && fs[i].lover is Some
                implies crate::game::has_id(fs, fs[i].lover->0) by {
                let m = choose|m: int| 0 <= m < ps.len() && ps[m].id == ps[i].lover->0;
                assert(fs[m].id == fs[i].lover->0);
            }
        }
    }

    /// Ends the current phase: resolves its deaths, election and win
    /// check, clears the per-phase actions and moves to the next phase.
    pub fn advance(&mut self)
        requires
            game_wf(*old(self)),
        ensures
            game_wf(*final(self)),
            final(self)@ == advanced(old(self)@),
            final(self).roles == old(self).roles,
            final(self).mayor_votes == old(self).mayor_votes,
    {
        match self.state {
            State::Ended => {},
            State::Pending => {
                let amor = self.has_living_amor();
                self.step_players(None, None, None);
                self.state = if amor { State::Lovers } else { State::Night };
            },
            State::Lovers => {
                self.step_players(None, None, None);
                self.state = State::Night;
            },
            State::Night => {
                self.step_players(None, None, None);
                self.state = State::Bewitch;
            },
            State::Bewitch => {
                let victim = self.victim;
                let poisoned = self.poisoned;
                self.step_players(victim, poisoned, None);
                self.victim = None;
                self.poisoned = None;
                self.outcome = self.decided();
                self.state = if self.outcome.is_some() { State::Ended } else { State::Election };
            },
            State::Election => {
                let w = self.winner();
                self.step_players(None, None, w);
                self.state = if w.is_some() { State::Day } else { State::Election };
            },
            State::Day => {
                let t = self.winner();
                self.step_players(t, None, None);
                self.outcome = self.decided();
                self.state = if self.outcome.is_some() { State::Ended } else { State::Night };
            },
        }
    }

    /// Advances through every phase that is already complete.
    pub fn settle(&mut self)
        requires
            game_wf(*old(self)),
        ensures
            game_wf(*final(self)),
            final(self)@ == settled(old(self)@, 8),
            final(self).players@.len() == old(self).players@.len(),
            forall|i: int| 0 <= i < old(self).players@.len() ==> {
                &&& (#[trigger] final(self).players@[i]).id == old(self).players@[i].id
                &&& final(self).players@[i].role == old(self).players@[i].role
                &&& final(self).players@[i].lover == old(self).players@[i].lover
            },
            final(self).roles == old(self).roles,
            final(self).mayor_votes == old(self).mayor_votes,
    {
        let ghost ps = self.players@;
        let mut n: usize = 0;
        while n < 8 && self.is_ready()
            invariant
                game_wf(*self),
                n <= 8,
                settled(self@, (8 - n) as nat) == settled(old(self)@, 8),
                self.players@.len() == ps.len(),
                forall|i: int| 0 <= i < ps.len() ==> {
                    &&& (#[trigger] self.players@[i]).id == ps[i].id
                    &&& self.players@[i].role == ps[i].role
                    &&& self.players@[i].lover == ps[i].lover
                },
                self.roles == old(self).roles,
                self.mayor_votes == old(self).mayor_votes,
                ps == old(self).players@,
            decreases 8 - n,
        {
            assert(settled(self@, (8 - n) as nat) == settled(advanced(self@), (8 - n - 1) as nat));
            self.advance();
            n = n + 1;
        }
    }
}

} // verus!
