use vstd::prelude::*;
use crate::model::{Action, Outcome, Role, SessionError, State, WerewolfSettings, WrongAction};
use crate::pool::{build_pool, pool_seq, settings_valid};

verus! {

/// A connected participant.
#[derive(Debug, Clone, Copy)]
pub struct Player {
    pub id: usize,
    pub role: Role,
    pub lover: Option<usize>,
    pub is_mayor: bool,
    pub alive: bool,
    /// Whether the participant has used its action in the current phase.
    pub acted: bool,
    /// The election or day vote cast in the current phase.
    pub ballot: Option<usize>,
}

/// The state of the one running game.
#[derive(Debug)]
pub struct WerewolfGame {
    /// Roles not yet claimed by a join.
    pub roles: Vec<Role>,
    pub state: State,
    pub players: Vec<Player>,
    /// How many times the mayor's vote counts.
    pub mayor_votes: usize,
    /// The night's pending victim, which a heal may cancel.
    pub victim: Option<usize>,
    /// The participant poisoned this night.
    pub poisoned: Option<usize>,
    pub outcome: Option<Outcome>,
}

/// The game as plain values: what contracts speak of.
pub struct GameView {
    pub roles: Seq<Role>,
    pub state: State,
    pub players: Seq<Player>,
    pub mayor_votes: usize,
    pub victim: Option<usize>,
    pub poisoned: Option<usize>,
    pub outcome: Option<Outcome>,
}

impl View for WerewolfGame {
    type V = GameView;

    open spec fn view(&self) -> GameView {
        GameView {
            roles: self.roles@,
            state: self.state,
            players: self.players@,
            mayor_votes: self.mayor_votes,
            victim: self.victim,
            poisoned: self.poisoned,
            outcome: self.outcome,
        }
    }
}

pub open spec fn new_player(id: usize, role: Role) -> Player {
    Player { id, role, lover: None, is_mayor: false, alive: true, acted: false, ballot: None }
}

pub open spec fn has_id(ps: Seq<Player>, id: usize) -> bool {
    exists|k: int| 0 <= k < ps.len() && ps[k].id == id
}

pub open spec fn living(ps: Seq<Player>, id: usize) -> bool {
    exists|k: int| 0 <= k < ps.len() && ps[k].id == id && ps[k].alive
}

pub open spec fn ids_unique(ps: Seq<Player>) -> bool {
    forall|i: int, j: int| 0 <= i < ps.len() && 0 <= j < ps.len() && i != j ==> ps[i].id != ps[j].id
}

/// Lover links are mutual and point at registered participants other than oneself.
pub open spec fn links_mutual(ps: Seq<Player>) -> bool {
    &&& forall|i: int, j: int|
        0 <= i < ps.len() && 0 <= j < ps.len() && #[trigger] ps[i].lover == Some(#[trigger] ps[j].id)
            ==> ps[j].lover == Some(ps[i].id)
    &&& forall|i: int| 0 <= i < ps.len() && ps[i].lover is Some ==> has_id(ps, ps[i].lover->0)
    &&& forall|i: int| 0 <= i < ps.len() ==> ps[i].lover != Some(ps[i].id)
}

pub open spec fn game_wf(g: WerewolfGame) -> bool {
    ids_unique(g.players@) && links_mutual(g.players@)
}

pub open spec fn joinable(g: WerewolfGame) -> bool {
    g.state == State::Pending && g.roles@.len() > 0
}

/// The lover link of `p` after an Amor links `x` and `y`.
pub open spec fn attach_link(p: Player, x: usize, y: usize) -> Option<usize> {
    if p.id == x {
        Some(y)
    } else if p.id == y {
        Some(x)
    } else if p.lover == Some(x) || p.lover == Some(y) {
        None
    } else {
        p.lover
    }
}

/// Whether participant `a` may perform `act` now.
pub open spec fn action_allowed(g: WerewolfGame, a: Player, act: Action) -> bool {
    let ps = g.players@;
    a.alive && !a.acted && match act {
        Action::Attach(x, y) => a.role == Role::Amor && g.state == State::Lovers && x != y
            && living(ps, x) && living(ps, y),
        Action::Kill(t) => a.role == Role::Werewolf && g.state == State::Night && living(ps, t),
        Action::Heal(t) => (a.role matches Role::Witch { heals, .. } && heals > 0)
            && g.state == State::Bewitch && living(ps, t),
        Action::Poison(t) => (a.role matches Role::Witch { poisons, .. } && poisons > 0)
            && g.state == State::Bewitch && living(ps, t),
        Action::Elect(t) => g.state == State::Election && living(ps, t),
        Action::Vote(t) => g.state == State::Day && living(ps, t),
    }
}

/// The actor's role after the action: a heal or poison spends one use.
pub open spec fn spent_role(r: Role, act: Action) -> Role {
    match (r, act) {
        (Role::Witch { heals, poisons }, Action::Heal(_)) => Role::Witch { heals: (heals - 1) as usize, poisons },
        (Role::Witch { heals, poisons }, Action::Poison(_)) => Role::Witch { heals, poisons: (poisons - 1) as usize },
        _ => r,
    }
}

pub open spec fn cast_ballot(b: Option<usize>, act: Action) -> Option<usize> {
    match act {
        Action::Elect(t) => Some(t),
        Action::Vote(t) => Some(t),
        _ => b,
    }
}

/// Participant `i` after participant `k` performed `act`.
pub open spec fn acted_player(ps: Seq<Player>, k: int, i: int, act: Action) -> Player {
    let p = ps[i];
    let p = if i == k {
        Player { acted: true, role: spent_role(p.role, act), ballot: cast_ballot(p.ballot, act), ..p }
    } else {
        p
    };
    match act {
        Action::Attach(x, y) => Player { lover: attach_link(ps[i], x, y), ..p },
        _ => p,
    }
}

pub open spec fn acted_players(ps: Seq<Player>, k: int, act: Action) -> Seq<Player> {
    Seq::new(ps.len(), |i: int| acted_player(ps, k, i, act))
}

/// The game right after participant `k` performed `act`, before any phase change.
pub open spec fn applied(g: GameView, k: int, act: Action) -> GameView {
    GameView {
        players: acted_players(g.players, k, act),
        victim: victim_after(g.victim, act),
        poisoned: poisoned_after(g.poisoned, act),
        ..g
    }
}

pub open spec fn victim_after(v: Option<usize>, act: Action) -> Option<usize> {
    match act {
        Action::Kill(t) => Some(t),
        Action::Heal(t) => if v == Some(t) { None } else { v },
        _ => v,
    }
}

pub open spec fn poisoned_after(v: Option<usize>, act: Action) -> Option<usize> {
    match act {
        Action::Poison(t) => Some(t),
        _ => v,
    }
}

/// Participants after `h` left: links to `h` are cleared and `h`'s entry,
/// at index `k`, is dropped.
pub open spec fn unlinked(ps: Seq<Player>, h: usize) -> Seq<Player> {
    Seq::new(ps.len(), |i: int| if ps[i].lover == Some(h) { Player { lover: None, ..ps[i] } } else { ps[i] })
}

impl WerewolfGame {
    /// Creates a game in the Pending phase with a shuffled role bag.
    pub fn new(settings: WerewolfSettings) -> (r: Result<WerewolfGame, SessionError>)
        ensures
            r.is_ok() <==> settings_valid(settings),
            r is Err ==> r == Err::<WerewolfGame, SessionError>(SessionError::InvalidSettings),
            r matches Ok(g) ==> {
                &&& game_wf(g)
                &&& g.state == State::Pending
                &&& g.players@.len() == 0
                &&& g.roles@.len() == settings.num_players
                &&& g.roles@.to_multiset() == pool_seq(settings).to_multiset()
                &&& g.mayor_votes == settings.mayor_votes
                &&& g.victim is None && g.poisoned is None && g.outcome is None
            },
    {
        match build_pool(&settings) {
            None => Err(SessionError::InvalidSettings),
            Some(roles) => Ok(WerewolfGame {
                roles,
                state: State::Pending,
                players: Vec::new(),
                mayor_votes: settings.mayor_votes,
                victim: None,
                poisoned: None,
                outcome: None,
            }),
        }
    }

    /// The index of the participant with handle `id`.
    pub fn find(&self, id: usize) -> (r: Option<usize>)
        ensures
            r matches Some(k) ==> k < self.players@.len() && self.players@[k as int].id == id,
            r is None ==> !has_id(self.players@, id),
    {
        let mut k: usize = 0;
        while k < self.players.len()
            invariant
                k <= self.players@.len(),
                forall|j: int| 0 <= j < k ==> self.players@[j].id != id,
            decreases self.players@.len() - k,
        {
            if self.players[k].id == id {
                return Some(k);
            }
            k = k + 1;
        }
        None
    }

    /// Whether `id` names a registered participant who is alive.
    pub fn is_living(&self, id: usize) -> (r: bool)
        requires
            ids_unique(self.players@),
        ensures
            r == living(self.players@, id),
    {
        match self.find(id) {
            Some(k) => self.players[k].alive,
            None => false,
        }
    }

    /// Claims the last role of the bag, if the game still admits joins.
    pub fn try_join(&mut self) -> (r: Result<Role, SessionError>)
        ensures
            r.is_ok() <==> joinable(*old(self)),
            r is Err ==> r == Err::<Role, SessionError>(SessionError::NotJoinable)
                && *final(self) == *old(self),
            r matches Ok(role) ==> {
                &&& role == old(self).roles@.last()
                &&& final(self).roles@ == old(self).roles@.drop_last()
                &&& final(self).players == old(self).players
                &&& final(self).state == old(self).state
                &&& final(self).mayor_votes == old(self).mayor_votes
                &&& final(self).victim == old(self).victim
                &&& final(self).poisoned == old(self).poisoned
                &&& final(self).outcome == old(self).outcome
            },
    {
        if self.state != State::Pending || self.roles.len() == 0 {
            return Err(SessionError::NotJoinable);
        }
        match self.roles.pop() {
            Some(role) => Ok(role),
            None => Err(SessionError::NotJoinable),
        }
    }

    /// Adds a participant that has just claimed `role`.
    pub fn register(&mut self, id: usize, role: Role)
        requires
            game_wf(*old(self)),
            !has_id(old(self).players@, id),
        ensures
            game_wf(*final(self)),
            final(self).players@ == old(self).players@.push(new_player(id, role)),
            final(self).roles == old(self).roles,
            final(self).state == old(self).state,
            final(self).mayor_votes == old(self).mayor_votes,
            final(self).victim == old(self).victim,
            final(self).poisoned == old(self).poisoned,
            final(self).outcome == old(self).outcome,
    {
        let p = Player { id, role, lover: None, is_mayor: false, alive: true, acted: false, ballot: None };
        self.players.push(p);
        proof {
            let ps = self.players@;
            assert forall|i: int| 0 <= i < ps.len() && ps[i].lover is Some
                implies has_id(ps, ps[i].lover->0) by {
                let m = choose|m: int| 0 <= m < old(self).players@.len()
                    && old(self).players@[m].id == ps[i].lover->0;
                assert(ps[m].id == ps[i].lover->0);
            }
        }
    }

    fn relink(&mut self, x: usize, y: usize)
        ensures
            final(self).players@ == Seq::new(old(self).players@.len(),
                |i: int| Player { lover: attach_link(old(self).players@[i], x, y), ..old(self).players@[i] }),
            final(self).roles == old(self).roles,
            final(self).state == old(self).state,
            final(self).mayor_votes == old(self).mayor_votes,
            final(self).victim == old(self).victim,
            final(self).poisoned == old(self).poisoned,
            final(self).outcome == old(self).outcome,
    {
        let ghost ps = self.players@;
        let mut i: usize = 0;
        while i < self.players.len()
            invariant
                self.players@.len() == ps.len(),
                i <= ps.len(),
                forall|j: int| 0 <= j < i ==> self.players@[j]
                    == (Player { lover: attach_link(ps[j], x, y), ..ps[j] }),
                forall|j: int| i <= j < ps.len() ==> self.players@[j] == ps[j],
                self.roles == old(self).roles,
                self.state == old(self).state,
                self.mayor_votes == old(self).mayor_votes,
                self.victim == old(self).victim,
                self.poisoned == old(self).poisoned,
                self.outcome == old(self).outcome,
            decreases ps.len() - i,
        {
            let mut p = self.players[i];
            let link = if p.id == x {
                Some(y)
            } else if p.id == y {
                Some(x)
            } else {
                match p.lover {
                    Some(l) => if l == x || l == y { None } else { Some(l) },
                    None => None,
                }
            };
            p.lover = link;
            self.players.set(i, p);
            i = i + 1;
        }
        assert(self.players@ =~= Seq::new(ps.len(),
            |i: int| Player { lover: attach_link(ps[i], x, y), ..ps[i] }));
    }

    fn unlink(&mut self, h: usize)
        ensures
            final(self).players@ == unlinked(old(self).players@, h),
            final(self).roles == old(self).roles,
            final(self).state == old(self).state,
            final(self).mayor_votes == old(self).mayor_votes,
            final(self).victim == old(self).victim,
            final(self).poisoned == old(self).poisoned,
            final(self).outcome == old(self).outcome,
    {
        let ghost ps = self.players@;
        let mut i: usize = 0;
        while i < self.players.len()
            invariant
                self.players@.len() == ps.len(),
                i <= ps.len(),
                forall|j: int| 0 <= j < i ==> self.players@[j] == unlinked(ps, h)[j],
                forall|j: int| i <= j < ps.len() ==> self.players@[j] == ps[j],
                self.roles == old(self).roles,
                self.state == old(self).state,
                self.mayor_votes == old(self).mayor_votes,
                self.victim == old(self).victim,
                self.poisoned == old(self).poisoned,
                self.outcome == old(self).outcome,
            decreases ps.len() - i,
        {
            let mut p = self.players[i];
            if let Some(l) = p.lover {
                if l == h {
                    p.lover = None;
                    self.players.set(i, p);
                }
            }
            i = i + 1;
        }
        assert(self.players@ =~= unlinked(ps, h));
    }

    /// Removes the participant `id`, clearing the link of its lover.
    /// Returns whether such a participant was registered.
    pub fn remove(&mut self, id: usize) -> (r: bool)
        requires
            game_wf(*old(self)),
        ensures
            game_wf(*final(self)),
            r == has_id(old(self).players@, id),
            !r ==> *final(self) == *old(self),
            r ==> forall|k: int| 0 <= k < old(self).players@.len() && old(self).players@[k].id == id
                ==> final(self).players@ == unlinked(old(self).players@, id).remove(k),
            final(self).roles == old(self).roles,
            final(self).state == old(self).state,
            final(self).mayor_votes == old(self).mayor_votes,
            final(self).victim == old(self).victim,
            final(self).poisoned == old(self).poisoned,
            final(self).outcome == old(self).outcome,
    {
        let k = match self.find(id) {
            Some(k) => k,
            None => return false,
        };
        let ghost ps = self.players@;
        self.unlink(id);
        let ghost us = self.players@;
        self.players.remove(k);
        proof {
            let fs = self.players@;
            assert(fs =~= us.remove(k as int));
            assert forall|i: int, j: int|
                0 <= i < fs.len() && 0 <= j < fs.len() && #[trigger] fs[i].lover == Some(#[trigger] fs[j].id)
                implies fs[j].lover == Some(fs[i].id) by {
                let i2 = if i < k { i } else { i + 1 };
                let j2 = if j < k { j } else { j + 1 };
                assert(fs[i] == us[i2] && fs[j] == us[j2]);
                assert(ps[i2].lover == Some(ps[j2].id));
            }
            assert forall|i: int| 0 <= i < fs.len() && fs[i].lover is Some
                implies has_id(fs, fs[i].lover->0) by {
                let i2 = if i < k { i } else { i + 1 };
                assert(fs[i] == us[i2]);
                let m = choose|m: int| 0 <= m < ps.len() && ps[m].id == ps[i2].lover->0;
                assert(m != k);
                let m2 = if m < k { m } else { m - 1 };
                assert(fs[m2].id == fs[i].lover->0);
            }
            assert forall|i: int, j: int| 0 <= i < fs.len() && 0 <= j < fs.len() && i != j
                implies fs[i].id != fs[j].id by {
                let i2 = if i < k { i } else { i + 1 };
                let j2 = if j < k { j } else { j + 1 };
                assert(fs[i] == us[i2] && fs[j] == us[j2]);
            }
            assert forall|kk: int| 0 <= kk < ps.len() && ps[kk].id == id
                implies self.players@ == unlinked(ps, id).remove(kk) by {
                assert(kk == k);
            }
        }
        true
    }

    /// Checks `act` by participant `actor` against its role, the phase and
    /// the targets, and applies its effect. The phase does not change here.
    pub fn apply_action(&mut self, actor: usize, act: Action) -> (r: Result<(), WrongAction>)
        requires
            game_wf(*old(self)),
        ensures
            game_wf(*final(self)),
            r.is_ok() <==> exists|k: int| 0 <= k < old(self).players@.len()
                && old(self).players@[k].id == actor
                && action_allowed(*old(self), old(self).players@[k], act),
            r is Err ==> *final(self) == *old(self),
            r is Ok ==> forall|k: int| 0 <= k < old(self).players@.len()
                && old(self).players@[k].id == actor
                ==> final(self).players@ == acted_players(old(self).players@, k, act),
            r is Ok ==> forall|k: int| 0 <= k < old(self).players@.len()
                && old(self).players@[k].id == actor
                ==> final(self)@ == applied(old(self)@, k, act),
            r is Ok ==> final(self).victim == victim_after(old(self).victim, act),
            r is Ok ==> final(self).poisoned == poisoned_after(old(self).poisoned, act),
            final(self).roles == old(self).roles,
            final(self).state == old(self).state,
            final(self).mayor_votes == old(self).mayor_votes,
            final(self).outcome == old(self).outcome,
    {
        let k = match self.find(actor) {
            Some(k) => k,
            None => return Err(WrongAction),
        };
        let a = self.players[k];
        let ok = a.alive && !a.acted && match act {
            Action::Attach(x, y) => a.role == Role::Amor && self.state == State::Lovers && x != y
                && self.is_living(x) && self.is_living(y),
            Action::Kill(t) => a.role == Role::Werewolf && self.state == State::Night
                && self.is_living(t),
            Action::Heal(t) => (match a.role {
                Role::Witch { heals, .. } => heals > 0,
                _ => false,
            }) && self.state == State::Bewitch && self.is_living(t),
            Action::Poison(t) => (match a.role {
                Role::Witch { poisons, .. } => poisons > 0,
                _ => false,
            }) && self.state == State::Bewitch && self.is_living(t),
            Action::Elect(t) => self.state == State::Election && self.is_living(t),
            Action::Vote(t) => self.state == State::Day && self.is_living(t),
        };
        if !ok {
            return Err(WrongAction);
        }
        let ghost ps = self.players@;
        if let Action::Attach(x, y) = act {
            self.relink(x, y);
        }
        let mut p = self.players[k];
        p.acted = true;
        p.role = match (p.role, act) {
            (Role::Witch { heals, poisons }, Action::Heal(_)) => Role::Witch { heals: heals - 1, poisons },
            (Role::Witch { heals, poisons }, Action::Poison(_)) => Role::Witch { heals, poisons: poisons - 1 },
            (role, _) => role,
        };
        p.ballot = match act {
            Action::Elect(t) => Some(t),
            Action::Vote(t) => Some(t),
            _ => p.ballot,
        };
        self.players.set(k, p);
        match act {
            Action::Kill(t) => self.victim = Some(t),
            Action::Heal(t) => {
                if let Some(v) = self.victim {
                    if v == t {
                        self.victim = None;
                    }
                }
            },
            Action::Poison(t) => self.poisoned = Some(t),
            _ => {},
        }
        proof {
            let fs = self.players@;
            assert(fs =~= acted_players(ps, k as int, act));
            assert forall|kk: int| 0 <= kk < ps.len() && ps[kk].id == actor
                implies fs == acted_players(ps, kk, act) by {
                assert(kk == k);
            }
            if let Action::Attach(x, y) = act {
                let xi = choose|m: int| 0 <= m < ps.len() && ps[m].id == x && ps[m].alive;
                let yi = choose|m: int| 0 <= m < ps.len() && ps[m].id == y && ps[m].alive;
                assert(fs[xi].id == x && fs[yi].id == y);
                assert forall|i: int, j: int|
                    0 <= i < fs.len() && 0 <= j < fs.len() && #[trigger] fs[i].lover == Some(#[trigger] fs[j].id)
                    implies fs[j].lover == Some(fs[i].id) by {
                    if ps[i].id != x && ps[i].id != y {
                        assert(ps[i].lover == Some(ps[j].id));
                    }
                }
                assert forall|i: int| 0 <= i < fs.len() && fs[i].lover is Some
                    implies has_id(fs, fs[i].lover->0) by {
                    if ps[i].id != x && ps[i].id != y {
                        let m = choose|m: int| 0 <= m < ps.len() && ps[m].id == ps[i].lover->0;
                        assert(fs[m].id == fs[i].lover->0);
                    }
                }
            } else {
                assert forall|i: int| 0 <= i < fs.len() && fs[i].lover is Some
                    implies has_id(fs, fs[i].lover->0) by {
                    let m = choose|m: int| 0 <= m < ps.len() && ps[m].id == ps[i].lover->0;
                    assert(fs[m].id == fs[i].lover->0);
                }
            }
        }
        Ok(())
    }
}

} // verus!
