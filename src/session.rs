use vstd::prelude::*;
use crate::model::{Action, Role, SessionError, State, WerewolfSettings, WrongAction};
use crate::game::{action_allowed, applied, game_wf, joinable, new_player, unlinked, GameView, WerewolfGame};
use crate::parse::{action_of, decode_action};
use crate::phase::{advanced, settled};
use crate::pool::{pool_seq, settings_valid};

verus! {

/// Applies an action and then advances through every phase it completed.
pub fn perform_action(game: &mut WerewolfGame, player: usize, action: Action) -> (r: Result<(), WrongAction>)
    requires
        game_wf(*old(game)),
    ensures
        game_wf(*final(game)),
        r.is_ok() <==> exists|k: int| 0 <= k < old(game).players@.len()
            && old(game).players@[k].id == player
            && action_allowed(*old(game), old(game).players@[k], action),
        r is Err ==> *final(game) == *old(game),
        r is Ok ==> final(game).players@.len() == old(game).players@.len(),
        r is Ok ==> forall|i: int| 0 <= i < old(game).players@.len()
            ==> (#[trigger] final(game).players@[i]).id == old(game).players@[i].id,
        r is Ok ==> forall|k: int| 0 <= k < old(game).players@.len() && old(game).players@[k].id == player
            ==> final(game)@ == settled(#[trigger] applied(old(game)@, k, action), 8),
        final(game).roles == old(game).roles,
{
    let ghost g0 = *game;
    let r = game.apply_action(player, action);
    if r.is_ok() {
        proof {
            let k = choose|k: int| 0 <= k < g0.players@.len() && g0.players@[k].id == player
                && action_allowed(g0, g0.players@[k], action);
            assert(game@ == applied(g0@, k, action));
        }
        game.settle();
    }
    r
}

/// The one game of the process and the handle counter.
#[derive(Debug)]
pub struct Session {
    pub game: Option<WerewolfGame>,
    /// The handle the next participant receives.
    pub next_id: usize,
}

pub open spec fn session_wf(s: Session) -> bool {
    &&& s.next_id >= 1
    &&& s.game matches Some(g) ==> {
        &&& game_wf(g)
        &&& forall|i: int| 0 <= i < g.players@.len() ==> (#[trigger] g.players@[i]).id < s.next_id
    }
}

impl Session {
    /// A session with no game; handles start at 1.
    pub fn new() -> (r: Session)
        ensures
            session_wf(r),
            r.game is None,
            r.next_id == 1,
    {
        Session { game: None, next_id: 1 }
    }

    /// Starts the game, unless one exists or the settings are unusable.
    pub fn create_game(&mut self, settings: WerewolfSettings) -> (r: Result<(), SessionError>)
        requires
            session_wf(*old(self)),
        ensures
            session_wf(*final(self)),
            old(self).game is Some ==> r == Err::<(), SessionError>(SessionError::AlreadyExists),
            old(self).game is None && !settings_valid(settings)
                ==> r == Err::<(), SessionError>(SessionError::InvalidSettings),
            r is Err ==> *final(self) == *old(self),
            r.is_ok() <==> old(self).game is None && settings_valid(settings),
            r is Ok ==> final(self).next_id == old(self).next_id,
            r is Ok ==> (final(self).game matches Some(g) && {
                &&& g.state == State::Pending
                &&& g.players@.len() == 0
                &&& g.roles@.len() == settings.num_players
                &&& g.roles@.to_multiset() == pool_seq(settings).to_multiset()
                &&& g.mayor_votes == settings.mayor_votes
            }),
    {
        if self.game.is_some() {
            return Err(SessionError::AlreadyExists);
        }
        match WerewolfGame::new(settings) {
            Ok(g) => {
                self.game = Some(g);
                Ok(())
            },
            Err(e) => Err(e),
        }
    }

    /// Whether a connection arriving now could join.
    pub fn can_join(&self) -> (r: bool)
        ensures
            r == (self.game matches Some(g) && joinable(g)),
    {
        match &self.game {
            Some(g) => g.state == State::Pending && g.roles.len() > 0,
            None => false,
        }
    }

    /// Admits a participant: issues the next handle, claims a role and
    /// registers the participant in one step, then advances the phase if
    /// the bag is now empty.
    pub fn join_game(&mut self) -> (r: Result<(usize, Role), SessionError>)
        requires
            session_wf(*old(self)),
        ensures
            session_wf(*final(self)),
            r.is_ok() <==> (old(self).game matches Some(g) && joinable(g)) && old(self).next_id < usize::MAX,
            r is Err ==> r == Err::<(usize, Role), SessionError>(SessionError::NotJoinable)
                && *final(self) == *old(self),
            r matches Ok((id, role)) ==> {
                let g0 = old(self).game->0;
                let g1 = final(self).game->0;
                &&& final(self).game is Some
                &&& id == old(self).next_id
                &&& final(self).next_id == old(self).next_id + 1
                &&& role == g0.roles@.last()
                &&& g1.roles@ == g0.roles@.drop_last()
                &&& g1.players@.len() == g0.players@.len() + 1
                &&& g1.players@.last().id == id
                &&& g1.players@.last().role == role
                &&& forall|i: int| 0 <= i < g0.players@.len() ==>
                    (#[trigger] g1.players@[i]).id == g0.players@[i].id && g1.players@[i].role == g0.players@[i].role
                &&& g1@ == settled(GameView {
                    roles: g0.roles@.drop_last(),
                    players: g0.players@.push(new_player(id, role)),
                    ..g0@
                }, 8)
            },
    {
        if self.next_id == usize::MAX {
            return Err(SessionError::NotJoinable);
        }
        let id = self.next_id;
        let r = match &mut self.game {
            None => Err(SessionError::NotJoinable),
            Some(g) => match g.try_join() {
                Err(e) => Err(e),
                Ok(role) => {
                    g.register(id, role);
                    g.settle();
                    Ok((id, role))
                },
            },
        };
        if r.is_ok() {
            self.next_id = id + 1;
        }
        r
    }

    /// Handles one decoded action of participant `id`.
    pub fn act(&mut self, id: usize, action: Action) -> (r: Result<(), WrongAction>)
        requires
            session_wf(*old(self)),
        ensures
            session_wf(*final(self)),
            r.is_ok() <==> (old(self).game matches Some(g) && exists|k: int| 0 <= k < g.players@.len()
                && g.players@[k].id == id && action_allowed(g, g.players@[k], action)),
            r is Err ==> *final(self) == *old(self),
            r is Ok ==> final(self).game is Some && final(self).next_id == old(self).next_id,
            r is Ok ==> forall|k: int|
                0 <= k < old(self).game->0.players@.len() && old(self).game->0.players@[k].id == id
                ==> final(self).game->0@ == settled(#[trigger] applied(old(self).game->0@, k, action), 8),
    {
        match &mut self.game {
            None => Err(WrongAction),
            Some(g) => perform_action(g, id, action),
        }
    }

    /// Removes participant `id`, if registered, and lets the game go on
    /// without it. Returns whether it was registered.
    pub fn disconnect(&mut self, id: usize) -> (r: bool)
        requires
            session_wf(*old(self)),
        ensures
            session_wf(*final(self)),
            r == (old(self).game matches Some(g) && crate::game::has_id(g.players@, id)),
            !r ==> *final(self) == *old(self),
            r ==> {
                let ps = old(self).game->0.players@;
                let fs = final(self).game->0.players@;
                &&& final(self).game is Some
                &&& final(self).next_id == old(self).next_id
                &&& final(self).game->0.roles@ == old(self).game->0.roles@
                &&& forall|k: int| 0 <= k < ps.len() && ps[k].id == id ==> {
                    &&& final(self).game->0@ == settled(GameView {
                        players: unlinked(ps, id).remove(k),
                        ..old(self).game->0@
                    }, 8)
                    &&& fs.len() == ps.len() - 1
                    &&& forall|i: int| 0 <= i < fs.len() ==> {
                        &&& (#[trigger] fs[i]).id == unlinked(ps, id).remove(k)[i].id
                        &&& fs[i].lover == unlinked(ps, id).remove(k)[i].lover
                        &&& fs[i].role == unlinked(ps, id).remove(k)[i].role
                    }
                }
            },
    {
        match &mut self.game {
            None => false,
            Some(g) => {
                let ghost ps = g.players@;
                let found = g.remove(id);
                if found {
                    proof {
                        let k = choose|k: int| 0 <= k < ps.len() && ps[k].id == id;
                        assert(g.players@ == unlinked(ps, id).remove(k));
                        assert forall|i: int| 0 <= i < g.players@.len()
                            implies (#[trigger] g.players@[i]).id < self.next_id by {
                            let i2 = if i < k { i } else { i + 1 };
                            assert(g.players@[i].id == ps[i2].id);
                        }
                    }
                    g.settle();
                }
                found
            },
        }
    }

    /// Ends the current phase without waiting for the remaining actors.
    pub fn force_advance(&mut self)
        requires
            session_wf(*old(self)),
        ensures
            session_wf(*final(self)),
            old(self).game is None ==> *final(self) == *old(self),
            final(self).next_id == old(self).next_id,
            old(self).game is Some ==> final(self).game is Some
                && final(self).game->0@ == settled(advanced(old(self).game->0@), 8),
    {
        if let Some(g) = &mut self.game {
            g.advance();
            g.settle();
        }
    }

    /// Decodes an inbound line of participant `id` and handles the action;
    /// a malformed line changes nothing.
    pub fn process_msg(&mut self, id: usize, line: &[u8]) -> (r: Result<(), WrongAction>)
        requires
            session_wf(*old(self)),
        ensures
            session_wf(*final(self)),
            r.is_ok() <==> (action_of(line@) matches Some(a) && old(self).game matches Some(g)
                && exists|k: int| 0 <= k < g.players@.len() && g.players@[k].id == id
                && action_allowed(g, g.players@[k], a)),
            r is Err ==> *final(self) == *old(self),
            r is Ok ==> final(self).game is Some && final(self).next_id == old(self).next_id,
            r is Ok ==> forall|k: int|
                0 <= k < old(self).game->0.players@.len() && old(self).game->0.players@[k].id == id
                ==> final(self).game->0@ == settled(#[trigger] applied(old(self).game->0@, k, action_of(line@)->0), 8),
    {
        match decode_action(line) {
            Ok(action) => self.act(id, action),
            Err(e) => Err(e),
        }
    }
}

} // verus!
