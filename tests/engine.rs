use werewolf_backend::access::token_matches;
use werewolf_backend::game::{Player, WerewolfGame};
use werewolf_backend::model::{Action, Outcome, Role, SessionError, State, WerewolfSettings, WrongAction};
use werewolf_backend::parse::{decode_action, IntoAction};
use werewolf_backend::session::{perform_action, Session};

fn settings(num_players: usize, num_werewolfs: usize) -> WerewolfSettings {
    WerewolfSettings { num_players, num_werewolfs, heals: 1, poisons: 1, mayor_votes: 2 }
}

fn player(id: usize, role: Role) -> Player {
    Player { id, role, lover: None, is_mayor: false, alive: true, acted: false, ballot: None }
}

fn game(state: State, players: Vec<Player>) -> WerewolfGame {
    WerewolfGame {
        roles: Vec::new(),
        state,
        players,
        mayor_votes: 2,
        victim: None,
        poisoned: None,
        outcome: None,
    }
}

fn get(g: &WerewolfGame, id: usize) -> Player {
    *g.players.iter().find(|p| p.id == id).unwrap()
}

fn id_with(g: &WerewolfGame, role: Role) -> usize {
    g.players.iter().find(|p| p.role == role).unwrap().id
}

fn witch_id(g: &WerewolfGame) -> usize {
    g.players.iter().find(|p| matches!(p.role, Role::Witch { .. })).unwrap().id
}

#[test]
fn pool_has_each_role_once_per_player() {
    let g = WerewolfGame::new(settings(7, 2)).unwrap();
    assert_eq!(g.roles.len(), 7);
    assert_eq!(g.roles.iter().filter(|r| **r == Role::Werewolf).count(), 2);
    assert_eq!(g.roles.iter().filter(|r| **r == Role::Amor).count(), 1);
    assert_eq!(g.roles.iter().filter(|r| **r == Role::Witch { heals: 1, poisons: 1 }).count(), 1);
    assert_eq!(g.roles.iter().filter(|r| **r == Role::Villager).count(), 3);
    assert_eq!(g.state, State::Pending);
    assert!(g.players.is_empty());
}

#[test]
fn pool_smallest_roster() {
    let g = WerewolfGame::new(settings(2, 0)).unwrap();
    assert_eq!(g.roles.len(), 2);
    assert!(g.roles.contains(&Role::Amor));
}

#[test]
fn undersized_roster_is_invalid() {
    assert_eq!(WerewolfGame::new(settings(3, 2)).err(), Some(SessionError::InvalidSettings));
    assert_eq!(WerewolfGame::new(settings(1, 0)).err(), Some(SessionError::InvalidSettings));
    let mut s = Session::new();
    assert_eq!(s.create_game(settings(2, 1)), Err(SessionError::InvalidSettings));
    assert!(s.game.is_none());
}

#[test]
fn second_create_conflicts() {
    let mut s = Session::new();
    assert_eq!(s.create_game(settings(4, 1)), Ok(()));
    assert_eq!(s.create_game(settings(5, 1)), Err(SessionError::AlreadyExists));
    assert_eq!(s.game.as_ref().unwrap().roles.len(), 4);
}

#[test]
fn join_without_game_is_refused() {
    let mut s = Session::new();
    assert!(!s.can_join());
    assert_eq!(s.join_game(), Err(SessionError::NotJoinable));
    assert_eq!(s.next_id, 1);
}

#[test]
fn each_join_takes_the_last_role() {
    let mut s = Session::new();
    s.create_game(settings(5, 1)).unwrap();
    let mut seen = Vec::new();
    for n in 0..5usize {
        let bag = s.game.as_ref().unwrap().roles.clone();
        assert_eq!(bag.len(), 5 - n);
        let (id, role) = s.join_game().unwrap();
        assert_eq!(id, n + 1);
        assert_eq!(role, bag[bag.len() - 1]);
        assert_eq!(s.game.as_ref().unwrap().roles.len(), 4 - n);
        assert!(!seen.contains(&id));
        seen.push(id);
    }
}

#[test]
fn join_after_pending_changes_nothing() {
    let mut g = WerewolfGame::new(settings(4, 1)).unwrap();
    g.state = State::Night;
    assert_eq!(g.try_join(), Err(SessionError::NotJoinable));
    assert_eq!(g.roles.len(), 4);
    let mut empty = game(State::Pending, vec![]);
    assert_eq!(empty.try_join(), Err(SessionError::NotJoinable));
}

#[test]
fn attach_links_both_ways() {
    let mut g = game(State::Lovers, vec![player(1, Role::Amor), player(2, Role::Villager), player(3, Role::Villager)]);
    assert_eq!(g.apply_action(1, Action::Attach(2, 3)), Ok(()));
    assert_eq!(get(&g, 2).lover, Some(3));
    assert_eq!(get(&g, 3).lover, Some(2));
    assert_eq!(get(&g, 1).lover, None);
    assert!(get(&g, 1).acted);
}

#[test]
fn attach_refused_outside_lovers_or_by_others() {
    let mut g = game(State::Night, vec![player(1, Role::Amor), player(2, Role::Villager), player(3, Role::Villager)]);
    assert_eq!(g.apply_action(1, Action::Attach(2, 3)), Err(WrongAction));
    g.state = State::Lovers;
    assert_eq!(g.apply_action(2, Action::Attach(1, 3)), Err(WrongAction));
    assert_eq!(g.apply_action(1, Action::Attach(2, 2)), Err(WrongAction));
    assert_eq!(g.apply_action(1, Action::Attach(2, 9)), Err(WrongAction));
    assert_eq!(get(&g, 2).lover, None);
}

#[test]
fn heals_cannot_exceed_their_count() {
    let mut g = game(State::Bewitch, vec![player(1, Role::Witch { heals: 1, poisons: 0 }), player(2, Role::Villager)]);
    assert_eq!(g.apply_action(1, Action::Heal(2)), Ok(()));
    assert_eq!(get(&g, 1).role, Role::Witch { heals: 0, poisons: 0 });
    let mut w = get(&g, 1);
    w.acted = false;
    g.players[0] = w;
    assert_eq!(g.apply_action(1, Action::Heal(2)), Err(WrongAction));
    assert_eq!(get(&g, 1).role, Role::Witch { heals: 0, poisons: 0 });
}

#[test]
fn poison_spends_one_and_kills() {
    let mut g = game(State::Bewitch, vec![
        player(1, Role::Witch { heals: 0, poisons: 2 }),
        player(2, Role::Werewolf),
        player(3, Role::Villager),
        player(4, Role::Villager),
    ]);
    assert_eq!(perform_action(&mut g, 1, Action::Poison(2)), Ok(()));
    assert!(!get(&g, 2).alive);
    assert_eq!(get(&g, 1).role, Role::Witch { heals: 0, poisons: 1 });
    assert_eq!(g.state, State::Ended);
    assert_eq!(g.outcome, Some(Outcome::Villagers));
}

#[test]
fn healed_victim_survives_the_night() {
    let mut g = game(State::Night, vec![
        player(1, Role::Werewolf),
        player(2, Role::Witch { heals: 1, poisons: 1 }),
        player(3, Role::Villager),
        player(4, Role::Villager),
    ]);
    assert_eq!(perform_action(&mut g, 1, Action::Kill(3)), Ok(()));
    assert_eq!(g.state, State::Bewitch);
    assert_eq!(g.victim, Some(3));
    assert_eq!(perform_action(&mut g, 2, Action::Heal(3)), Ok(()));
    assert_eq!(g.state, State::Election);
    assert!(get(&g, 3).alive);
    assert_eq!(g.victim, None);
}

#[test]
fn unhealed_victim_dies() {
    let mut g = game(State::Night, vec![
        player(1, Role::Werewolf),
        player(2, Role::Witch { heals: 1, poisons: 1 }),
        player(3, Role::Villager),
        player(4, Role::Villager),
        player(5, Role::Villager),
    ]);
    assert_eq!(perform_action(&mut g, 1, Action::Kill(3)), Ok(()));
    g.advance();
    assert!(!get(&g, 3).alive);
    assert_eq!(g.state, State::Election);
    assert_eq!(perform_action(&mut g, 1, Action::Elect(2)), Ok(()));
    assert_eq!(perform_action(&mut g, 3, Action::Elect(2)), Err(WrongAction));
}

#[test]
fn removing_a_lover_clears_the_partner() {
    let mut g = game(State::Lovers, vec![
        player(1, Role::Amor),
        player(2, Role::Villager),
        player(3, Role::Villager),
        player(4, Role::Werewolf),
    ]);
    g.apply_action(1, Action::Attach(2, 3)).unwrap();
    assert!(g.remove(2));
    assert_eq!(g.players.len(), 3);
    assert_eq!(get(&g, 3).lover, None);
    assert!(!g.remove(2));

    let mut h = game(State::Lovers, vec![
        player(1, Role::Amor),
        player(2, Role::Villager),
        player(3, Role::Villager),
        player(4, Role::Werewolf),
    ]);
    h.apply_action(1, Action::Attach(2, 3)).unwrap();
    assert!(h.remove(4));
    assert_eq!(get(&h, 2).lover, Some(3));
    assert_eq!(get(&h, 3).lover, Some(2));
}

#[test]
fn election_tie_elects_nobody() {
    let mut ps = Vec::new();
    for id in 1..=6usize {
        ps.push(player(id, if id == 6 { Role::Werewolf } else { Role::Villager }));
    }
    let mut g = game(State::Election, ps);
    for voter in 1..=3usize {
        assert_eq!(perform_action(&mut g, voter, Action::Elect(1)), Ok(()));
    }
    for voter in 4..=5usize {
        assert_eq!(perform_action(&mut g, voter, Action::Elect(2)), Ok(()));
    }
    assert_eq!(g.tally(1), 3);
    assert_eq!(perform_action(&mut g, 6, Action::Elect(2)), Ok(()));
    assert_eq!(g.state, State::Election);
    assert!(g.players.iter().all(|p| !p.is_mayor && !p.acted && p.ballot.is_none()));
}

#[test]
fn election_winner_becomes_mayor_and_counts_double() {
    let mut g = game(State::Election, vec![
        player(1, Role::Villager),
        player(2, Role::Villager),
        player(3, Role::Werewolf),
        player(4, Role::Villager),
    ]);
    for voter in 1..=4usize {
        let t = if voter == 3 { 3 } else { 1 };
        perform_action(&mut g, voter, Action::Elect(t)).unwrap();
    }
    assert_eq!(g.state, State::Day);
    assert!(get(&g, 1).is_mayor);
    perform_action(&mut g, 1, Action::Vote(3)).unwrap();
    perform_action(&mut g, 2, Action::Vote(4)).unwrap();
    perform_action(&mut g, 3, Action::Vote(4)).unwrap();
    assert_eq!(g.tally(3), 2);
    assert_eq!(g.winner(), None);
    perform_action(&mut g, 4, Action::Vote(3)).unwrap();
    assert!(!get(&g, 3).alive);
    assert_eq!(g.state, State::Ended);
    assert_eq!(g.outcome, Some(Outcome::Villagers));
}

#[test]
fn day_tie_eliminates_nobody() {
    let mut g = game(State::Day, vec![
        player(1, Role::Villager),
        player(2, Role::Villager),
        player(3, Role::Werewolf),
        player(4, Role::Villager),
    ]);
    perform_action(&mut g, 1, Action::Vote(3)).unwrap();
    perform_action(&mut g, 2, Action::Vote(3)).unwrap();
    perform_action(&mut g, 3, Action::Vote(4)).unwrap();
    perform_action(&mut g, 4, Action::Vote(4)).unwrap();
    assert!(g.players.iter().all(|p| p.alive));
    assert_eq!(g.state, State::Night);
}

#[test]
fn werewolves_win_on_parity() {
    let mut g = game(State::Day, vec![player(1, Role::Werewolf), player(2, Role::Villager), player(3, Role::Villager)]);
    perform_action(&mut g, 1, Action::Vote(2)).unwrap();
    perform_action(&mut g, 2, Action::Vote(2)).unwrap();
    perform_action(&mut g, 3, Action::Vote(2)).unwrap();
    assert_eq!(g.state, State::Ended);
    assert_eq!(g.outcome, Some(Outcome::Werewolves));
    assert_eq!(g.decided(), Some(Outcome::Werewolves));
}

#[test]
fn disconnect_of_obligated_actor_unblocks_phase() {
    let mut s = Session::new();
    s.create_game(settings(4, 1)).unwrap();
    for _ in 0..4 {
        s.join_game().unwrap();
    }
    let g = s.game.as_ref().unwrap();
    assert_eq!(g.state, State::Lovers);
    let amor = id_with(g, Role::Amor);
    assert!(s.disconnect(amor));
    assert_eq!(s.game.as_ref().unwrap().state, State::Night);
    assert!(!s.disconnect(amor));
}

#[test]
fn force_advance_moves_on() {
    let mut g = game(State::Night, vec![player(1, Role::Werewolf), player(2, Role::Villager), player(3, Role::Villager)]);
    assert!(!g.is_ready());
    g.advance();
    assert_eq!(g.state, State::Bewitch);
    let mut s = Session::new();
    s.force_advance();
    assert!(s.game.is_none());
}

#[test]
fn seven_player_game_end_to_end() {
    let mut s = Session::new();
    let cfg = WerewolfSettings { num_players: 7, num_werewolfs: 1, heals: 1, poisons: 1, mayor_votes: 2 };
    assert_eq!(s.create_game(cfg), Ok(()));
    for n in 1..=7usize {
        let (id, _) = s.join_game().unwrap();
        assert_eq!(id, n);
    }
    assert_eq!(s.join_game(), Err(SessionError::NotJoinable));
    let g = s.game.as_ref().unwrap();
    assert_eq!(g.state, State::Lovers);
    let amor = id_with(g, Role::Amor);
    let wolf = id_with(g, Role::Werewolf);
    let witch = witch_id(g);
    let others: Vec<usize> = (1..=7usize).filter(|i| *i != amor).collect();
    let line = format!("attach {} {}", others[0], others[1]);
    assert_eq!(s.process_msg(amor, line.as_bytes()), Ok(()));
    assert_eq!(s.game.as_ref().unwrap().state, State::Night);
    assert_eq!(s.process_msg(wolf, b"kill 3"), Ok(()));
    assert_eq!(s.game.as_ref().unwrap().state, State::Bewitch);
    assert_eq!(s.process_msg(witch, b"heal 3"), Ok(()));
    let g = s.game.as_ref().unwrap();
    assert_eq!(g.state, State::Election);
    assert!(get(g, 3).alive);
    assert!(g.players.iter().all(|p| p.alive));
}

#[test]
fn malformed_lines_are_dropped() {
    let mut s = Session::new();
    s.create_game(settings(2, 0)).unwrap();
    s.join_game().unwrap();
    assert_eq!(s.process_msg(1, b"dance 1"), Err(WrongAction));
    assert_eq!(s.process_msg(1, b""), Err(WrongAction));
    assert_eq!(s.process_msg(1, b"kill"), Err(WrongAction));
}

#[test]
fn decode_each_verb() {
    assert_eq!(decode_action(b"attach 1 2"), Ok(Action::Attach(1, 2)));
    assert_eq!(decode_action(b"kill 3"), Ok(Action::Kill(3)));
    assert_eq!(decode_action(b"elect 4"), Ok(Action::Elect(4)));
    assert_eq!(decode_action(b"vote 5"), Ok(Action::Vote(5)));
    assert_eq!(decode_action(b"heal 6"), Ok(Action::Heal(6)));
    assert_eq!(decode_action(b"poison 7"), Ok(Action::Poison(7)));
    assert_eq!((&b"  vote\t+12  extra "[..]).into_action(), Ok(Action::Vote(12)));
}

#[test]
fn decode_rejects_malformed() {
    assert_eq!(decode_action(b"attach 1"), Err(WrongAction));
    assert_eq!(decode_action(b"attach 1 x"), Err(WrongAction));
    assert_eq!(decode_action(b"kill x"), Err(WrongAction));
    assert_eq!(decode_action(b"kill -1"), Err(WrongAction));
    assert_eq!(decode_action(b"kill +"), Err(WrongAction));
    assert_eq!(decode_action(b"Kill 1"), Err(WrongAction));
    assert_eq!(decode_action(b"kill 99999999999999999999999"), Err(WrongAction));
    assert_eq!(decode_action(b"jump 1"), Err(WrongAction));
    assert_eq!(decode_action(b"   "), Err(WrongAction));
}

#[test]
fn state_names() {
    assert_eq!(State::Pending.name(), "pending");
    assert_eq!(State::Bewitch.name(), "bewitch");
    assert_eq!(State::Day.name(), "day");
    assert_eq!(State::Ended.name(), "ended");
}

#[test]
fn pool_order_is_shuffled() {
    let first = WerewolfGame::new(settings(12, 3)).unwrap().roles;
    let differs = (0..40).any(|_| WerewolfGame::new(settings(12, 3)).unwrap().roles != first);
    assert!(differs);
}

#[test]
fn decode_splits_on_unicode_whitespace() {
    assert_eq!(decode_action("kill\u{a0}3".as_bytes()), Ok(Action::Kill(3)));
    assert_eq!(decode_action("vote\u{3000}4".as_bytes()), Ok(Action::Vote(4)));
    assert_eq!(decode_action("attach\u{2003}1\u{85}2".as_bytes()), Ok(Action::Attach(1, 2)));
    assert_eq!(decode_action("heal\u{e9}3".as_bytes()), Err(WrongAction));
}

#[test]
fn token_comparison() {
    assert!(token_matches(&"1235".to_string(), &"1235".to_string()));
    assert!(!token_matches(&"1234".to_string(), &"1235".to_string()));
    assert!(!token_matches(&String::new(), &"1235".to_string()));
}
