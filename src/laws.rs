use vstd::prelude::*;
use crate::model::{Action, Role, State};
use crate::game::{acted_players, action_allowed, applied, ids_unique, links_mutual, spent_role, unlinked, victim_after, GameView, Player, WerewolfGame};
use crate::phase::{advanced, obliged, plurality, ready, settled, step_player, strict_winner, votes_for};

verus! {

/// Successive joins drain the bag from its end: the bag left after `i`
/// joins is the first `len - i` roles, and join `i` receives the role at
/// position `len - 1 - i`, so no two joins receive the same entry.
/// The premise is what a successful `try_join` guarantees for each join.
pub proof fn lemma_joins_drain_bag(bags: Seq<Seq<Role>>, roles: Seq<Role>)
    requires
        bags.len() == roles.len() + 1,
        forall|i: int| 0 <= i < roles.len() ==> (#[trigger] bags[i]).len() > 0
            && roles[i] == bags[i].last() && bags[i + 1] == bags[i].drop_last(),
    ensures
        forall|i: int| 0 <= i < bags.len() ==> (#[trigger] bags[i]).len() == bags[0].len() - i
            && bags[i] == bags[0].take(bags[0].len() - i),
        forall|i: int| 0 <= i < roles.len() ==> #[trigger] roles[i] == bags[0][bags[0].len() - 1 - i],
    decreases roles.len(),
{
    if roles.len() > 0 {
        let n = roles.len() - 1;
        lemma_joins_drain_bag(bags.take(n + 1), roles.take(n));
        let b0 = bags[0];
        assert forall|i: int| 0 <= i < bags.len() implies (#[trigger] bags[i]).len() == b0.len() - i
            && bags[i] == b0.take(b0.len() - i) by {
            if i == n + 1 {
                assert(bags.take(n + 1)[n] == bags[n]);
                assert(bags[n + 1] =~= b0.take(b0.len() - i));
            } else {
                assert(bags.take(n + 1)[i] == bags[i]);
            }
        }
        assert forall|i: int| 0 <= i < roles.len() implies #[trigger] roles[i] == b0[b0.len() - 1 - i] by {
            if i == n {
                assert(bags.take(n + 1)[n] == bags[n]);
                assert(bags[n] == b0.take(b0.len() - n));
            } else {
                assert(roles.take(n)[i] == roles[i]);
            }
        }
    }
}

/// After an Amor links `x` and `y`, `x`'s lover is `y` and `y`'s lover is `x`.
pub proof fn lemma_attach_is_mutual(ps: Seq<Player>, k: int, x: usize, y: usize)
    requires
        0 <= k < ps.len(),
        x != y,
    ensures
        forall|i: int| 0 <= i < ps.len() && ps[i].id == x
            ==> (#[trigger] acted_players(ps, k, Action::Attach(x, y))[i]).lover == Some(y),
        forall|i: int| 0 <= i < ps.len() && ps[i].id == y
            ==> (#[trigger] acted_players(ps, k, Action::Attach(x, y))[i]).lover == Some(x),
{
}

pub open spec fn heal_times(r: Role, n: nat) -> Role
    decreases n,
{
    if n == 0 { r } else { spent_role(heal_times(r, (n - 1) as nat), Action::Heal(0)) }
}

/// A Witch that started with `n` heals has `n - k` left after `k` heals,
/// and once all `n` are spent a further heal is refused.
pub proof fn lemma_heals_run_out(g: WerewolfGame, a: Player, n: usize, poisons: usize, t: usize)
    ensures
        forall|k: nat| k <= n ==> #[trigger] heal_times(Role::Witch { heals: n, poisons }, k)
            == (Role::Witch { heals: (n - k) as usize, poisons }),
        a.role == heal_times(Role::Witch { heals: n, poisons }, n as nat)
            ==> !action_allowed(g, a, Action::Heal(t)),
{
    assert forall|k: nat| k <= n implies #[trigger] heal_times(Role::Witch { heals: n, poisons }, k)
        == (Role::Witch { heals: (n - k) as usize, poisons }) by {
        lemma_heal_times(n, poisons, k);
    }
    lemma_heal_times(n, poisons, n as nat);
}

proof fn lemma_heal_times(n: usize, poisons: usize, k: nat)
    requires
        k <= n,
    ensures
        heal_times(Role::Witch { heals: n, poisons }, k) == (Role::Witch { heals: (n - k) as usize, poisons }),
    decreases k,
{
    if k > 0 {
        lemma_heal_times(n, poisons, (k - 1) as nat);
    }
}

/// A heal of the night's victim cancels the kill: the victim survives the
/// Bewitch resolution unless poisoned. Without the heal the victim dies.
pub proof fn lemma_heal_saves_victim(v: Option<usize>, p: Player, poisoned: Option<usize>, mayor: Option<usize>)
    ensures
        victim_after(victim_after(v, Action::Kill(p.id)), Action::Heal(p.id)) is None,
        poisoned != Some(p.id) ==> step_player(p,
            victim_after(victim_after(v, Action::Kill(p.id)), Action::Heal(p.id)), poisoned, mayor).alive == p.alive,
        !step_player(p, victim_after(v, Action::Kill(p.id)), poisoned, mayor).alive,
{
}

/// Removing `h` clears the link of its lover; every other link is kept.
pub proof fn lemma_remove_unlinks(ps: Seq<Player>, h: usize, k: int)
    requires
        ids_unique(ps),
        links_mutual(ps),
        0 <= k < ps.len(),
        ps[k].id == h,
    ensures
        unlinked(ps, h).remove(k).len() == ps.len() - 1,
        forall|i: int| #![trigger ps[i]] 0 <= i < ps.len() && i != k ==> {
            &&& unlinked(ps, h).remove(k)[if i < k { i } else { i - 1 }].id == ps[i].id
            &&& ps[k].lover == Some(ps[i].id)
                ==> unlinked(ps, h).remove(k)[if i < k { i } else { i - 1 }].lover is None
            &&& ps[i].lover != Some(h)
                ==> unlinked(ps, h).remove(k)[if i < k { i } else { i - 1 }].lover == ps[i].lover
        },
{
    assert forall|i: int| 0 <= i < ps.len() && i != k && ps[k].lover == Some(ps[i].id)
        implies ps[i].lover == Some(h) by {
        assert(ps[k].lover == Some(ps[i].id));
    }
}

/// A tie for most votes elects nobody: when the Election phase ends, it
/// starts over and no participant's mayor flag changes.
pub proof fn lemma_tie_reopens_election(g: GameView, i: int, j: int)
    requires
        g.state == State::Election,
        0 <= i < g.players.len(),
        0 <= j < g.players.len(),
        i != j,
        votes_for(g.players, g.mayor_votes, g.players[i].id) == votes_for(g.players, g.mayor_votes, g.players[j].id),
        forall|m: int| 0 <= m < g.players.len() ==> votes_for(g.players, g.mayor_votes, (#[trigger] g.players[m]).id)
            <= votes_for(g.players, g.mayor_votes, g.players[i].id),
    ensures
        plurality(g.players, g.mayor_votes) is None,
        advanced(g).state == State::Election,
        advanced(g).players.len() == g.players.len(),
        forall|m: int| 0 <= m < g.players.len()
            ==> (#[trigger] advanced(g).players[m]).is_mayor == g.players[m].is_mayor,
{
    let ps = g.players;
    let mv = g.mayor_votes;
    assert forall|w: int| !strict_winner(ps, mv, w) by {
        if strict_winner(ps, mv, w) {
            if w == i {
                assert(votes_for(ps, mv, ps[j].id) < votes_for(ps, mv, ps[w].id));
            } else {
                assert(votes_for(ps, mv, ps[i].id) < votes_for(ps, mv, ps[w].id));
                assert(votes_for(ps, mv, ps[w].id) <= votes_for(ps, mv, ps[i].id));
            }
        }
    }
}

/// Phase changes never touch who is registered, their roles or their
/// lover links.
pub proof fn lemma_settled_keeps_links(g: GameView, n: nat)
    ensures
        settled(g, n).players.len() == g.players.len(),
        forall|i: int| 0 <= i < g.players.len() ==> {
            &&& (#[trigger] settled(g, n).players[i]).id == g.players[i].id
            &&& settled(g, n).players[i].role == g.players[i].role
            &&& settled(g, n).players[i].lover == g.players[i].lover
        },
    decreases n,
{
    if n > 0 && ready(g) {
        lemma_settled_keeps_links(advanced(g), (n - 1) as nat);
    }
}

/// An accepted Attach of `x` and `y` leaves `x` and `y` linked to each other
/// once the game has moved through the phases it completed.
pub proof fn lemma_attach_then_settle(g: GameView, k: int, x: usize, y: usize)
    requires
        0 <= k < g.players.len(),
        x != y,
    ensures
        forall|i: int| 0 <= i < g.players.len() && g.players[i].id == x
            ==> (#[trigger] settled(applied(g, k, Action::Attach(x, y)), 8).players[i]).lover == Some(y),
        forall|i: int| 0 <= i < g.players.len() && g.players[i].id == y
            ==> (#[trigger] settled(applied(g, k, Action::Attach(x, y)), 8).players[i]).lover == Some(x),
{
    lemma_attach_is_mutual(g.players, k, x, y);
    lemma_settled_keeps_links(applied(g, k, Action::Attach(x, y)), 8);
}

/// A Witch's heal of the night's victim, accepted in Bewitch, leaves the
/// victim alive after the game has moved through the phases it completed,
/// unless the victim was also poisoned.
pub proof fn lemma_heal_then_settle(g: GameView, k: int, t: usize)
    requires
        g.state == State::Bewitch,
        g.victim == Some(t),
        g.poisoned != Some(t),
        0 <= k < g.players.len(),
    ensures
        forall|i: int| 0 <= i < g.players.len() && g.players[i].id == t && g.players[i].alive
            ==> (#[trigger] settled(applied(g, k, Action::Heal(t)), 8).players[i]).alive,
{
    let h = applied(g, k, Action::Heal(t));
    assert(h.victim is None);
    assert forall|i: int| 0 <= i < g.players.len() && g.players[i].id == t && g.players[i].alive
        implies (#[trigger] settled(h, 8).players[i]).alive by {
        assert(h.players[i].alive);
        if ready(h) {
            let a = advanced(h);
            assert(a.players[i].alive);
            assert(settled(h, 8) == settled(a, 7));
            if a.state == State::Election {
                assert(obliged(State::Election, a.players[i]));
                assert(!ready(a));
            }
        }
    }
}

} // verus!
