use vstd::prelude::*;
use crate::model::{Role, WerewolfSettings};

verus! {

/// Settings are usable when the roster has room for one Amor and one Witch
/// beside the werewolves.
pub open spec fn settings_valid(s: WerewolfSettings) -> bool {
    s.num_players >= s.num_werewolfs + 2
}

/// The unshuffled role bag: werewolves, one Amor, one Witch, then villagers.
pub open spec fn pool_seq(s: WerewolfSettings) -> Seq<Role> {
    Seq::new(s.num_werewolfs as nat, |i: int| Role::Werewolf)
        + seq![Role::Amor, Role::Witch { heals: s.heals, poisons: s.poisons }]
        + Seq::new((s.num_players - s.num_werewolfs - 2) as nat, |i: int| Role::Villager)
}

/// Relies on rand's `SliceRandom::shuffle` with the thread-local generator:
/// it only swaps elements, so the result is a permutation of the input.
#[verifier::external_body]
fn shuffle_roles(v: &mut Vec<Role>)
    ensures
        final(v)@.len() == old(v)@.len(),
        final(v)@.to_multiset() == old(v)@.to_multiset(),
{
    rand::seq::SliceRandom::shuffle(v.as_mut_slice(), &mut rand::thread_rng());
}

fn push_copies(v: &mut Vec<Role>, role: Role, n: usize)
    requires
        old(v)@.len() + n <= usize::MAX,
    ensures
        final(v)@ == old(v)@ + Seq::new(n as nat, |i: int| role),
{
    let ghost start = v@;
    let mut k: usize = 0;
    while k < n
        invariant
            k <= n,
            v@ == start + Seq::new(k as nat, |i: int| role),
        decreases n - k,
    {
        v.push(role);
        k = k + 1;
        assert(v@ =~= start + Seq::new(k as nat, |i: int| role));
    }
}

/// Builds the shuffled role bag, one entry per eventual participant.
pub fn build_pool(s: &WerewolfSettings) -> (r: Option<Vec<Role>>)
    ensures
        r.is_some() <==> settings_valid(*s),
        r matches Some(v) ==> v@.len() == s.num_players
            && v@.to_multiset() == pool_seq(*s).to_multiset(),
{
    if s.num_players < 2 || s.num_werewolfs > s.num_players - 2 {
        return None;
    }
    let mut v: Vec<Role> = Vec::new();
    push_copies(&mut v, Role::Werewolf, s.num_werewolfs);
    v.push(Role::Amor);
    v.push(Role::Witch { heals: s.heals, poisons: s.poisons });
    push_copies(&mut v, Role::Villager, s.num_players - s.num_werewolfs - 2);
    assert(v@ =~= pool_seq(*s));
    shuffle_roles(&mut v);
    Some(v)
}

} // verus!
