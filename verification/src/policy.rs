//! Speaking order and stance assignment per turn policy.

use vstd::prelude::*;
use vstd::seq_lib::lemma_seq_union_to_multiset_commutative;

use crate::model::{enabled_of, lemma_enabled_of_members, Agent, Room, TurnPolicy};

verus! {

/// A sequence rotated left by `k` positions.
pub open spec fn rotated(s: Seq<Agent>, k: int) -> Seq<Agent> {
    s.skip(k) + s.take(k)
}

/// The order agents speak in for one round: the enabled agents, rotated so
/// that the opener moves on by one position per round.
pub open spec fn order_for(agents: Seq<Agent>, round: u32) -> Seq<Agent> {
    let active = enabled_of(agents);
    if active.len() == 0 {
        Seq::empty()
    } else {
        rotated(active, (round as int) % (active.len() as int))
    }
}

/// The order agents speak in for one round.
///
/// The starting position rotates with the round so the same agent does not
/// always set the frame, which measurably skews later contributions.
pub fn speaking_order(room: &Room, round: u32) -> (order: Vec<Agent>)
    ensures
        order@ == order_for(room.agents@, round),
{
    let agents = room.active_agents();
    let n = agents.len();
    if n == 0 {
        return Vec::new();
    }
    let offset = (round as usize) % n;
    let ghost active = agents@;
    let mut order: Vec<Agent> = Vec::new();
    let mut i = offset;
    while i < n
        invariant
            agents@ == active,
            n == active.len(),
            offset <= i <= n,
            order@ == active.subrange(offset as int, i as int),
        decreases n - i,
    {
        order.push(agents[i].clone());
        assert(active.subrange(offset as int, i + 1) =~= active.subrange(offset as int, i as int).push(
            active[i as int],
        ));
        i = i + 1;
    }
    let mut j: usize = 0;
    while j < offset
        invariant
            agents@ == active,
            n == active.len(),
            offset < n,
            j <= offset,
            order@ == active.skip(offset as int) + active.take(j as int),
        decreases offset - j,
    {
        order.push(agents[j].clone());
        assert(active.take(j + 1) =~= active.take(j as int).push(active[j as int]));
        assert(active.skip(offset as int) + active.take(j + 1) =~= (active.skip(offset as int)
            + active.take(j as int)).push(active[j as int]));
        j = j + 1;
    }
    proof {
        assert(active.subrange(offset as int, n as int) =~= active.skip(offset as int));
    }
    order
}

/// Every round's order holds each enabled agent once: position `i` is the
/// enabled agent at `(i + round) mod n`, where `n` counts the enabled agents.
pub proof fn lemma_order_positions(agents: Seq<Agent>, round: u32)
    ensures
        order_for(agents, round).len() == enabled_of(agents).len(),
        forall|i: int|
            0 <= i < order_for(agents, round).len() ==> #[trigger] order_for(agents, round)[i]
                == enabled_of(agents)[(i + round) % (enabled_of(agents).len() as int)],
{
    let active = enabled_of(agents);
    let n = active.len() as int;
    if n > 0 {
        let k = (round as int) % n;
        assert(0 <= k < n);
        assert forall|i: int| 0 <= i < n implies #[trigger] order_for(agents, round)[i] == active[(i
            + round) % n] by {
            assert((i + round) % n == (i + k) % n) by (nonlinear_arith)
                requires
                    n > 0,
                    k == (round as int) % n,
            ;
            if i < n - k {
                assert((i + k) % n == i + k) by (nonlinear_arith)
                    requires
                        0 <= i + k < n,
                ;
            } else {
                assert((i + k) % n == i + k - n) by (nonlinear_arith)
                    requires
                        n <= i + k < 2 * n,
                ;
            }
        }
    }
}

/// The order of a round is a permutation of the enabled agents: the same
/// agents, each as often, and nobody who is disabled or not in the room.
pub proof fn lemma_order_is_permutation(agents: Seq<Agent>, round: u32)
    ensures
        order_for(agents, round).to_multiset() == enabled_of(agents).to_multiset(),
        forall|a: Agent| #[trigger] order_for(agents, round).contains(a) ==> a.enabled && agents.contains(a)
            && enabled_of(agents).contains(a),
        forall|i: int| 0 <= i < agents.len() && (#[trigger] agents[i]).enabled ==> order_for(
            agents,
            round,
        ).contains(agents[i]),
{
    broadcast use vstd::seq_lib::group_to_multiset_ensures;

    let active = enabled_of(agents);
    lemma_enabled_of_members(agents);
    if active.len() > 0 {
        let k = (round as int) % (active.len() as int);
        lemma_seq_union_to_multiset_commutative(active.skip(k), active.take(k));
        assert(active.take(k) + active.skip(k) =~= active);
    }
    let order = order_for(agents, round);
    assert forall|a: Agent| #[trigger] order.contains(a) implies a.enabled && agents.contains(a)
        && active.contains(a) by {
        assert(order.to_multiset().count(a) > 0);
        assert(active.contains(a));
        let i = choose|i: int| 0 <= i < active.len() && active[i] == a;
        assert(active[i].enabled);
    }
    assert forall|i: int| 0 <= i < agents.len() && (#[trigger] agents[i]).enabled implies order.contains(
        agents[i],
    ) by {
        assert(active.contains(agents[i]));
        assert(active.to_multiset().count(agents[i]) > 0);
    }
}

/// After as many rounds as there are enabled agents the order repeats.
pub proof fn lemma_order_repeats(agents: Seq<Agent>, round: u32, later: u32)
    requires
        later == round + enabled_of(agents).len(),
    ensures
        order_for(agents, later) == order_for(agents, round),
{
    let n = enabled_of(agents).len() as int;
    if n > 0 {
        assert((later as int) % n == (round as int) % n) by (nonlinear_arith)
            requires
                n > 0,
                later == round + n,
        ;
    }
}

/// Stances handed out in a debate, cycled over the participants.
pub open spec fn stance_text(index: int) -> Seq<char> {
    if index == 0 {
        "argue in favour, and defend the position under challenge"@
    } else if index == 1 {
        "argue against, and probe the weakest part of the previous argument"@
    } else {
        "stay neutral: weigh both sides and name what is still unresolved"@
    }
}

/// The stance the policy assigns to a position, if any.
pub open spec fn stance_of(policy: TurnPolicy, position: int) -> Option<Seq<char>> {
    if policy == TurnPolicy::Debate {
        Some(stance_text(position % 3))
    } else {
        None
    }
}

/// The stance an agent argues from, if the policy assigns one.
pub fn stance_for(policy: TurnPolicy, position: usize) -> (stance: Option<&'static str>)
    ensures
        stance is Some <==> stance_of(policy, position as int) is Some,
        stance matches Some(s) ==> stance_of(policy, position as int) == Some(s@),
        stance is Some <==> policy == TurnPolicy::Debate,
        policy == TurnPolicy::Debate && position % 3 == 0 ==> (stance matches Some(s) && s@
            == "argue in favour, and defend the position under challenge"@),
        policy == TurnPolicy::Debate && position % 3 == 1 ==> (stance matches Some(s) && s@
            == "argue against, and probe the weakest part of the previous argument"@),
        policy == TurnPolicy::Debate && position % 3 == 2 ==> (stance matches Some(s) && s@
            == "stay neutral: weigh both sides and name what is still unresolved"@),
{
    match policy {
        TurnPolicy::Debate => {
            let index = position % 3;
            if index == 0 {
                Some("argue in favour, and defend the position under challenge")
            } else if index == 1 {
                Some("argue against, and probe the weakest part of the previous argument")
            } else {
                Some("stay neutral: weigh both sides and name what is still unresolved")
            }
        },
        _ => None,
    }
}

/// Stances repeat every three speakers, and only a debate hands them out.
pub proof fn lemma_stances_cycle(policy: TurnPolicy, position: nat)
    ensures
        stance_of(policy, position + 3int) == stance_of(policy, position as int),
        stance_of(policy, position as int) is Some <==> policy == TurnPolicy::Debate,
{
    assert((position + 3) % 3 == position % 3);
}

/// In a debate the speakers take the stances in favour, against and neutral,
/// in that order and then again from the start: three neighbouring speakers
/// are never told the same, and the third is the neutral one.
pub proof fn lemma_debate_stances(position: nat)
    ensures
        stance_of(TurnPolicy::Debate, position as int) == Some(
            if position % 3 == 0 {
                "argue in favour, and defend the position under challenge"@
            } else if position % 3 == 1 {
                "argue against, and probe the weakest part of the previous argument"@
            } else {
                "stay neutral: weigh both sides and name what is still unresolved"@
            },
        ),
        stance_of(TurnPolicy::Debate, position as int) != stance_of(
            TurnPolicy::Debate,
            position + 1int,
        ),
        stance_of(TurnPolicy::Debate, position as int) != stance_of(
            TurnPolicy::Debate,
            position + 2int,
        ),
{
    reveal_strlit("argue in favour, and defend the position under challenge");
    reveal_strlit("argue against, and probe the weakest part of the previous argument");
    reveal_strlit("stay neutral: weigh both sides and name what is still unresolved");
    let a = "argue in favour, and defend the position under challenge"@;
    let b = "argue against, and probe the weakest part of the previous argument"@;
    let c = "stay neutral: weigh both sides and name what is still unresolved"@;
    assert(a[6] != b[6]);
    assert(a[0] != c[0]);
    assert(b[0] != c[0]);
}

/// How many discussion rounds a room runs before its policy's closing step.
pub open spec fn rounds_of(room: Room) -> u32 {
    if room.policy == TurnPolicy::Parallel {
        1
    } else {
        room.rounds
    }
}

/// How many discussion rounds run before the policy's closing step.
///
/// Under the parallel policy every agent answers the same prompt once; more
/// rounds would just repeat an identical request.
pub fn discussion_rounds(room: &Room) -> (n: u32)
    ensures
        n == rounds_of(*room),
        room.policy == TurnPolicy::Parallel ==> n == 1,
        room.policy != TurnPolicy::Parallel ==> n == room.rounds,
{
    match room.policy {
        TurnPolicy::Parallel => 1,
        _ => room.rounds,
    }
}

/// Only the parallel policy is held to a single round; every other policy
/// runs as many rounds as the room is configured for.
pub proof fn lemma_rounds_follow_the_configuration(room: Room)
    ensures
        room.policy == TurnPolicy::Parallel ==> rounds_of(room) == 1,
        room.policy != TurnPolicy::Parallel ==> rounds_of(room) == room.rounds,
{
}

} // verus!
