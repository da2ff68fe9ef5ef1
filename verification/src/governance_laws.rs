//! What guardians, votes and proposals do.
use crate::events::Event;
use crate::governance::{
    cancel_proposal_refusal, execute_refusal, executed, full_weight, guardian_added,
    guardian_removed, proposal_cancelled, quorum_reached, submit_refusal, submitted, vote_late,
    vote_locked, vote_refusal, voted, weight_for,
};
use crate::measures::agrees;
use crate::records::Proposal;
use crate::totals::{lemma_total_bounds, lemma_total_split, total};
use crate::types::{vault, Address, Error};
use crate::vault::{Config, State};
use vstd::prelude::*;

verus! {

/// A guardian's weight, if it is on record as having voted for a proposal.
pub open spec fn yes_of(s: State, id: u32) -> spec_fn(Address, u32) -> int {
    |g: Address, w: u32|
        if s.votes.dom().contains((id, g)) && s.votes[(id, g)] == true {
            w as int
        } else {
            0
        }
}

/// A guardian's weight.
pub open spec fn any_of() -> spec_fn(Address, u32) -> int {
    |g: Address, w: u32| w as int
}

/// The weight of the guardians on record as having voted for a proposal.
pub open spec fn yes_weight(s: State, id: u32) -> int {
    total(s.guardians, yes_of(s, id))
}

/// The weight of all guardians.
pub open spec fn all_weight(s: State) -> int {
    total(s.guardians, any_of())
}

pub(crate) proof fn lemma_total_same<K, V>(m: Map<K, V>, f: spec_fn(K, V) -> int, g: spec_fn(K, V) -> int)
    requires
        m.dom().finite(),
        forall|k: K| #[trigger] m.dom().contains(k) ==> f(k, m[k]) == g(k, m[k]),
    ensures
        total(m, f) == total(m, g),
    decreases m.dom().len(),
{
    if m.dom().len() > 0 {
        let c = m.dom().choose();
        assert(m.dom().contains(c));
        let m2 = m.remove(c);
        assert forall|k: K| #[trigger] m2.dom().contains(k) implies f(k, m2[k]) == g(k, m2[k]) by {
            assert(m.dom().contains(k));
        }
        lemma_total_same(m2, f, g);
    }
}

/// A quorum is the weight of those who voted for a proposal, measured against the weight of all
/// guardians. Votes against count for nothing.
pub proof fn law_quorum_counts_support(s: State, id: u32)
    requires
        s.guardians.dom().finite(),
    ensures
        quorum_reached(s, id) <==> (0 < all_weight(s) && s.proposals[id].quorum_bps * all_weight(s)
            <= yes_weight(s, id) * 10_000),
        0 <= yes_weight(s, id) <= all_weight(s),
        (forall|g: Address| #[trigger]
            s.guardians.dom().contains(g) ==> !(s.votes.dom().contains((id, g)) && s.votes[(
                id,
                g,
            )])) ==> yes_weight(s, id) == 0,
{
    lemma_total_same(s.guardians, full_weight(), any_of());
    lemma_total_same(s.guardians, weight_for(s.votes, id), yes_of(s, id));
    lemma_total_bounds(s.guardians, yes_of(s, id));
    lemma_yes_at_most_all(s.guardians, yes_of(s, id));
    if forall|g: Address| #[trigger]
        s.guardians.dom().contains(g) ==> !(s.votes.dom().contains((id, g)) && s.votes[(id, g)]) {
        let none = |g: Address, w: u32| 0int;
        lemma_total_same(s.guardians, yes_of(s, id), none);
        lemma_total_none(s.guardians);
    }
}

proof fn lemma_total_none(m: Map<Address, u32>)
    requires
        m.dom().finite(),
    ensures
        total(m, |g: Address, w: u32| 0int) == 0,
    decreases m.dom().len(),
{
    if m.dom().len() > 0 {
        let c = m.dom().choose();
        assert(m.dom().contains(c));
        lemma_total_none(m.remove(c));
    }
}

proof fn lemma_yes_at_most_all(m: Map<Address, u32>, f: spec_fn(Address, u32) -> int)
    requires
        m.dom().finite(),
        forall|g: Address| #[trigger] m.dom().contains(g) ==> f(g, m[g]) <= m[g],
    ensures
        total(m, f) <= total(m, any_of()),
    decreases m.dom().len(),
{
    if m.dom().len() > 0 {
        let c = m.dom().choose();
        assert(m.dom().contains(c));
        let m2 = m.remove(c);
        assert forall|g: Address| #[trigger] m2.dom().contains(g) implies f(g, m2[g]) <= m2[g] by {
            assert(m.dom().contains(g));
        }
        lemma_yes_at_most_all(m2, f);
    }
}

/// Without a single vote in support, a proposal that asks for any quorum is not executed.
pub proof fn law_no_support_no_execution(s: State, id: u32)
    requires
        s.guardians.dom().finite(),
        s.proposals.dom().contains(id),
        !s.proposals[id].executed,
        s.proposals[id].quorum_bps > 0,
        s.ledger.timestamp >= s.proposals[id].eta,
        s.ledger.timestamp >= s.proposals[id].created_at + s.config.min_timelock_delay,
        forall|g: Address| #[trigger]
            s.guardians.dom().contains(g) ==> !(s.votes.dom().contains((id, g)) && s.votes[(
                id,
                g,
            )]),
    ensures
        execute_refusal(s, id) == Some(Error::QuorumNotReached),
{
    law_quorum_counts_support(s, id);
    if quorum_reached(s, id) {
        assert(s.proposals[id].quorum_bps * all_weight(s) > 0) by (nonlinear_arith)
            requires
                s.proposals[id].quorum_bps > 0,
                all_weight(s) > 0,
        ;
    }
}

/// A guardian that turns from support to opposition takes its weight out of the count, and so never
/// brings a missed quorum about; one that turns to support adds its weight.
pub proof fn law_a_turned_vote_takes_its_weight_along(s: State, id: u32, g: Address)
    requires
        s.guardians.dom().finite(),
        s.guardians.dom().contains(g),
        s.votes.dom().contains((id, g)),
        s.votes[(id, g)],
    ensures
        ({
            let against = State { votes: s.votes.insert((id, g), false), ..s };
            let withdrawn = State { votes: s.votes.remove((id, g)), ..s };
            &&& yes_weight(against, id) == yes_weight(s, id) - s.guardians[g]
            &&& yes_weight(withdrawn, id) == yes_weight(s, id) - s.guardians[g]
            &&& all_weight(against) == all_weight(s)
            &&& quorum_reached(against, id) ==> quorum_reached(s, id)
        }),
{
    let against = State { votes: s.votes.insert((id, g), false), ..s };
    let withdrawn = State { votes: s.votes.remove((id, g)), ..s };
    let rest = s.guardians.remove(g);
    lemma_total_split(s.guardians, yes_of(s, id), g);
    lemma_total_split(s.guardians, yes_of(against, id), g);
    lemma_total_split(s.guardians, yes_of(withdrawn, id), g);
    lemma_total_same(rest, yes_of(s, id), yes_of(against, id));
    lemma_total_same(rest, yes_of(s, id), yes_of(withdrawn, id));
    law_quorum_counts_support(s, id);
    law_quorum_counts_support(against, id);
}

/// A vote is refused for its cause. Where it is cast, it is on record for every guardian that gave
/// its word, in place of an earlier one, and for nobody else and on no other proposal.
pub proof fn law_vote(s: State, id: u32, support: bool)
    ensures
        ({
            let s2 = voted(s, id, support);
            let p = s.proposals[id];
            &&& match vote_refusal(s, id) {
                Some(Error::NotFound) => !s.proposals.dom().contains(id),
                Some(Error::InvalidInput) => p.executed || p.eta <= s.ledger.timestamp,
                Some(Error::AuthRequired) => forall|g: Address| #[trigger]
                    s.guardians.dom().contains(g) ==> !agrees(s, g),
                Some(_) => false,
                None => s.proposals.dom().contains(id) && !p.executed && s.ledger.timestamp < p.eta
                    && exists|g: Address| #[trigger] s.guardians.dom().contains(g) && agrees(s, g),
            }
            &&& forall|g: Address|
                s.guardians.dom().contains(g) && agrees(s, g) ==> #[trigger] s2.votes.dom().contains(
                    (id, g),
                ) && s2.votes[(id, g)] == support
            &&& forall|i: u32, g: Address|
                i != id || !s.guardians.dom().contains(g) || !agrees(s, g) ==> (
                #[trigger] s2.votes.dom().contains((i, g)) == s.votes.dom().contains((i, g))) && (
                s.votes.dom().contains((i, g)) ==> s2.votes[(i, g)] == s.votes[(i, g)])
            &&& s2 == (State { votes: s2.votes, events: s2.events, ..s })
            &&& s2.events == seq![Event::VoteCast { proposal_id: id, support }]
            &&& vote_locked(s, id) == (State { events: vote_locked(s, id).events, ..s })
            &&& vote_locked(s, id).events == seq![
                Event::VoteLocked {
                    proposal_id: id,
                    eta: p.eta,
                    timestamp: s.ledger.timestamp,
                },
            ]
            &&& vote_late(s, id) <==> (s.proposals.dom().contains(id) && !p.executed && p.eta
                <= s.ledger.timestamp)
        }),
{
    let s2 = voted(s, id, support);
    assert(s2 =~= State { votes: s2.votes, events: s2.events, ..s });
    assert forall|g: Address| agrees(s, g) == #[trigger] s.authorized(g) by {
        if s.signers.contains(g) {
            let i = choose|i: int| 0 <= i < s.signers.len() && s.signers[i] == g;
        }
    }
    if vote_refusal(s, id) is None {
        let g = choose|g: Address| crate::governance::votes_now(s, g);
        assert(s.guardians.dom().contains(g) && agrees(s, g));
    }
    if vote_refusal(s, id) == Some(Error::AuthRequired) {
        assert forall|g: Address| #[trigger] s.guardians.dom().contains(g) implies !agrees(s, g) by {
            assert(!crate::governance::votes_now(s, g));
        }
    }
}

/// A proposal is submitted at the administrator's word, with a quorum within the whole and a time
/// that leaves at least the waiting time, and it goes on record as it was asked for, with nothing
/// else changed.
pub proof fn law_submission(s: State, p: Proposal)
    ensures
        ({
            let s2 = submitted(s, p);
            let id = s.config.next_proposal_id;
            &&& match submit_refusal(s, p.quorum_bps, p.eta) {
                Some(Error::Unauthorized) => s.config.admin is None,
                Some(Error::AuthRequired) => s.config.admin is Some && !agrees(
                    s,
                    s.config.admin->0,
                ),
                Some(Error::InvalidInput) => p.quorum_bps > 10_000 || p.eta <= s.ledger.timestamp
                    || p.eta < s.ledger.timestamp + s.config.min_timelock_delay,
                Some(Error::Overflow) => id == u32::MAX,
                Some(_) => false,
                None => {
                    &&& s.config.admin is Some && agrees(s, s.config.admin->0)
                    &&& p.quorum_bps <= 10_000
                    &&& s.ledger.timestamp < p.eta
                    &&& s.ledger.timestamp + s.config.min_timelock_delay <= p.eta
                    &&& s2.config == (Config { next_proposal_id: (id + 1) as u32, ..s.config })
                    &&& s2.config.next_proposal_id == id + 1
                },
            }
            &&& s2.proposals.dom().contains(id) && s2.proposals[id] == p
            &&& s2.events == seq![Event::ProposalSubmitted { proposal_id: id, eta: p.eta }]
            &&& forall|i: u32|
                i != id ==> (#[trigger] s2.proposals.dom().contains(i) == s.proposals.dom().contains(
                    i,
                )) && s2.proposals[i] == s.proposals[i]
            &&& s2 == (State {
                config: s2.config,
                proposals: s2.proposals,
                events: s2.events,
                ..s
            })
        }),
{
    let s2 = submitted(s, p);
    assert(s2 =~= State { config: s2.config, proposals: s2.proposals, events: s2.events, ..s });
}

/// A proposal is executed once, in its time and with its quorum. It makes its target the
/// administrator, or sets the fee and makes its target the treasury, and changes nothing else.
pub proof fn law_execution(s: State, id: u32)
    requires
        s.guardians.dom().finite(),
    ensures
        ({
            let s2 = executed(s, id);
            let p = s.proposals[id];
            let reached = 0 < all_weight(s) && p.quorum_bps * all_weight(s) <= yes_weight(s, id)
                * 10_000;
            &&& match execute_refusal(s, id) {
                Some(Error::NotFound) => !s.proposals.dom().contains(id),
                Some(Error::InvalidInput) => p.executed || s.ledger.timestamp < p.eta
                    || s.ledger.timestamp < p.created_at + s.config.min_timelock_delay,
                Some(Error::QuorumNotReached) => !reached,
                Some(Error::InvalidNewAdmin) => p.kind is RotateAdmin && p.target == vault(),
                Some(Error::InvalidFeeBips) => p.kind is SetProtocolFee && p.target3 > 500,
                Some(_) => false,
                None => {
                    &&& s.proposals.dom().contains(id)
                    &&& !p.executed
                    &&& p.eta <= s.ledger.timestamp
                    &&& p.created_at + s.config.min_timelock_delay <= s.ledger.timestamp
                    &&& reached
                    &&& p.kind is RotateAdmin ==> p.target != vault()
                    &&& p.kind is SetProtocolFee ==> p.target3 <= 500
                },
            }
            &&& p.kind is RotateAdmin ==> s2.config == (Config {
                admin: Some(p.target),
                ..s.config
            })
            &&& p.kind is SetProtocolFee ==> s2.config == (Config {
                treasury: p.target,
                protocol_fee_bps: p.target3,
                ..s.config
            })
            &&& s2.events == seq![Event::ProposalExecuted { proposal_id: id }]
            &&& s2.proposals.dom().contains(id) && s2.proposals[id] == (Proposal {
                executed: true,
                ..p
            })
            &&& forall|i: u32|
                i != id ==> (#[trigger] s2.proposals.dom().contains(i) == s.proposals.dom().contains(
                    i,
                )) && s2.proposals[i] == s.proposals[i]
            &&& s2 == (State {
                config: s2.config,
                proposals: s2.proposals,
                events: s2.events,
                ..s
            })
        }),
{
    law_quorum_counts_support(s, id);
    let s2 = executed(s, id);
    assert(s2 =~= State { config: s2.config, proposals: s2.proposals, events: s2.events, ..s });
}

/// A proposal is called off at the administrator's word, while it has not been executed. It then
/// counts as done, the reason is on record, and what it asked for does not happen.
pub proof fn law_calling_a_proposal_off(s: State, id: u32, reason: Seq<u8>)
    ensures
        ({
            let s2 = proposal_cancelled(s, id, reason);
            &&& match cancel_proposal_refusal(s, id) {
                Some(Error::Unauthorized) => s.config.admin is None,
                Some(Error::AuthRequired) => s.config.admin is Some && !agrees(
                    s,
                    s.config.admin->0,
                ),
                Some(Error::NotFound) => !s.proposals.dom().contains(id),
                Some(Error::InvalidInput) => s.proposals[id].executed,
                Some(_) => false,
                None => s.config.admin is Some && agrees(s, s.config.admin->0)
                    && s.proposals.dom().contains(id) && !s.proposals[id].executed,
            }
            &&& s2.proposals.dom().contains(id) && s2.proposals[id] == (Proposal {
                executed: true,
                ..s.proposals[id]
            })
            &&& s2.cancel_reasons.dom().contains(id) && s2.cancel_reasons[id] == reason
            &&& s2.events == seq![Event::ProposalCancelled { proposal_id: id }]
            &&& forall|i: u32|
                i != id ==> (#[trigger] s2.proposals.dom().contains(i) == s.proposals.dom().contains(
                    i,
                )) && s2.proposals[i] == s.proposals[i] && s2.cancel_reasons[i]
                    == s.cancel_reasons[i]
            &&& s2 == (State {
                proposals: s2.proposals,
                cancel_reasons: s2.cancel_reasons,
                events: s2.events,
                ..s
            })
        }),
{
    let s2 = proposal_cancelled(s, id, reason);
    assert(s2 =~= State {
        proposals: s2.proposals,
        cancel_reasons: s2.cancel_reasons,
        events: s2.events,
        ..s
    });
}

/// A guardian has the weight that it was last given until it is dismissed, and no other guardian
/// is touched.
pub proof fn law_guardians(s: State, g: Address, weight: u32)
    ensures
        ({
            let on = guardian_added(s, g, weight);
            let off = guardian_removed(s, g);
            &&& on.guardians.dom().contains(g) && on.guardians[g] == weight
            &&& !off.guardians.dom().contains(g)
            &&& forall|a: Address|
                a != g ==> (#[trigger] on.guardians.dom().contains(a) == s.guardians.dom().contains(
                    a,
                )) && on.guardians[a] == s.guardians[a]
            &&& forall|a: Address|
                a != g ==> (#[trigger] off.guardians.dom().contains(a) == s.guardians.dom().contains(
                    a,
                )) && off.guardians[a] == s.guardians[a]
            &&& on == (State { guardians: on.guardians, events: on.events, ..s })
            &&& off == (State { guardians: off.guardians, events: off.events, ..s })
        }),
{
    let on = guardian_added(s, g, weight);
    let off = guardian_removed(s, g);
    assert(on =~= State { guardians: on.guardians, events: on.events, ..s });
    assert(off =~= State { guardians: off.guardians, events: off.events, ..s });
}

} // verus!
