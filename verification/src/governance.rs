//! Guardians, and the changes that they vote on.
use crate::admin::MAX_PROTOCOL_FEE_BIPS;
use crate::events::Event;
use crate::records::{Proposal, ProposalKind};
use crate::totals::{lemma_listed_total, listed_total, total};
use crate::types::{vault, vault_address, Address, Error, Key};
use crate::vault::{ends, Config, State, Vault};
use vstd::prelude::*;

verus! {

/// The state after a guardian was given a weight.
pub open spec fn guardian_added(s: State, guardian: Address, weight: u32) -> State {
    State { guardians: s.guardians.insert(guardian, weight), ..s.quiet() }
}

/// The state after a guardian was dismissed, if it was one.
pub open spec fn guardian_removed(s: State, guardian: Address) -> State {
    State { guardians: s.guardians.remove(guardian), ..s.quiet() }
}

/// Why a call that needs the administrator's word, but does not name it, is refused.
pub open spec fn stored_admin_refusal(s: State) -> Option<Error> {
    match s.config.admin {
        None => Some(Error::Unauthorized),
        Some(admin) => if s.authorized(admin) {
            None
        } else {
            Some(Error::AuthRequired)
        },
    }
}

/// Why a proposal is not submitted.
pub open spec fn submit_refusal(s: State, quorum_bps: u32, eta: u64) -> Option<Error> {
    if stored_admin_refusal(s) is Some {
        stored_admin_refusal(s)
    } else if quorum_bps > 10_000 || eta <= s.ledger.timestamp || eta < s.ledger.timestamp
        + s.config.min_timelock_delay {
        Some(Error::InvalidInput)
    } else if s.config.next_proposal_id == u32::MAX {
        Some(Error::Overflow)
    } else {
        None
    }
}

/// The state after a proposal was submitted.
pub open spec fn submitted(s: State, p: Proposal) -> State {
    let id = s.config.next_proposal_id;
    State {
        config: Config { next_proposal_id: (id + 1) as u32, ..s.config },
        proposals: s.proposals.insert(id, p),
        events: seq![Event::ProposalSubmitted { proposal_id: id, eta: p.eta }],
        ..s
    }
}

/// Whether an address is a guardian that has authorised the current call.
pub open spec fn votes_now(s: State, who: Address) -> bool {
    s.guardians.dom().contains(who) && s.authorized(who)
}

/// Why a vote is refused.
pub open spec fn vote_refusal(s: State, id: u32) -> Option<Error> {
    if !s.proposals.dom().contains(id) {
        Some(Error::NotFound)
    } else if s.proposals[id].executed {
        Some(Error::InvalidInput)
    } else if s.ledger.timestamp >= s.proposals[id].eta {
        Some(Error::InvalidInput)
    } else if !(exists|g: Address| votes_now(s, g)) {
        Some(Error::AuthRequired)
    } else {
        None
    }
}

/// Whether a vote comes once voting is over.
pub open spec fn vote_late(s: State, id: u32) -> bool {
    s.proposals.dom().contains(id) && !s.proposals[id].executed && s.ledger.timestamp
        >= s.proposals[id].eta
}

/// The votes after every guardian that has authorised the call voted. A later vote replaces an
/// earlier one.
pub open spec fn votes_cast(s: State, id: u32, support: bool) -> Map<(u32, Address), bool> {
    Map::new(
        |k: (u32, Address)| s.votes.dom().contains(k) || (k.0 == id && votes_now(s, k.1)),
        |k: (u32, Address)|
            if k.0 == id && votes_now(s, k.1) {
                support
            } else {
                s.votes[k]
            },
    )
}

/// The state after a vote.
pub open spec fn voted(s: State, id: u32, support: bool) -> State {
    State {
        votes: votes_cast(s, id, support),
        events: seq![Event::VoteCast { proposal_id: id, support }],
        ..s
    }
}

/// The state after a vote that came too late: only that it did is reported.
pub open spec fn vote_locked(s: State, id: u32) -> State {
    State {
        events: seq![
            Event::VoteLocked {
                proposal_id: id,
                eta: s.proposals[id].eta,
                timestamp: s.ledger.timestamp,
            },
        ],
        ..s
    }
}

/// A guardian's weight.
pub open spec fn full_weight() -> spec_fn(Address, u32) -> int {
    |g: Address, w: u32| w as int
}

/// A guardian's weight if it voted for a proposal.
pub open spec fn weight_for(votes: Map<(u32, Address), bool>, id: u32) -> spec_fn(
    Address,
    u32,
) -> int {
    |g: Address, w: u32|
        if votes.dom().contains((id, g)) && votes[(id, g)] {
            w as int
        } else {
            0
        }
}

/// Whether the guardians that voted for a proposal carry enough of the weight.
pub open spec fn quorum_reached(s: State, id: u32) -> bool {
    let all = total(s.guardians, full_weight());
    let yes = total(s.guardians, weight_for(s.votes, id));
    all > 0 && yes * 10_000 >= s.proposals[id].quorum_bps * all
}

/// Why a proposal is not executed.
pub open spec fn execute_refusal(s: State, id: u32) -> Option<Error> {
    if !s.proposals.dom().contains(id) {
        Some(Error::NotFound)
    } else {
        let p = s.proposals[id];
        if p.executed || s.ledger.timestamp < p.eta || s.ledger.timestamp < p.created_at
            + s.config.min_timelock_delay {
            Some(Error::InvalidInput)
        } else if !quorum_reached(s, id) {
            Some(Error::QuorumNotReached)
        } else {
            match p.kind {
                ProposalKind::RotateAdmin => if p.target == vault() {
                    Some(Error::InvalidNewAdmin)
                } else {
                    None
                },
                ProposalKind::SetProtocolFee => if p.target3 > MAX_PROTOCOL_FEE_BIPS {
                    Some(Error::InvalidFeeBips)
                } else {
                    None
                },
            }
        }
    }
}

/// The state after a proposal was executed.
pub open spec fn executed(s: State, id: u32) -> State {
    let p = s.proposals[id];
    State {
        config: match p.kind {
            ProposalKind::RotateAdmin => Config { admin: Some(p.target), ..s.config },
            ProposalKind::SetProtocolFee => Config {
                treasury: p.target,
                protocol_fee_bps: p.target3,
                ..s.config
            },
        },
        proposals: s.proposals.insert(id, Proposal { executed: true, ..p }),
        events: seq![Event::ProposalExecuted { proposal_id: id }],
        ..s
    }
}

/// Why a proposal is not cancelled.
pub open spec fn cancel_proposal_refusal(s: State, id: u32) -> Option<Error> {
    if stored_admin_refusal(s) is Some {
        stored_admin_refusal(s)
    } else if !s.proposals.dom().contains(id) {
        Some(Error::NotFound)
    } else if s.proposals[id].executed {
        Some(Error::InvalidInput)
    } else {
        None
    }
}

/// The state after a proposal was cancelled: it counts as executed, the reason goes on record, and
/// nothing else changes.
pub open spec fn proposal_cancelled(s: State, id: u32, reason: Seq<u8>) -> State {
    State {
        proposals: s.proposals.insert(id, Proposal { executed: true, ..s.proposals[id] }),
        cancel_reasons: s.cancel_reasons.insert(id, reason),
        events: seq![Event::ProposalCancelled { proposal_id: id }],
        ..s
    }
}

impl Vault {
    /// Gives a guardian a weight.
    pub fn add_guardian(&mut self, admin: &Address, guardian: &Address, weight: u32) -> (r: Result<
        (),
        Error,
    >)
        ensures
            ends(
                r,
                old(self)@,
                final(self)@,
                old(self)@.admin_refusal(*admin),
                (),
                guardian_added(old(self)@, *guardian, weight),
            ),
    {
        let refusal = self.check_admin(admin);
        self.events.clear();
        match refusal {
            Some(e) => Err(e),
            None => {
                self.guardians.insert(*guardian, weight);
                Ok(())
            },
        }
    }

    /// Dismisses a guardian, if it is one.
    pub fn remove_guardian(&mut self, admin: &Address, guardian: &Address) -> (r: Result<
        (),
        Error,
    >)
        ensures
            ends(
                r,
                old(self)@,
                final(self)@,
                old(self)@.admin_refusal(*admin),
                (),
                guardian_removed(old(self)@, *guardian),
            ),
    {
        let refusal = self.check_admin(admin);
        self.events.clear();
        match refusal {
            Some(e) => Err(e),
            None => {
                self.guardians.remove(guardian);
                Ok(())
            },
        }
    }

    /// A guardian's weight, zero for anyone else.
    pub fn get_guardian_weight(&self, guardian: &Address) -> (w: u32)
        ensures
            w == (if self@.guardians.dom().contains(*guardian) {
                self@.guardians[*guardian]
            } else {
                0
            }),
    {
        match self.guardians.get(guardian) {
            Some(w) => *w,
            None => 0,
        }
    }

    /// All guardians with their weights, each once.
    pub fn list_guardians(&self) -> (list: Vec<(Address, u32)>)
        ensures
            list@.len() == self@.guardians.dom().len(),
            forall|i: int|
                0 <= i < list@.len() ==> self@.guardians.dom().contains((#[trigger] list@[i]).0)
                    && self@.guardians[list@[i].0] == list@[i].1,
            forall|i: int, j: int|
                0 <= i < j < list@.len() ==> (#[trigger] list@[i]).0 != (#[trigger] list@[j]).0,
            forall|g: Address| #[trigger]
                self@.guardians.dom().contains(g) ==> exists|i: int|
                    0 <= i < list@.len() && (#[trigger] list@[i]).0 == g,
    {
        let n: usize = self.guardians.len();
        let mut list: Vec<(Address, u32)> = Vec::new();
        let mut i: usize = 0;
        while i < n
            invariant
                i <= n,
                n == self.guardians.keys().len(),
                list@.len() == i,
                forall|j: int|
                    0 <= j < i ==> (#[trigger] list@[j]).0 == self.guardians.keys()[j]
                        && self@.guardians.dom().contains(list@[j].0)
                        && self@.guardians[list@[j].0] == list@[j].1,
            decreases n - i,
        {
            let (g, w) = self.guardians.at(i);
            list.push((*g, *w));
            i += 1;
        }
        proof {
            assert forall|g: Address| #[trigger] self@.guardians.dom().contains(g) implies exists|
                i: int,
            | 0 <= i < list@.len() && (#[trigger] list@[i]).0 == g by {
                let i = choose|i: int|
                    0 <= i < self.guardians.keys().len() && #[trigger] self.guardians.keys()[i]
                        == g;
                assert(list@[i].0 == g);
            }
        }
        list
    }

    fn check_stored_admin(&self) -> (r: Option<Error>)
        ensures
            r == stored_admin_refusal(self@),
    {
        match &self.config.admin {
            None => Some(Error::Unauthorized),
            Some(admin) => if self.has_authorized(admin) {
                None
            } else {
                Some(Error::AuthRequired)
            },
        }
    }

    /// Submits a proposal and returns its number.
    pub fn submit_proposal(
        &mut self,
        kind: ProposalKind,
        target: &Address,
        target2: Option<Address>,
        target3: u32,
        quorum_bps: u32,
        eta: u64,
    ) -> (r: Result<u32, Error>)
        ensures
            ends(
                r,
                old(self)@,
                final(self)@,
                submit_refusal(old(self)@, quorum_bps, eta),
                old(self)@.config.next_proposal_id,
                submitted(
                    old(self)@,
                    Proposal {
                        kind,
                        target: *target,
                        target2,
                        target3,
                        quorum_bps,
                        created_at: old(self)@.ledger.timestamp,
                        eta,
                        executed: false,
                    },
                ),
            ),
            r matches Ok(id) ==> {
                let p = final(self)@.proposals[id];
                &&& id == old(self)@.config.next_proposal_id
                &&& p.kind == kind
                &&& p.target == *target
                &&& p.target2 == target2
                &&& p.target3 == target3
                &&& p.quorum_bps == quorum_bps
                &&& p.eta == eta
                &&& !p.executed
            },
    {
        let refusal = self.check_stored_admin();
        self.events.clear();
        match refusal {
            Some(e) => {
                return Err(e);
            },
            None => {},
        }
        let now: u64 = self.ledger.timestamp;
        if quorum_bps > 10_000 || eta <= now || (eta as u128) < now as u128
            + self.config.min_timelock_delay as u128 {
            return Err(Error::InvalidInput);
        }
        let id: u32 = self.config.next_proposal_id;
        if id == u32::MAX {
            return Err(Error::Overflow);
        }
        self.config.next_proposal_id = id + 1;
        let p = Proposal {
            kind,
            target: *target,
            target2,
            target3,
            quorum_bps,
            created_at: now,
            eta,
            executed: false,
        };
        self.proposals.insert(id, p);
        self.events.push(Event::ProposalSubmitted { proposal_id: id, eta });
        assert(self@ =~= submitted(old(self)@, p));
        Ok(id)
    }

    /// A proposal, if there is one of that number.
    pub fn get_proposal(&self, id: u32) -> (r: Option<Proposal>)
        ensures
            r == (if self@.proposals.dom().contains(id) {
                Some(self@.proposals[id])
            } else {
                None
            }),
    {
        match self.proposals.get(&id) {
            Some(p) => Some(*p),
            None => None,
        }
    }

    /// The number that the next proposal gets.
    pub fn get_current_proposal_id(&self) -> (id: u32)
        ensures
            id == self@.config.next_proposal_id,
    {
        self.config.next_proposal_id
    }

    /// Votes on a proposal for every guardian that has authorised the call. A vote that comes once
    /// voting is over is refused, and that is reported.
    pub fn vote_proposal(&mut self, id: u32, support: bool) -> (r: Result<(), Error>)
        ensures
            match vote_refusal(old(self)@, id) {
                Some(e) => r == Err::<(), Error>(e) && final(self)@ == (if vote_late(
                    old(self)@,
                    id,
                ) {
                    vote_locked(old(self)@, id)
                } else {
                    old(self)@.quiet()
                }),
                None => r == Ok::<(), Error>(()) && final(self)@ == voted(old(self)@, id, support),
            },
    {
        let ghost s0 = self@;
        let p = match self.proposals.get(&id) {
            Some(p) => *p,
            None => {
                self.events.clear();
                return Err(Error::NotFound);
            },
        };
        if p.executed {
            self.events.clear();
            return Err(Error::InvalidInput);
        }
        if self.ledger.timestamp >= p.eta {
            self.events.clear();
            self.events.push(
                Event::VoteLocked {
                    proposal_id: id,
                    eta: p.eta,
                    timestamp: self.ledger.timestamp,
                },
            );
            assert(self@ =~= vote_locked(s0, id));
            return Err(Error::InvalidInput);
        }
        let n: usize = self.guardians.len();
        let ghost keys = self.guardians.keys();
        let mut any = false;
        let mut i: usize = 0;
        while i < n
            invariant
                i <= n,
                n == keys.len(),
                keys == self.guardians.keys(),
                s0 == old(self)@,
                self@ == (State { votes: self.votes@, ..s0 }),
                forall|j: int|
                    0 <= j < keys.len() ==> s0.guardians.dom().contains(#[trigger] keys[j]),
                any == exists|j: int| 0 <= j < i && votes_now(s0, #[trigger] keys[j]),
                forall|k: (u32, Address)| #[trigger]
                    self.votes@.dom().contains(k) <==> (s0.votes.dom().contains(k) || (k.0 == id
                        && votes_now(s0, k.1) && exists|j: int| 0 <= j < i && keys[j] == k.1)),
                forall|k: (u32, Address)| #[trigger]
                    self.votes@.dom().contains(k) ==> self.votes@[k] == (if k.0 == id && votes_now(
                        s0,
                        k.1,
                    ) && (exists|j: int| 0 <= j < i && keys[j] == k.1) {
                        support
                    } else {
                        s0.votes[k]
                    }),
            decreases n - i,
        {
            let (g, _) = self.guardians.at(i);
            let who = *g;
            assert(who == keys[i as int]);
            if self.has_authorized(&who) {
                assert(votes_now(s0, keys[i as int]));
                self.votes.insert((id, who), support);
                any = true;
            }
            i += 1;
        }
        self.events.clear();
        if !any {
            proof {
                assert forall|g: Address| !votes_now(s0, g) by {
                    if votes_now(s0, g) {
                        let j = choose|j: int| 0 <= j < keys.len() && #[trigger] keys[j] == g;
                        assert(votes_now(s0, keys[j]));
                    }
                }
                assert(self.votes@ =~= s0.votes);
            }
            return Err(Error::AuthRequired);
        }
        self.events.push(Event::VoteCast { proposal_id: id, support });
        proof {
            let j = choose|j: int| 0 <= j < keys.len() && votes_now(s0, #[trigger] keys[j]);
            assert(votes_now(s0, keys[j]));
            assert forall|g: Address| votes_now(s0, g) implies exists|j: int|
                0 <= j < keys.len() && keys[j] == g by {
                assert(s0.guardians.dom().contains(g));
            }
            assert(self.votes@ =~= votes_cast(s0, id, support));
            assert(self@ =~= voted(s0, id, support));
        }
        Ok(())
    }

    fn has_quorum(&self, id: u32, p: &Proposal) -> (b: bool)
        requires
            self@.proposals.dom().contains(id),
            *p == self@.proposals[id],
        ensures
            b == quorum_reached(self@, id),
    {
        let n: usize = self.guardians.len();
        let ghost keys = self.guardians.keys();
        let ghost m = self@.guardians;
        let ghost f = full_weight();
        let ghost y = weight_for(self@.votes, id);
        let mut all: u128 = 0;
        let mut yes: u128 = 0;
        let mut i: usize = 0;
        while i < n
            invariant
                i <= n,
                n == keys.len(),
                keys == self.guardians.keys(),
                m == self@.guardians,
                f == full_weight(),
                y == weight_for(self@.votes, id),
                all == listed_total(m, keys, i as int, f),
                yes == listed_total(m, keys, i as int, y),
                all <= i * 0xFFFF_FFFF,
                yes <= all,
            decreases n - i,
        {
            let (g, w) = self.guardians.at(i);
            let weight: u32 = *w;
            let voted = match self.votes.get(&(id, *g)) {
                Some(v) => *v,
                None => false,
            };
            proof {
                assert(listed_total(m, keys, i + 1, f) == listed_total(m, keys, i as int, f) + f(
                    keys[i as int],
                    m[keys[i as int]],
                ));
                assert(listed_total(m, keys, i + 1, y) == listed_total(m, keys, i as int, y) + y(
                    keys[i as int],
                    m[keys[i as int]],
                ));
                assert(i * 0xFFFF_FFFF <= 0xFFFF_FFFF_FFFF_FFFF * 0xFFFF_FFFF) by (nonlinear_arith)
                    requires
                        i <= 0xFFFF_FFFF_FFFF_FFFF,
                ;
                assert((i + 1) * 0xFFFF_FFFF == i * 0xFFFF_FFFF + 0xFFFF_FFFF) by (nonlinear_arith);
            }
            all = all + weight as u128;
            if voted {
                yes = yes + weight as u128;
            }
            i += 1;
        }
        proof {
            lemma_listed_total(m, keys, f);
            lemma_listed_total(m, keys, y);
            assert(n * 0xFFFF_FFFF <= 0xFFFF_FFFF_FFFF_FFFF * 0xFFFF_FFFF) by (nonlinear_arith)
                requires
                    n <= 0xFFFF_FFFF_FFFF_FFFF,
            ;
            assert(p.quorum_bps * all <= 0xFFFF_FFFF * (0xFFFF_FFFF_FFFF_FFFF * 0xFFFF_FFFF))
                by (nonlinear_arith)
                requires
                    p.quorum_bps <= 0xFFFF_FFFF,
                    all <= 0xFFFF_FFFF_FFFF_FFFF * 0xFFFF_FFFF,
            ;
        }
        all > 0 && yes * 10_000 >= p.quorum_bps as u128 * all
    }

    /// Executes a proposal whose time has come and that enough guardians voted for.
    pub fn execute_proposal(&mut self, id: u32) -> (r: Result<(), Error>)
        ensures
            ends(
                r,
                old(self)@,
                final(self)@,
                execute_refusal(old(self)@, id),
                (),
                executed(old(self)@, id),
            ),
            r is Ok && old(self)@.proposals[id].kind is RotateAdmin ==> final(self)@.config.admin == Some(
                old(self)@.proposals[id].target,
            ),
            r is Ok && old(self)@.proposals[id].kind is SetProtocolFee ==> {
                &&& final(self)@.config.treasury == old(self)@.proposals[id].target
                &&& final(self)@.config.protocol_fee_bps == old(self)@.proposals[id].target3
            },
    {
        let mut p = match self.proposals.get(&id) {
            Some(p) => *p,
            None => {
                self.events.clear();
                return Err(Error::NotFound);
            },
        };
        let now: u64 = self.ledger.timestamp;
        if p.executed || now < p.eta || (now as u128) < p.created_at as u128
            + self.config.min_timelock_delay as u128 {
            self.events.clear();
            return Err(Error::InvalidInput);
        }
        let quorum = self.has_quorum(id, &p);
        self.events.clear();
        if !quorum {
            return Err(Error::QuorumNotReached);
        }
        match p.kind {
            ProposalKind::RotateAdmin => {
                if p.target.same(&vault_address()) {
                    return Err(Error::InvalidNewAdmin);
                }
                self.config.admin = Some(p.target);
            },
            ProposalKind::SetProtocolFee => {
                if p.target3 > MAX_PROTOCOL_FEE_BIPS {
                    return Err(Error::InvalidFeeBips);
                }
                self.config.treasury = p.target;
                self.config.protocol_fee_bps = p.target3;
            },
        }
        p.executed = true;
        self.proposals.insert(id, p);
        self.events.push(Event::ProposalExecuted { proposal_id: id });
        assert(self@ =~= executed(old(self)@, id));
        Ok(())
    }

    /// Cancels a proposal, for a reason.
    pub fn cancel_proposal(&mut self, id: u32, reason: &[u8]) -> (r: Result<(), Error>)
        ensures
            ends(
                r,
                old(self)@,
                final(self)@,
                cancel_proposal_refusal(old(self)@, id),
                (),
                proposal_cancelled(old(self)@, id, reason@),
            ),
    {
        let refusal = self.check_stored_admin();
        self.events.clear();
        match refusal {
            Some(e) => {
                return Err(e);
            },
            None => {},
        }
        let mut p = match self.proposals.get(&id) {
            Some(p) => *p,
            None => {
                return Err(Error::NotFound);
            },
        };
        if p.executed {
            return Err(Error::InvalidInput);
        }
        p.executed = true;
        self.proposals.insert(id, p);
        self.cancel_reasons.insert(id, crate::encoding::copy_bytes(reason));
        self.events.push(Event::ProposalCancelled { proposal_id: id });
        assert(self@ =~= proposal_cancelled(old(self)@, id, reason@));
        Ok(())
    }
}

} // verus!
