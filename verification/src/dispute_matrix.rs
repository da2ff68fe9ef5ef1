//! Every way in which a dispute can go on from every status.
use crate::accounts::holdings;
use crate::disputes::{
    open_refusal, opened, resolve_refusal, resolved, respond_refusal, responded, DISPUTE_WINDOW_SECS,
};
use crate::records::{DisputeEscrowLedger, DisputeStatus};
use crate::scenarios::{
    address_at, at_time, create_sub, named, plain_terms, scene_admin, scene_token, seed_merchant_balance, set_up,
    setup_env, with_minted, Scene, THIRTY_DAYS,
};
use crate::subscriptions::{create_refusal, created, listed_decimals};
use crate::token::held;
use crate::types::{vault, vault_address, Address, Error};
use crate::vault::{next, State};
use vstd::prelude::*;

verus! {

/// The amount in dispute.
pub const DISPUTE_AMOUNT: i128 = 5_000_000;

/// A step that is tried on a dispute.
#[derive(Clone, Copy, Debug, PartialEq, Eq, Structural)]
pub enum Action {
    Respond,
    ResolveToMerchant,
    ResolveToSubscriber,
}

/// What comes of a step, by the status of the dispute and by whether the time for a response has
/// run out. A response counts once. A decision needs a response, or has to be for the subscriber
/// after the time for one. A decided dispute stays as it is.
pub open spec fn matrix(from: DisputeStatus, action: Action, late: bool) -> Result<(), Error> {
    match (from, action) {
        (DisputeStatus::Open, Action::Respond) => Ok(()),
        (_, Action::Respond) => Err(Error::DisputeAlreadyResponded),
        (DisputeStatus::Open, Action::ResolveToSubscriber) => if late {
            Ok(())
        } else {
            Err(Error::DisputeNotResponded)
        },
        (DisputeStatus::Open, Action::ResolveToMerchant) => Err(Error::DisputeNotResponded),
        (DisputeStatus::Responded, _) => Ok(()),
        (_, _) => Err(Error::DisputeAlreadyResolved),
    }
}

/// The state in which [`open_dispute`] opens its dispute.
pub open spec fn before_dispute(s: State) -> State {
    let t = plain_terms(s, 10_000_000, THIRTY_DAYS, false, None);
    let s1 = created(named(s, 2), t);
    with_minted(
        State {
            merchant_balances: s1.merchant_balances.insert((t.merchant, t.token), DISPUTE_AMOUNT),
            ..s1
        },
        t.token,
        vault(),
        DISPUTE_AMOUNT,
    )
}

/// The state after [`open_dispute`].
pub open spec fn disputed(s: State) -> State {
    opened(before_dispute(s), s.config.next_subscription_id, DISPUTE_AMOUNT, None)
}

/// Opens a dispute between a new subscriber and a new merchant, who has the disputed amount to
/// its credit: the dispute and the subscription.
pub fn open_dispute(scene: &mut Scene) -> (r: (u64, u32))
    requires
        ({
            let s = old(scene).vault@;
            &&& old(scene).token == s.config.token
            &&& s.config.next_address < u64::MAX - 1
            &&& create_refusal(
                named(s, 2),
                plain_terms(s, 10_000_000, THIRTY_DAYS, false, None),
            ) is None
            &&& i128::MIN <= held(s.tokens, s.config.token, vault()) + DISPUTE_AMOUNT <= i128::MAX
            &&& open_refusal(
                before_dispute(s),
                address_at(s, 0),
                s.config.next_subscription_id,
                DISPUTE_AMOUNT,
            ) is None
        }),
    ensures
        r.0 == old(scene).vault@.config.next_dispute_id,
        r.1 == old(scene).vault@.config.next_subscription_id,
        final(scene).token == old(scene).token,
        final(scene).admin == old(scene).admin,
        final(scene).vault@ == disputed(old(scene).vault@),
{
    let token = scene.token;
    let (id, subscriber, merchant) = match create_sub(
        &mut scene.vault,
        10_000_000,
        THIRTY_DAYS,
        false,
        None,
    ) {
        Ok(x) => x,
        Err(_) => (0, token, token),
    };
    seed_merchant_balance(&mut scene.vault, &merchant, &token, DISPUTE_AMOUNT);
    scene.vault.mint(&token, &vault_address(), DISPUTE_AMOUNT);
    let did: u64 = match scene.vault.open_dispute(&subscriber, id, DISPUTE_AMOUNT, None) {
        Ok(did) => did,
        Err(_) => 0,
    };
    (did, id)
}

/// The state of a dispute scene brought to a status.
pub open spec fn prepared(s: State, admin: Address, did: u64, status: DisputeStatus) -> State {
    match status {
        DisputeStatus::Open => s,
        DisputeStatus::Responded => next(
            s,
            respond_refusal(s, admin, did),
            responded(s, admin, did, None),
        ),
        _ => {
            let s1 = next(s, respond_refusal(s, admin, did), responded(s, admin, did, None));
            let to_subscriber = status is ResolvedToSubscriber;
            next(
                s1,
                resolve_refusal(s1, admin, did, to_subscriber),
                resolved(s1, did, to_subscriber),
            )
        },
    }
}

/// Brings an open dispute to a status.
pub fn prepare_status(scene: &mut Scene, did: u64, status: DisputeStatus)
    ensures
        final(scene).token == old(scene).token,
        final(scene).admin == old(scene).admin,
        final(scene).vault@ == prepared(old(scene).vault@, old(scene).admin, did, status),
{
    let admin = scene.admin;
    match status {
        DisputeStatus::Open => {},
        DisputeStatus::Responded => {
            let _ = scene.vault.respond_dispute(&admin, did, None);
        },
        DisputeStatus::ResolvedToMerchant => {
            let _ = scene.vault.respond_dispute(&admin, did, None);
            let _ = scene.vault.resolve_dispute(&admin, did, false);
        },
        DisputeStatus::ResolvedToSubscriber => {
            let _ = scene.vault.respond_dispute(&admin, did, None);
            let _ = scene.vault.resolve_dispute(&admin, did, true);
        },
    }
}

/// Why a step on a dispute is refused.
pub open spec fn action_refusal(s: State, admin: Address, did: u64, action: Action) -> Option<
    Error,
> {
    match action {
        Action::Respond => respond_refusal(s, admin, did),
        Action::ResolveToMerchant => resolve_refusal(s, admin, did, false),
        Action::ResolveToSubscriber => resolve_refusal(s, admin, did, true),
    }
}

/// The state after a step on a dispute.
pub open spec fn acted(s: State, admin: Address, did: u64, action: Action) -> State {
    match action {
        Action::Respond => responded(s, admin, did, None),
        Action::ResolveToMerchant => resolved(s, did, false),
        Action::ResolveToSubscriber => resolved(s, did, true),
    }
}

/// Takes a step on a dispute, as the administrator.
pub fn apply_action(scene: &mut Scene, did: u64, action: Action) -> (r: Result<(), Error>)
    ensures
        final(scene).token == old(scene).token,
        final(scene).admin == old(scene).admin,
        crate::vault::ends(
            r,
            old(scene).vault@,
            final(scene).vault@,
            action_refusal(old(scene).vault@, old(scene).admin, did, action),
            (),
            acted(old(scene).vault@, old(scene).admin, did, action),
        ),
{
    let admin = scene.admin;
    match action {
        Action::Respond => scene.vault.respond_dispute(&admin, did, None),
        Action::ResolveToMerchant => scene.vault.resolve_dispute(&admin, did, false),
        Action::ResolveToSubscriber => scene.vault.resolve_dispute(&admin, did, true),
    }
}

/// Brings a new dispute to a status, lets the time for a response run out if asked to, and takes
/// a step.
pub fn run_matrix_case(from: DisputeStatus, action: Action, advance_window: bool) -> (r: Result<
    (),
    Error,
>)
    ensures
        r == matrix(from, action, advance_window),
{
    let mut scene = setup_env();
    let ghost s0 = scene.vault@;
    proof {
        reveal_with_fuel(listed_decimals, 2);
    }
    let (did, _) = open_dispute(&mut scene);
    proof {
        lemma_prepared(s0, from);
    }
    prepare_status(&mut scene, did, from);
    if advance_window {
        let now: u64 = scene.vault.ledger.timestamp;
        scene.vault.set_timestamp(now + DISPUTE_WINDOW_SECS + 1);
    }
    apply_action(&mut scene, did, action)
}

/// A fresh dispute can be brought to every status.
pub proof fn lemma_prepared(s: State, status: DisputeStatus)
    requires
        s.ledger.timestamp == 1_000,
        s == set_up(s.ledger, 6, 1_000_000, 604_800),
    ensures
        ({
            let d = disputed(s);
            let p = prepared(d, scene_admin(), 1, status);
            &&& p.ledger == s.ledger
            &&& p.allow_all
            &&& p.config.admin == Some(scene_admin())
            &&& p.disputes.dom().contains(1)
            &&& p.disputes[1].status == status
            &&& p.disputes[1].opened_at == 1_000
            &&& (status is Open || status is Responded) ==> {
                &&& p.dispute_ledgers == d.dispute_ledgers
                &&& p.tokens == d.tokens
                &&& p.merchant_balances == d.merchant_balances
                &&& p.disputes[1].subscriber == Address::Contract(3)
                &&& p.disputes[1].token == scene_token()
                &&& p.disputes[1].merchant == Address::Contract(4)
            }
            &&& (status is ResolvedToMerchant || status is ResolvedToSubscriber)
                ==> !p.dispute_ledgers.dom().contains(1)
        }),
{
}

/// Records that part of a disputed amount was paid out before, lets the time for a response run
/// out, and tries to resolve the dispute. A clock that cannot go that far is reported, and nothing
/// is done.
pub fn simulate_partial_resolution_then_resolve(
    scene: &mut Scene,
    did: u64,
    already_disbursed: i128,
    resolve_to_subscriber: bool,
) -> (r: Result<(), Error>)
    requires
        old(scene).vault@.dispute_ledgers.dom().contains(did),
    ensures
        final(scene).token == old(scene).token,
        final(scene).admin == old(scene).admin,
        if old(scene).vault@.ledger.timestamp + DISPUTE_WINDOW_SECS + 1 > u64::MAX {
            r == Err::<(), Error>(Error::Overflow) && final(scene).vault@ == old(scene).vault@
        } else {
            let s = partly_paid(old(scene).vault@, did, already_disbursed);
            crate::vault::ends(
                r,
                s,
                final(scene).vault@,
                resolve_refusal(s, old(scene).admin, did, resolve_to_subscriber),
                (),
                resolved(s, did, resolve_to_subscriber),
            )
        },
        0 <= already_disbursed ==> {
            let s = old(scene).vault@;
            let d = s.disputes[did];
            let paid = paid_between(s, final(scene).vault@, d.merchant, d.token);
            &&& 0 <= paid
            &&& r is Ok ==> already_disbursed + paid <= s.dispute_ledgers[did].original_amount
            &&& r is Err ==> paid == 0
        },
{
    proof {
        if 0 <= already_disbursed {
            law_partial_resolution_never_overpays(
                scene.vault@,
                scene.admin,
                did,
                already_disbursed,
                resolve_to_subscriber,
            );
        }
    }
    let admin = scene.admin;
    let later: u64 = match scene.vault.ledger.timestamp.checked_add(DISPUTE_WINDOW_SECS + 1) {
        Some(x) => x,
        None => {
            return Err(Error::Overflow);
        },
    };
    match scene.vault.dispute_ledgers.get(&did) {
        Some(l) => {
            let mut ledger = *l;
            ledger.total_disbursed = already_disbursed;
            scene.vault.dispute_ledgers.insert(did, ledger);
        },
        None => {},
    }
    scene.vault.set_timestamp(later);
    scene.vault.resolve_dispute(&admin, did, resolve_to_subscriber)
}

/// The state after the time for a response, with part of a disputed amount on record as paid out.
pub open spec fn partly_paid(s: State, did: u64, disbursed: i128) -> State {
    at_time(
        State {
            dispute_ledgers: s.dispute_ledgers.insert(
                did,
                DisputeEscrowLedger { total_disbursed: disbursed, ..s.dispute_ledgers[did] },
            ),
            ..s
        },
        (s.ledger.timestamp + DISPUTE_WINDOW_SECS + 1) as u64,
    )
}

/// What a call pays out in a token: what leaves the vault, and what a merchant is credited with.
pub open spec fn paid_between(before: State, after: State, merchant: Address, token: Address) -> int {
    (holdings(before, token) - holdings(after, token)) + (after.merchant_balance(merchant, token)
        - before.merchant_balance(merchant, token))
}

/// A resolution never overpays: whatever was paid out of a disputed amount before, at whatever time
/// and to whichever side it is resolved, what was paid before and what the resolution pays come to
/// no more than the disputed amount. A resolution that is refused pays nothing.
pub proof fn law_partial_resolution_never_overpays(
    s: State,
    admin: Address,
    did: u64,
    already_disbursed: i128,
    to_subscriber: bool,
)
    requires
        s.dispute_ledgers.dom().contains(did),
        0 <= already_disbursed,
    ensures
        ({
            let p = partly_paid(s, did, already_disbursed);
            let refusal = resolve_refusal(p, admin, did, to_subscriber);
            let after = next(p, refusal, resolved(p, did, to_subscriber));
            let d = p.disputes[did];
            let paid = paid_between(p, after, d.merchant, d.token);
            &&& 0 <= paid
            &&& refusal is None ==> already_disbursed + paid <= s.dispute_ledgers[did].original_amount
            &&& refusal is Some ==> paid == 0 && after.tokens == s.tokens && after.merchant_balances
                == s.merchant_balances
        }),
{
}

/// The same of a resolution with whatever is on record as paid out.
pub proof fn law_resolution_never_overpays(s: State, admin: Address, did: u64, to_subscriber: bool)
    requires
        s.dispute_ledgers.dom().contains(did),
        0 <= s.dispute_ledgers[did].total_disbursed,
    ensures
        ({
            let refusal = resolve_refusal(s, admin, did, to_subscriber);
            let after = next(s, refusal, resolved(s, did, to_subscriber));
            let d = s.disputes[did];
            let paid = paid_between(s, after, d.merchant, d.token);
            &&& 0 <= paid
            &&& refusal is None ==> s.dispute_ledgers[did].total_disbursed + paid
                <= s.dispute_ledgers[did].original_amount
            &&& refusal is Some ==> paid == 0
        }),
{
}

} // verus!
