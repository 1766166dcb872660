use vstd::prelude::*;
use crate::address::{Address, Auth};
use crate::balances::lemma_adjusted;
use crate::campaign_ledger::{CampaignLedger, REWARD_PER_UNIT};
use crate::crowdfunding::CrowdfundingContract;
use crate::reward_token::{RewardTokenContract, TokenLedger};
use crate::types::Error;

verus! {

/// Why a donation with its reward is rejected, if it is: by the campaign ledger's guards,
/// or else by the reward ledger's.
pub open spec fn rewarded_donation_error(
    campaigns: CampaignLedger,
    rewards: TokenLedger,
    auth: Seq<char>,
    id: u64,
    donor: Seq<char>,
    amount: i128,
    now: u64,
) -> Option<Error> {
    match campaigns.donation_error(auth, id, donor, amount, now) {
        Some(e) => Some(e),
        None => match campaigns.reward_for(id, donor, amount) {
            Some(order) => rewards.mint_error(order.to, order.amount),
            None => None,
        },
    }
}

/// The reward ledger after an accepted donation: the reward is minted where a reward
/// ledger is set, and nothing changes otherwise.
pub open spec fn rewarded(campaigns: CampaignLedger, rewards: TokenLedger, id: u64, donor: Seq<char>, amount: i128) -> TokenLedger {
    match campaigns.reward_for(id, donor, amount) {
        Some(order) => rewards.minted(order.to, order.amount),
        None => rewards,
    }
}

/// Accepts a donation and issues its reward as one unit of work: either the donation is
/// recorded and the reward minted, or neither.
///
/// `rewards` is the ledger that stands at the address set on `campaigns`; it is left alone
/// while no address is set. A rejection leaves both ledgers as they were, except that a
/// donation after the deadline of an open campaign marks the campaign as expired.
pub fn donate_with_reward(
    campaigns: &mut CrowdfundingContract,
    rewards: &mut RewardTokenContract,
    auth: &Auth,
    campaign_id: u64,
    donor: &Address,
    amount: i128,
    now: u64,
) -> (r: Result<(), Error>)
    requires
        old(campaigns).wf(),
        old(rewards).wf(),
    ensures
        final(campaigns).wf(),
        final(rewards).wf(),
        match r {
            Ok(()) => {
                &&& rewarded_donation_error(old(campaigns)@, old(rewards)@, auth@, campaign_id, donor@, amount, now)
                    is None
                &&& final(campaigns)@ == old(campaigns)@.donated(campaign_id, donor@, amount, now)
                &&& final(rewards)@ == rewarded(old(campaigns)@, old(rewards)@, campaign_id, donor@, amount)
            },
            Err(e) => {
                &&& rewarded_donation_error(old(campaigns)@, old(rewards)@, auth@, campaign_id, donor@, amount, now)
                    == Some(e)
                &&& final(campaigns)@ == if old(campaigns)@.donation_error(auth@, campaign_id, donor@, amount, now)
                    is Some {
                    old(campaigns)@.after_rejection(e, campaign_id)
                } else {
                    old(campaigns)@
                }
                &&& final(rewards)@ == old(rewards)@
            },
        },
        r is Ok && old(campaigns)@.reward_token is Some ==> {
            &&& final(rewards)@.balance(donor@) == old(rewards)@.balance(donor@) + REWARD_PER_UNIT * amount
            &&& final(rewards)@.total_supply == old(rewards)@.total_supply + REWARD_PER_UNIT * amount
        },
{
    match campaigns.check_donation(auth, campaign_id, donor, amount, now) {
        Ok(Some(order)) => {
            match rewards.check_mint(&order.to, order.amount) {
                Ok(()) => {},
                Err(e) => {
                    return Err(e);
                },
            }
        },
        Ok(None) => {},
        Err(_) => {},
    }
    match campaigns.donate(auth, campaign_id, donor, amount, now) {
        Ok(Some(order)) => {
            proof {
                lemma_adjusted(rewards@.accounts, order.to@, order.amount as int);
            }
            // The guards of the reward ledger were tried before the donation was recorded,
            // so minting is accepted here.
            let minted = rewards.mint(&order.to, order.amount);
            assert(minted is Ok);
            minted
        },
        Ok(None) => Ok(()),
        Err(e) => Err(e),
    }
}

} // verus!
