use vstd::prelude::*;
use crate::balances::{adjusted, holds, lemma_adjusted, lemma_sum_bounds, slot};
use crate::campaign_ledger::{
    lemma_created_valid, lemma_donated_valid, lemma_moved_valid, record_valid, CampaignLedger,
    REWARD_PER_UNIT,
};
use crate::coordinator::{rewarded, rewarded_donation_error};
use crate::reward_token::{TokenInfoView, TokenLedger};
use crate::types::{CampaignStatus, Error, EventView};

verus! {

/// In a valid ledger the total of every campaign lies between zero and its target.
pub proof fn law_total_within_target(s: CampaignLedger, id: u64)
    requires
        s.valid(),
        s.has(id),
    ensures
        0 <= s.campaign(id).total_donated <= s.campaign(id).target_amount,
{
    assert(record_valid(s.campaigns[id - 1], s.donations[id - 1], id - 1));
}

/// The empty ledger is valid, and every operation leaves a valid ledger valid, whether it
/// is accepted or rejected.
pub proof fn law_operations_keep_validity(
    s: CampaignLedger,
    auth: Seq<char>,
    who: Seq<char>,
    title: Seq<char>,
    id: u64,
    amount: i128,
    now: u64,
    duration_days: u64,
    error: Error,
)
    requires
        s.valid(),
    ensures
        CampaignLedger::empty().valid(),
        s.create_error(auth, who, amount, now, duration_days) is None ==> s.created(
            who,
            title,
            amount,
            now,
            duration_days,
        ).valid(),
        s.is_due(id, now) ==> s.marked_expired(id).valid(),
        s.donation_error(auth, id, who, amount, now) is None ==> s.donated(id, who, amount, now).valid(),
        s.donation_error(auth, id, who, amount, now) == Some(error) ==> s.after_rejection(error, id).valid(),
        s.close_error(auth, id, who) is None ==> s.closed(id).valid(),
        s.with_token(who).valid(),
{
    if s.create_error(auth, who, amount, now, duration_days) is None {
        lemma_created_valid(s, auth, who, title, amount, now, duration_days);
    }
    if s.has(id) {
        assert(record_valid(s.campaigns[id - 1], s.donations[id - 1], id - 1));
        if s.campaign(id).status == CampaignStatus::Open {
            lemma_moved_valid(s, id, CampaignStatus::Expired, EventView::CampaignExpired { id });
            lemma_moved_valid(s, id, CampaignStatus::Closed, EventView::CampaignClosed { id });
        }
    }
    if s.donation_error(auth, id, who, amount, now) is None {
        lemma_donated_valid(s, auth, id, who, amount, now);
    }
}

/// Campaign ids start at one and grow by one: in a valid ledger the campaign at place `i`
/// has the id `i + 1`, so the first has the id 1.
pub proof fn law_ids_count_from_one(s: CampaignLedger, i: int)
    requires
        s.valid(),
        0 <= i < s.campaigns.len(),
    ensures
        s.campaigns[i].id == i + 1,
        s.has(s.campaigns[i].id),
        s.campaign(s.campaigns[i].id) == s.campaigns[i],
{
    assert(record_valid(s.campaigns[i], s.donations[i], i));
}

/// Campaign ids are unique and strictly increasing: of two campaigns in a valid ledger
/// the later one has the greater id.
pub proof fn law_ids_increase(s: CampaignLedger, i: int, j: int)
    requires
        s.valid(),
        0 <= i < j < s.campaigns.len(),
    ensures
        s.campaigns[i].id < s.campaigns[j].id,
{
    assert(record_valid(s.campaigns[i], s.donations[i], i));
    assert(record_valid(s.campaigns[j], s.donations[j], j));
}

/// A new campaign gets the next id, one more than the number of campaigns before and
/// greater than every id in use, and leaves the campaigns before it as they were.
pub proof fn law_new_id_is_next(
    s: CampaignLedger,
    auth: Seq<char>,
    creator: Seq<char>,
    title: Seq<char>,
    target_amount: i128,
    now: u64,
    duration_days: u64,
    i: int,
)
    requires
        s.valid(),
        s.create_error(auth, creator, target_amount, now, duration_days) is None,
    ensures
        s.created(creator, title, target_amount, now, duration_days).count() == s.count() + 1,
        s.created(creator, title, target_amount, now, duration_days).campaigns.last().id == s.count() + 1,
        0 <= i < s.campaigns.len() ==> {
            &&& s.created(creator, title, target_amount, now, duration_days).campaigns.last().id
                > s.campaigns[i].id
            &&& s.created(creator, title, target_amount, now, duration_days).campaigns[i] == s.campaigns[i]
        },
{
    if 0 <= i < s.campaigns.len() {
        assert(record_valid(s.campaigns[i], s.donations[i], i));
    }
}

/// A donation by the creator of a campaign to that campaign is rejected, whatever the
/// campaign's status, the amount, the time and the authorization.
pub proof fn law_creator_cannot_donate(s: CampaignLedger, auth: Seq<char>, id: u64, amount: i128, now: u64)
    requires
        s.has(id),
    ensures
        s.donation_error(auth, id, s.campaign(id).creator, amount, now) is Some,
        auth == s.campaign(id).creator && amount > 0 ==> s.donation_error(
            auth,
            id,
            s.campaign(id).creator,
            amount,
            now,
        ) == Some(Error::SelfDonationForbidden),
{
}

/// A donation of exactly what is missing is accepted and makes the campaign funded; a
/// greater one is rejected as overfunding.
///
/// This holds of an authorized donor other than the creator, for an open campaign before
/// its deadline, and where the reward for the missing amount fits.
pub proof fn law_exact_fit(s: CampaignLedger, id: u64, donor: Seq<char>, room: i128, more: i128, now: u64)
    requires
        s.valid(),
        s.has(id),
        s.campaign(id).status == CampaignStatus::Open,
        !s.campaign(id).past_deadline(now),
        donor != s.campaign(id).creator,
        room == s.campaign(id).remaining(),
        more > room,
        s.reward_token is Some ==> room * REWARD_PER_UNIT <= i128::MAX,
    ensures
        s.donation_error(donor, id, donor, room, now) is None,
        s.donated(id, donor, room, now).campaign(id).status == CampaignStatus::Funded,
        s.donated(id, donor, room, now).campaign(id).total_donated == s.campaign(id).target_amount,
        s.donation_error(donor, id, donor, more, now) == Some(Error::OverfundingForbidden),
{
    assert(record_valid(s.campaigns[id - 1], s.donations[id - 1], id - 1));
}

/// Marking a campaign as expired happens once: after it, the campaign is expired, no
/// later check finds it due, and a check on a campaign that is not due changes nothing.
pub proof fn law_expiry_once(s: CampaignLedger, id: u64, now: u64, later: u64)
    requires
        s.valid(),
        s.is_due(id, now),
    ensures
        s.marked_expired(id).campaign(id).status == CampaignStatus::Expired,
        !s.marked_expired(id).is_due(id, later),
{
}

/// A status other than open is final: no donation is accepted, no check finds the
/// campaign due, and closing leaves it as it is.
pub proof fn law_terminal_is_final(s: CampaignLedger, auth: Seq<char>, id: u64, donor: Seq<char>, amount: i128, now: u64)
    requires
        s.has(id),
        s.campaign(id).status.is_terminal(),
    ensures
        s.donation_error(auth, id, donor, amount, now) is Some,
        !s.is_due(id, now),
        s.closed(id) == s,
{
}

/// An accepted donation, while a reward ledger is set, raises the donor's balance on the
/// reward ledger and its supply by ten times the amount, and leaves every other balance.
pub proof fn law_reward_is_tenfold(
    campaigns: CampaignLedger,
    rewards: TokenLedger,
    auth: Seq<char>,
    id: u64,
    donor: Seq<char>,
    amount: i128,
    now: u64,
    other: Seq<char>,
)
    requires
        campaigns.valid(),
        rewards.valid(),
        campaigns.reward_token is Some,
        rewarded_donation_error(campaigns, rewards, auth, id, donor, amount, now) is None,
        other != donor,
    ensures
        rewarded(campaigns, rewards, id, donor, amount).balance(donor) == rewards.balance(donor) + 10 * amount,
        rewarded(campaigns, rewards, id, donor, amount).total_supply == rewards.total_supply + 10 * amount,
        rewarded(campaigns, rewards, id, donor, amount).balance(other) == rewards.balance(other),
{
    lemma_adjusted(rewards.accounts, donor, 10 * amount);
}

/// Minting raises one balance and the supply by the amount; a transfer moves the amount
/// from one balance to another and leaves the supply. Both keep the ledger valid, and
/// keep the supply equal to the sum of the balances where it was.
pub proof fn law_supply_is_sum(s: TokenLedger, auth: Seq<char>, from: Seq<char>, to: Seq<char>, amount: i128)
    requires
        s.valid(),
    ensures
        TokenLedger::empty().valid() && TokenLedger::empty().balanced(),
        s.mint_error(to, amount) is None ==> {
            &&& s.minted(to, amount).valid()
            &&& s.minted(to, amount).balance(to) == s.balance(to) + amount
            &&& s.minted(to, amount).total_supply == s.total_supply + amount
            &&& s.balanced() ==> s.minted(to, amount).balanced()
        },
        s.transfer_error(auth, from, to, amount) is None ==> {
            &&& s.transferred(from, to, amount).valid()
            &&& s.transferred(from, to, amount).balance(from) == s.balance(from) - amount
            &&& s.transferred(from, to, amount).balance(to) == s.balance(to) + amount
            &&& s.transferred(from, to, amount).total_supply == s.total_supply
            &&& s.balanced() ==> s.transferred(from, to, amount).balanced()
        },
{
    if s.mint_error(to, amount) is None {
        lemma_adjusted(s.accounts, to, amount as int);
    }
    if s.transfer_error(auth, from, to, amount) is None {
        lemma_adjusted(s.accounts, from, -amount);
        lemma_adjusted(adjusted(s.accounts, from, -amount), to, amount as int);
    }
}

/// Where the supply is the sum of the balances, no balance exceeds the supply, a transfer
/// is never rejected for want of room, and minting is rejected for want of room exactly
/// where the supply would not fit.
pub proof fn law_balanced_has_room(s: TokenLedger, auth: Seq<char>, from: Seq<char>, to: Seq<char>, amount: i128)
    requires
        s.valid(),
        s.balanced(),
    ensures
        0 <= s.balance(to) <= s.total_supply,
        s.transfer_error(auth, from, to, amount) != Some(Error::ArithmeticOverflow),
        s.mint_error(to, amount) == Some(Error::ArithmeticOverflow) <==> amount > 0 && s.total_supply + amount
            > i128::MAX,
{
    lemma_sum_bounds(s.accounts);
    if holds(s.accounts, to) {
        let j = slot(s.accounts, to);
        assert(s.accounts[j].amount >= 0);
        if holds(s.accounts, from) && from != to {
            let i = slot(s.accounts, from);
            assert(s.accounts[i].amount + s.accounts[j].amount <= s.total_supply);
        }
    }
    if holds(s.accounts, from) {
        let i = slot(s.accounts, from);
        assert(s.accounts[i].amount <= s.total_supply);
    }
}

/// Initializing a ledger on which nothing was minted leaves the supply equal to the sum
/// of the balances, namely zero.
pub proof fn law_initialize_fresh(s: TokenLedger, info: TokenInfoView)
    requires
        s.valid(),
        s.balanced(),
        s.total_supply == 0,
    ensures
        s.initialized(info).valid(),
        s.initialized(info).balanced(),
        s.initialized(info).total_supply == 0,
{
}

} // verus!
