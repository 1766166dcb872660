use vstd::prelude::*;
use crate::address::{Address, Auth};
use crate::campaign_ledger::{
    created_by, donated_sum, lemma_created_valid, lemma_donated_sum_prefix, lemma_donated_valid,
    lemma_moved_valid, record_valid, CampaignLedger, RewardOrderView, REWARD_PER_UNIT,
    SECONDS_PER_DAY,
};
use crate::types::{Campaign, CampaignStatus, CampaignView, Donation, DonationView, Error, Event, EventView};
use crate::wallet_index::{
    campaigns_of, copy_entries, lemma_recorded, record_donation, wallet_views, wallets_in_order,
    WalletEntry,
};

verus! {

/// What the reward ledger is to be asked for after an accepted donation.
#[derive(Debug)]
pub struct RewardOrder {
    pub token: Address,
    pub to: Address,
    pub amount: i128,
    pub campaign_id: u64,
}

impl View for RewardOrder {
    type V = RewardOrderView;

    open spec fn view(&self) -> RewardOrderView {
        RewardOrderView {
            token: self.token@,
            to: self.to@,
            amount: self.amount,
            campaign_id: self.campaign_id,
        }
    }
}

/// The values of a sequence of campaigns, in the same order.
pub open spec fn campaign_views(campaigns: Seq<Campaign>) -> Seq<CampaignView> {
    campaigns.map_values(|c: Campaign| c@)
}

/// The values of a sequence of donations, in the same order.
pub open spec fn donation_views(donations: Seq<Donation>) -> Seq<DonationView> {
    donations.map_values(|d: Donation| d@)
}

/// The values of the donation lists of all campaigns.
pub open spec fn donation_lists(lists: Seq<Vec<Donation>>) -> Seq<Seq<DonationView>> {
    lists.map_values(|l: Vec<Donation>| donation_views(l@))
}

/// The values of a sequence of events, in the same order.
pub open spec fn event_views(events: Seq<Event>) -> Seq<EventView> {
    events.map_values(|e: Event| e@)
}

/// The value of an address that may be missing.
pub open spec fn optional_address(address: Option<Address>) -> Option<Seq<char>> {
    match address {
        Some(a) => Some(a@),
        None => None,
    }
}

/// The value of a reward order that may be missing.
pub open spec fn optional_order(order: Option<RewardOrder>) -> Option<RewardOrderView> {
    match order {
        Some(o) => Some(o@),
        None => None,
    }
}

/// The value of a campaign that may be missing.
pub open spec fn optional_campaign(campaign: Option<Campaign>) -> Option<CampaignView> {
    match campaign {
        Some(c) => Some(c@),
        None => None,
    }
}

/// Whether `campaign`, with `donations`, can stand at place `i` of a valid ledger.
pub fn record_in_order(campaign: &Campaign, donations: &Vec<Donation>, i: usize) -> (r: bool)
    ensures
        r == record_valid(campaign@, donation_views(donations@), i as int),
{
    let ghost views = donation_views(donations@);
    if campaign.id == 0 || campaign.id - 1 != i as u64 {
        return false;
    }
    if campaign.target_amount <= 0 || campaign.total_donated < 0 || campaign.total_donated
        > campaign.target_amount {
        return false;
    }
    if campaign.status == CampaignStatus::Open && campaign.total_donated >= campaign.target_amount {
        return false;
    }
    if campaign.status == CampaignStatus::Funded && campaign.total_donated != campaign.target_amount {
        return false;
    }
    let mut sum: i128 = 0;
    let mut k: usize = 0;
    while k < donations.len()
        invariant
            k <= donations@.len(),
            views == donation_views(donations@),
            sum == donated_sum(views.take(k as int)),
            forall|j: int| 0 <= j < k ==> (#[trigger] views[j]).amount > 0 && views[j].donor != campaign@.creator,
        decreases donations@.len() - k,
    {
        proof {
            assert(views.take(k + 1).drop_last() =~= views.take(k as int));
            assert(views.take(k + 1).last() == views[k as int]);
        }
        if donations[k].amount <= 0 || donations[k].donor.same(&campaign.creator) {
            assert(!(views[k as int].amount > 0 && views[k as int].donor != campaign@.creator));
            return false;
        }
        sum = match sum.checked_add(donations[k].amount) {
            Some(v) => v,
            None => {
                proof {
                    if record_valid(campaign@, views, i as int) {
                        lemma_donated_sum_prefix(views, k + 1);
                    }
                }
                return false;
            },
        };
        k += 1;
    }
    assert(views.take(k as int) =~= views);
    sum == campaign.total_donated
}

/// A ledger of fundraising campaigns, of the donations made to them, and of the wallets
/// that made them.
#[derive(Debug)]
pub struct CrowdfundingContract {
    campaigns: Vec<Campaign>,
    donations: Vec<Vec<Donation>>,
    wallets: Vec<WalletEntry>,
    reward_token: Option<Address>,
    events: Vec<Event>,
}

impl View for CrowdfundingContract {
    type V = CampaignLedger;

    closed spec fn view(&self) -> CampaignLedger {
        CampaignLedger {
            campaigns: campaign_views(self.campaigns@),
            donations: donation_lists(self.donations@),
            wallets: wallet_views(self.wallets@),
            reward_token: optional_address(self.reward_token),
            events: event_views(self.events@),
        }
    }
}

impl CrowdfundingContract {
    /// The invariant of the ledger, which every operation keeps.
    pub open spec fn wf(&self) -> bool {
        self@.valid()
    }

    /// A ledger on which nothing has happened yet.
    pub fn new() -> (r: CrowdfundingContract)
        ensures
            r.wf(),
            r@ == CampaignLedger::empty(),
    {
        let r = CrowdfundingContract {
            campaigns: Vec::new(),
            donations: Vec::new(),
            wallets: Vec::new(),
            reward_token: None,
            events: Vec::new(),
        };
        assert(r@.campaigns =~= Seq::empty());
        assert(r@.donations =~= Seq::empty());
        assert(r@.wallets =~= Seq::empty());
        assert(r@.events =~= Seq::empty());
        r
    }

    /// The ledger with the given campaigns, donations, wallet index and reward ledger
    /// address and no pending events, if they make a valid ledger.
    pub fn restore(
        campaigns: Vec<Campaign>,
        donations: Vec<Vec<Donation>>,
        wallets: Vec<WalletEntry>,
        reward_token: Option<Address>,
    ) -> (r: Option<CrowdfundingContract>)
        ensures
            match r {
                Some(ledger) => ledger.wf() && ledger@ == (CampaignLedger {
                    campaigns: campaign_views(campaigns@),
                    donations: donation_lists(donations@),
                    wallets: wallet_views(wallets@),
                    reward_token: optional_address(reward_token),
                    events: Seq::empty(),
                }),
                None => !(CampaignLedger {
                    campaigns: campaign_views(campaigns@),
                    donations: donation_lists(donations@),
                    wallets: wallet_views(wallets@),
                    reward_token: optional_address(reward_token),
                    events: Seq::empty(),
                }).valid(),
            },
    {
        let ghost parts = CampaignLedger {
            campaigns: campaign_views(campaigns@),
            donations: donation_lists(donations@),
            wallets: wallet_views(wallets@),
            reward_token: optional_address(reward_token),
            events: Seq::empty(),
        };
        if campaigns.len() != donations.len() || !wallets_in_order(&wallets) {
            return None;
        }
        let mut i: usize = 0;
        while i < campaigns.len()
            invariant
                i <= campaigns@.len(),
                campaigns@.len() == donations@.len(),
                parts.campaigns == campaign_views(campaigns@),
                parts.donations == donation_lists(donations@),
                forall|j: int| 0 <= j < i ==> record_valid(#[trigger] parts.campaigns[j], parts.donations[j], j),
            decreases campaigns@.len() - i,
        {
            if !record_in_order(&campaigns[i], &donations[i], i) {
                assert(!record_valid(parts.campaigns[i as int], parts.donations[i as int], i as int));
                return None;
            }
            i += 1;
        }
        let ledger = CrowdfundingContract { campaigns, donations, wallets, reward_token, events: Vec::new() };
        assert(ledger@.events =~= Seq::empty());
        Some(ledger)
    }

    /// The index of donations by wallet, in the order in which the wallets first donated.
    pub fn wallet_entries(&self) -> (r: Vec<WalletEntry>)
        ensures
            wallet_views(r@) == self@.wallets,
    {
        copy_entries(&self.wallets)
    }

    /// The place of campaign `id` among the campaigns, if there is such a campaign.
    fn place_of(&self, id: u64) -> (r: Option<usize>)
        requires
            self.wf(),
        ensures
            match r {
                Some(i) => self@.has(id) && i == id - 1,
                None => !self@.has(id),
            },
    {
        let n = self.campaigns.len();
        if id >= 1 && id - 1 < n as u64 {
            Some((id - 1) as usize)
        } else {
            None
        }
    }

    /// The place of campaign `id`, which exists.
    fn place(&self, id: u64) -> (i: usize)
        requires
            self@.has(id),
        ensures
            i == id - 1,
            i < self.campaigns@.len(),
    {
        let n = self.campaigns.len();
        assert(self@.campaigns.len() == n);
        (id - 1) as usize
    }

    /// Sets the address of the reward ledger, once.
    ///
    /// Rejected with `Unauthorized` unless `auth` is the authorization of `admin`, and with
    /// `AlreadySet` where an address was set before.
    pub fn set_reward_token(&mut self, auth: &Auth, admin: &Address, token_addr: Address) -> (r: Result<(), Error>)
        requires
            old(self).wf(),
        ensures
            final(self).wf(),
            match r {
                Ok(()) => old(self)@.token_error(auth@, admin@) is None && final(self)@ == old(
                    self,
                )@.with_token(token_addr@),
                Err(e) => old(self)@.token_error(auth@, admin@) == Some(e) && final(self)@ == old(self)@,
            },
    {
        if !auth.covers(admin) {
            return Err(Error::Unauthorized);
        }
        if self.reward_token.is_some() {
            return Err(Error::AlreadySet);
        }
        self.reward_token = Some(token_addr);
        Ok(())
    }

    /// The address of the reward ledger, if one was set.
    pub fn get_reward_token(&self) -> (r: Option<Address>)
        ensures
            optional_address(r) == self@.reward_token,
    {
        match &self.reward_token {
            Some(a) => Some(a.clone()),
            None => None,
        }
    }

    /// Marks campaign `campaign_id` as expired if it is open and `now` is after its
    /// deadline, and says whether it did.
    ///
    /// Rejected with `CampaignNotFound` where no campaign has that id.
    pub fn check_expired(&mut self, campaign_id: u64, now: u64) -> (r: Result<bool, Error>)
        requires
            old(self).wf(),
        ensures
            final(self).wf(),
            match r {
                Ok(expired) => {
                    &&& old(self)@.has(campaign_id)
                    &&& expired == old(self)@.is_due(campaign_id, now)
                    &&& final(self)@ == if expired {
                        old(self)@.marked_expired(campaign_id)
                    } else {
                        old(self)@
                    }
                },
                Err(e) => !old(self)@.has(campaign_id) && e == Error::CampaignNotFound && final(self)@ == old(
                    self,
                )@,
            },
    {
        let i = match self.place_of(campaign_id) {
            Some(i) => i,
            None => {
                return Err(Error::CampaignNotFound);
            },
        };
        if self.campaigns[i].status == CampaignStatus::Open && now > self.campaigns[i].end_time {
            self.expire(i, campaign_id);
            Ok(true)
        } else {
            Ok(false)
        }
    }

    /// Marks the open campaign at place `i` as expired.
    fn expire(&mut self, i: usize, id: u64)
        requires
            old(self).wf(),
            old(self)@.has(id),
            i == id - 1,
            old(self)@.campaign(id).status == CampaignStatus::Open,
        ensures
            final(self).wf(),
            final(self)@ == old(self)@.marked_expired(id),
    {
        let ghost before = self@;
        self.campaigns[i].status = CampaignStatus::Expired;
        self.events.push(Event::CampaignExpired { id });
        proof {
            let after = before.marked_expired(id);
            assert(record_valid(before.campaigns[i as int], before.donations[i as int], i as int));
            lemma_moved_valid(before, id, CampaignStatus::Expired, EventView::CampaignExpired { id });
            assert(self@.campaigns =~= after.campaigns);
            assert(self@.events =~= after.events);
        }
    }

    /// Opens a campaign of `creator` with the next id, which it returns: one more than the
    /// number of campaigns before. The campaign is open, has received nothing, and ends
    /// `duration_days` days after `now`.
    ///
    /// Rejected with `Unauthorized` unless `auth` is the authorization of `creator`, with
    /// `InvalidTarget` unless `target_amount` is positive, and with `ArithmeticOverflow`
    /// where the id or the deadline would not fit.
    pub fn create_campaign(
        &mut self,
        auth: &Auth,
        creator: Address,
        title: String,
        target_amount: i128,
        duration_days: u64,
        now: u64,
    ) -> (r: Result<u64, Error>)
        requires
            old(self).wf(),
        ensures
            final(self).wf(),
            match r {
                Ok(id) => {
                    &&& old(self)@.create_error(auth@, creator@, target_amount, now, duration_days) is None
                    &&& id == old(self)@.count() + 1
                    &&& final(self)@ == old(self)@.created(
                        creator@,
                        title@,
                        target_amount,
                        now,
                        duration_days,
                    )
                },
                Err(e) => {
                    &&& old(self)@.create_error(auth@, creator@, target_amount, now, duration_days) == Some(e)
                    &&& final(self)@ == old(self)@
                },
            },
    {
        if !auth.covers(&creator) {
            return Err(Error::Unauthorized);
        }
        if target_amount <= 0 {
            return Err(Error::InvalidTarget);
        }
        let count: u64 = self.campaigns.len() as u64;
        let id: u64 = match count.checked_add(1) {
            Some(v) => v,
            None => {
                return Err(Error::ArithmeticOverflow);
            },
        };
        let duration: u64 = match duration_days.checked_mul(SECONDS_PER_DAY) {
            Some(v) => v,
            None => {
                return Err(Error::ArithmeticOverflow);
            },
        };
        let end_time: u64 = match now.checked_add(duration) {
            Some(v) => v,
            None => {
                return Err(Error::ArithmeticOverflow);
            },
        };
        let ghost before = self@;
        self.events.push(
            Event::CampaignCreated { id, creator: creator.clone(), title: title.clone(), target_amount },
        );
        self.campaigns.push(
            Campaign {
                id,
                creator,
                title,
                target_amount,
                total_donated: 0,
                status: CampaignStatus::Open,
                end_time,
            },
        );
        self.donations.push(Vec::new());
        proof {
            let after = before.created(creator@, title@, target_amount, now, duration_days);
            lemma_created_valid(before, auth@, creator@, title@, target_amount, now, duration_days);
            assert(self@.campaigns =~= after.campaigns);
            assert(self@.donations.last() =~= Seq::empty());
            assert(self@.donations =~= after.donations);
            assert(self@.events =~= after.events);
        }
        Ok(id)
    }

    /// Tries the guards of a donation without changing anything: the reward to issue if
    /// the donation would be accepted, or the reason why it would be rejected.
    pub fn check_donation(&self, auth: &Auth, campaign_id: u64, donor: &Address, amount: i128, now: u64) -> (r:
        Result<Option<RewardOrder>, Error>)
        requires
            self.wf(),
        ensures
            match r {
                Ok(order) => {
                    &&& self@.donation_error(auth@, campaign_id, donor@, amount, now) is None
                    &&& optional_order(order) == self@.reward_for(campaign_id, donor@, amount)
                },
                Err(e) => self@.donation_error(auth@, campaign_id, donor@, amount, now) == Some(e),
            },
    {
        if !auth.covers(donor) {
            return Err(Error::Unauthorized);
        }
        if amount <= 0 {
            return Err(Error::InvalidAmount);
        }
        let i = match self.place_of(campaign_id) {
            Some(i) => i,
            None => {
                return Err(Error::CampaignNotFound);
            },
        };
        let campaign = &self.campaigns[i];
        assert(record_valid(self@.campaigns[i as int], self@.donations[i as int], i as int));
        if donor.same(&campaign.creator) {
            return Err(Error::SelfDonationForbidden);
        }
        if campaign.status != CampaignStatus::Open {
            return Err(Error::NotAcceptingDonations);
        }
        if now > campaign.end_time {
            return Err(Error::CampaignExpiredError);
        }
        let remaining: i128 = campaign.target_amount - campaign.total_donated;
        if amount > remaining {
            return Err(Error::OverfundingForbidden);
        }
        match &self.reward_token {
            Some(token) => {
                match amount.checked_mul(REWARD_PER_UNIT) {
                    Some(reward) => Ok(
                        Some(RewardOrder { token: token.clone(), to: donor.clone(), amount: reward, campaign_id }),
                    ),
                    None => Err(Error::ArithmeticOverflow),
                }
            },
            None => Ok(None),
        }
    }

    /// Accepts a donation of `amount` from `donor` to campaign `campaign_id` at time `now`.
    ///
    /// The guards are tried in the order of [`CampaignLedger::donation_error`]. An accepted
    /// donation is added to the total, which never passes the target; a campaign that
    /// reaches its target becomes funded; the donation is recorded for the campaign and
    /// for the wallet. The result is the reward to issue, if a reward ledger is set: ten
    /// credits for each unit donated. The caller has the reward ledger mint it, and lets
    /// the donation stand only if that succeeds.
    ///
    /// A rejected donation changes nothing, with one exception: one that comes after the
    /// deadline of an open campaign marks the campaign as expired.
    pub fn donate(&mut self, auth: &Auth, campaign_id: u64, donor: &Address, amount: i128, now: u64) -> (r: Result<
        Option<RewardOrder>,
        Error,
    >)
        requires
            old(self).wf(),
        ensures
            final(self).wf(),
            match r {
                Ok(order) => {
                    &&& old(self)@.donation_error(auth@, campaign_id, donor@, amount, now) is None
                    &&& final(self)@ == old(self)@.donated(campaign_id, donor@, amount, now)
                    &&& optional_order(order) == old(self)@.reward_for(campaign_id, donor@, amount)
                },
                Err(e) => {
                    &&& old(self)@.donation_error(auth@, campaign_id, donor@, amount, now) == Some(e)
                    &&& final(self)@ == old(self)@.after_rejection(e, campaign_id)
                },
            },
            r is Ok ==> {
                &&& final(self)@.campaign(campaign_id).total_donated == old(self)@.campaign(
                    campaign_id,
                ).total_donated + amount
                &&& final(self)@.donations_of(campaign_id) == old(self)@.donations_of(campaign_id).push(
                    DonationView { donor: donor@, amount, timestamp: now },
                )
                &&& final(self)@.wallet_donations(donor@) == old(self)@.wallet_donations(donor@).push(
                    campaign_id,
                )
                &&& forall|other: Seq<char>|
                    other != donor@ ==> final(self)@.wallet_donations(other) == old(self)@.wallet_donations(
                        other,
                    )
            },
    {
        let order: Option<RewardOrder> = match self.check_donation(auth, campaign_id, donor, amount, now) {
            Ok(order) => order,
            Err(e) => {
                if e == Error::CampaignExpiredError {
                    let i: usize = self.place(campaign_id);
                    self.expire(i, campaign_id);
                }
                return Err(e);
            },
        };
        let i: usize = self.place(campaign_id);
        let ghost before = self@;
        assert(record_valid(before.campaigns[i as int], before.donations[i as int], i as int));
        let new_total: i128 = self.campaigns[i].total_donated + amount;
        self.campaigns[i].total_donated = new_total;
        if new_total >= self.campaigns[i].target_amount {
            self.campaigns[i].status = CampaignStatus::Funded;
            self.events.push(Event::CampaignFunded { id: campaign_id });
        }
        self.donations[i].push(Donation { donor: donor.clone(), amount, timestamp: now });
        record_donation(&mut self.wallets, donor, campaign_id);
        self.events.push(
            Event::DonationReceived { id: campaign_id, donor: donor.clone(), amount, new_total },
        );
        match &order {
            Some(o) => {
                self.events.push(Event::TokensMinted { to: donor.clone(), amount: o.amount, campaign_id });
            },
            None => {},
        }
        proof {
            let after = before.donated(campaign_id, donor@, amount, now);
            lemma_donated_valid(before, auth@, campaign_id, donor@, amount, now);
            lemma_recorded(before.wallets, donor@, campaign_id);
            assert(self@.campaigns =~= after.campaigns);
            assert(self@.donations[i as int] =~= after.donations[i as int]);
            assert forall|k: int| 0 <= k < after.donations.len() implies self@.donations[k]
                == after.donations[k] by {
                if k != i {
                    assert(self@.donations[k] == before.donations[k]);
                }
            }
            assert(self@.donations =~= after.donations);
            assert(self@.events =~= after.events);
        }
        Ok(order)
    }

    /// Closes the open campaign `campaign_id` on behalf of its creator; a campaign in a
    /// terminal status stays as it is.
    ///
    /// Rejected with `Unauthorized` unless `auth` is the authorization of `caller` and
    /// `caller` is the campaign's creator, and with `CampaignNotFound` where no campaign has
    /// that id.
    pub fn close_campaign(&mut self, auth: &Auth, campaign_id: u64, caller: &Address) -> (r: Result<(), Error>)
        requires
            old(self).wf(),
        ensures
            final(self).wf(),
            match r {
                Ok(()) => old(self)@.close_error(auth@, campaign_id, caller@) is None && final(self)@ == old(
                    self,
                )@.closed(campaign_id),
                Err(e) => old(self)@.close_error(auth@, campaign_id, caller@) == Some(e) && final(self)@ == old(
                    self,
                )@,
            },
    {
        if !auth.covers(caller) {
            return Err(Error::Unauthorized);
        }
        let i = match self.place_of(campaign_id) {
            Some(i) => i,
            None => {
                return Err(Error::CampaignNotFound);
            },
        };
        if !caller.same(&self.campaigns[i].creator) {
            return Err(Error::Unauthorized);
        }
        if self.campaigns[i].status == CampaignStatus::Open {
            let ghost before = self@;
            self.campaigns[i].status = CampaignStatus::Closed;
            self.events.push(Event::CampaignClosed { id: campaign_id });
            proof {
                let after = before.closed(campaign_id);
                assert(record_valid(before.campaigns[i as int], before.donations[i as int], i as int));
                lemma_moved_valid(
                    before,
                    campaign_id,
                    CampaignStatus::Closed,
                    EventView::CampaignClosed { id: campaign_id },
                );
                assert(self@.campaigns =~= after.campaigns);
                assert(self@.events =~= after.events);
            }
        }
        Ok(())
    }

    /// The campaign with the id `campaign_id`, if there is one.
    pub fn get_campaign(&self, campaign_id: u64) -> (r: Option<Campaign>)
        requires
            self.wf(),
        ensures
            optional_campaign(r) == if self@.has(campaign_id) {
                Some(self@.campaign(campaign_id))
            } else {
                None
            },
    {
        match self.place_of(campaign_id) {
            Some(i) => Some(self.campaigns[i].clone()),
            None => None,
        }
    }

    /// All campaigns, in the order of their ids.
    pub fn get_all_campaigns(&self) -> (r: Vec<Campaign>)
        ensures
            campaign_views(r@) == self@.campaigns,
    {
        let mut out: Vec<Campaign> = Vec::new();
        let mut i: usize = 0;
        while i < self.campaigns.len()
            invariant
                i <= self.campaigns@.len(),
                campaign_views(out@) == campaign_views(self.campaigns@).take(i as int),
            decreases self.campaigns@.len() - i,
        {
            let ghost copied = campaign_views(out@);
            out.push(self.campaigns[i].clone());
            assert(campaign_views(out@) =~= copied.push(self.campaigns@[i as int]@));
            assert(campaign_views(out@) =~= campaign_views(self.campaigns@).take(i + 1));
            i += 1;
        }
        assert(campaign_views(self.campaigns@).take(i as int) =~= campaign_views(self.campaigns@));
        out
    }

    /// The campaigns that `creator` opened, in the order of their ids.
    pub fn get_campaigns_by_creator(&self, creator: &Address) -> (r: Vec<Campaign>)
        ensures
            campaign_views(r@) == self@.campaigns_by(creator@),
    {
        let ghost all = campaign_views(self.campaigns@);
        let ghost test = created_by(creator@);
        let mut out: Vec<Campaign> = Vec::new();
        let mut i: usize = 0;
        proof {
            reveal(Seq::filter);
            assert(all.take(0).filter(test) =~= Seq::empty());
        }
        while i < self.campaigns.len()
            invariant
                i <= self.campaigns@.len(),
                all == campaign_views(self.campaigns@),
                test == created_by(creator@),
                campaign_views(out@) == all.take(i as int).filter(test),
            decreases self.campaigns@.len() - i,
        {
            proof {
                reveal(Seq::filter);
                assert(all.take(i + 1).drop_last() =~= all.take(i as int));
            }
            if self.campaigns[i].creator.same(creator) {
                out.push(self.campaigns[i].clone());
                assert(campaign_views(out@) =~= all.take(i + 1).filter(test));
            }
            i += 1;
        }
        assert(all.take(i as int) =~= all);
        out
    }

    /// The donations to campaign `campaign_id`, oldest first: none for an id that no
    /// campaign has.
    pub fn get_donations_by_campaign(&self, campaign_id: u64) -> (r: Vec<Donation>)
        requires
            self.wf(),
        ensures
            donation_views(r@) == self@.donations_of(campaign_id),
    {
        let mut out: Vec<Donation> = Vec::new();
        match self.place_of(campaign_id) {
            Some(p) => {
                let list = &self.donations[p];
                let mut i: usize = 0;
                while i < list.len()
                    invariant
                        i <= list@.len(),
                        donation_views(out@) == donation_views(list@).take(i as int),
                    decreases list@.len() - i,
                {
                    let ghost copied = donation_views(out@);
                    out.push(list[i].clone());
                    assert(donation_views(out@) =~= copied.push(list@[i as int]@));
                    assert(donation_views(out@) =~= donation_views(list@).take(i + 1));
                    i += 1;
                }
                assert(donation_views(list@).take(i as int) =~= donation_views(list@));
            },
            None => {
                assert(donation_views(out@) =~= Seq::empty());
            },
        }
        out
    }

    /// The campaigns that `wallet` donated to, one id per donation, oldest first.
    pub fn get_donations_by_wallet(&self, wallet: &Address) -> (r: Vec<u64>)
        requires
            self.wf(),
        ensures
            r@ == self@.wallet_donations(wallet@),
    {
        campaigns_of(&self.wallets, wallet)
    }

    /// How many campaigns were created, which is also the id of the latest.
    pub fn get_campaign_count(&self) -> (r: u64)
        requires
            self.wf(),
        ensures
            r == self@.count(),
    {
        self.campaigns.len() as u64
    }

    /// Hands out the events announced since the last call, oldest first.
    pub fn take_events(&mut self) -> (r: Vec<Event>)
        ensures
            event_views(r@) == old(self)@.events,
            final(self)@ == (CampaignLedger { events: Seq::empty(), ..old(self)@ }),
    {
        let mut out: Vec<Event> = Vec::new();
        std::mem::swap(&mut self.events, &mut out);
        assert(event_views(self.events@) =~= Seq::empty());
        out
    }
}

} // verus!
