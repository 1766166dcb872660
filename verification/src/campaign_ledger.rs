use vstd::prelude::*;
use crate::types::{CampaignStatus, CampaignView, DonationView, Error, EventView};
use crate::wallet_index::{distinct_wallets, donated_to, lemma_recorded, recorded, WalletView};

verus! {

/// The length of a day on the ledger's clock.
pub const SECONDS_PER_DAY: u64 = 86400;

/// How many reward credits are issued for each unit donated.
pub const REWARD_PER_UNIT: i128 = 10;

/// The sum of the amounts of a sequence of donations.
pub open spec fn donated_sum(donations: Seq<DonationView>) -> int
    decreases donations.len(),
{
    if donations.len() == 0 {
        0
    } else {
        donated_sum(donations.drop_last()) + donations.last().amount
    }
}

/// What holds of the campaign at place `i` and of its donations: the id is `i + 1`, the
/// campaign is valid, its total is the sum of its donations, and each donation is
/// positive and comes from someone other than the creator.
pub open spec fn record_valid(campaign: CampaignView, donations: Seq<DonationView>, i: int) -> bool {
    &&& campaign.id == i + 1
    &&& campaign.valid()
    &&& campaign.total_donated == donated_sum(donations)
    &&& forall|k: int|
        0 <= k < donations.len() ==> (#[trigger] donations[k]).amount > 0 && donations[k].donor
            != campaign.creator
}

/// Among positive donations, the first `k` sum up to no more than all of them.
pub proof fn lemma_donated_sum_prefix(donations: Seq<DonationView>, k: int)
    requires
        0 <= k <= donations.len(),
        forall|j: int| 0 <= j < donations.len() ==> (#[trigger] donations[j]).amount > 0,
    ensures
        donated_sum(donations.take(k)) <= donated_sum(donations),
    decreases donations.len() - k,
{
    if k == donations.len() {
        assert(donations.take(k) =~= donations);
    } else {
        lemma_donated_sum_prefix(donations, k + 1);
        assert(donations.take(k + 1).drop_last() =~= donations.take(k));
        assert(donations.take(k + 1).last() == donations[k]);
    }
}

/// The mathematical value of a [`crate::crowdfunding::RewardOrder`].
pub struct RewardOrderView {
    pub token: Seq<char>,
    pub to: Seq<char>,
    pub amount: i128,
    pub campaign_id: u64,
}

/// The state of the campaign ledger: the campaigns in the order of their ids, the
/// donations of each, the index of donations by wallet, the reward ledger's address once
/// it is set, and the events not yet handed out.
pub struct CampaignLedger {
    pub campaigns: Seq<CampaignView>,
    pub donations: Seq<Seq<DonationView>>,
    pub wallets: Seq<WalletView>,
    pub reward_token: Option<Seq<char>>,
    pub events: Seq<EventView>,
}

impl CampaignLedger {
    /// The ledger before anything happened.
    pub open spec fn empty() -> CampaignLedger {
        CampaignLedger {
            campaigns: Seq::empty(),
            donations: Seq::empty(),
            wallets: Seq::empty(),
            reward_token: None,
            events: Seq::empty(),
        }
    }

    /// What holds of every ledger: the campaign at place `i` has the id `i + 1`; each
    /// campaign is valid and its total is the sum of its donations; each donation is
    /// positive and comes from someone other than the creator; no wallet is indexed twice.
    pub open spec fn valid(self) -> bool {
        &&& self.campaigns.len() == self.donations.len()
        &&& self.campaigns.len() <= u64::MAX
        &&& forall|i: int|
            0 <= i < self.campaigns.len() ==> record_valid(#[trigger] self.campaigns[i], self.donations[i], i)
        &&& distinct_wallets(self.wallets)
    }

    /// How many campaigns were created.
    pub open spec fn count(self) -> nat {
        self.campaigns.len()
    }

    /// Whether a campaign has the id `id`.
    pub open spec fn has(self, id: u64) -> bool {
        1 <= id <= self.campaigns.len()
    }

    /// The campaign with the id `id`.
    pub open spec fn campaign(self, id: u64) -> CampaignView
        recommends
            self.has(id),
    {
        self.campaigns[id - 1]
    }

    /// The donations to campaign `id`, oldest first: none for an id that no campaign has.
    pub open spec fn donations_of(self, id: u64) -> Seq<DonationView> {
        if self.has(id) {
            self.donations[id - 1]
        } else {
            Seq::empty()
        }
    }

    /// The campaigns that `wallet` donated to, one id per donation, oldest first.
    pub open spec fn wallet_donations(self, wallet: Seq<char>) -> Seq<u64> {
        donated_to(self.wallets, wallet)
    }

    /// Why `create_campaign` is rejected, if it is.
    pub open spec fn create_error(
        self,
        auth: Seq<char>,
        creator: Seq<char>,
        target_amount: i128,
        now: u64,
        duration_days: u64,
    ) -> Option<Error> {
        if auth != creator {
            Some(Error::Unauthorized)
        } else if target_amount <= 0 {
            Some(Error::InvalidTarget)
        } else if self.campaigns.len() + 1 > u64::MAX || now + duration_days * SECONDS_PER_DAY > u64::MAX {
            Some(Error::ArithmeticOverflow)
        } else {
            None
        }
    }

    /// The ledger after an accepted `create_campaign`.
    pub open spec fn created(
        self,
        creator: Seq<char>,
        title: Seq<char>,
        target_amount: i128,
        now: u64,
        duration_days: u64,
    ) -> CampaignLedger {
        let id = (self.campaigns.len() + 1) as u64;
        CampaignLedger {
            campaigns: self.campaigns.push(
                CampaignView {
                    id,
                    creator,
                    title,
                    target_amount,
                    total_donated: 0,
                    status: CampaignStatus::Open,
                    end_time: (now + duration_days * SECONDS_PER_DAY) as u64,
                },
            ),
            donations: self.donations.push(Seq::empty()),
            wallets: self.wallets,
            reward_token: self.reward_token,
            events: self.events.push(EventView::CampaignCreated { id, creator, title, target_amount }),
        }
    }

    /// Whether campaign `id` is open with its deadline passed at time `now`.
    pub open spec fn is_due(self, id: u64, now: u64) -> bool {
        &&& self.has(id)
        &&& self.campaign(id).status == CampaignStatus::Open
        &&& self.campaign(id).past_deadline(now)
    }

    /// The ledger after campaign `id` was given the status `status`, which `event` announces.
    pub open spec fn moved(self, id: u64, status: CampaignStatus, event: EventView) -> CampaignLedger {
        CampaignLedger {
            campaigns: self.campaigns.update(id - 1, self.campaign(id).with_status(status)),
            donations: self.donations,
            wallets: self.wallets,
            reward_token: self.reward_token,
            events: self.events.push(event),
        }
    }

    /// The ledger after campaign `id` was marked as expired.
    pub open spec fn marked_expired(self, id: u64) -> CampaignLedger {
        self.moved(id, CampaignStatus::Expired, EventView::CampaignExpired { id })
    }

    /// Why `donate` is rejected, if it is. The guards are tried in this order.
    pub open spec fn donation_error(self, auth: Seq<char>, id: u64, donor: Seq<char>, amount: i128, now: u64) -> Option<
        Error,
    > {
        if auth != donor {
            Some(Error::Unauthorized)
        } else if amount <= 0 {
            Some(Error::InvalidAmount)
        } else if !self.has(id) {
            Some(Error::CampaignNotFound)
        } else if donor == self.campaign(id).creator {
            Some(Error::SelfDonationForbidden)
        } else if self.campaign(id).status != CampaignStatus::Open {
            Some(Error::NotAcceptingDonations)
        } else if self.campaign(id).past_deadline(now) {
            Some(Error::CampaignExpiredError)
        } else if amount > self.campaign(id).remaining() {
            Some(Error::OverfundingForbidden)
        } else if self.reward_token is Some && amount * REWARD_PER_UNIT > i128::MAX {
            Some(Error::ArithmeticOverflow)
        } else {
            None
        }
    }

    /// The ledger after `donate` was rejected with `error`: campaign `id` is marked as
    /// expired where the donation came after its deadline, and nothing changes otherwise.
    pub open spec fn after_rejection(self, error: Error, id: u64) -> CampaignLedger {
        if error == Error::CampaignExpiredError {
            self.marked_expired(id)
        } else {
            self
        }
    }

    /// The reward to issue for an accepted donation: none while no reward ledger is set.
    pub open spec fn reward_for(self, id: u64, donor: Seq<char>, amount: i128) -> Option<RewardOrderView> {
        match self.reward_token {
            Some(token) => Some(
                RewardOrderView {
                    token,
                    to: donor,
                    amount: (amount * REWARD_PER_UNIT) as i128,
                    campaign_id: id,
                },
            ),
            None => None,
        }
    }

    /// The events of an accepted donation, in the order in which they are announced.
    pub open spec fn donation_events(self, id: u64, donor: Seq<char>, amount: i128) -> Seq<EventView> {
        let new_total = (self.campaign(id).total_donated + amount) as i128;
        let funded = if new_total >= self.campaign(id).target_amount {
            seq![EventView::CampaignFunded { id }]
        } else {
            Seq::empty()
        };
        let received = seq![EventView::DonationReceived { id, donor, amount, new_total }];
        let minted = match self.reward_for(id, donor, amount) {
            Some(order) => seq![
                EventView::TokensMinted { to: order.to, amount: order.amount, campaign_id: order.campaign_id },
            ],
            None => Seq::empty(),
        };
        funded + received + minted
    }

    /// The ledger after an accepted `donate`.
    pub open spec fn donated(self, id: u64, donor: Seq<char>, amount: i128, now: u64) -> CampaignLedger {
        let before = self.campaign(id);
        let new_total = (before.total_donated + amount) as i128;
        let status = if new_total >= before.target_amount {
            CampaignStatus::Funded
        } else {
            before.status
        };
        CampaignLedger {
            campaigns: self.campaigns.update(
                id - 1,
                CampaignView { total_donated: new_total, status, ..before },
            ),
            donations: self.donations.update(
                id - 1,
                self.donations[id - 1].push(DonationView { donor, amount, timestamp: now }),
            ),
            wallets: recorded(self.wallets, donor, id),
            reward_token: self.reward_token,
            events: self.events + self.donation_events(id, donor, amount),
        }
    }

    /// Why `close_campaign` is rejected, if it is.
    pub open spec fn close_error(self, auth: Seq<char>, id: u64, caller: Seq<char>) -> Option<Error> {
        if auth != caller {
            Some(Error::Unauthorized)
        } else if !self.has(id) {
            Some(Error::CampaignNotFound)
        } else if caller != self.campaign(id).creator {
            Some(Error::Unauthorized)
        } else {
            None
        }
    }

    /// The ledger after an accepted `close_campaign`: an open campaign is closed, and one
    /// in a terminal status stays as it is.
    pub open spec fn closed(self, id: u64) -> CampaignLedger {
        if self.campaign(id).status == CampaignStatus::Open {
            self.moved(id, CampaignStatus::Closed, EventView::CampaignClosed { id })
        } else {
            self
        }
    }

    /// Why `set_reward_token` is rejected, if it is.
    pub open spec fn token_error(self, auth: Seq<char>, admin: Seq<char>) -> Option<Error> {
        if auth != admin {
            Some(Error::Unauthorized)
        } else if self.reward_token is Some {
            Some(Error::AlreadySet)
        } else {
            None
        }
    }

    /// The ledger after an accepted `set_reward_token`.
    pub open spec fn with_token(self, token: Seq<char>) -> CampaignLedger {
        CampaignLedger { reward_token: Some(token), ..self }
    }

    /// The campaigns of `creator`, in the order of their ids.
    pub open spec fn campaigns_by(self, creator: Seq<char>) -> Seq<CampaignView> {
        self.campaigns.filter(created_by(creator))
    }
}

/// The test that picks the campaigns of `creator`.
pub open spec fn created_by(creator: Seq<char>) -> spec_fn(CampaignView) -> bool {
    |c: CampaignView| c.creator == creator
}

/// One more donation adds its amount to the sum.
pub proof fn lemma_donated_sum_push(donations: Seq<DonationView>, donation: DonationView)
    ensures
        donated_sum(donations.push(donation)) == donated_sum(donations) + donation.amount,
{
    assert(donations.push(donation).drop_last() =~= donations);
}

/// A new campaign leaves the ledger valid.
pub proof fn lemma_created_valid(
    s: CampaignLedger,
    auth: Seq<char>,
    creator: Seq<char>,
    title: Seq<char>,
    target_amount: i128,
    now: u64,
    duration_days: u64,
)
    requires
        s.valid(),
        s.create_error(auth, creator, target_amount, now, duration_days) is None,
    ensures
        s.created(creator, title, target_amount, now, duration_days).valid(),
{
}

/// A change of status that respects what each status says of the total leaves the
/// ledger valid.
pub proof fn lemma_moved_valid(s: CampaignLedger, id: u64, status: CampaignStatus, event: EventView)
    requires
        s.valid(),
        s.has(id),
        s.campaign(id).with_status(status).valid(),
    ensures
        s.moved(id, status, event).valid(),
{
}

/// An accepted donation leaves the ledger valid.
pub proof fn lemma_donated_valid(s: CampaignLedger, auth: Seq<char>, id: u64, donor: Seq<char>, amount: i128, now: u64)
    requires
        s.valid(),
        s.donation_error(auth, id, donor, amount, now) is None,
    ensures
        s.donated(id, donor, amount, now).valid(),
{
    let after = s.donated(id, donor, amount, now);
    lemma_recorded(s.wallets, donor, id);
    lemma_donated_sum_push(s.donations[id - 1], DonationView { donor, amount, timestamp: now });
    assert forall|i: int| 0 <= i < after.campaigns.len() implies record_valid(
        #[trigger] after.campaigns[i],
        after.donations[i],
        i,
    ) by {
        assert(record_valid(s.campaigns[i], s.donations[i], i));
        if i == id - 1 {
            assert forall|k: int| 0 <= k < after.donations[i].len() implies (#[trigger] after.donations[i][k]).amount
                > 0 && after.donations[i][k].donor != after.campaigns[i].creator by {
                if k < s.donations[i].len() {
                    assert(s.donations[i][k].amount > 0);
                }
            }
        }
    }
}

} // verus!
