use vstd::prelude::*;
use crate::address::Address;

verus! {

/// Lifecycle of a campaign. `Open` is the only state with outgoing transitions.
#[derive(Clone, Copy, PartialEq, Eq, Structural, Debug)]
pub enum CampaignStatus {
    /// Accepting donations.
    Open,
    /// The target was reached.
    Funded,
    /// Closed by its creator.
    Closed,
    /// The deadline passed before the target was reached.
    Expired,
}

impl CampaignStatus {
    /// A terminal status has no outgoing transition.
    pub open spec fn is_terminal(self) -> bool {
        self != CampaignStatus::Open
    }

    /// Whether the status is terminal.
    pub fn terminal(self) -> (r: bool)
        ensures
            r == self.is_terminal(),
    {
        self != CampaignStatus::Open
    }
}

/// Why an operation was rejected.
#[derive(Clone, Copy, PartialEq, Eq, Structural, Debug)]
pub enum Error {
    InvalidTarget,
    InvalidAmount,
    CampaignNotFound,
    SelfDonationForbidden,
    NotAcceptingDonations,
    CampaignExpiredError,
    OverfundingForbidden,
    ArithmeticOverflow,
    Unauthorized,
    AlreadyInitialized,
    AlreadySet,
    NotInitialized,
    InsufficientBalance,
    SelfTransfer,
}

impl Error {
    /// The name under which the failure is reported.
    pub open spec fn label_text(self) -> Seq<char> {
        match self {
            Error::InvalidTarget => "InvalidTarget"@,
            Error::InvalidAmount => "InvalidAmount"@,
            Error::CampaignNotFound => "CampaignNotFound"@,
            Error::SelfDonationForbidden => "SelfDonationForbidden"@,
            Error::NotAcceptingDonations => "NotAcceptingDonations"@,
            Error::CampaignExpiredError => "CampaignExpiredError"@,
            Error::OverfundingForbidden => "OverfundingForbidden"@,
            Error::ArithmeticOverflow => "ArithmeticOverflow"@,
            Error::Unauthorized => "Unauthorized"@,
            Error::AlreadyInitialized => "AlreadyInitialized"@,
            Error::AlreadySet => "AlreadySet"@,
            Error::NotInitialized => "NotInitialized"@,
            Error::InsufficientBalance => "InsufficientBalance"@,
            Error::SelfTransfer => "SelfTransfer"@,
        }
    }

    /// The name under which the failure is reported.
    pub fn label(self) -> (r: &'static str)
        ensures
            r@ == self.label_text(),
    {
        match self {
            Error::InvalidTarget => "InvalidTarget",
            Error::InvalidAmount => "InvalidAmount",
            Error::CampaignNotFound => "CampaignNotFound",
            Error::SelfDonationForbidden => "SelfDonationForbidden",
            Error::NotAcceptingDonations => "NotAcceptingDonations",
            Error::CampaignExpiredError => "CampaignExpiredError",
            Error::OverfundingForbidden => "OverfundingForbidden",
            Error::ArithmeticOverflow => "ArithmeticOverflow",
            Error::Unauthorized => "Unauthorized",
            Error::AlreadyInitialized => "AlreadyInitialized",
            Error::AlreadySet => "AlreadySet",
            Error::NotInitialized => "NotInitialized",
            Error::InsufficientBalance => "InsufficientBalance",
            Error::SelfTransfer => "SelfTransfer",
        }
    }
}

/// The mathematical value of a [`Campaign`].
pub struct CampaignView {
    pub id: u64,
    pub creator: Seq<char>,
    pub title: Seq<char>,
    pub target_amount: i128,
    pub total_donated: i128,
    pub status: CampaignStatus,
    pub end_time: u64,
}

impl CampaignView {
    /// What holds of every stored campaign: a positive target, a total between zero and
    /// the target, open exactly while the target is not reached by donations, and funded
    /// only with the target met.
    pub open spec fn valid(self) -> bool {
        &&& self.target_amount > 0
        &&& 0 <= self.total_donated <= self.target_amount
        &&& self.status == CampaignStatus::Open ==> self.total_donated < self.target_amount
        &&& self.status == CampaignStatus::Funded ==> self.total_donated == self.target_amount
    }

    /// How much may still be donated.
    pub open spec fn remaining(self) -> int {
        self.target_amount - self.total_donated
    }

    /// The same campaign in another status.
    pub open spec fn with_status(self, status: CampaignStatus) -> CampaignView {
        CampaignView { status, ..self }
    }

    /// Whether the deadline has passed at time `now`.
    pub open spec fn past_deadline(self, now: u64) -> bool {
        now > self.end_time
    }
}

/// A funding goal with a creator, a target, the total received so far, a status and a
/// deadline.
#[derive(Debug)]
pub struct Campaign {
    pub id: u64,
    pub creator: Address,
    pub title: String,
    pub target_amount: i128,
    pub total_donated: i128,
    pub status: CampaignStatus,
    pub end_time: u64,
}

impl View for Campaign {
    type V = CampaignView;

    open spec fn view(&self) -> CampaignView {
        CampaignView {
            id: self.id,
            creator: self.creator@,
            title: self.title@,
            target_amount: self.target_amount,
            total_donated: self.total_donated,
            status: self.status,
            end_time: self.end_time,
        }
    }
}

impl Clone for Campaign {
    fn clone(&self) -> (r: Campaign)
        ensures
            r == *self,
    {
        Campaign {
            id: self.id,
            creator: self.creator.clone(),
            title: self.title.clone(),
            target_amount: self.target_amount,
            total_donated: self.total_donated,
            status: self.status,
            end_time: self.end_time,
        }
    }
}

/// The mathematical value of a [`Donation`].
pub struct DonationView {
    pub donor: Seq<char>,
    pub amount: i128,
    pub timestamp: u64,
}

/// One contribution, immutable once recorded.
#[derive(Debug)]
pub struct Donation {
    pub donor: Address,
    pub amount: i128,
    pub timestamp: u64,
}

impl View for Donation {
    type V = DonationView;

    open spec fn view(&self) -> DonationView {
        DonationView { donor: self.donor@, amount: self.amount, timestamp: self.timestamp }
    }
}

impl Clone for Donation {
    fn clone(&self) -> (r: Donation)
        ensures
            r == *self,
    {
        Donation { donor: self.donor.clone(), amount: self.amount, timestamp: self.timestamp }
    }
}

/// The mathematical value of an [`Event`].
pub enum EventView {
    CampaignCreated { id: u64, creator: Seq<char>, title: Seq<char>, target_amount: i128 },
    CampaignFunded { id: u64 },
    CampaignClosed { id: u64 },
    CampaignExpired { id: u64 },
    DonationReceived { id: u64, donor: Seq<char>, amount: i128, new_total: i128 },
    TokensMinted { to: Seq<char>, amount: i128, campaign_id: u64 },
}

/// What the campaign ledger announces to its observers.
#[derive(Debug)]
pub enum Event {
    CampaignCreated { id: u64, creator: Address, title: String, target_amount: i128 },
    CampaignFunded { id: u64 },
    CampaignClosed { id: u64 },
    CampaignExpired { id: u64 },
    DonationReceived { id: u64, donor: Address, amount: i128, new_total: i128 },
    TokensMinted { to: Address, amount: i128, campaign_id: u64 },
}

impl View for Event {
    type V = EventView;

    open spec fn view(&self) -> EventView {
        match *self {
            Event::CampaignCreated { id, creator, title, target_amount } => EventView::CampaignCreated {
                id,
                creator: creator@,
                title: title@,
                target_amount,
            },
            Event::CampaignFunded { id } => EventView::CampaignFunded { id },
            Event::CampaignClosed { id } => EventView::CampaignClosed { id },
            Event::CampaignExpired { id } => EventView::CampaignExpired { id },
            Event::DonationReceived { id, donor, amount, new_total } => EventView::DonationReceived {
                id,
                donor: donor@,
                amount,
                new_total,
            },
            Event::TokensMinted { to, amount, campaign_id } => EventView::TokensMinted {
                to: to@,
                amount,
                campaign_id,
            },
        }
    }
}

} // verus!
