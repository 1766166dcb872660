pub mod address;
pub mod balances;
pub mod campaign_ledger;
pub mod coordinator;
pub mod crowdfunding;
pub mod laws;
pub mod reward_token;
pub mod types;
pub mod wallet_index;

pub use address::{Address, Auth};
pub use coordinator::donate_with_reward;
pub use crowdfunding::{CrowdfundingContract, RewardOrder};
pub use reward_token::RewardTokenContract;
pub use types::{Campaign, CampaignStatus, Donation, Error, Event};
