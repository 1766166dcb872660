use crowdfunding::reward_token::TokenEvent;
use crowdfunding::{donate_with_reward, Address, Auth, CampaignStatus, CrowdfundingContract, Error, RewardTokenContract};

fn wallet(name: &str) -> Address {
    Address::from_str(name)
}

fn auth(name: &str) -> Auth {
    Auth::of(Address::from_str(name))
}

fn initialized() -> RewardTokenContract {
    let mut token = RewardTokenContract::new();
    token
        .initialize(wallet("GADMIN"), String::from("Stellar Support Token"), String::from("SST"), 7)
        .unwrap();
    token
}

#[test]
fn test_initialize() {
    let mut token = RewardTokenContract::new();
    let name = String::from("Stellar Support Token");
    let symbol = String::from("SST");

    token.initialize(wallet("GADMIN"), name.clone(), symbol.clone(), 7).unwrap();

    assert_eq!(token.name(), Ok(name));
    assert_eq!(token.symbol(), Ok(symbol));
    assert_eq!(token.decimals(), Ok(7));
    assert_eq!(token.total_supply(), 0i128);
}

#[test]
fn test_mint() {
    let mut token = initialized();

    token.mint(&wallet("GRECIPIENT"), 1_000_000_000i128).unwrap();

    assert_eq!(token.balance(&wallet("GRECIPIENT")), 1_000_000_000i128);
    assert_eq!(token.total_supply(), 1_000_000_000i128);
}

#[test]
fn test_transfer() {
    let mut token = initialized();

    token.mint(&wallet("GUSER1"), 1_000_000_000i128).unwrap();
    token.transfer(&auth("GUSER1"), &wallet("GUSER1"), &wallet("GUSER2"), 300_000_000i128).unwrap();

    assert_eq!(token.balance(&wallet("GUSER1")), 700_000_000i128);
    assert_eq!(token.balance(&wallet("GUSER2")), 300_000_000i128);
    assert_eq!(token.total_supply(), 1_000_000_000i128);
}

#[test]
fn test_transfer_insufficient() {
    let mut token = initialized();

    token.mint(&wallet("GUSER1"), 100i128).unwrap();
    let r = token.transfer(&auth("GUSER1"), &wallet("GUSER1"), &wallet("GUSER2"), 500i128);

    assert_eq!(r, Err(Error::InsufficientBalance));
    assert_eq!(token.balance(&wallet("GUSER1")), 100);
    assert_eq!(token.balance(&wallet("GUSER2")), 0);
}

#[test]
fn test_double_initialize() {
    let mut token = initialized();

    let r = token.initialize(wallet("GADMIN"), String::from("Stellar Support Token"), String::from("SST"), 7);

    assert_eq!(r, Err(Error::AlreadyInitialized));
}

#[test]
fn second_initialize_keeps_the_first_metadata() {
    let mut token = initialized();
    let r = token.initialize(wallet("GOTHER"), String::from("Other"), String::from("OTH"), 2);
    assert_eq!(r, Err(Error::AlreadyInitialized));
    assert!(token.admin().unwrap().same(&wallet("GADMIN")));
    assert_eq!(token.name(), Ok(String::from("Stellar Support Token")));
    assert_eq!(token.symbol(), Ok(String::from("SST")));
    assert_eq!(token.decimals(), Ok(7));
}

#[test]
fn metadata_is_missing_before_initialize() {
    let token = RewardTokenContract::new();
    assert_eq!(token.name(), Err(Error::NotInitialized));
    assert_eq!(token.symbol(), Err(Error::NotInitialized));
    assert_eq!(token.decimals(), Err(Error::NotInitialized));
    assert_eq!(token.admin().err(), Some(Error::NotInitialized));
    assert_eq!(token.total_supply(), 0);
    assert_eq!(token.balance(&wallet("GA")), 0);
}

#[test]
fn mint_wants_a_positive_amount() {
    let mut token = initialized();
    assert_eq!(token.mint(&wallet("GA"), 0), Err(Error::InvalidAmount));
    assert_eq!(token.mint(&wallet("GA"), -1), Err(Error::InvalidAmount));
    assert_eq!(token.check_mint(&wallet("GA"), 0), Err(Error::InvalidAmount));
    assert_eq!(token.check_mint(&wallet("GA"), 1), Ok(()));
    assert_eq!(token.total_supply(), 0);
    assert_eq!(token.balance(&wallet("GA")), 0);
}

#[test]
fn mint_adds_to_balance_and_supply() {
    let mut token = initialized();
    token.mint(&wallet("GA"), 5).unwrap();
    token.mint(&wallet("GB"), 7).unwrap();
    token.mint(&wallet("GA"), 11).unwrap();
    assert_eq!(token.balance(&wallet("GA")), 16);
    assert_eq!(token.balance(&wallet("GB")), 7);
    assert_eq!(token.balance(&wallet("GC")), 0);
    assert_eq!(token.total_supply(), 23);
}

#[test]
fn mint_that_does_not_fit_is_rejected() {
    let mut token = initialized();
    token.mint(&wallet("GA"), i128::MAX - 1).unwrap();
    assert_eq!(token.mint(&wallet("GB"), 2), Err(Error::ArithmeticOverflow));
    assert_eq!(token.mint(&wallet("GA"), 2), Err(Error::ArithmeticOverflow));
    assert_eq!(token.check_mint(&wallet("GB"), 2), Err(Error::ArithmeticOverflow));
    assert_eq!(token.balance(&wallet("GB")), 0);
    assert_eq!(token.total_supply(), i128::MAX - 1);
    assert_eq!(token.mint(&wallet("GB"), 1), Ok(()));
    assert_eq!(token.total_supply(), i128::MAX);
}

#[test]
fn transfer_guards_come_in_order() {
    let mut token = initialized();
    token.mint(&wallet("GA"), 10).unwrap();
    let r = token.transfer(&auth("GB"), &wallet("GA"), &wallet("GA"), 0);
    assert_eq!(r, Err(Error::Unauthorized));
    let r = token.transfer(&auth("GA"), &wallet("GA"), &wallet("GA"), 0);
    assert_eq!(r, Err(Error::InvalidAmount));
    let r = token.transfer(&auth("GA"), &wallet("GA"), &wallet("GA"), 100);
    assert_eq!(r, Err(Error::SelfTransfer));
    let r = token.transfer(&auth("GA"), &wallet("GA"), &wallet("GB"), 11);
    assert_eq!(r, Err(Error::InsufficientBalance));
    let r = token.transfer(&auth("GB"), &wallet("GB"), &wallet("GA"), 1);
    assert_eq!(r, Err(Error::InsufficientBalance));
    assert_eq!(token.balance(&wallet("GA")), 10);
    assert_eq!(token.total_supply(), 10);
}

#[test]
fn transfer_of_the_whole_balance_leaves_zero() {
    let mut token = initialized();
    token.mint(&wallet("GA"), 10).unwrap();
    token.transfer(&auth("GA"), &wallet("GA"), &wallet("GB"), 10).unwrap();
    assert_eq!(token.balance(&wallet("GA")), 0);
    assert_eq!(token.balance(&wallet("GB")), 10);
    assert_eq!(token.total_supply(), 10);
    let r = token.transfer(&auth("GA"), &wallet("GA"), &wallet("GB"), 1);
    assert_eq!(r, Err(Error::InsufficientBalance));
}

#[test]
fn initialize_resets_the_supply_it_counts() {
    let mut token = RewardTokenContract::new();
    token.mint(&wallet("GA"), i128::MAX).unwrap();
    token.initialize(wallet("GADMIN"), String::from("N"), String::from("S"), 0).unwrap();
    assert_eq!(token.total_supply(), 0);
    assert_eq!(token.balance(&wallet("GA")), i128::MAX);
    token.mint(&wallet("GB"), 5).unwrap();
    let r = token.transfer(&auth("GB"), &wallet("GB"), &wallet("GA"), 1);
    assert_eq!(r, Err(Error::ArithmeticOverflow));
    assert_eq!(token.balance(&wallet("GB")), 5);
}

#[test]
fn token_events_are_handed_out_once() {
    let mut token = initialized();
    token.mint(&wallet("GA"), 10).unwrap();
    token.transfer(&auth("GA"), &wallet("GA"), &wallet("GB"), 4).unwrap();
    let events = token.take_events();
    assert_eq!(events.len(), 3);
    match &events[0] {
        TokenEvent::Initialized { admin, name, symbol, decimals } => {
            assert!(admin.same(&wallet("GADMIN")));
            assert_eq!(name, "Stellar Support Token");
            assert_eq!(symbol, "SST");
            assert_eq!(*decimals, 7);
        }
        other => panic!("unexpected event {:?}", other),
    }
    match &events[1] {
        TokenEvent::Minted { to, amount, new_supply } => {
            assert!(to.same(&wallet("GA")));
            assert_eq!(*amount, 10);
            assert_eq!(*new_supply, 10);
        }
        other => panic!("unexpected event {:?}", other),
    }
    match &events[2] {
        TokenEvent::Transferred { from, to, amount } => {
            assert!(from.same(&wallet("GA")));
            assert!(to.same(&wallet("GB")));
            assert_eq!(*amount, 4);
        }
        other => panic!("unexpected event {:?}", other),
    }
    assert!(token.take_events().is_empty());
}

#[test]
fn reward_ledger_scenario() {
    let mut token = initialized();
    assert_eq!(token.total_supply(), 0);
    token.mint(&wallet("GX"), 1_000_000_000).unwrap();
    assert_eq!(token.balance(&wallet("GX")), 1_000_000_000);
    assert_eq!(token.total_supply(), 1_000_000_000);
    token.transfer(&auth("GX"), &wallet("GX"), &wallet("GY"), 300_000_000).unwrap();
    assert_eq!(token.balance(&wallet("GX")), 700_000_000);
    assert_eq!(token.balance(&wallet("GY")), 300_000_000);
    assert_eq!(token.total_supply(), 1_000_000_000);
}

#[test]
fn accepted_donation_mints_ten_times_the_amount() {
    let mut campaigns = CrowdfundingContract::new();
    let mut rewards = initialized();
    campaigns.set_reward_token(&auth("GADMIN"), &wallet("GADMIN"), wallet("CTOKEN")).unwrap();
    let id = campaigns
        .create_campaign(&auth("GCREATOR"), wallet("GCREATOR"), String::from("Test Campaign"), 1_000, 30, 0)
        .unwrap();
    rewards.mint(&wallet("GA"), 3).unwrap();

    let r = donate_with_reward(&mut campaigns, &mut rewards, &auth("GA"), id, &wallet("GA"), 25, 0);

    assert_eq!(r, Ok(()));
    assert_eq!(rewards.balance(&wallet("GA")), 253);
    assert_eq!(rewards.total_supply(), 253);
    assert_eq!(campaigns.get_campaign(id).unwrap().total_donated, 25);
    assert_eq!(campaigns.get_donations_by_wallet(&wallet("GA")), vec![1]);
}

#[test]
fn donation_without_reward_ledger_mints_nothing() {
    let mut campaigns = CrowdfundingContract::new();
    let mut rewards = initialized();
    let id = campaigns
        .create_campaign(&auth("GCREATOR"), wallet("GCREATOR"), String::from("Test Campaign"), 1_000, 30, 0)
        .unwrap();

    let r = donate_with_reward(&mut campaigns, &mut rewards, &auth("GA"), id, &wallet("GA"), 25, 0);

    assert_eq!(r, Ok(()));
    assert_eq!(rewards.balance(&wallet("GA")), 0);
    assert_eq!(rewards.total_supply(), 0);
    assert_eq!(campaigns.get_campaign(id).unwrap().total_donated, 25);
}

#[test]
fn failed_mint_undoes_the_donation() {
    let mut campaigns = CrowdfundingContract::new();
    let mut rewards = initialized();
    campaigns.set_reward_token(&auth("GADMIN"), &wallet("GADMIN"), wallet("CTOKEN")).unwrap();
    let id = campaigns
        .create_campaign(&auth("GCREATOR"), wallet("GCREATOR"), String::from("Test Campaign"), 1_000, 30, 0)
        .unwrap();
    rewards.mint(&wallet("GB"), i128::MAX - 100).unwrap();
    campaigns.take_events();
    rewards.take_events();

    let r = donate_with_reward(&mut campaigns, &mut rewards, &auth("GA"), id, &wallet("GA"), 11, 0);

    assert_eq!(r, Err(Error::ArithmeticOverflow));
    let c = campaigns.get_campaign(id).unwrap();
    assert_eq!(c.total_donated, 0);
    assert_eq!(c.status, CampaignStatus::Open);
    assert!(campaigns.get_donations_by_campaign(id).is_empty());
    assert!(campaigns.get_donations_by_wallet(&wallet("GA")).is_empty());
    assert!(campaigns.take_events().is_empty());
    assert_eq!(rewards.balance(&wallet("GA")), 0);
    assert_eq!(rewards.total_supply(), i128::MAX - 100);
    assert!(rewards.take_events().is_empty());

    let r = donate_with_reward(&mut campaigns, &mut rewards, &auth("GA"), id, &wallet("GA"), 10, 0);
    assert_eq!(r, Ok(()));
    assert_eq!(rewards.balance(&wallet("GA")), 100);
    assert_eq!(rewards.total_supply(), i128::MAX);
}

#[test]
fn rejected_donation_mints_nothing() {
    let mut campaigns = CrowdfundingContract::new();
    let mut rewards = initialized();
    campaigns.set_reward_token(&auth("GADMIN"), &wallet("GADMIN"), wallet("CTOKEN")).unwrap();
    let id = campaigns
        .create_campaign(&auth("GCREATOR"), wallet("GCREATOR"), String::from("Test Campaign"), 100, 1, 0)
        .unwrap();

    let r = donate_with_reward(&mut campaigns, &mut rewards, &auth("GA"), id, &wallet("GA"), 101, 0);
    assert_eq!(r, Err(Error::OverfundingForbidden));
    let r = donate_with_reward(&mut campaigns, &mut rewards, &auth("GCREATOR"), id, &wallet("GCREATOR"), 1, 0);
    assert_eq!(r, Err(Error::SelfDonationForbidden));
    let r = donate_with_reward(&mut campaigns, &mut rewards, &auth("GA"), id, &wallet("GA"), 1, 86_401);
    assert_eq!(r, Err(Error::CampaignExpiredError));
    assert_eq!(campaigns.get_campaign(id).unwrap().status, CampaignStatus::Expired);
    assert_eq!(rewards.total_supply(), 0);
    assert_eq!(rewards.balance(&wallet("GA")), 0);
}

#[test]
fn restored_reward_ledger_goes_on_where_it_was() {
    let mut token = initialized();
    token.mint(&wallet("GA"), 10).unwrap();
    token.mint(&wallet("GB"), 5).unwrap();

    let mut again = RewardTokenContract::restore(token.info(), token.total_supply(), token.accounts()).unwrap();

    assert_eq!(again.balance(&wallet("GA")), 10);
    assert_eq!(again.balance(&wallet("GB")), 5);
    assert_eq!(again.total_supply(), 15);
    assert_eq!(again.name(), Ok(String::from("Stellar Support Token")));
    assert!(again.take_events().is_empty());
    again.transfer(&auth("GA"), &wallet("GA"), &wallet("GB"), 4).unwrap();
    assert_eq!(again.balance(&wallet("GB")), 9);
}

#[test]
fn inconsistent_reward_ledger_is_not_restored() {
    let mut token = initialized();
    token.mint(&wallet("GA"), 10).unwrap();

    assert!(RewardTokenContract::restore(None, -1, Vec::new()).is_none());
    let mut accounts = token.accounts();
    accounts[0].amount = -1;
    assert!(RewardTokenContract::restore(None, 0, accounts).is_none());
    let mut accounts = token.accounts();
    accounts.extend(token.accounts());
    assert!(RewardTokenContract::restore(None, 20, accounts).is_none());
    assert!(RewardTokenContract::restore(None, 10, token.accounts()).is_some());
}
