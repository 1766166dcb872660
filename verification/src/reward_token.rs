use vstd::prelude::*;
use crate::address::{Address, Auth};
use crate::balances::{
    account_views, accounts_in_order, adjusted, balance_in, balance_of, distinct_holders,
    lemma_adjusted, no_debt, set_balance, sum_of_balances, Account, AccountView,
};
use crate::types::Error;

verus! {

/// The mathematical value of a [`TokenInfo`].
pub struct TokenInfoView {
    pub admin: Seq<char>,
    pub name: Seq<char>,
    pub symbol: Seq<char>,
    pub decimals: u32,
}

/// What a reward ledger is told once, when it is initialized.
#[derive(Debug)]
pub struct TokenInfo {
    pub admin: Address,
    pub name: String,
    pub symbol: String,
    pub decimals: u32,
}

impl View for TokenInfo {
    type V = TokenInfoView;

    open spec fn view(&self) -> TokenInfoView {
        TokenInfoView {
            admin: self.admin@,
            name: self.name@,
            symbol: self.symbol@,
            decimals: self.decimals,
        }
    }
}

impl Clone for TokenInfo {
    fn clone(&self) -> (r: TokenInfo)
        ensures
            r == *self,
    {
        TokenInfo {
            admin: self.admin.clone(),
            name: self.name.clone(),
            symbol: self.symbol.clone(),
            decimals: self.decimals,
        }
    }
}

/// The value of metadata that may be missing.
pub open spec fn optional_info(info: Option<TokenInfo>) -> Option<TokenInfoView> {
    match info {
        Some(i) => Some(i@),
        None => None,
    }
}

/// The mathematical value of a [`TokenEvent`].
pub enum TokenEventView {
    Initialized { admin: Seq<char>, name: Seq<char>, symbol: Seq<char>, decimals: u32 },
    Minted { to: Seq<char>, amount: i128, new_supply: i128 },
    Transferred { from: Seq<char>, to: Seq<char>, amount: i128 },
}

/// What the reward ledger announces to its observers.
#[derive(Debug)]
pub enum TokenEvent {
    Initialized { admin: Address, name: String, symbol: String, decimals: u32 },
    Minted { to: Address, amount: i128, new_supply: i128 },
    Transferred { from: Address, to: Address, amount: i128 },
}

impl View for TokenEvent {
    type V = TokenEventView;

    open spec fn view(&self) -> TokenEventView {
        match *self {
            TokenEvent::Initialized { admin, name, symbol, decimals } => TokenEventView::Initialized {
                admin: admin@,
                name: name@,
                symbol: symbol@,
                decimals,
            },
            TokenEvent::Minted { to, amount, new_supply } => TokenEventView::Minted {
                to: to@,
                amount,
                new_supply,
            },
            TokenEvent::Transferred { from, to, amount } => TokenEventView::Transferred {
                from: from@,
                to: to@,
                amount,
            },
        }
    }
}

/// The values of a sequence of events, in the same order.
pub open spec fn token_event_views(events: Seq<TokenEvent>) -> Seq<TokenEventView> {
    events.map_values(|e: TokenEvent| e@)
}

/// The state of a reward ledger: what it was initialized with, the supply it counts, the
/// accounts in the order in which they were opened, and the events not yet handed out.
pub struct TokenLedger {
    pub info: Option<TokenInfoView>,
    pub total_supply: i128,
    pub accounts: Seq<AccountView>,
    pub events: Seq<TokenEventView>,
}

impl TokenLedger {
    /// What holds of every ledger: one account per holder, no debt, no negative supply.
    pub open spec fn valid(self) -> bool {
        &&& distinct_holders(self.accounts)
        &&& no_debt(self.accounts)
        &&& self.total_supply >= 0
    }

    /// The supply that the ledger counts is the sum of its balances.
    pub open spec fn balanced(self) -> bool {
        self.total_supply == sum_of_balances(self.accounts)
    }

    /// The balance of `who`.
    pub open spec fn balance(self, who: Seq<char>) -> int {
        balance_of(self.accounts, who)
    }

    /// The ledger before anything happened.
    pub open spec fn empty() -> TokenLedger {
        TokenLedger { info: None, total_supply: 0, accounts: Seq::empty(), events: Seq::empty() }
    }

    /// Why `initialize` is rejected, if it is.
    pub open spec fn initialize_error(self) -> Option<Error> {
        if self.info is Some {
            Some(Error::AlreadyInitialized)
        } else {
            None
        }
    }

    /// The ledger after an accepted `initialize`.
    pub open spec fn initialized(self, info: TokenInfoView) -> TokenLedger {
        TokenLedger {
            info: Some(info),
            total_supply: 0,
            accounts: self.accounts,
            events: self.events.push(
                TokenEventView::Initialized {
                    admin: info.admin,
                    name: info.name,
                    symbol: info.symbol,
                    decimals: info.decimals,
                },
            ),
        }
    }

    /// Why `mint` is rejected, if it is.
    pub open spec fn mint_error(self, to: Seq<char>, amount: i128) -> Option<Error> {
        if amount <= 0 {
            Some(Error::InvalidAmount)
        } else if self.balance(to) + amount > i128::MAX || self.total_supply + amount > i128::MAX {
            Some(Error::ArithmeticOverflow)
        } else {
            None
        }
    }

    /// The ledger after an accepted `mint`.
    pub open spec fn minted(self, to: Seq<char>, amount: i128) -> TokenLedger {
        TokenLedger {
            info: self.info,
            total_supply: (self.total_supply + amount) as i128,
            accounts: adjusted(self.accounts, to, amount as int),
            events: self.events.push(
                TokenEventView::Minted {
                    to,
                    amount,
                    new_supply: (self.total_supply + amount) as i128,
                },
            ),
        }
    }

    /// Why `transfer` is rejected, if it is.
    pub open spec fn transfer_error(self, auth: Seq<char>, from: Seq<char>, to: Seq<char>, amount: i128) -> Option<
        Error,
    > {
        if auth != from {
            Some(Error::Unauthorized)
        } else if amount <= 0 {
            Some(Error::InvalidAmount)
        } else if from == to {
            Some(Error::SelfTransfer)
        } else if self.balance(from) < amount {
            Some(Error::InsufficientBalance)
        } else if self.balance(to) + amount > i128::MAX {
            Some(Error::ArithmeticOverflow)
        } else {
            None
        }
    }

    /// The ledger after an accepted `transfer`.
    pub open spec fn transferred(self, from: Seq<char>, to: Seq<char>, amount: i128) -> TokenLedger {
        TokenLedger {
            info: self.info,
            total_supply: self.total_supply,
            accounts: adjusted(adjusted(self.accounts, from, -amount), to, amount as int),
            events: self.events.push(TokenEventView::Transferred { from, to, amount }),
        }
    }
}

/// A ledger of reward credits: balances per holder, the supply, and what it was
/// initialized with.
#[derive(Debug)]
pub struct RewardTokenContract {
    info: Option<TokenInfo>,
    total_supply: i128,
    accounts: Vec<Account>,
    events: Vec<TokenEvent>,
}

impl View for RewardTokenContract {
    type V = TokenLedger;

    closed spec fn view(&self) -> TokenLedger {
        TokenLedger {
            info: optional_info(self.info),
            total_supply: self.total_supply,
            accounts: account_views(self.accounts@),
            events: token_event_views(self.events@),
        }
    }
}

impl RewardTokenContract {
    /// The invariant of the ledger, which every operation keeps.
    pub open spec fn wf(&self) -> bool {
        self@.valid()
    }

    /// A ledger on which nothing has happened yet.
    pub fn new() -> (r: RewardTokenContract)
        ensures
            r.wf(),
            r@ == TokenLedger::empty(),
            r@.balanced(),
    {
        let r = RewardTokenContract {
            info: None,
            total_supply: 0,
            accounts: Vec::new(),
            events: Vec::new(),
        };
        assert(r@.accounts =~= Seq::empty());
        assert(r@.events =~= Seq::empty());
        r
    }

    /// The ledger with the given metadata, supply and accounts and no pending events, if
    /// they make a valid ledger: one account per holder, no debt, no negative supply.
    pub fn restore(info: Option<TokenInfo>, total_supply: i128, accounts: Vec<Account>) -> (r: Option<
        RewardTokenContract,
    >)
        ensures
            match r {
                Some(ledger) => ledger.wf() && ledger@ == (TokenLedger {
                    info: optional_info(info),
                    total_supply,
                    accounts: account_views(accounts@),
                    events: Seq::empty(),
                }),
                None => !(TokenLedger {
                    info: optional_info(info),
                    total_supply,
                    accounts: account_views(accounts@),
                    events: Seq::empty(),
                }).valid(),
            },
    {
        if total_supply < 0 || !accounts_in_order(&accounts) {
            return None;
        }
        let ledger = RewardTokenContract { info, total_supply, accounts, events: Vec::new() };
        assert(ledger@.events =~= Seq::empty());
        Some(ledger)
    }

    /// The metadata, once the ledger is initialized.
    pub fn info(&self) -> (r: Option<TokenInfo>)
        ensures
            optional_info(r) == self@.info,
    {
        match &self.info {
            Some(info) => Some(info.clone()),
            None => None,
        }
    }

    /// The accounts, in the order in which they were opened.
    pub fn accounts(&self) -> (r: Vec<Account>)
        ensures
            account_views(r@) == self@.accounts,
    {
        let mut out: Vec<Account> = Vec::new();
        let mut i: usize = 0;
        while i < self.accounts.len()
            invariant
                i <= self.accounts@.len(),
                account_views(out@) == account_views(self.accounts@).take(i as int),
            decreases self.accounts@.len() - i,
        {
            let ghost copied = account_views(out@);
            out.push(self.accounts[i].clone());
            assert(account_views(out@) =~= copied.push(self.accounts@[i as int]@));
            assert(account_views(out@) =~= account_views(self.accounts@).take(i + 1));
            i += 1;
        }
        assert(account_views(self.accounts@).take(i as int) =~= account_views(self.accounts@));
        out
    }

    /// Sets the administrator and the metadata, once, and the supply to zero.
    ///
    /// Rejected with `AlreadyInitialized` on a ledger that was initialized before. The
    /// balances stay: on a ledger that was credited before it is initialized, the supply
    /// counted from then on is less than the sum of the balances.
    pub fn initialize(&mut self, admin: Address, name: String, symbol: String, decimals: u32) -> (r: Result<
        (),
        Error,
    >)
        requires
            old(self).wf(),
        ensures
            final(self).wf(),
            match r {
                Ok(()) => old(self)@.initialize_error() is None && final(self)@ == old(self)@.initialized(
                    TokenInfoView { admin: admin@, name: name@, symbol: symbol@, decimals },
                ),
                Err(e) => old(self)@.initialize_error() == Some(e) && *final(self) == *old(self),
            },
    {
        if self.info.is_some() {
            return Err(Error::AlreadyInitialized);
        }
        let ghost before = self@;
        self.events.push(
            TokenEvent::Initialized {
                admin: admin.clone(),
                name: name.clone(),
                symbol: symbol.clone(),
                decimals,
            },
        );
        self.info = Some(TokenInfo { admin, name, symbol, decimals });
        self.total_supply = 0;
        proof {
            let after = before.initialized(
                TokenInfoView { admin: admin@, name: name@, symbol: symbol@, decimals },
            );
            assert(self@.events =~= after.events);
            assert(self@.info == after.info);
        }
        Ok(())
    }

    /// Tries the guards of `mint` without changing anything.
    pub fn check_mint(&self, to: &Address, amount: i128) -> (r: Result<(), Error>)
        requires
            self.wf(),
        ensures
            match r {
                Ok(()) => self@.mint_error(to@, amount) is None,
                Err(e) => self@.mint_error(to@, amount) == Some(e),
            },
    {
        if amount <= 0 {
            return Err(Error::InvalidAmount);
        }
        let current: i128 = balance_in(&self.accounts, to);
        if current.checked_add(amount).is_none() || self.total_supply.checked_add(amount).is_none() {
            return Err(Error::ArithmeticOverflow);
        }
        Ok(())
    }

    /// Credits `amount` to `to` and adds it to the supply.
    ///
    /// Rejected with `InvalidAmount` unless `amount` is positive, and with
    /// `ArithmeticOverflow` where the new balance or the new supply would not fit. The
    /// operation asks for no authorization: whoever reaches it may mint.
    pub fn mint(&mut self, to: &Address, amount: i128) -> (r: Result<(), Error>)
        requires
            old(self).wf(),
        ensures
            final(self).wf(),
            match r {
                Ok(()) => old(self)@.mint_error(to@, amount) is None && final(self)@ == old(self)@.minted(
                    to@,
                    amount,
                ),
                Err(e) => old(self)@.mint_error(to@, amount) == Some(e) && *final(self) == *old(self),
            },
            r is Ok ==> {
                &&& final(self)@.balance(to@) == old(self)@.balance(to@) + amount
                &&& final(self)@.total_supply == old(self)@.total_supply + amount
                &&& forall|other: Seq<char>|
                    other != to@ ==> final(self)@.balance(other) == old(self)@.balance(other)
                &&& final(self)@.balanced() == old(self)@.balanced()
            },
    {
        if amount <= 0 {
            return Err(Error::InvalidAmount);
        }
        let current: i128 = balance_in(&self.accounts, to);
        let new_balance: i128 = match current.checked_add(amount) {
            Some(v) => v,
            None => {
                return Err(Error::ArithmeticOverflow);
            },
        };
        let new_supply: i128 = match self.total_supply.checked_add(amount) {
            Some(v) => v,
            None => {
                return Err(Error::ArithmeticOverflow);
            },
        };
        let ghost before = self@;
        proof {
            lemma_adjusted(before.accounts, to@, amount as int);
        }
        set_balance(&mut self.accounts, to, new_balance);
        self.total_supply = new_supply;
        self.events.push(TokenEvent::Minted { to: to.clone(), amount, new_supply });
        proof {
            assert(self@.events =~= before.minted(to@, amount).events);
        }
        Ok(())
    }

    /// Moves `amount` from `from` to `to`.
    ///
    /// Rejected with `Unauthorized` unless `auth` is the authorization of `from`, with
    /// `InvalidAmount` unless `amount` is positive, with `SelfTransfer`
    /// where both are the same holder, with `InsufficientBalance` where `from` holds less
    /// than `amount`, and with `ArithmeticOverflow` where the balance of `to` would not fit.
    pub fn transfer(&mut self, auth: &Auth, from: &Address, to: &Address, amount: i128) -> (r: Result<(), Error>)
        requires
            old(self).wf(),
        ensures
            final(self).wf(),
            match r {
                Ok(()) => old(self)@.transfer_error(auth@, from@, to@, amount) is None && final(self)@
                    == old(self)@.transferred(from@, to@, amount),
                Err(e) => old(self)@.transfer_error(auth@, from@, to@, amount) == Some(e) && *final(self)
                    == *old(self),
            },
            r is Ok ==> {
                &&& final(self)@.balance(from@) == old(self)@.balance(from@) - amount
                &&& final(self)@.balance(to@) == old(self)@.balance(to@) + amount
                &&& final(self)@.total_supply == old(self)@.total_supply
                &&& forall|other: Seq<char>|
                    other != from@ && other != to@ ==> final(self)@.balance(other) == old(self)@.balance(
                        other,
                    )
                &&& final(self)@.balanced() == old(self)@.balanced()
            },
    {
        if !auth.covers(from) {
            return Err(Error::Unauthorized);
        }
        if amount <= 0 {
            return Err(Error::InvalidAmount);
        }
        if from.same(to) {
            return Err(Error::SelfTransfer);
        }
        let from_balance: i128 = balance_in(&self.accounts, from);
        if from_balance < amount {
            return Err(Error::InsufficientBalance);
        }
        let to_balance: i128 = balance_in(&self.accounts, to);
        let new_to_balance: i128 = match to_balance.checked_add(amount) {
            Some(v) => v,
            None => {
                return Err(Error::ArithmeticOverflow);
            },
        };
        let ghost before = self@;
        proof {
            lemma_adjusted(before.accounts, from@, -amount);
            lemma_adjusted(adjusted(before.accounts, from@, -amount), to@, amount as int);
        }
        set_balance(&mut self.accounts, from, from_balance - amount);
        set_balance(&mut self.accounts, to, new_to_balance);
        self.events.push(TokenEvent::Transferred { from: from.clone(), to: to.clone(), amount });
        proof {
            assert(self@.events =~= before.transferred(from@, to@, amount).events);
        }
        Ok(())
    }

    /// Hands out the events announced since the last call, oldest first.
    pub fn take_events(&mut self) -> (r: Vec<TokenEvent>)
        ensures
            token_event_views(r@) == old(self)@.events,
            final(self)@ == (TokenLedger { events: Seq::empty(), ..old(self)@ }),
    {
        let mut out: Vec<TokenEvent> = Vec::new();
        std::mem::swap(&mut self.events, &mut out);
        assert(token_event_views(self.events@) =~= Seq::empty());
        out
    }

    /// The balance of `account`: zero for one that never received anything.
    pub fn balance(&self, account: &Address) -> (r: i128)
        requires
            self.wf(),
        ensures
            r == self@.balance(account@),
    {
        balance_in(&self.accounts, account)
    }

    /// The supply that the ledger counts.
    pub fn total_supply(&self) -> (r: i128)
        ensures
            r == self@.total_supply,
    {
        self.total_supply
    }

    /// The name of the credit; `NotInitialized` before `initialize`.
    pub fn name(&self) -> (r: Result<String, Error>)
        ensures
            match r {
                Ok(name) => self@.info is Some && name@ == self@.info->0.name,
                Err(e) => self@.info is None && e == Error::NotInitialized,
            },
    {
        match &self.info {
            Some(info) => Ok(info.name.clone()),
            None => Err(Error::NotInitialized),
        }
    }

    /// The symbol of the credit; `NotInitialized` before `initialize`.
    pub fn symbol(&self) -> (r: Result<String, Error>)
        ensures
            match r {
                Ok(symbol) => self@.info is Some && symbol@ == self@.info->0.symbol,
                Err(e) => self@.info is None && e == Error::NotInitialized,
            },
    {
        match &self.info {
            Some(info) => Ok(info.symbol.clone()),
            None => Err(Error::NotInitialized),
        }
    }

    /// The number of decimals of the credit; `NotInitialized` before `initialize`.
    pub fn decimals(&self) -> (r: Result<u32, Error>)
        ensures
            match r {
                Ok(decimals) => self@.info is Some && decimals == self@.info->0.decimals,
                Err(e) => self@.info is None && e == Error::NotInitialized,
            },
    {
        match &self.info {
            Some(info) => Ok(info.decimals),
            None => Err(Error::NotInitialized),
        }
    }

    /// The administrator; `NotInitialized` before `initialize`.
    pub fn admin(&self) -> (r: Result<Address, Error>)
        ensures
            match r {
                Ok(admin) => self@.info is Some && admin@ == self@.info->0.admin,
                Err(e) => self@.info is None && e == Error::NotInitialized,
            },
    {
        match &self.info {
            Some(info) => Ok(info.admin.clone()),
            None => Err(Error::NotInitialized),
        }
    }
}

} // verus!
