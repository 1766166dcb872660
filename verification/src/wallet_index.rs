use vstd::prelude::*;
use crate::address::Address;

verus! {

/// The mathematical value of a [`WalletEntry`].
pub struct WalletView {
    pub wallet: Seq<char>,
    pub campaigns: Seq<u64>,
}

/// The campaigns that one wallet has donated to, one id per donation, oldest first.
#[derive(Debug)]
pub struct WalletEntry {
    pub wallet: Address,
    pub campaigns: Vec<u64>,
}

impl View for WalletEntry {
    type V = WalletView;

    open spec fn view(&self) -> WalletView {
        WalletView { wallet: self.wallet@, campaigns: self.campaigns@ }
    }
}

/// The values of a sequence of entries, in the same order.
pub open spec fn wallet_views(entries: Seq<WalletEntry>) -> Seq<WalletView> {
    entries.map_values(|e: WalletEntry| e@)
}

/// Whether `who` has an entry.
pub open spec fn listed(entries: Seq<WalletView>, who: Seq<char>) -> bool {
    exists|i: int| 0 <= i < entries.len() && #[trigger] entries[i].wallet == who
}

/// The place of the entry of `who`, where there is one.
pub open spec fn entry_of(entries: Seq<WalletView>, who: Seq<char>) -> int {
    choose|i: int| 0 <= i < entries.len() && #[trigger] entries[i].wallet == who
}

/// The campaigns that `who` has donated to: empty for a wallet that never donated.
pub open spec fn donated_to(entries: Seq<WalletView>, who: Seq<char>) -> Seq<u64> {
    if listed(entries, who) {
        entries[entry_of(entries, who)].campaigns
    } else {
        Seq::empty()
    }
}

/// No wallet has two entries.
pub open spec fn distinct_wallets(entries: Seq<WalletView>) -> bool {
    forall|i: int, j: int|
        0 <= i < entries.len() && 0 <= j < entries.len() && i != j
            ==> #[trigger] entries[i].wallet != #[trigger] entries[j].wallet
}

/// The index after `who` donated to campaign `id`: the id is appended to their entry,
/// which is opened at the end where they had none.
pub open spec fn recorded(entries: Seq<WalletView>, who: Seq<char>, id: u64) -> Seq<WalletView> {
    if listed(entries, who) {
        let i = entry_of(entries, who);
        entries.update(i, WalletView { wallet: who, campaigns: entries[i].campaigns.push(id) })
    } else {
        entries.push(WalletView { wallet: who, campaigns: seq![id] })
    }
}

/// With distinct wallets, the entry found at `i` is the entry of its wallet.
pub proof fn lemma_entry_is(entries: Seq<WalletView>, i: int)
    requires
        distinct_wallets(entries),
        0 <= i < entries.len(),
    ensures
        listed(entries, entries[i].wallet),
        entry_of(entries, entries[i].wallet) == i,
        donated_to(entries, entries[i].wallet) == entries[i].campaigns,
{
    let who = entries[i].wallet;
    assert(entries[i].wallet == who);
    let s = entry_of(entries, who);
    assert(entries[s].wallet == who);
}

/// What recording a donation does: the list of `who` grows by `id` at its end, every
/// other list stays, and the wallets stay distinct.
pub proof fn lemma_recorded(entries: Seq<WalletView>, who: Seq<char>, id: u64)
    requires
        distinct_wallets(entries),
    ensures
        distinct_wallets(recorded(entries, who, id)),
        donated_to(recorded(entries, who, id), who) == donated_to(entries, who).push(id),
        forall|other: Seq<char>|
            other != who ==> donated_to(recorded(entries, who, id), other) == donated_to(entries, other),
{
    let after = recorded(entries, who, id);
    if listed(entries, who) {
        let i = entry_of(entries, who);
        assert(after[i].wallet == who);
        lemma_entry_is(after, i);
        assert forall|other: Seq<char>| other != who implies donated_to(after, other) == donated_to(
            entries,
            other,
        ) by {
            if listed(entries, other) {
                let k = entry_of(entries, other);
                assert(after[k].wallet == other);
                lemma_entry_is(after, k);
            } else if listed(after, other) {
                let k = entry_of(after, other);
                assert(entries[k].wallet == other);
            }
        }
    } else {
        let n = entries.len() as int;
        assert(after[n].wallet == who);
        assert forall|i: int, j: int|
            0 <= i < after.len() && 0 <= j < after.len() && i != j implies #[trigger] after[i].wallet
            != #[trigger] after[j].wallet by {
            if i < n && j < n {
                assert(entries[i].wallet != entries[j].wallet);
            } else if i < n {
                assert(entries[i].wallet != who);
            } else {
                assert(entries[j].wallet != who);
            }
        }
        lemma_entry_is(after, n);
        assert(seq![id] =~= Seq::<u64>::empty().push(id));
        assert forall|other: Seq<char>| other != who implies donated_to(after, other) == donated_to(
            entries,
            other,
        ) by {
            if listed(entries, other) {
                let k = entry_of(entries, other);
                assert(after[k].wallet == other);
                lemma_entry_is(after, k);
                lemma_entry_is(entries, k);
            } else if listed(after, other) {
                let k = entry_of(after, other);
                assert(entries[k].wallet == other);
            }
        }
    }
}

/// The place of the entry of `who`, if they have one.
pub fn find_wallet(entries: &Vec<WalletEntry>, who: &Address) -> (r: Option<usize>)
    ensures
        match r {
            Some(i) => i < entries@.len() && entries@[i as int]@.wallet == who@,
            None => !listed(wallet_views(entries@), who@),
        },
{
    let mut i: usize = 0;
    while i < entries.len()
        invariant
            i <= entries@.len(),
            forall|k: int| 0 <= k < i ==> #[trigger] entries@[k]@.wallet != who@,
        decreases entries@.len() - i,
    {
        if entries[i].wallet.same(who) {
            return Some(i);
        }
        i += 1;
    }
    proof {
        let views = wallet_views(entries@);
        if listed(views, who@) {
            let k = entry_of(views, who@);
            assert(entries@[k]@.wallet == who@);
        }
    }
    None
}

/// The campaigns that `who` has donated to.
pub fn campaigns_of(entries: &Vec<WalletEntry>, who: &Address) -> (r: Vec<u64>)
    requires
        distinct_wallets(wallet_views(entries@)),
    ensures
        r@ == donated_to(wallet_views(entries@), who@),
{
    match find_wallet(entries, who) {
        Some(i) => {
            proof {
                lemma_entry_is(wallet_views(entries@), i as int);
            }
            let list = &entries[i].campaigns;
            let mut out: Vec<u64> = Vec::new();
            let mut k: usize = 0;
            while k < list.len()
                invariant
                    k <= list@.len(),
                    out@ == list@.take(k as int),
                decreases list@.len() - k,
            {
                out.push(list[k]);
                assert(list@.take(k as int).push(list@[k as int]) =~= list@.take(k + 1));
                k += 1;
            }
            assert(list@.take(k as int) =~= list@);
            out
        },
        None => Vec::new(),
    }
}

/// Records that `who` donated to campaign `id`.
pub fn record_donation(entries: &mut Vec<WalletEntry>, who: &Address, id: u64)
    requires
        distinct_wallets(wallet_views(old(entries)@)),
    ensures
        wallet_views(final(entries)@) == recorded(wallet_views(old(entries)@), who@, id),
{
    let ghost before = wallet_views(entries@);
    match find_wallet(entries, who) {
        Some(i) => {
            proof {
                lemma_entry_is(before, i as int);
            }
            entries[i].campaigns.push(id);
            assert(wallet_views(entries@) =~= recorded(before, who@, id));
        },
        None => {
            let mut campaigns: Vec<u64> = Vec::new();
            campaigns.push(id);
            entries.push(WalletEntry { wallet: who.clone(), campaigns });
            assert(campaigns@ =~= seq![id]);
            assert(wallet_views(entries@) =~= recorded(before, who@, id));
        },
    }
}

/// Whether no wallet has two entries.
pub fn wallets_in_order(entries: &Vec<WalletEntry>) -> (r: bool)
    ensures
        r == distinct_wallets(wallet_views(entries@)),
{
    let ghost views = wallet_views(entries@);
    let mut i: usize = 0;
    while i < entries.len()
        invariant
            i <= entries@.len(),
            views == wallet_views(entries@),
            forall|a: int, b: int| 0 <= a < b < i ==> #[trigger] views[a].wallet != #[trigger] views[b].wallet,
        decreases entries@.len() - i,
    {
        let mut j: usize = 0;
        while j < i
            invariant
                j <= i < entries@.len(),
                views == wallet_views(entries@),
                forall|a: int| 0 <= a < j ==> #[trigger] views[a].wallet != views[i as int].wallet,
            decreases i - j,
        {
            if entries[j].wallet.same(&entries[i].wallet) {
                assert(views[j as int].wallet == views[i as int].wallet);
                return false;
            }
            j += 1;
        }
        i += 1;
    }
    assert forall|a: int, b: int| 0 <= a < views.len() && 0 <= b < views.len() && a != b implies #[trigger] views[a].wallet
        != #[trigger] views[b].wallet by {
        if a < b {
            assert(views[a].wallet != views[b].wallet);
        } else {
            assert(views[b].wallet != views[a].wallet);
        }
    }
    true
}

/// A copy of the entries.
pub fn copy_entries(entries: &Vec<WalletEntry>) -> (r: Vec<WalletEntry>)
    ensures
        wallet_views(r@) == wallet_views(entries@),
{
    let mut out: Vec<WalletEntry> = Vec::new();
    let mut i: usize = 0;
    while i < entries.len()
        invariant
            i <= entries@.len(),
            wallet_views(out@) == wallet_views(entries@).take(i as int),
        decreases entries@.len() - i,
    {
        let list = &entries[i].campaigns;
        let mut campaigns: Vec<u64> = Vec::new();
        let mut k: usize = 0;
        while k < list.len()
            invariant
                k <= list@.len(),
                campaigns@ == list@.take(k as int),
            decreases list@.len() - k,
        {
            campaigns.push(list[k]);
            assert(list@.take(k as int).push(list@[k as int]) =~= list@.take(k + 1));
            k += 1;
        }
        assert(list@.take(k as int) =~= list@);
        let ghost copied = wallet_views(out@);
        out.push(WalletEntry { wallet: entries[i].wallet.clone(), campaigns });
        assert(wallet_views(out@) =~= copied.push(entries@[i as int]@));
        assert(wallet_views(out@) =~= wallet_views(entries@).take(i + 1));
        i += 1;
    }
    assert(wallet_views(entries@).take(i as int) =~= wallet_views(entries@));
    out
}

} // verus!
