//! Accounts by client, and the shards they are spread over.

use vstd::prelude::*;
use vstd::std_specs::iter::IteratorSpec;
use std::collections::HashMap;
use hashring::HashRing;
use crate::account::{AccountSnapshot, AccountState, AccountView, RejectReason, TransitionOutcome};
use crate::ring::{ring_add, ring_get, ring_new, ring_nodes, ring_owner, ring_placed};
use crate::transaction::Transaction;

verus! {

/// The accounts of a registry, by client.
pub type RegistryView = Map<u16, AccountView>;

/// The account of `client`, or a fresh one if the registry has none.
pub open spec fn account_or_fresh(accounts: RegistryView, client: u16) -> AccountView {
    if accounts.contains_key(client) {
        accounts[client]
    } else {
        AccountView::fresh()
    }
}

/// The registry after `transaction`, and what the transaction did. The
/// account of the transaction's client is there afterwards, whatever the
/// outcome.
pub open spec fn registry_step(accounts: RegistryView, transaction: Transaction) -> (
    RegistryView,
    TransitionOutcome,
) {
    let client = transaction.client();
    let (next, outcome) = account_or_fresh(accounts, client).step(transaction);
    (accounts.insert(client, next), outcome)
}

/// The registry after each of `transactions` in turn.
pub open spec fn registry_apply_all(
    accounts: RegistryView,
    transactions: Seq<Transaction>,
) -> RegistryView
    decreases transactions.len(),
{
    if transactions.len() == 0 {
        accounts
    } else {
        registry_step(registry_apply_all(accounts, transactions.drop_last()), transactions.last()).0
    }
}

/// The transactions for `client` among `transactions`, in their order.
pub open spec fn of_client(transactions: Seq<Transaction>, client: u16) -> Seq<Transaction> {
    transactions.filter(|t: Transaction| t.client() == client)
}

/// Whether `rows` hold one row for each account of `accounts`, and no other
/// row. The order of the rows is left open.
pub open spec fn enumerates(rows: Seq<AccountSnapshot>, accounts: RegistryView) -> bool {
    &&& forall|i: int|
        0 <= i < rows.len() ==> accounts.contains_key(#[trigger] rows[i].client) && rows[i].shows(
            accounts[rows[i].client],
        )
    &&& forall|i: int, j: int|
        0 <= i < j < rows.len() ==> #[trigger] rows[i].client != #[trigger] rows[j].client
    &&& forall|client: u16| #[trigger]
        accounts.contains_key(client) ==> exists|i: int|
            0 <= i < rows.len() && #[trigger] rows[i].client == client
}

/// The accounts of any number of clients.
pub struct AccountSystem {
    accounts: HashMap<u16, AccountState>,
}

impl View for AccountSystem {
    type V = RegistryView;

    closed spec fn view(&self) -> RegistryView {
        self.accounts@.map_values(|a: AccountState| a@)
    }
}

impl AccountSystem {
    /// A registry without accounts.
    pub fn new() -> (r: AccountSystem)
        ensures
            r@ == RegistryView::empty(),
    {
        let r = AccountSystem { accounts: HashMap::new() };
        assert(r@ =~= RegistryView::empty());
        r
    }

    /// The account of `client`, which is created if it is not there yet.
    pub fn get_or_create(&mut self, client: u16) -> (account: &mut AccountState)
        ensures
            account@ == account_or_fresh(old(self)@, client),
            final(self)@ == old(self)@.insert(client, final(account)@),
    {
        let account = self.accounts.entry(client).or_insert(AccountState::new());
        account
    }

    /// A row for every account, in no particular order.
    pub fn snapshots(&self) -> (rows: Vec<AccountSnapshot>)
        ensures
            enumerates(rows@, self@),
            rows@.len() == self@.len(),
    {
        let mut rows: Vec<AccountSnapshot> = Vec::new();
        let ghost entries = self.accounts.iter().remaining();
        for entry in it: self.accounts.iter()
            invariant
                it.seq() == entries,
                rows@.len() == it.index(),
                forall|i: int|
                    0 <= i < rows@.len() ==> (#[trigger] rows@[i]).client == *entries[i].0
                        && rows@[i].shows(entries[i].1@),
        {
            let (client, account) = entry;
            rows.push(account.snapshot(*client));
        }
        proof {
            broadcast use vstd::std_specs::hash::axiom_spec_hash_map_iter;

            let accounts = self.accounts@;
            assert(rows@.len() == entries.len());
            assert forall|i: int| 0 <= i < rows@.len() implies self@.contains_key(
                #[trigger] rows@[i].client,
            ) && rows@[i].shows(self@[rows@[i].client]) by {
                assert(accounts.contains_key(*entries[i].0));
            }
            assert forall|i: int, j: int| 0 <= i < j < rows@.len() implies #[trigger] rows@[i].client
                != #[trigger] rows@[j].client by {
                assert(accounts.contains_key(*entries[i].0));
                assert(accounts.contains_key(*entries[j].0));
                if rows@[i].client == rows@[j].client {
                    assert(entries[i] == entries[j]);
                }
            }
            assert forall|client: u16| #[trigger] self@.contains_key(client) implies exists|i: int|
                0 <= i < rows@.len() && #[trigger] rows@[i].client == client by {
                assert(accounts.contains_key(client));
                let i = entries.index_of((&client, &accounts[client]));
                assert(rows@[i].client == client);
            }
            assert(self@.dom() =~= accounts.dom());
            assert(self@.len() == accounts.dom().len());
        }
        rows
    }

    /// Applies `transaction` to the account of its client, which is created
    /// if this is the first the registry hears of the client.
    pub fn transact(&mut self, transaction: Transaction) -> (r: TransitionOutcome)
        ensures
            (final(self)@, r) == registry_step(old(self)@, transaction),
    {
        let client = *transaction.id();
        let account = self.get_or_create(client);
        account.transact(transaction)
    }
}

/// The shard numbers `0`, `1`, ... below `count`, in this order.
pub open spec fn shard_numbers(count: nat) -> Seq<usize> {
    Seq::new(count, |i: int| i as usize)
}

/// The key under which a client is looked up on the ring: the two bytes of
/// its id, the high byte first.
pub open spec fn client_key(client: u16) -> Seq<u8> {
    seq![(client / 256) as u8, (client % 256) as u8]
}

/// The nodes of the ring to which the shard numbers below `count` were
/// added, one after the other from `0` on.
pub open spec fn ring_of(count: nat) -> Seq<usize>
    decreases count,
{
    if count == 0 {
        Seq::empty()
    } else {
        ring_placed(ring_of((count - 1) as nat), (count - 1) as usize)
    }
}

/// The shard that holds the account of `client` where there are `count`
/// shards. It depends on nothing else.
pub open spec fn shard_of(count: nat, client: u16) -> Option<usize> {
    ring_owner(ring_of(count), client_key(client))
}

/// The shards after `transaction`, and what the transaction did. Only the
/// shard of the transaction's client can change.
pub open spec fn sharded_step(shards: Seq<RegistryView>, transaction: Transaction) -> (
    Seq<RegistryView>,
    TransitionOutcome,
) {
    let route = shard_of(shards.len(), transaction.client());
    if route is Some && route->0 < shards.len() {
        let (next, outcome) = registry_step(shards[route->0 as int], transaction);
        (shards.update(route->0 as int, next), outcome)
    } else {
        (shards, TransitionOutcome::Rejected(RejectReason::NoShard))
    }
}

/// The shards after each of `transactions` in turn.
pub open spec fn sharded_apply_all(
    shards: Seq<RegistryView>,
    transactions: Seq<Transaction>,
) -> Seq<RegistryView>
    decreases transactions.len(),
{
    if transactions.len() == 0 {
        shards
    } else {
        sharded_step(sharded_apply_all(shards, transactions.drop_last()), transactions.last()).0
    }
}

/// `count` shards without accounts.
pub open spec fn without_accounts(count: nat) -> Seq<RegistryView> {
    Seq::new(count, |i: int| RegistryView::empty())
}

/// Whether every account is in the shard of its client.
pub open spec fn placed(shards: Seq<RegistryView>) -> bool {
    forall|shard: int, client: u16|
        0 <= shard < shards.len() && #[trigger] shards[shard].contains_key(client) ==> {
            let route = shard_of(shards.len(), client);
            route is Some && route->0 == shard
        }
}

/// A fixed number of registries, and the ring that assigns each client to
/// one of them.
pub struct ShardedAccountSystem {
    ring: HashRing<usize>,
    systems: Vec<AccountSystem>,
}

impl View for ShardedAccountSystem {
    type V = Seq<RegistryView>;

    closed spec fn view(&self) -> Seq<RegistryView> {
        self.systems@.map_values(|s: AccountSystem| s@)
    }
}

impl ShardedAccountSystem {
    /// The ring is the one that the shard numbers make when added from `0`
    /// on, it holds each of them once and nothing else, and every account is
    /// in the shard of its client.
    #[verifier::type_invariant]
    closed spec fn coherent(self) -> bool {
        &&& ring_nodes(self.ring) == ring_of(self.systems@.len())
        &&& ring_nodes(self.ring).to_multiset() == shard_numbers(self.systems@.len()).to_multiset()
        &&& placed(self@)
    }

    /// `shards` registries without accounts. A system without any shard
    /// takes no transaction.
    pub fn new(shards: usize) -> (r: ShardedAccountSystem)
        ensures
            r@ == without_accounts(shards as nat),
            placed(r@),
    {
        let mut ring = ring_new();
        let mut systems: Vec<AccountSystem> = Vec::new();
        assert(shard_numbers(0) =~= Seq::<usize>::empty());
        for shard in 0..shards
            invariant
                ring_nodes(ring) == ring_of(shard as nat),
                ring_nodes(ring).to_multiset() == shard_numbers(shard as nat).to_multiset(),
                systems@.len() == shard,
                forall|i: int| 0 <= i < shard ==> (#[trigger] systems@[i])@ == RegistryView::empty(),
        {
            systems.push(AccountSystem::new());
            ring_add(&mut ring, shard);
            proof {
                vstd::seq_lib::to_multiset_build(shard_numbers(shard as nat), shard);
                assert(shard_numbers(shard as nat).push(shard) =~= shard_numbers(
                    (shard + 1) as nat,
                ));
            }
        }
        assert(systems@.map_values(|s: AccountSystem| s@) =~= without_accounts(shards as nat));
        ShardedAccountSystem { ring, systems }
    }

    /// The number of shards.
    pub fn shard_count(&self) -> (r: usize)
        ensures
            r == self@.len(),
    {
        self.systems.len()
    }

    /// The shard that holds the account of `client`: the same for every
    /// system of as many shards. There is none only where there is no shard.
    pub fn route(&self, client: u16) -> (r: Option<usize>)
        ensures
            r == shard_of(self@.len(), client),
            r is None <==> self@.len() == 0,
            r matches Some(shard) ==> shard < self@.len(),
    {
        proof {
            use_type_invariant(self);
        }
        let key: [u8; 2] = [(client / 256) as u8, (client % 256) as u8];
        assert(key@ =~= client_key(client));
        let owner = ring_get(&self.ring, &key);
        proof {
            let shards = shard_numbers(self.systems@.len());
            vstd::seq_lib::to_multiset_len(ring_nodes(self.ring));
            vstd::seq_lib::to_multiset_len(shards);
            if owner is Some {
                vstd::seq_lib::to_multiset_contains(ring_nodes(self.ring), owner->0);
                vstd::seq_lib::to_multiset_contains(shards, owner->0);
            }
        }
        owner
    }

    /// The rows of every shard, shard by shard in the order of their
    /// numbers; within a shard in no particular order.
    pub fn snapshots(&self) -> (rows: Vec<Vec<AccountSnapshot>>)
        ensures
            placed(self@),
            rows@.len() == self@.len(),
            forall|i: int|
                0 <= i < rows@.len() ==> enumerates((#[trigger] rows@[i])@, self@[i]) && rows@[i]@.len()
                    == self@[i].len(),
            forall|i: int, j: int, k: int, l: int|
                0 <= i < rows@.len() && 0 <= j < rows@[i]@.len() && 0 <= k < rows@.len() && 0 <= l
                    < rows@[k]@.len() && #[trigger] rows@[i]@[j].client == #[trigger] rows@[k]@[l].client
                    ==> i == k && j == l,
    {
        proof {
            use_type_invariant(self);
        }
        let mut rows: Vec<Vec<AccountSnapshot>> = Vec::new();
        let count = self.systems.len();
        for shard in 0..count
            invariant
                count == self.systems@.len(),
                rows@.len() == shard,
                forall|i: int|
                    0 <= i < shard ==> enumerates((#[trigger] rows@[i])@, self.systems@[i]@)
                        && rows@[i]@.len() == self.systems@[i]@.len(),
        {
            rows.push(self.systems[shard].snapshots());
        }
        proof {
            assert forall|i: int, j: int, k: int, l: int|
                0 <= i < rows@.len() && 0 <= j < rows@[i]@.len() && 0 <= k < rows@.len() && 0 <= l
                    < rows@[k]@.len() && #[trigger] rows@[i]@[j].client
                    == #[trigger] rows@[k]@[l].client implies i == k && j == l by {
                assert(enumerates(rows@[i]@, self@[i]));
                assert(enumerates(rows@[k]@, self@[k]));
                assert(self@[i].contains_key(rows@[i]@[j].client));
                assert(self@[k].contains_key(rows@[k]@[l].client));
            }
        }
        rows
    }

    /// Applies `transaction` to the account of its client, in the shard of
    /// that client.
    pub fn transact(&mut self, transaction: Transaction) -> (r: TransitionOutcome)
        ensures
            (final(self)@, r) == sharded_step(old(self)@, transaction),
            placed(final(self)@),
    {
        proof {
            use_type_invariant(&*self);
        }
        let client = *transaction.id();
        match self.route(client) {
            Some(shard) => {
                // The ring and the shards belong together only as a whole, so
                // both are taken out while one shard changes.
                let mut taken = ShardedAccountSystem::new(0);
                core::mem::swap(self, &mut taken);
                let ShardedAccountSystem { ring, mut systems } = taken;
                let r = systems[shard].transact(transaction);
                proof {
                    let after = systems@.map_values(|s: AccountSystem| s@);
                    assert(after =~= old(self)@.update(shard as int, systems@[shard as int]@));
                    lemma_accounts_stay_in_their_shard(old(self)@, transaction);
                }
                *self = ShardedAccountSystem { ring, systems };
                r
            },
            None => TransitionOutcome::Rejected(RejectReason::NoShard),
        }
    }
}

/// Routing looks at the number of shards and at the client, and at nothing
/// else: two systems of as many shards send a transaction to the same shard,
/// whatever accounts they hold, and leave every other shard as it is.
pub proof fn lemma_routing_ignores_accounts(
    a: Seq<RegistryView>,
    b: Seq<RegistryView>,
    transaction: Transaction,
)
    requires
        a.len() == b.len(),
    ensures
        shard_of(a.len(), transaction.client()) == shard_of(b.len(), transaction.client()),
        sharded_step(a, transaction).0.len() == a.len(),
        forall|i: int|
            0 <= i < a.len() && !(shard_of(a.len(), transaction.client()) matches Some(shard)
                && shard == i) ==> (#[trigger] sharded_step(a, transaction).0[i]) == a[i]
                && sharded_step(b, transaction).0[i] == b[i],
{
}

/// A transaction puts an account nowhere but in the shard of its client.
pub proof fn lemma_accounts_stay_in_their_shard(shards: Seq<RegistryView>, transaction: Transaction)
    requires
        placed(shards),
    ensures
        placed(sharded_step(shards, transaction).0),
{
    let after = sharded_step(shards, transaction).0;
    assert forall|shard: int, client: u16|
        0 <= shard < after.len() && #[trigger] after[shard].contains_key(client) implies ({
        let route = shard_of(after.len(), client);
        route is Some && route->0 == shard
    }) by {
        if !shards[shard].contains_key(client) {
            assert(client == transaction.client());
        }
    }
}

/// In a system that started without accounts, every account is in the shard
/// of its client after any transactions, so that no client has two accounts.
pub proof fn lemma_one_account_for_each_client(count: nat, transactions: Seq<Transaction>)
    ensures
        ({
            let shards = sharded_apply_all(without_accounts(count), transactions);
            &&& shards.len() == count
            &&& placed(shards)
            &&& forall|a: int, b: int, client: u16|
                0 <= a < count && 0 <= b < count && #[trigger] shards[a].contains_key(client)
                    && #[trigger] shards[b].contains_key(client) ==> a == b
        }),
    decreases transactions.len(),
{
    if transactions.len() > 0 {
        lemma_one_account_for_each_client(count, transactions.drop_last());
        lemma_accounts_stay_in_their_shard(
            sharded_apply_all(without_accounts(count), transactions.drop_last()),
            transactions.last(),
        );
    }
}

/// Whatever transactions a registry is given, and however those of different
/// clients are interleaved, the account of each client is the one that its
/// own transactions make, applied in the order in which they came. A client
/// has an account once one transaction named it.
pub proof fn lemma_registry_keeps_each_clients_order(
    accounts: RegistryView,
    transactions: Seq<Transaction>,
    client: u16,
)
    ensures
        account_or_fresh(registry_apply_all(accounts, transactions), client) == account_or_fresh(
            accounts,
            client,
        ).apply_all(of_client(transactions, client)),
        registry_apply_all(accounts, transactions).contains_key(client) <==> accounts.contains_key(
            client,
        ) || of_client(transactions, client).len() > 0,
    decreases transactions.len(),
{
    reveal(Seq::filter);
    if transactions.len() > 0 {
        let earlier = transactions.drop_last();
        let last = transactions.last();
        lemma_registry_keeps_each_clients_order(accounts, earlier, client);
        if last.client() == client {
            let own = of_client(earlier, client);
            assert(of_client(transactions, client) == own.push(last));
            assert(own.push(last).drop_last() =~= own);
        }
    }
}

/// The same for a sharded system: what the shard of a client holds for it
/// is what the client's own transactions make, applied in the order in which
/// they came. No transaction changes the number of shards, and in no other
/// shard does a transaction of the client leave a trace.
pub proof fn lemma_shards_keep_each_clients_order(
    shards: Seq<RegistryView>,
    transactions: Seq<Transaction>,
    client: u16,
)
    ensures
        sharded_apply_all(shards, transactions).len() == shards.len(),
        ({
            let route = shard_of(shards.len(), client);
            route is Some && route->0 < shards.len() ==> {
                let before = shards[route->0 as int];
                let after = sharded_apply_all(shards, transactions)[route->0 as int];
                &&& account_or_fresh(after, client) == account_or_fresh(before, client).apply_all(
                    of_client(transactions, client),
                )
                &&& after.contains_key(client) <==> before.contains_key(client) || of_client(
                    transactions,
                    client,
                ).len() > 0
            }
        }),
        forall|other: int|
            0 <= other < shards.len() && !(shard_of(shards.len(), client) matches Some(shard)
                && shard == other) ==> account_or_fresh(
                #[trigger] sharded_apply_all(shards, transactions)[other],
                client,
            ) == account_or_fresh(shards[other], client),
    decreases transactions.len(),
{
    reveal(Seq::filter);
    if transactions.len() > 0 {
        let earlier = transactions.drop_last();
        let last = transactions.last();
        lemma_shards_keep_each_clients_order(shards, earlier, client);
        lemma_shards_keep_each_clients_order(shards, earlier, last.client());
        if last.client() == client {
            let own = of_client(earlier, client);
            assert(of_client(transactions, client) == own.push(last));
            assert(own.push(last).drop_last() =~= own);
        }
    }
}

} // verus!
