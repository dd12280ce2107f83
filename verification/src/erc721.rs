//! The token ledger: the sole source of truth for token existence,
//! ownership, per-owner balances, and the monotonic supply counter.
//!
//! Token identifiers are assigned densely from zero: the identifier of the
//! next token to mint always equals the current supply counter, and a token
//! is never deleted nor reassigned, so the owner table is a vector indexed by
//! token identifier.

use vstd::prelude::*;

use crate::address::{zero_address, Address};
use crate::assoc::{find_index, keys_unique, lemma_push, lemma_update, lemma_val_at, val_of};

verus! {

/// Static parameters of a ledger instance: how a token's metadata URI is
/// derived from its identifier.
pub trait Erc721Params {
    /// The URI derived from `token_id`, as a mathematical value.
    spec fn spec_token_uri(token_id: u64) -> Seq<char>;

    /// Builds the URI for `token_id`.
    fn token_uri(token_id: u64) -> (r: String)
        ensures
            r@ == Self::spec_token_uri(token_id),
    ;
}

/// An ownership-change notification: token `token_id` moved from `from` to
/// `to`. A mint carries the zero sentinel as `from`.
#[derive(Clone, Copy, PartialEq, Eq, Structural, Debug)]
pub struct Transfer {
    pub from: Address,
    pub to: Address,
    pub token_id: u64,
}

/// The failures a ledger operation can raise. `NotOwner` is reserved for
/// transfer logic and is never raised by this mint-only core.
#[derive(Clone, Copy, PartialEq, Eq, Structural, Debug)]
pub enum Erc721Error {
    /// The referenced token was never minted.
    InvalidTokenId { token_id: u64 },
    /// Reserved for transfer semantics; unused here.
    NotOwner { from: Address, token_id: u64, real_owner: Address },
    /// An attempt to mint to the zero sentinel address.
    TransferToZero { token_id: u64 },
}

/// The ledger state.
pub struct Erc721<T: Erc721Params> {
    owners: Vec<Address>,
    balances: Vec<(Address, u64)>,
    total_supply: u64,
    /// The ownership-change notifications emitted so far, oldest first.
    /// Delivering them to the environment is the caller's concern.
    pub events: Vec<Transfer>,
    phantom: core::marker::PhantomData<T>,
}

impl<T: Erc721Params> Erc721<T> {
    /// The supply counter: the number of tokens ever minted, and the next
    /// identifier to assign.
    pub closed spec fn spec_supply(self) -> nat {
        self.total_supply as nat
    }

    /// The owner of token `id` (meaningful for `0 <= id < spec_supply()`).
    pub closed spec fn spec_owner(self, id: int) -> Address {
        self.owners@[id]
    }

    /// The balance recorded for `a`: the number of tokens minted to it.
    pub closed spec fn spec_balance(self, a: Address) -> u64 {
        match val_of(self.balances@, a) {
            Some(v) => v,
            None => 0,
        }
    }

    /// How many of the tokens with identifiers below `n` are owned by `a`.
    pub open spec fn spec_owned_below(self, a: Address, n: int) -> nat
        decreases n,
    {
        if n <= 0 {
            0
        } else {
            self.spec_owned_below(a, n - 1) + (if self.spec_owner(n - 1) == a {
                1nat
            } else {
                0nat
            })
        }
    }

    /// The notifications emitted so far.
    pub closed spec fn spec_events(self) -> Seq<Transfer> {
        self.events@
    }

    /// Well-formedness: the supply counter counts the owner table, no stored
    /// owner is the zero sentinel, the balance table has distinct keys, no
    /// balance exceeds the supply, and every balance counts the tokens its
    /// account owns.
    pub closed spec fn wf(self) -> bool {
        &&& self.total_supply == self.owners@.len()
        &&& forall|j: int| 0 <= j < self.owners@.len() ==> !(#[trigger] self.owners@[j]).spec_is_zero()
        &&& keys_unique(self.balances@)
        &&& forall|i: int|
            0 <= i < self.balances@.len() ==> (#[trigger] self.balances@[i]).1 <= self.total_supply
        &&& forall|a: Address|
            #[trigger] self.spec_balance(a) == self.spec_owned_below(a, self.spec_supply() as int)
    }

    /// An empty ledger: no tokens, no balances, no notifications.
    pub fn new() -> (r: Self)
        ensures
            r.wf(),
            r.spec_supply() == 0,
            forall|a: Address| #[trigger] r.spec_balance(a) == 0,
            r.spec_events() == Seq::<Transfer>::empty(),
    {
        let r = Erc721 {
            owners: Vec::new(),
            balances: Vec::new(),
            total_supply: 0,
            events: Vec::new(),
            phantom: core::marker::PhantomData,
        };
        proof {
            assert(r.events@ =~= Seq::<Transfer>::empty());
        }
        r
    }

    /// The current supply counter.
    pub fn total_supply(&self) -> (r: u64)
        ensures
            r == self.spec_supply(),
    {
        self.total_supply
    }

    /// Mints the next token to `to`.
    ///
    /// Fails with `TransferToZero` when `to` is the zero sentinel, leaving
    /// the ledger unchanged. Otherwise assigns the identifier equal to the
    /// current supply counter, records `to` as its owner, increments the
    /// supply counter and the recipient's balance by one, and emits a
    /// `(zero, to, id)` notification; returns the assigned identifier.
    pub fn mint(&mut self, to: Address) -> (r: Result<u64, Erc721Error>)
        requires
            old(self).wf(),
            old(self).spec_supply() < u64::MAX,
        ensures
            final(self).wf(),
            to.spec_is_zero() ==> r == Err::<u64, Erc721Error>(
                (Erc721Error::TransferToZero { token_id: (old(self).spec_supply() as u64) }),
            ) && *final(self) == *old(self),
            !to.spec_is_zero() ==> {
                &&& r == Ok::<u64, Erc721Error>((old(self).spec_supply() as u64))
                &&& final(self).spec_supply() == old(self).spec_supply() + 1
                &&& final(self).spec_owner(old(self).spec_supply() as int) == to
                &&& forall|j: int|
                    0 <= j < old(self).spec_supply() ==> final(self).spec_owner(j) == old(
                        self,
                    ).spec_owner(j)
                &&& final(self).spec_balance(to) == old(self).spec_balance(to) + 1
                &&& forall|a: Address|
                    a != to ==> #[trigger] final(self).spec_balance(a) == old(self).spec_balance(a)
                &&& final(self).spec_events() == old(self).spec_events().push(
                    (Transfer { from: zero_address(), to, token_id: (old(self).spec_supply() as u64) }),
                )
            },
    {
        if to.is_zero() {
            return Err(Erc721Error::TransferToZero { token_id: self.total_supply });
        }
        let ghost pre = *self;
        let token_id = self.total_supply;
        self.total_supply = token_id + 1;
        self.owners.push(to);

        match find_index(&self.balances, to) {
            Some(i) => {
                proof {
                    lemma_val_at(pre.balances@, i as int);
                }
                let mut entry = self.balances.remove(i);
                entry.1 = entry.1 + 1;
                self.balances.insert(i, entry);
                proof {
                    assert(self.balances@ =~= pre.balances@.update(
                        i as int,
                        (to, (pre.balances@[i as int].1 + 1) as u64),
                    ));
                    lemma_update(pre.balances@, i as int, (pre.balances@[i as int].1 + 1) as u64);
                }
            },
            None => {
                self.balances.push((to, 1));
                proof {
                    lemma_push(pre.balances@, to, 1u64);
                }
            },
        }

        self.events.push(Transfer { from: Address::zero(), to, token_id });
        proof {
            assert forall|a: Address|
                #[trigger] self.spec_balance(a) == self.spec_owned_below(
                    a,
                    self.spec_supply() as int,
                ) by {
                lemma_owned_below_frame(pre, *self, a, pre.spec_supply() as int);
                assert(self.spec_owned_below(a, self.spec_supply() as int)
                    == self.spec_owned_below(a, pre.spec_supply() as int) + (
                if self.spec_owner(pre.spec_supply() as int) == a {
                    1nat
                } else {
                    0nat
                }));
                assert(pre.spec_balance(a) == pre.spec_owned_below(a, pre.spec_supply() as int));
            }
        }
        Ok(token_id)
    }

    /// Looks up the owner of `token_id`.
    ///
    /// Fails with `InvalidTokenId` exactly when no token with that
    /// identifier has been minted; otherwise returns the recipient it was
    /// minted to. Read-only.
    pub fn owner_of(&self, token_id: u64) -> (r: Result<Address, Erc721Error>)
        requires
            self.wf(),
        ensures
            token_id < self.spec_supply() ==> r == Ok::<Address, Erc721Error>(
                self.spec_owner(token_id as int),
            ),
            token_id >= self.spec_supply() ==> r == Err::<Address, Erc721Error>(
                (Erc721Error::InvalidTokenId { token_id }),
            ),
    {
        let n = self.owners.len();
        if token_id < n as u64 {
            let owner = self.owners[token_id as usize];
            if owner.is_zero() {
                Err(Erc721Error::InvalidTokenId { token_id })
            } else {
                Ok(owner)
            }
        } else {
            Err(Erc721Error::InvalidTokenId { token_id })
        }
    }

    /// Law: the balance recorded for `a` equals the number of minted tokens
    /// whose owner is `a`.
    pub proof fn lemma_balance_counts_tokens(self, a: Address)
        requires
            self.wf(),
        ensures
            self.spec_balance(a) == self.spec_owned_below(a, self.spec_supply() as int),
    {
    }

    /// The metadata URI of `token_id`.
    ///
    /// Fails with `InvalidTokenId` under exactly the condition of
    /// [`Self::owner_of`]; otherwise returns the URI the parameter type
    /// derives from the identifier. Read-only.
    pub fn token_uri(&self, token_id: u64) -> (r: Result<String, Erc721Error>)
        requires
            self.wf(),
        ensures
            token_id < self.spec_supply() ==> (r matches Ok(s) && s@ == T::spec_token_uri(
                token_id,
            )),
            token_id >= self.spec_supply() ==> r == Err::<String, Erc721Error>(
                (Erc721Error::InvalidTokenId { token_id }),
            ),
    {
        match self.owner_of(token_id) {
            Ok(_) => Ok(T::token_uri(token_id)),
            Err(e) => Err(e),
        }
    }
}

/// Counting owned tokens below `n` depends only on the owners of tokens
/// below `n`.
proof fn lemma_owned_below_frame<T: Erc721Params>(l1: Erc721<T>, l2: Erc721<T>, a: Address, n: int)
    requires
        forall|j: int| 0 <= j < n ==> l1.spec_owner(j) == l2.spec_owner(j),
    ensures
        l1.spec_owned_below(a, n) == l2.spec_owned_below(a, n),
    decreases n,
{
    if n > 0 {
        lemma_owned_below_frame(l1, l2, a, n - 1);
    }
}

} // verus!
