//! A minimal token contract: the ledger alone, with no per-account
//! aggregates. Each entry point delegates directly to the ledger.

use vstd::prelude::*;

use crate::address::Address;
use crate::dec::{metadata_uri, metadata_uri_chars};
use crate::erc721::{Erc721, Erc721Error, Erc721Params};

verus! {

/// Ledger parameters of the minimal contract.
pub struct SimpleNftParams;

impl Erc721Params for SimpleNftParams {
    open spec fn spec_token_uri(token_id: u64) -> Seq<char> {
        metadata_uri_chars(token_id)
    }

    fn token_uri(token_id: u64) -> (r: String) {
        metadata_uri(token_id)
    }
}

/// The minimal contract state: just a ledger.
pub struct SimpleNFT {
    /// The token ledger.
    pub erc721: Erc721<SimpleNftParams>,
}

impl SimpleNFT {
    /// The supply counter: the identifier of the next token to mint.
    pub open spec fn spec_supply(self) -> nat {
        self.erc721.spec_supply()
    }

    /// The owner the ledger records for token `id`.
    pub open spec fn spec_owner(self, id: int) -> Address {
        self.erc721.spec_owner(id)
    }

    /// Well-formedness of the underlying ledger.
    pub open spec fn wf(self) -> bool {
        self.erc721.wf()
    }

    /// An empty contract over an empty ledger.
    pub fn new() -> (r: SimpleNFT)
        ensures
            r.wf(),
            r.spec_supply() == 0,
    {
        SimpleNFT { erc721: Erc721::new() }
    }

    /// Mints the next token to `to` and returns its identifier; fails with
    /// `TransferToZero` and changes nothing when `to` is the zero sentinel.
    pub fn mint(&mut self, to: Address) -> (r: Result<u64, Erc721Error>)
        requires
            old(self).wf(),
            old(self).spec_supply() < u64::MAX,
        ensures
            final(self).wf(),
            to.spec_is_zero() ==> r == Err::<u64, Erc721Error>(
                (Erc721Error::TransferToZero { token_id: (old(self).spec_supply() as u64) }),
            ) && *final(self) == *old(self),
            !to.spec_is_zero() ==> {
                &&& r == Ok::<u64, Erc721Error>((old(self).spec_supply() as u64))
                &&& final(self).spec_supply() == old(self).spec_supply() + 1
                &&& final(self).spec_owner(old(self).spec_supply() as int) == to
                &&& forall|j: int|
                    0 <= j < old(self).spec_supply() ==> final(self).spec_owner(j) == old(
                        self,
                    ).spec_owner(j)
            },
    {
        self.erc721.mint(to)
    }

    /// The owner of `token_id`; fails with `InvalidTokenId` exactly when no
    /// such token was minted. Read-only.
    pub fn owner_of(&self, token_id: u64) -> (r: Result<Address, Erc721Error>)
        requires
            self.wf(),
        ensures
            token_id < self.spec_supply() ==> r == Ok::<Address, Erc721Error>(
                self.spec_owner(token_id as int),
            ),
            token_id >= self.spec_supply() ==> r == Err::<Address, Erc721Error>(
                (Erc721Error::InvalidTokenId { token_id }),
            ),
    {
        self.erc721.owner_of(token_id)
    }

    /// The metadata URI of `token_id`; fails with `InvalidTokenId` exactly
    /// when no such token was minted. Read-only.
    pub fn token_uri(&self, token_id: u64) -> (r: Result<String, Erc721Error>)
        requires
            self.wf(),
        ensures
            token_id < self.spec_supply() ==> (r matches Ok(s) && s@
                == SimpleNftParams::spec_token_uri(token_id)),
            token_id >= self.spec_supply() ==> r == Err::<String, Erc721Error>(
                (Erc721Error::InvalidTokenId { token_id }),
            ),
    {
        self.erc721.token_uri(token_id)
    }
}

} // verus!
