//! The arena: per-account aggregates (reputation, cumulative rewards, asset
//! records, free-text annotation) and the roster of every account ever
//! minted to, layered over the token ledger.
//!
//! Every mutating entry point either applies all of its effects or none:
//! a rejected mint leaves the whole state untouched.

use vstd::prelude::*;

use crate::address::{zero_address, Address};
use crate::assoc::{find_index, has_key, key_index, keys_unique, lemma_push, lemma_update,
    lemma_val_at, val_of};
use crate::dec::{metadata_uri, metadata_uri_chars};
use crate::erc721::{Erc721, Erc721Error, Erc721Params, Transfer};

verus! {

/// An asset record: the immutable snapshot taken when a token is minted,
/// appended to the recipient's history.
#[derive(Debug)]
pub struct BARNNFT {
    /// The mint recipient.
    pub owner: Address,
    /// The recipient's reputation score after the increment for this mint.
    pub reputation_score: u64,
    /// The rewards amount attributed to this specific mint.
    pub ai_rewards: u64,
    /// Caller-supplied primary image reference; opaque, unvalidated.
    pub image_asset: String,
    /// Caller-supplied doppelganger reference; opaque, unvalidated.
    pub doppleganger_asset: String,
    /// The token identifier assigned by this mint.
    pub token_id: u64,
}

impl Clone for BARNNFT {
    fn clone(&self) -> (r: Self)
        ensures
            r == *self,
    {
        BARNNFT {
            owner: self.owner,
            reputation_score: self.reputation_score,
            ai_rewards: self.ai_rewards,
            image_asset: self.image_asset.clone(),
            doppleganger_asset: self.doppleganger_asset.clone(),
            token_id: self.token_id,
        }
    }
}

/// Ledger parameters of the arena's ledger instance.
pub struct BaseArenaParams;

impl Erc721Params for BaseArenaParams {
    open spec fn spec_token_uri(token_id: u64) -> Seq<char> {
        metadata_uri_chars(token_id)
    }

    fn token_uri(token_id: u64) -> (r: String) {
        metadata_uri(token_id)
    }
}

/// The aggregates kept for one account.
struct Account {
    reputation_score: u64,
    rewards_earned: u128,
    games: Vec<BARNNFT>,
    ai_response: String,
}

/// The arena state: the ledger plus the per-account tables and the roster.
pub struct BaseArena {
    /// The token ledger this arena delegates identity and supply
    /// bookkeeping to.
    pub erc721: Erc721<BaseArenaParams>,
    accounts: Vec<(Address, Account)>,
    all_users: Vec<Address>,
}

impl BaseArena {
    /// The supply counter of the underlying ledger.
    pub closed spec fn spec_supply(self) -> nat {
        self.erc721.spec_supply()
    }

    /// The owner the ledger records for token `id`.
    pub closed spec fn spec_owner(self, id: int) -> Address {
        self.erc721.spec_owner(id)
    }

    /// The balance the ledger records for `a`.
    pub closed spec fn spec_balance(self, a: Address) -> u64 {
        self.erc721.spec_balance(a)
    }

    /// How many of the tokens with identifiers below `n` the ledger records
    /// as owned by `a`.
    pub closed spec fn spec_owned_below(self, a: Address, n: int) -> nat {
        self.erc721.spec_owned_below(a, n)
    }

    /// The notifications the ledger has emitted.
    pub closed spec fn spec_events(self) -> Seq<Transfer> {
        self.erc721.spec_events()
    }

    /// The reputation score of `a`: zero until the first mint to `a`.
    pub closed spec fn spec_rep(self, a: Address) -> u64 {
        match val_of(self.accounts@, a) {
            Some(acct) => acct.reputation_score,
            None => 0,
        }
    }

    /// The cumulative rewards of `a`: zero until the first mint to `a`.
    pub closed spec fn spec_rewards(self, a: Address) -> u128 {
        match val_of(self.accounts@, a) {
            Some(acct) => acct.rewards_earned,
            None => 0,
        }
    }

    /// The asset records of `a`, oldest first.
    pub closed spec fn spec_games(self, a: Address) -> Seq<BARNNFT> {
        match val_of(self.accounts@, a) {
            Some(acct) => acct.games@,
            None => Seq::<BARNNFT>::empty(),
        }
    }

    /// The annotation stored for `a`; empty until the first save.
    pub closed spec fn spec_response(self, a: Address) -> Seq<char> {
        match val_of(self.accounts@, a) {
            Some(acct) => acct.ai_response@,
            None => Seq::<char>::empty(),
        }
    }

    /// The roster: every address ever minted to, in first-seen order.
    pub closed spec fn spec_users(self) -> Seq<Address> {
        self.all_users@
    }

    /// Well-formedness: the ledger is well-formed, the account table has
    /// distinct keys, no reputation score exceeds the supply counter, no
    /// rewards total exceeds what that many mints could contribute, every
    /// reputation score counts its account's asset records, and the roster
    /// holds no address twice.
    pub closed spec fn wf(self) -> bool {
        &&& self.erc721.wf()
        &&& keys_unique(self.accounts@)
        &&& forall|i: int|
            0 <= i < self.accounts@.len() ==> (#[trigger] self.accounts@[i]).1.reputation_score
                <= self.spec_supply()
        &&& forall|i: int|
            0 <= i < self.accounts@.len() ==> (#[trigger] self.accounts@[i]).1.rewards_earned
                <= (self.accounts@[i].1.reputation_score as int) * (u64::MAX as int)
        &&& forall|i: int|
            0 <= i < self.accounts@.len() ==> (#[trigger] self.accounts@[i]).1.reputation_score
                == self.accounts@[i].1.games@.len()
        &&& forall|i: int, j: int|
            0 <= i < j < self.all_users@.len() ==> self.all_users@[i] != self.all_users@[j]
    }

    /// An empty arena over an empty ledger.
    pub fn new() -> (r: BaseArena)
        ensures
            r.wf(),
            r.spec_supply() == 0,
            r.spec_users() == Seq::<Address>::empty(),
            r.spec_events() == Seq::<Transfer>::empty(),
            forall|a: Address| #[trigger] r.spec_rep(a) == 0,
            forall|a: Address| #[trigger] r.spec_rewards(a) == 0,
            forall|a: Address| #[trigger] r.spec_games(a) == Seq::<BARNNFT>::empty(),
            forall|a: Address| #[trigger] r.spec_response(a) == Seq::<char>::empty(),
            forall|a: Address| #[trigger] r.spec_balance(a) == 0,
    {
        let r = BaseArena { erc721: Erc721::new(), accounts: Vec::new(), all_users: Vec::new() };
        proof {
            assert(r.all_users@ =~= Seq::<Address>::empty());
        }
        r
    }

    /// Mints a token to `to` and updates all per-account aggregates.
    ///
    /// When `to` is the zero sentinel, fails with `TransferToZero` and
    /// leaves the whole state unchanged. Otherwise: increments `to`'s
    /// reputation score by one, adds `rewards_earned_user` to its cumulative
    /// rewards, mints the next token to `to` through the ledger, appends the
    /// asset record snapshotting the post-increment score, the rewards
    /// amount, both references and the new token identifier, and registers
    /// `to` in the roster if it was not seen before.
    pub fn safe_mint(
        &mut self,
        rewards_earned_user: u64,
        uri: String,
        doppleganger_uri: String,
        to: Address,
    ) -> (r: Result<(), Erc721Error>)
        requires
            old(self).wf(),
            old(self).spec_supply() < u64::MAX,
        ensures
            final(self).wf(),
            to.spec_is_zero() ==> r == Err::<(), Erc721Error>(
                (Erc721Error::TransferToZero { token_id: (old(self).spec_supply() as u64) }),
            ) && *final(self) == *old(self),
            !to.spec_is_zero() ==> r == Ok::<(), Erc721Error>(()) && mint_ok(
                *old(self),
                *final(self),
                rewards_earned_user,
                uri,
                doppleganger_uri,
                to,
            ),
    {
        if to.is_zero() {
            return Err(Erc721Error::TransferToZero { token_id: self.erc721.total_supply() });
        }
        let ghost pre = *self;

        let token_id = match self.erc721.mint(to) {
            Ok(id) => id,
            Err(e) => {
                return Err(e);
            },
        };

        match find_index(&self.accounts, to) {
            Some(i) => {
                proof {
                    lemma_val_at(pre.accounts@, i as int);
                }
                let mut acct = self.accounts.remove(i);
                let new_rep = acct.1.reputation_score + 1;
                acct.1.reputation_score = new_rep;
                proof {
                    let m = u64::MAX as int;
                    assert(acct.1.rewards_earned as int <= (pre.spec_rep(to) as int) * m);
                    assert((pre.spec_rep(to) as int) * m + m <= u128::MAX as int)
                        by (nonlinear_arith)
                        requires
                            (pre.spec_rep(to) as int) <= m - 1,
                            m == u64::MAX as int,
                    ;
                }
                acct.1.rewards_earned = acct.1.rewards_earned + rewards_earned_user as u128;
                let record = BARNNFT {
                    owner: to,
                    reputation_score: new_rep,
                    ai_rewards: rewards_earned_user,
                    image_asset: uri,
                    doppleganger_asset: doppleganger_uri,
                    token_id,
                };
                acct.1.games.push(record);
                self.accounts.insert(i, acct);
                proof {
                    assert(self.accounts@ =~= pre.accounts@.update(
                        i as int,
                        self.accounts@[i as int],
                    ));
                    lemma_update(pre.accounts@, i as int, self.accounts@[i as int].1);
                    assert forall|k: int| 0 <= k < self.accounts@.len() implies (
                        #[trigger] self.accounts@[k]
                    ).1.reputation_score <= self.spec_supply() by {
                        if k != i as int {
                            assert(self.accounts@[k] == pre.accounts@[k]);
                            assert(pre.accounts@[k].1.reputation_score <= pre.spec_supply());
                        }
                    }
                }
            },
            None => {
                let record = BARNNFT {
                    owner: to,
                    reputation_score: 1,
                    ai_rewards: rewards_earned_user,
                    image_asset: uri,
                    doppleganger_asset: doppleganger_uri,
                    token_id,
                };
                let mut games: Vec<BARNNFT> = Vec::new();
                games.push(record);
                let acct = Account {
                    reputation_score: 1,
                    rewards_earned: rewards_earned_user as u128,
                    games,
                    ai_response: String::new(),
                };
                self.accounts.push((to, acct));
                proof {
                    lemma_push(pre.accounts@, to, self.accounts@[pre.accounts@.len() as int].1);
                    assert forall|k: int| 0 <= k < self.accounts@.len() implies (
                        #[trigger] self.accounts@[k]
                    ).1.reputation_score <= self.spec_supply() by {
                        if k == pre.accounts@.len() as int {
                            assert(self.accounts@[k].1.reputation_score == 1);
                            assert(self.spec_supply() == pre.spec_supply() + 1);
                        } else {
                            assert(self.accounts@[k] == pre.accounts@[k]);
                            assert(pre.accounts@[k].1.reputation_score <= pre.spec_supply());
                        }
                    }
                }
            },
        }

        if !roster_contains(&self.all_users, to) {
            self.all_users.push(to);
        }

        Ok(())
    }

    /// A snapshot of the roster, in first-seen order. Read-only.
    pub fn get_all_users(&self) -> (r: Vec<Address>)
        ensures
            r@ == self.spec_users(),
    {
        let mut out: Vec<Address> = Vec::new();
        let mut i: usize = 0;
        while i < self.all_users.len()
            invariant
                0 <= i <= self.all_users@.len(),
                out@ =~= self.all_users@.subrange(0, i as int),
            decreases self.all_users@.len() - i,
        {
            out.push(self.all_users[i]);
            i = i + 1;
        }
        proof {
            assert(out@ =~= self.spec_users());
        }
        out
    }

    /// Overwrites the annotation for `user` wholesale, creating the account
    /// entry if it was never seen. No other state is touched.
    pub fn save_response(&mut self, user: Address, data: String)
        requires
            old(self).wf(),
        ensures
            final(self).wf(),
            save_ok(*old(self), *final(self), user, data),
    {
        let ghost pre = *self;
        match find_index(&self.accounts, user) {
            Some(i) => {
                proof {
                    lemma_val_at(pre.accounts@, i as int);
                }
                let mut acct = self.accounts.remove(i);
                acct.1.ai_response = data;
                self.accounts.insert(i, acct);
                proof {
                    assert(self.accounts@ =~= pre.accounts@.update(
                        i as int,
                        self.accounts@[i as int],
                    ));
                    lemma_update(pre.accounts@, i as int, self.accounts@[i as int].1);
                    assert forall|k: int| 0 <= k < self.accounts@.len() implies (
                        #[trigger] self.accounts@[k]
                    ).1.reputation_score <= self.spec_supply() by {
                        if k != i as int {
                            assert(self.accounts@[k] == pre.accounts@[k]);
                        }
                        assert(pre.accounts@[k].1.reputation_score <= pre.spec_supply());
                    }
                }
            },
            None => {
                let acct = Account {
                    reputation_score: 0,
                    rewards_earned: 0,
                    games: Vec::new(),
                    ai_response: data,
                };
                self.accounts.push((user, acct));
                proof {
                    lemma_push(pre.accounts@, user, self.accounts@[pre.accounts@.len() as int].1);
                    assert forall|k: int| 0 <= k < self.accounts@.len() implies (
                        #[trigger] self.accounts@[k]
                    ).1.reputation_score <= self.spec_supply() by {
                        if k == pre.accounts@.len() as int {
                            assert(self.accounts@[k].1.reputation_score == 0);
                        } else {
                            assert(self.accounts@[k] == pre.accounts@[k]);
                            assert(pre.accounts@[k].1.reputation_score <= pre.spec_supply());
                        }
                    }
                }
            },
        }
    }

    /// A snapshot of `user`'s asset records, oldest first; empty if `user`
    /// has never been minted to. Read-only.
    pub fn get_nfts(&self, user: Address) -> (r: Vec<BARNNFT>)
        requires
            self.wf(),
        ensures
            r@ == self.spec_games(user),
    {
        match find_index(&self.accounts, user) {
            Some(i) => {
                proof {
                    lemma_val_at(self.accounts@, i as int);
                }
                let games = &self.accounts[i].1.games;
                let mut out: Vec<BARNNFT> = Vec::new();
                let mut j: usize = 0;
                while j < games.len()
                    invariant
                        0 <= j <= games@.len(),
                        out@ =~= games@.subrange(0, j as int),
                    decreases games@.len() - j,
                {
                    out.push(games[j].clone());
                    j = j + 1;
                }
                proof {
                    assert(out@ =~= self.spec_games(user));
                }
                out
            },
            None => Vec::new(),
        }
    }

    /// The reputation score of `user`. Read-only.
    pub fn get_reputation(&self, user: Address) -> (r: u64)
        requires
            self.wf(),
        ensures
            r == self.spec_rep(user),
    {
        match find_index(&self.accounts, user) {
            Some(i) => {
                proof {
                    lemma_val_at(self.accounts@, i as int);
                }
                self.accounts[i].1.reputation_score
            },
            None => 0,
        }
    }

    /// The cumulative rewards of `user`. Read-only.
    pub fn get_rewards(&self, user: Address) -> (r: u128)
        requires
            self.wf(),
        ensures
            r == self.spec_rewards(user),
    {
        match find_index(&self.accounts, user) {
            Some(i) => {
                proof {
                    lemma_val_at(self.accounts@, i as int);
                }
                self.accounts[i].1.rewards_earned
            },
            None => 0,
        }
    }

    /// The annotation stored for `user`; empty if none was saved. Read-only.
    pub fn get_response(&self, user: Address) -> (r: String)
        requires
            self.wf(),
        ensures
            r@ == self.spec_response(user),
    {
        match find_index(&self.accounts, user) {
            Some(i) => {
                proof {
                    lemma_val_at(self.accounts@, i as int);
                }
                self.accounts[i].1.ai_response.clone()
            },
            None => String::new(),
        }
    }
}

/// Law: the ledger balance recorded for `a` equals the number of minted
/// tokens whose owner is `a`.
pub proof fn lemma_balance_counts_tokens(arena: BaseArena, a: Address)
    requires
        arena.wf(),
    ensures
        arena.spec_balance(a) == arena.spec_owned_below(a, arena.spec_supply() as int),
{
    arena.erc721.lemma_balance_counts_tokens(a);
}

/// Law: an account's reputation score always equals the number of asset
/// records it holds, since every successful mint adds exactly one of each
/// and nothing else touches either.
pub proof fn lemma_rep_counts_records(arena: BaseArena, user: Address)
    requires
        arena.wf(),
    ensures
        arena.spec_rep(user) == arena.spec_games(user).len(),
{
    if has_key(arena.accounts@, user) {
        let i = key_index(arena.accounts@, user);
        assert(0 <= i < arena.accounts@.len() && arena.accounts@[i].0 == user);
        assert(arena.accounts@[i].1.reputation_score == arena.accounts@[i].1.games@.len());
    }
}

/// The record a successful mint appends: the snapshot of the recipient, its
/// post-increment score, this mint's rewards amount, both references and the
/// assigned token identifier.
pub open spec fn new_record(
    pre: BaseArena,
    rewards: u64,
    img: String,
    dop: String,
    to: Address,
) -> BARNNFT {
    BARNNFT {
        owner: to,
        reputation_score: (pre.spec_rep(to) + 1) as u64,
        ai_rewards: rewards,
        image_asset: img,
        doppleganger_asset: dop,
        token_id: (pre.spec_supply() as u64),
    }
}

/// How a successful `safe_mint` call with these arguments relates the state
/// before (`pre`) to the state after (`post`).
pub open spec fn mint_ok(
    pre: BaseArena,
    post: BaseArena,
    rewards: u64,
    img: String,
    dop: String,
    to: Address,
) -> bool {
    &&& !to.spec_is_zero()
    &&& post.spec_supply() == pre.spec_supply() + 1
    &&& post.spec_owner(pre.spec_supply() as int) == to
    &&& forall|j: int| 0 <= j < pre.spec_supply() ==> post.spec_owner(j) == pre.spec_owner(j)
    &&& post.spec_rep(to) == pre.spec_rep(to) + 1
    &&& post.spec_rewards(to) == pre.spec_rewards(to) + rewards
    &&& post.spec_games(to) == pre.spec_games(to).push(new_record(pre, rewards, img, dop, to))
    &&& post.spec_response(to) == pre.spec_response(to)
    &&& post.spec_balance(to) == pre.spec_balance(to) + 1
    &&& forall|a: Address| #![auto]
        a != to ==> post.spec_rep(a) == pre.spec_rep(a) && post.spec_rewards(a)
            == pre.spec_rewards(a) && post.spec_games(a) == pre.spec_games(a)
            && post.spec_response(a) == pre.spec_response(a) && post.spec_balance(a)
            == pre.spec_balance(a)
    &&& post.spec_users() == (if pre.spec_users().contains(to) {
        pre.spec_users()
    } else {
        pre.spec_users().push(to)
    })
    &&& post.spec_events() == pre.spec_events().push(
        (Transfer { from: zero_address(), to, token_id: (pre.spec_supply() as u64) }),
    )
}

/// How a `save_response` call relates the state before to the state after:
/// the annotation for `user` becomes `text` and nothing else changes.
pub open spec fn save_ok(pre: BaseArena, post: BaseArena, user: Address, text: String) -> bool {
    &&& post.spec_response(user) == text@
    &&& forall|a: Address| #![auto] a != user ==> post.spec_response(a) == pre.spec_response(a)
    &&& forall|a: Address| #![auto]
        post.spec_rep(a) == pre.spec_rep(a) && post.spec_rewards(a) == pre.spec_rewards(a)
            && post.spec_games(a) == pre.spec_games(a) && post.spec_balance(a)
            == pre.spec_balance(a)
    &&& post.spec_users() == pre.spec_users()
    &&& post.spec_supply() == pre.spec_supply()
    &&& forall|j: int| 0 <= j < pre.spec_supply() ==> post.spec_owner(j) == pre.spec_owner(j)
    &&& post.spec_events() == pre.spec_events()
}

/// Whether `a` occurs in `v`.
fn roster_contains(v: &Vec<Address>, a: Address) -> (r: bool)
    ensures
        r == v@.contains(a),
{
    let mut i: usize = 0;
    while i < v.len()
        invariant
            0 <= i <= v@.len(),
            forall|j: int| 0 <= j < i ==> v@[j] != a,
        decreases v@.len() - i,
    {
        if v[i] == a {
            return true;
        }
        i = i + 1;
    }
    false
}

} // verus!
