//! Laws the arena obeys across whole sequences of calls, proved from the
//! per-call contracts alone.

use vstd::prelude::*;

use crate::address::Address;
use crate::barn_nft::{mint_ok, save_ok, BaseArena};

verus! {

/// The arguments of one successful mint in a trace.
pub struct MintCall {
    pub rewards: u64,
    pub img: String,
    pub dop: String,
    pub to: Address,
}

/// The recipients of a trace of mints, in call order.
pub open spec fn recipients(calls: Seq<MintCall>) -> Seq<Address> {
    calls.map_values(|c: MintCall| c.to)
}

/// The distinct elements of `s`, each at its first occurrence, in order.
pub open spec fn first_seen(s: Seq<Address>) -> Seq<Address>
    decreases s.len(),
{
    if s.len() == 0 {
        Seq::<Address>::empty()
    } else if first_seen(s.drop_last()).contains(s.last()) {
        first_seen(s.drop_last())
    } else {
        first_seen(s.drop_last()).push(s.last())
    }
}

/// `first_seen(s)` holds exactly the elements of `s`, each exactly once.
pub proof fn lemma_first_seen(s: Seq<Address>)
    ensures
        forall|a: Address| #[trigger] first_seen(s).contains(a) <==> s.contains(a),
        forall|i: int, j: int|
            0 <= i < j < first_seen(s).len() ==> first_seen(s)[i] != first_seen(s)[j],
    decreases s.len(),
{
    if s.len() == 0 {
        assert(forall|a: Address| !(#[trigger] s.contains(a)));
        assert(forall|a: Address| !(#[trigger] first_seen(s).contains(a)));
    } else {
        let t = s.drop_last();
        let x = s.last();
        let p = first_seen(t);
        let r = first_seen(s);
        lemma_first_seen(t);
        assert forall|a: Address| #[trigger] s.contains(a) implies r.contains(a) by {
            let i = choose|i: int| 0 <= i < s.len() && s[i] == a;
            if i < s.len() - 1 {
                assert(t[i] == a);
                assert(t.contains(a));
                assert(p.contains(a));
                if !p.contains(x) {
                    let k = choose|k: int| 0 <= k < p.len() && p[k] == a;
                    assert(r[k] == a);
                    assert(r.contains(a));
                }
            } else {
                assert(a == x);
                if p.contains(x) {
                    assert(r.contains(a));
                } else {
                    assert(r[p.len() as int] == x);
                    assert(r.contains(a));
                }
            }
        }
        assert forall|a: Address| #[trigger] r.contains(a) implies s.contains(a) by {
            let i = choose|i: int| 0 <= i < r.len() && r[i] == a;
            if i < p.len() {
                assert(p[i] == a);
                assert(p.contains(a));
                assert(t.contains(a));
                let k = choose|k: int| 0 <= k < t.len() && t[k] == a;
                assert(s[k] == a);
                assert(s.contains(a));
            } else {
                assert(a == x);
                assert(s[s.len() - 1] == x);
                assert(s.contains(a));
            }
        }
        if !p.contains(x) {
            assert forall|i: int, j: int| 0 <= i < j < r.len() implies r[i] != r[j] by {
                if j < p.len() {
                    assert(p[i] != p[j]);
                } else {
                    assert(r[j] == x);
                    assert(r[i] == p[i]);
                    if p[i] == x {
                        assert(p.contains(x));
                    }
                }
            }
        }
    }
}

/// Law: from an empty ledger, after any trace of successful mints the supply
/// counter equals the number of mints; the identifier assigned by mint `i`
/// is exactly `i` — so identifiers are unique and strictly increasing from
/// zero — and the final state records the recipient of mint `i` as the owner
/// of token `i`.
pub proof fn lemma_mint_trace(states: Seq<BaseArena>, calls: Seq<MintCall>)
    requires
        states.len() == calls.len() + 1,
        states[0].spec_supply() == 0,
        forall|i: int|
            0 <= i < calls.len() ==> #[trigger] mint_ok(
                states[i],
                states[i + 1],
                calls[i].rewards,
                calls[i].img,
                calls[i].dop,
                calls[i].to,
            ),
    ensures
        forall|i: int| 0 <= i <= calls.len() ==> #[trigger] states[i].spec_supply() == i,
        forall|i: int|
            0 <= i < calls.len() ==> #[trigger] states[calls.len() as int].spec_owner(i)
                == calls[i].to,
    decreases calls.len(),
{
    if calls.len() == 0 {
    } else {
        let n = calls.len() as int;
        let states2 = states.subrange(0, n);
        let calls2 = calls.subrange(0, n - 1);
        assert forall|i: int|
            0 <= i < calls2.len() implies #[trigger] mint_ok(
                states2[i],
                states2[i + 1],
                calls2[i].rewards,
                calls2[i].img,
                calls2[i].dop,
                calls2[i].to,
            ) by {
            assert(states2[i] == states[i]);
            assert(states2[i + 1] == states[i + 1]);
            assert(calls2[i] == calls[i]);
            assert(mint_ok(
                states[i],
                states[i + 1],
                calls[i].rewards,
                calls[i].img,
                calls[i].dop,
                calls[i].to,
            ));
        }
        lemma_mint_trace(states2, calls2);
        assert(mint_ok(
            states[n - 1],
            states[n],
            calls[n - 1].rewards,
            calls[n - 1].img,
            calls[n - 1].dop,
            calls[n - 1].to,
        ));
        assert forall|i: int| 0 <= i <= n implies #[trigger] states[i].spec_supply() == i by {
            if i < n {
                assert(states2[i].spec_supply() == i);
                assert(states2[i] == states[i]);
            } else {
                assert(states2[n - 1] == states[n - 1]);
                assert(states[n - 1].spec_supply() == n - 1);
            }
        }
        assert forall|i: int| 0 <= i < n implies #[trigger] states[n].spec_owner(i) == calls[
            i
        ].to by {
            if i < n - 1 {
                assert(states2[calls2.len() as int].spec_owner(i) == calls2[i].to);
                assert(states2[n - 1] == states[n - 1]);
                assert(calls2[i] == calls[i]);
                assert(states[n - 1].spec_supply() == n - 1);
                assert(states[n].spec_owner(i) == states[n - 1].spec_owner(i));
            } else {
                assert(states[n - 1].spec_supply() == n - 1);
                assert(states[n].spec_owner(states[n - 1].spec_supply() as int) == calls[n - 1].to);
            }
        }
    }
}

/// Law: from an empty roster, after any trace of successful mints the roster
/// is exactly the distinct mint recipients in first-seen order: it holds an
/// address if and only if some mint went to it, and holds no address twice.
pub proof fn lemma_roster_trace(states: Seq<BaseArena>, calls: Seq<MintCall>)
    requires
        states.len() == calls.len() + 1,
        states[0].spec_users() == Seq::<Address>::empty(),
        forall|i: int|
            0 <= i < calls.len() ==> #[trigger] mint_ok(
                states[i],
                states[i + 1],
                calls[i].rewards,
                calls[i].img,
                calls[i].dop,
                calls[i].to,
            ),
    ensures
        states[calls.len() as int].spec_users() == first_seen(recipients(calls)),
        forall|a: Address|
            #[trigger] states[calls.len() as int].spec_users().contains(a) <==> recipients(
                calls,
            ).contains(a),
        forall|i: int, j: int|
            0 <= i < j < states[calls.len() as int].spec_users().len() ==> states[
                calls.len() as int
            ].spec_users()[i] != states[calls.len() as int].spec_users()[j],
    decreases calls.len(),
{
    let tos = recipients(calls);
    if calls.len() == 0 {
        assert(tos =~= Seq::<Address>::empty());
    } else {
        let n = calls.len() as int;
        let states2 = states.subrange(0, n);
        let calls2 = calls.subrange(0, n - 1);
        assert forall|i: int|
            0 <= i < calls2.len() implies #[trigger] mint_ok(
                states2[i],
                states2[i + 1],
                calls2[i].rewards,
                calls2[i].img,
                calls2[i].dop,
                calls2[i].to,
            ) by {
            assert(states2[i] == states[i]);
            assert(states2[i + 1] == states[i + 1]);
            assert(calls2[i] == calls[i]);
            assert(mint_ok(
                states[i],
                states[i + 1],
                calls[i].rewards,
                calls[i].img,
                calls[i].dop,
                calls[i].to,
            ));
        }
        lemma_roster_trace(states2, calls2);
        assert(states2[n - 1] == states[n - 1]);
        assert(tos.drop_last() =~= recipients(calls2));
        assert(tos.last() == calls[n - 1].to);
        assert(mint_ok(
            states[n - 1],
            states[n],
            calls[n - 1].rewards,
            calls[n - 1].img,
            calls[n - 1].dop,
            calls[n - 1].to,
        ));
        assert(states[n - 1].spec_users() == first_seen(tos.drop_last()));
        assert(states[n].spec_users() == first_seen(tos));
    }
    lemma_first_seen(tos);
}

/// Law: saving the same annotation twice in a row is idempotent. After
/// either the first or the second save the stored text is `text`, and the
/// second save changes nothing observable.
pub proof fn lemma_save_response_idempotent(
    s0: BaseArena,
    s1: BaseArena,
    s2: BaseArena,
    user: Address,
    text: String,
)
    requires
        save_ok(s0, s1, user, text),
        save_ok(s1, s2, user, text),
    ensures
        s1.spec_response(user) == text@,
        s2.spec_response(user) == text@,
        forall|a: Address| #![auto] s2.spec_response(a) == s1.spec_response(a),
        forall|a: Address| #![auto]
            s2.spec_rep(a) == s1.spec_rep(a) && s2.spec_rewards(a) == s1.spec_rewards(a)
                && s2.spec_games(a) == s1.spec_games(a) && s2.spec_balance(a) == s1.spec_balance(a),
        s2.spec_users() == s1.spec_users(),
        s2.spec_supply() == s1.spec_supply(),
        s2.spec_events() == s1.spec_events(),
{
    assert forall|a: Address| #![auto] s2.spec_response(a) == s1.spec_response(a) by {
        if a != user {
            assert(s2.spec_response(a) == s1.spec_response(a));
        }
    }
}

} // verus!
