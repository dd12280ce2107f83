use stylus_contracts::address::Address;
use stylus_contracts::barn_nft::BaseArena;
use stylus_contracts::erc721::Erc721Error;

fn addr(n: u128) -> Address {
    Address::new(0, n)
}

#[test]
fn three_mints_scenario() {
    let mut arena = BaseArena::new();
    let a = addr(1);
    let b = addr(2);

    assert_eq!(arena.safe_mint(10, "img1".to_string(), "dop1".to_string(), a), Ok(()));
    assert_eq!(arena.safe_mint(5, "img2".to_string(), "dop2".to_string(), a), Ok(()));
    assert_eq!(arena.safe_mint(0, "img3".to_string(), "dop3".to_string(), b), Ok(()));

    assert_eq!(arena.get_reputation(a), 2);
    assert_eq!(arena.get_rewards(a), 15);
    assert_eq!(arena.get_reputation(b), 1);
    assert_eq!(arena.get_rewards(b), 0);

    let nfts_a = arena.get_nfts(a);
    assert_eq!(nfts_a.len(), 2);
    assert_eq!(nfts_a[0].token_id, 0);
    assert_eq!(nfts_a[1].token_id, 1);
    assert_eq!(nfts_a[0].reputation_score, 1);
    assert_eq!(nfts_a[1].reputation_score, 2);
    assert_eq!(nfts_a[0].ai_rewards, 10);
    assert_eq!(nfts_a[1].ai_rewards, 5);
    assert_eq!(nfts_a[0].image_asset.as_str(), "img1");
    assert_eq!(nfts_a[0].doppleganger_asset.as_str(), "dop1");
    assert_eq!(nfts_a[0].owner, a);
    assert_eq!(nfts_a[1].owner, a);

    let nfts_b = arena.get_nfts(b);
    assert_eq!(nfts_b.len(), 1);
    assert_eq!(nfts_b[0].token_id, 2);
    assert_eq!(nfts_b[0].reputation_score, 1);
    assert_eq!(nfts_b[0].owner, b);

    assert_eq!(arena.get_all_users(), vec![a, b]);
    assert_eq!(arena.erc721.total_supply(), 3);
}

#[test]
fn mint_to_zero_is_rejected_and_changes_nothing() {
    let mut arena = BaseArena::new();
    let r = arena.safe_mint(5, "img".to_string(), "dop".to_string(), Address::zero());
    assert_eq!(r, Err(Erc721Error::TransferToZero { token_id: 0 }));
    assert_eq!(arena.erc721.total_supply(), 0);
    assert!(arena.get_all_users().is_empty());
    assert!(arena.get_nfts(Address::zero()).is_empty());
    assert_eq!(arena.get_reputation(Address::zero()), 0);
    assert_eq!(arena.get_rewards(Address::zero()), 0);

    let a = addr(9);
    assert_eq!(arena.safe_mint(7, "x".to_string(), "y".to_string(), a), Ok(()));
    let r2 = arena.safe_mint(3, "x2".to_string(), "y2".to_string(), Address::zero());
    assert_eq!(r2, Err(Erc721Error::TransferToZero { token_id: 1 }));
    assert_eq!(arena.erc721.total_supply(), 1);
    assert_eq!(arena.get_reputation(a), 1);
    assert_eq!(arena.get_rewards(a), 7);
    assert_eq!(arena.get_all_users(), vec![a]);
    assert_eq!(arena.get_nfts(a).len(), 1);
}

#[test]
fn roster_holds_each_recipient_once_in_first_seen_order() {
    let mut arena = BaseArena::new();
    let a = addr(1);
    let b = addr(2);
    assert_eq!(arena.safe_mint(1, "i1".to_string(), "d1".to_string(), a), Ok(()));
    assert_eq!(arena.safe_mint(2, "i2".to_string(), "d2".to_string(), a), Ok(()));
    assert_eq!(arena.safe_mint(3, "i3".to_string(), "d3".to_string(), b), Ok(()));
    assert_eq!(arena.safe_mint(4, "i4".to_string(), "d4".to_string(), a), Ok(()));
    // the naive behavior would be [a, a, b, a]; the roster must deduplicate
    let users = arena.get_all_users();
    assert_ne!(users, vec![a, a, b, a]);
    assert_eq!(users, vec![a, b]);
}

#[test]
fn save_response_is_idempotent() {
    let mut arena = BaseArena::new();
    let a = addr(4);
    arena.save_response(a, "hello".to_string());
    assert_eq!(arena.get_response(a).as_str(), "hello");
    arena.save_response(a, "hello".to_string());
    assert_eq!(arena.get_response(a).as_str(), "hello");
    // saving touches neither roster nor supply nor aggregates
    assert!(arena.get_all_users().is_empty());
    assert_eq!(arena.erc721.total_supply(), 0);
    assert_eq!(arena.get_reputation(a), 0);
}

#[test]
fn save_response_overwrites_wholesale() {
    let mut arena = BaseArena::new();
    let a = addr(4);
    assert_eq!(arena.get_response(a).as_str(), "");
    arena.save_response(a, "first".to_string());
    arena.save_response(a, "second".to_string());
    assert_eq!(arena.get_response(a).as_str(), "second");
    let b = addr(5);
    arena.save_response(b, "other".to_string());
    assert_eq!(arena.get_response(a).as_str(), "second");
    assert_eq!(arena.get_response(b).as_str(), "other");
}

#[test]
fn mint_emits_one_notification_per_token() {
    let mut arena = BaseArena::new();
    let a = addr(6);
    let b = addr(7);
    assert_eq!(arena.safe_mint(1, "i".to_string(), "d".to_string(), a), Ok(()));
    assert_eq!(arena.safe_mint(1, "i".to_string(), "d".to_string(), b), Ok(()));
    assert_eq!(arena.erc721.events.len(), 2);
    assert_eq!(arena.erc721.events[0].from, Address::zero());
    assert_eq!(arena.erc721.events[0].to, a);
    assert_eq!(arena.erc721.events[0].token_id, 0);
    assert_eq!(arena.erc721.events[1].to, b);
    assert_eq!(arena.erc721.events[1].token_id, 1);
}
