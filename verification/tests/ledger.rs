use stylus_contracts::address::Address;
use stylus_contracts::erc721::Erc721Error;
use stylus_contracts::simple_nft::SimpleNFT;

fn addr(n: u128) -> Address {
    Address::new(0, n)
}

#[test]
fn identifiers_count_up_from_zero() {
    let mut nft = SimpleNFT::new();
    let a = addr(1);
    let b = addr(2);
    assert_eq!(nft.mint(a), Ok(0));
    assert_eq!(nft.mint(b), Ok(1));
    assert_eq!(nft.mint(a), Ok(2));
    assert_eq!(nft.erc721.total_supply(), 3);
}

#[test]
fn owner_of_returns_the_minting_recipient() {
    let mut nft = SimpleNFT::new();
    let a = addr(1);
    let b = addr(2);
    nft.mint(a).unwrap();
    nft.mint(b).unwrap();
    assert_eq!(nft.owner_of(0), Ok(a));
    assert_eq!(nft.owner_of(1), Ok(b));
}

#[test]
fn owner_of_fails_for_unminted_identifiers() {
    let mut nft = SimpleNFT::new();
    assert_eq!(nft.owner_of(0), Err(Erc721Error::InvalidTokenId { token_id: 0 }));
    nft.mint(addr(1)).unwrap();
    assert_eq!(nft.owner_of(1), Err(Erc721Error::InvalidTokenId { token_id: 1 }));
    assert_eq!(nft.owner_of(u64::MAX), Err(Erc721Error::InvalidTokenId { token_id: u64::MAX }));
}

#[test]
fn mint_to_zero_fails_and_changes_nothing() {
    let mut nft = SimpleNFT::new();
    assert_eq!(nft.mint(Address::zero()), Err(Erc721Error::TransferToZero { token_id: 0 }));
    assert_eq!(nft.erc721.total_supply(), 0);
    assert_eq!(nft.owner_of(0), Err(Erc721Error::InvalidTokenId { token_id: 0 }));
}

#[test]
fn token_uri_requires_an_existing_token() {
    let mut nft = SimpleNFT::new();
    assert_eq!(nft.token_uri(0), Err(Erc721Error::InvalidTokenId { token_id: 0 }));
    nft.mint(addr(3)).unwrap();
    assert_eq!(nft.token_uri(0).unwrap().as_str(), "https://my-nft-metadata.com/0.json");
    assert_eq!(nft.token_uri(1), Err(Erc721Error::InvalidTokenId { token_id: 1 }));
}

#[test]
fn ledger_events_record_each_mint() {
    let mut nft = SimpleNFT::new();
    let a = addr(8);
    nft.mint(a).unwrap();
    assert_eq!(nft.erc721.events.len(), 1);
    assert_eq!(nft.erc721.events[0].from, Address::zero());
    assert_eq!(nft.erc721.events[0].to, a);
    assert_eq!(nft.erc721.events[0].token_id, 0);
}
