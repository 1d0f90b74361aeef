use dsponsor::calls::TokenCall;
use dsponsor::nft::{DSponsorNFT, InitParams, MintPriceSettings, NftAction, NftError, USER_EXPIRY_EXTENSION};

fn s(x: &str) -> String {
    x.to_string()
}

const ADMIN: &str = "GADMIN";
const USER: &str = "GUSER";
const MINTER: &str = "GMINTER";
const NATIVE: &str = "CNATIVE";
const CONTRACT: &str = "CNFT";

fn init_params() -> InitParams {
    InitParams {
        name: s("Test NFT"),
        symbol: s("TEST"),
        base_uri: s("https://test.com/"),
        contract_uri: s("https://test.com/contract"),
        minter: s(MINTER),
        max_supply: 1000,
        forwarder: s("GFORWARDER"),
        initial_owner: s(ADMIN),
        royalty_bps: 500,
        currencies: vec![s(NATIVE)],
        prices: vec![1000],
        allowed_token_ids: vec![1, 2, 3],
        apply_tokens_allowlist: true,
        default_native_price: MintPriceSettings { enabled: true, amount: 1000 },
    }
}

fn setup_test_env() -> DSponsorNFT {
    DSponsorNFT::new(init_params(), s(NATIVE))
}

fn mint_one(nft: &mut DSponsorNFT) {
    nft.mint(&s(MINTER), 1, s(USER), &s(NATIVE), &s(CONTRACT), 100).unwrap();
}

#[test]
fn test_name() {
    let client = setup_test_env();
    assert_eq!(client.name(), Some(s("Test NFT")));
}

#[test]
fn test_symbol() {
    let client = setup_test_env();
    assert_eq!(client.symbol(), Some(s("TEST")));
}

#[test]
fn test_owner_of() {
    let mut client = setup_test_env();
    mint_one(&mut client);
    assert_eq!(client.owner_of(1), Some(s(USER)));
}

#[test]
fn test_token_uri() {
    let mut client = setup_test_env();
    mint_one(&mut client);
    assert_eq!(client.token_uri(1), s("https://test.com/contract"));
}

#[test]
fn test_token_image() {
    let client = setup_test_env();
    assert_eq!(client.token_image(), s("https://test.com/"));
}

#[test]
fn test_is_approved() {
    let mut client = setup_test_env();
    let operator = s("GOPERATOR");
    mint_one(&mut client);
    assert_eq!(client.is_approved(&operator, 1), false);
    client.approve(&s(USER), operator.clone(), 1).unwrap();
    assert_eq!(client.is_approved(&operator, 1), true);
}

#[test]
fn test_get_owner() {
    let client = setup_test_env();
    assert_eq!(client.get_owner(), s(ADMIN));
}

#[test]
fn test_get_mint_price() {
    let client = setup_test_env();
    let price_settings = client.get_mint_price(1, &s(NATIVE));
    assert_eq!(price_settings.enabled, true);
    assert_eq!(price_settings.amount, 1000);
}

#[test]
fn test_get_token_count() {
    let mut client = setup_test_env();
    assert_eq!(client.get_token_count(), 0);
    mint_one(&mut client);
    assert_eq!(client.get_token_count(), 1);
}

#[test]
fn test_is_token_id_allowed() {
    let client = setup_test_env();
    assert_eq!(client.is_token_id_allowed(1), true);
    assert_eq!(client.is_token_id_allowed(999), false);
}

#[test]
fn mint_by_minter_charges_the_price_to_the_admin() {
    let mut nft = setup_test_env();
    let receipt = nft.mint(&s(MINTER), 1, s(USER), &s(NATIVE), &s(CONTRACT), 100).unwrap();
    assert_eq!(receipt.paid_amount, 1000);
    match receipt.payment {
        Some(TokenCall::TransferFrom { token, spender, from, to, amount }) => {
            assert_eq!(token, s(NATIVE));
            assert_eq!(spender, s(CONTRACT));
            assert_eq!(from, s(MINTER));
            assert_eq!(to, s(ADMIN));
            assert_eq!(amount, 1000);
        }
        _ => panic!("expected a transfer_from"),
    }
    assert_eq!(nft.user_of(1), Some(s(USER)));
    assert!(nft.is_user_of(1, &s(USER), 100 + USER_EXPIRY_EXTENSION));
    assert!(!nft.is_user_of(1, &s(USER), 101 + USER_EXPIRY_EXTENSION));
}

#[test]
fn mint_by_admin_is_free() {
    let mut nft = setup_test_env();
    let receipt = nft.mint(&s(ADMIN), 1, s(USER), &s("CUSDC"), &s(CONTRACT), 0).unwrap();
    assert_eq!(receipt.paid_amount, 0);
    assert!(receipt.payment.is_none());
}

#[test]
fn mint_errors() {
    let mut nft = setup_test_env();
    assert_eq!(
        nft.mint(&s(MINTER), 0, s(USER), &s(NATIVE), &s(CONTRACT), 0).err(),
        Some(NftError::TokenAlreadyMinted)
    );
    assert_eq!(
        nft.mint(&s(MINTER), 5, s(USER), &s(NATIVE), &s(CONTRACT), 0).err(),
        Some(NftError::TokenNotAllowed)
    );
    assert_eq!(
        nft.mint(&s("GSTRANGER"), 1, s(USER), &s(NATIVE), &s(CONTRACT), 0).err(),
        Some(NftError::UnauthorizedToMint)
    );
    assert_eq!(
        nft.mint(&s(MINTER), 1, s(USER), &s("CUSDC"), &s(CONTRACT), 0).err(),
        Some(NftError::ForbiddenCurrency)
    );
    assert_eq!(
        nft.mint(&s(MINTER), 2, s(USER), &s(NATIVE), &s(CONTRACT), 0).err(),
        Some(NftError::NotNextTokenId)
    );
    assert_eq!(nft.get_token_count(), 0);
    nft.set_tokens_allowlist(false);
    let mut small = init_params();
    small.max_supply = 1;
    small.allowed_token_ids = vec![];
    small.apply_tokens_allowlist = false;
    let mut nft2 = DSponsorNFT::new(small, s(NATIVE));
    nft2.mint(&s(ADMIN), 1, s(USER), &s(NATIVE), &s(CONTRACT), 0).unwrap();
    assert_eq!(
        nft2.mint(&s(ADMIN), 2, s(USER), &s(NATIVE), &s(CONTRACT), 0).err(),
        Some(NftError::MaxSupplyReached)
    );
}

#[test]
fn transfer_moves_ownership_and_drops_approvals() {
    let mut nft = setup_test_env();
    mint_one(&mut nft);
    nft.approve(&s(USER), s("GOPERATOR"), 1).unwrap();
    assert_eq!(nft.transfer(&s("GOTHER"), s("GNEW"), 1, 5).err(), Some(NftError::NotTokenOwner));
    assert_eq!(nft.transfer(&s(USER), s("GNEW"), 7, 5).err(), Some(NftError::TokenNotMinted));
    nft.transfer(&s(USER), s("GNEW"), 1, 5).unwrap();
    assert_eq!(nft.owner_of(1), Some(s("GNEW")));
    assert_eq!(nft.user_of(1), Some(s("GNEW")));
    assert!(!nft.is_approved(&s("GOPERATOR"), 1));
}

#[test]
fn transfer_from_needs_approval() {
    let mut nft = setup_test_env();
    mint_one(&mut nft);
    assert_eq!(
        nft.transfer_from(&s("GMARKET"), &s(USER), s("GBUYER"), 1, 5).err(),
        Some(NftError::SpenderNotApproved)
    );
    assert_eq!(
        nft.transfer_from(&s("GMARKET"), &s("GOTHER"), s("GBUYER"), 1, 5).err(),
        Some(NftError::FromNotOwner)
    );
    nft.approve(&s(USER), s("GMARKET"), 1).unwrap();
    nft.transfer_from(&s("GMARKET"), &s(USER), s("GBUYER"), 1, 5).unwrap();
    assert_eq!(nft.owner_of(1), Some(s("GBUYER")));
    assert!(!nft.is_approved(&s("GMARKET"), 1));
}

#[test]
fn set_user_rents_the_token() {
    let mut nft = setup_test_env();
    mint_one(&mut nft);
    assert_eq!(nft.set_user(&s("GOTHER"), 1, s("GRENTER"), 50).err(), Some(NftError::NotTokenOwner));
    nft.set_user(&s(USER), 1, s("GRENTER"), 50).unwrap();
    assert!(nft.is_user_of(1, &s("GRENTER"), 50));
    assert!(!nft.is_user_of(1, &s("GRENTER"), 51));
    assert!(!nft.is_user_of(1, &s(USER), 10));
    assert_eq!(nft.owner_of(1), Some(s(USER)));
}

#[test]
fn mint_price_read_after_write() {
    let mut nft = setup_test_env();
    nft.set_mint_price(4, &s("CUSDC"), true, 77);
    assert_eq!(nft.get_mint_price(4, &s("CUSDC")), MintPriceSettings { enabled: true, amount: 77 });
    nft.set_default_mint_price(&s("CUSDC"), true, 12);
    assert_eq!(nft.get_mint_price(5, &s("CUSDC")), MintPriceSettings { enabled: true, amount: 12 });
    assert_eq!(nft.get_mint_price(4, &s("CUSDC")), MintPriceSettings { enabled: true, amount: 77 });
    nft.set_mint_price(6, &s(NATIVE), true, 3);
    assert_eq!(nft.get_mint_price(6, &s(NATIVE)), MintPriceSettings { enabled: true, amount: 3 });
    assert_eq!(nft.get_mint_price(7, &s(NATIVE)), MintPriceSettings { enabled: true, amount: 1000 });
    nft.set_default_mint_price(&s(NATIVE), true, 9);
    assert_eq!(nft.get_mint_price(7, &s(NATIVE)), MintPriceSettings { enabled: true, amount: 9 });
    assert_eq!(nft.get_mint_price(6, &s(NATIVE)), MintPriceSettings { enabled: true, amount: 3 });
    assert_eq!(nft.get_mint_price(7, &s("CEURC")), MintPriceSettings { enabled: false, amount: 0 });
}

#[test]
fn allowlist_updates() {
    let mut nft = setup_test_env();
    nft.add_allowed_token_id(10);
    assert!(nft.is_token_id_allowed(10));
    nft.remove_allowed_token_id(10);
    assert!(!nft.is_token_id_allowed(10));
    assert_eq!(nft.set_tokens_are_allowed(&vec![1, 2], &vec![false]).err(), Some(NftError::LengthMismatch));
    nft.set_tokens_are_allowed(&vec![1, 8, 1], &vec![false, true, true]).unwrap();
    assert!(nft.is_token_id_allowed(1));
    assert!(nft.is_token_id_allowed(8));
}

#[test]
fn admin_setters() {
    let mut nft = setup_test_env();
    assert_eq!(nft.set_royalty(1001).err(), Some(NftError::RoyaltyTooHigh));
    nft.set_royalty(1000).unwrap();
    assert_eq!(nft.royalty_bps, 1000);
    nft.set_base_uri(s("b"));
    nft.set_contract_uri(s("c"));
    assert_eq!(nft.token_image(), s("b"));
    assert_eq!(nft.token_uri(3), s("c"));
    nft.set_minter(s("GM2"));
    nft.set_forwarder(s("GF2"));
    assert_eq!(nft.minter, s("GM2"));
    assert_eq!(nft.forwarder, s("GF2"));
    nft.transfer_admin(s("GA2"));
    assert_eq!(nft.get_owner(), s("GA2"));
}

#[test]
fn allowlist_applies_when_ids_are_given() {
    let mut p = init_params();
    p.apply_tokens_allowlist = false;
    let nft = DSponsorNFT::new(p, s(NATIVE));
    assert!(nft.apply_allowlist);
    let mut q = init_params();
    q.apply_tokens_allowlist = false;
    q.allowed_token_ids = vec![];
    let nft2 = DSponsorNFT::new(q, s(NATIVE));
    assert!(!nft2.apply_allowlist);
}

#[test]
fn signers_of_collection_actions() {
    let mut nft = setup_test_env();
    assert_eq!(nft.required_signer(&NftAction::Mint { caller: s(MINTER) }), s(MINTER));
    assert_eq!(nft.required_signer(&NftAction::Transfer { owner: s(USER) }), s(USER));
    assert_eq!(nft.required_signer(&NftAction::Approve { owner: s(USER) }), s(USER));
    assert_eq!(nft.required_signer(&NftAction::TransferFrom { spender: s("GSPENDER") }), s("GSPENDER"));
    assert_eq!(nft.required_signer(&NftAction::SetUser { caller: s(USER) }), s(USER));
    assert_eq!(nft.required_signer(&NftAction::Administer), s(ADMIN));
    nft.transfer_admin(s("GNEWADMIN"));
    assert_eq!(nft.required_signer(&NftAction::Administer), s("GNEWADMIN"));
}
