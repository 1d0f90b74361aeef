use dsponsor::factory::{default_salt, DSponsorFactory};
use dsponsor::nft::{DSponsorNFT, InitParams, MintPriceSettings};

fn s(x: &str) -> String {
    x.to_string()
}

fn create_test_init_params(admin: &str) -> (InitParams, String) {
    let init_params = InitParams {
        name: s("Test NFT"),
        symbol: s("TNFT"),
        base_uri: s("https://example.com/nft/"),
        contract_uri: s("https://example.com/contract"),
        minter: s(admin),
        max_supply: 1000,
        forwarder: s("GFORWARDER"),
        initial_owner: s(admin),
        royalty_bps: 500,
        currencies: vec![s(admin)],
        prices: vec![1000],
        allowed_token_ids: vec![1, 2, 3],
        apply_tokens_allowlist: true,
        default_native_price: MintPriceSettings { enabled: true, amount: 1000 },
    };
    (init_params, s("CNATIVE"))
}

#[test]
fn test_create_dsponsor_nft() {
    let (init_params, native_xlm) = create_test_init_params("GADMIN");
    let mut salt_bytes = [0u8; 32];
    for i in 0..32 {
        salt_bytes[i] = (i + 1) as u8;
    }
    let d = DSponsorFactory::create_dsponsor_nft(init_params, native_xlm, Some(salt_bytes), 12345);
    assert_eq!(d.salt, salt_bytes);
    let nft = DSponsorNFT::new(d.init_params, d.native_xlm);
    assert_eq!(nft.name(), Some(s("Test NFT")));
    assert_eq!(nft.symbol(), Some(s("TNFT")));
}

#[test]
fn test_create_dsponsor_nft_with_random_salt() {
    let (init_params, native_xlm) = create_test_init_params("GADMIN");
    let d = DSponsorFactory::create_dsponsor_nft(init_params, native_xlm, None, 0x1_0000_00ff);
    for i in 0..32usize {
        assert_eq!(d.salt[i], (0xffu8).wrapping_add(i as u8));
    }
    let nft = DSponsorNFT::new(d.init_params, d.native_xlm);
    assert_eq!(nft.name(), Some(s("Test NFT")));
    assert_eq!(nft.symbol(), Some(s("TNFT")));
}

#[test]
fn test_create_multiple_dsponsor_nfts() {
    let (init_params1, native_xlm1) = create_test_init_params("GADMIN");
    let (mut init_params2, native_xlm2) = create_test_init_params("GADMIN");
    init_params2.name = s("Test NFT 2");
    init_params2.symbol = s("TNFT2");
    let d1 = DSponsorFactory::create_dsponsor_nft(init_params1, native_xlm1, Some([1; 32]), 0);
    let d2 = DSponsorFactory::create_dsponsor_nft(init_params2, native_xlm2, Some([2; 32]), 0);
    assert!(d1.salt != d2.salt);
    let nft1 = DSponsorNFT::new(d1.init_params, d1.native_xlm);
    let nft2 = DSponsorNFT::new(d2.init_params, d2.native_xlm);
    assert_eq!(nft1.name(), Some(s("Test NFT")));
    assert_eq!(nft1.symbol(), Some(s("TNFT")));
    assert_eq!(nft2.name(), Some(s("Test NFT 2")));
    assert_eq!(nft2.symbol(), Some(s("TNFT2")));
}

#[test]
fn test_create_dsponsor_nft_with_different_parameters() {
    let init_params = InitParams {
        name: s("Custom NFT"),
        symbol: s("CNFT"),
        base_uri: s("https://custom.com/nft/"),
        contract_uri: s("https://custom.com/contract"),
        minter: s("GUSER"),
        max_supply: 500,
        forwarder: s("GFORWARDER"),
        initial_owner: s("GUSER"),
        royalty_bps: 250,
        currencies: vec![s("GADMIN"), s("GUSER")],
        prices: vec![500, 1000],
        allowed_token_ids: vec![1, 2],
        apply_tokens_allowlist: false,
        default_native_price: MintPriceSettings { enabled: true, amount: 500 },
    };
    let mut salt_bytes = [0u8; 32];
    for i in 0..32 {
        salt_bytes[i] = (i + 100) as u8;
    }
    let d = DSponsorFactory::create_dsponsor_nft(init_params, s("CNATIVE"), Some(salt_bytes), 0);
    let nft = DSponsorNFT::new(d.init_params, d.native_xlm);
    assert_eq!(nft.name(), Some(s("Custom NFT")));
    assert_eq!(nft.symbol(), Some(s("CNFT")));
    assert_eq!(nft.get_owner(), s("GUSER"));
    assert_eq!(nft.get_mint_price(9, &s("GUSER")), MintPriceSettings { enabled: true, amount: 1000 });
}

#[test]
fn default_salt_wraps_the_low_byte() {
    let salt = default_salt(250);
    assert_eq!(salt[0], 250);
    assert_eq!(salt[5], 255);
    assert_eq!(salt[6], 0);
    assert_eq!(salt[31], 25);
}
