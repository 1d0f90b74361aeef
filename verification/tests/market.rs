use std::collections::HashMap;

use dsponsor::calls::TokenCall;
use dsponsor::market::{market_fee, DSponsorMarket, MarketAction, MarketError};
use dsponsor::nft::{DSponsorNFT, InitParams, MintPriceSettings};

fn s(x: &str) -> String {
    x.to_string()
}

/// Balances of one token, moved by the calls a contract asks for.
struct Ledger {
    balances: HashMap<String, i128>,
}

impl Ledger {
    fn new() -> Self {
        Ledger { balances: HashMap::new() }
    }

    fn mint(&mut self, who: &str, amount: i128) {
        *self.balances.entry(s(who)).or_insert(0) += amount;
    }

    fn balance(&self, who: &str) -> i128 {
        *self.balances.get(who).unwrap_or(&0)
    }

    fn apply(&mut self, calls: &[TokenCall]) {
        for c in calls {
            match c {
                TokenCall::Transfer { from, to, amount, .. }
                | TokenCall::TransferFrom { from, to, amount, .. } => {
                    assert!(self.balance(from) >= *amount, "insufficient balance");
                    *self.balances.entry(from.clone()).or_insert(0) -= amount;
                    *self.balances.entry(to.clone()).or_insert(0) += amount;
                }
                TokenCall::Approve { .. } => {}
            }
        }
    }
}

const MARKET: &str = "CMARKET";
const NFT: &str = "CNFT";

fn setup_dsponsor(minter: &str, admin: &str, native_xlm: &str) -> DSponsorNFT {
    let init_params = InitParams {
        name: s("Test NFT"),
        symbol: s("TNFT"),
        base_uri: s("base_uri"),
        contract_uri: s("contract_uri"),
        minter: s(minter),
        max_supply: 100,
        forwarder: s("GFORWARDER"),
        initial_owner: s(admin),
        royalty_bps: 500,
        currencies: vec![],
        prices: vec![],
        allowed_token_ids: vec![1],
        apply_tokens_allowlist: true,
        default_native_price: MintPriceSettings { enabled: true, amount: 0 },
    };
    DSponsorNFT::new(init_params, s(native_xlm))
}

#[test]
fn test_listing_buy_native() {
    let (admin, seller, buyer, token) = ("GADMIN", "GSELLER", "GBUYER", "CTOKEN");
    let mut ledger = Ledger::new();
    ledger.mint(buyer, 10_000);
    let mut market = DSponsorMarket::new();
    market.initialize(s(admin), s(token), 50).unwrap();
    let mut nft = setup_dsponsor(seller, seller, token);
    nft.mint(&s(seller), 1, s(seller), &s(token), &s(NFT), 0).unwrap();
    nft.approve(&s(seller), s(MARKET), 1).unwrap();
    let listing_id = market
        .create_listing(s(seller), s(NFT), 1, s(token), 1_000, nft.owner_of(1))
        .unwrap();
    let sale = market.buy(listing_id, &s(buyer), &s(MARKET)).unwrap();
    ledger.apply(&sale.payments);
    let t = sale.nft_transfer.unwrap();
    nft.transfer_from(&t.spender, &t.from, t.to.clone(), t.token_id, 0).unwrap();
    assert_eq!(nft.owner_of(1), Some(s(buyer)));
    assert_eq!(ledger.balance(buyer), 9_000);
    assert_eq!(ledger.balance(seller), 950);
    assert_eq!(ledger.balance(admin), 50);
}

#[test]
fn test_auction_bid_refund_and_finalize() {
    let (admin, seller, bidder1, bidder2, token) = ("GADMIN", "GSELLER", "GBID1", "GBID2", "CTOKEN");
    let mut ledger = Ledger::new();
    ledger.mint(bidder1, 5_000);
    ledger.mint(bidder2, 5_000);
    let mut market = DSponsorMarket::new();
    market.initialize(s(admin), s(token), 100).unwrap();
    let mut nft = setup_dsponsor(seller, seller, token);
    nft.mint(&s(seller), 1, s(seller), &s(token), &s(NFT), 0).unwrap();
    nft.approve(&s(seller), s(MARKET), 1).unwrap();
    let auction_id = market
        .create_auction(s(seller), s(NFT), 1, s(token), 500, nft.owner_of(1))
        .unwrap();
    let calls = market.bid(auction_id, s(bidder1), 600, &s(MARKET)).unwrap();
    ledger.apply(&calls);
    assert_eq!(ledger.balance(bidder1), 4_400);
    let calls = market.bid(auction_id, s(bidder2), 800, &s(MARKET)).unwrap();
    ledger.apply(&calls);
    assert_eq!(ledger.balance(bidder1), 5_000);
    assert_eq!(ledger.balance(bidder2), 4_200);
    let settlement = market.finalize_auction(auction_id, &s(seller), &s(MARKET)).unwrap();
    ledger.apply(&settlement.payments);
    let t = settlement.nft_transfer.unwrap();
    nft.transfer_from(&t.spender, &t.from, t.to.clone(), t.token_id, 0).unwrap();
    assert_eq!(nft.owner_of(1), Some(s(bidder2)));
    assert_eq!(ledger.balance(seller), 720);
    assert_eq!(ledger.balance(admin), 80);
    assert_eq!(ledger.balance(bidder2), 4_200);
    assert_eq!(ledger.balance(MARKET), 0);
}

#[test]
fn test_get_all_listings_and_auctions() {
    let (admin, seller, token) = ("GADMIN", "GSELLER", "CTOKEN");
    let mut market = DSponsorMarket::new();
    market.initialize(s(admin), s(token), 50).unwrap();
    let mut nft = setup_dsponsor(seller, seller, token);
    nft.mint(&s(seller), 1, s(seller), &s(token), &s(NFT), 0).unwrap();
    nft.approve(&s(seller), s(MARKET), 1).unwrap();
    assert_eq!(market.get_all_listings().len(), 0);
    assert_eq!(market.get_all_auctions().len(), 0);
    let listing_id = market
        .create_listing(s(seller), s(NFT), 1, s(token), 1_000, nft.owner_of(1))
        .unwrap();
    let all_listings = market.get_all_listings();
    assert_eq!(all_listings.len(), 1);
    assert_eq!(all_listings[0].id, 1);
    assert_eq!(market.get_all_auctions().len(), 0);
    market.cancel_listing(listing_id, &s(seller)).unwrap();
    assert_eq!(market.get_all_listings().len(), 0);
}

#[test]
fn market_initialize_errors() {
    let mut market = DSponsorMarket::new();
    assert_eq!(market.initialize(s("GA"), s("CT"), 1001).err(), Some(MarketError::FeeTooHigh));
    market.initialize(s("GA"), s("CT"), 1000).unwrap();
    assert_eq!(market.initialize(s("GA"), s("CT"), 10).err(), Some(MarketError::AlreadyInitialized));
}

#[test]
fn listing_errors() {
    let mut market = DSponsorMarket::new();
    assert_eq!(
        market.create_listing(s("GS"), s(NFT), 1, s("CT"), 10, None).err(),
        Some(MarketError::TokenNotMinted)
    );
    assert_eq!(
        market.create_listing(s("GS"), s(NFT), 1, s("CT"), 10, Some(s("GX"))).err(),
        Some(MarketError::OnlyOwnerCanList)
    );
    assert_eq!(market.buy(1, &s("GB"), &s(MARKET)).err(), Some(MarketError::NoListings));
    assert_eq!(market.cancel_listing(1, &s("GS")).err(), Some(MarketError::NoListings));
    let id = market.create_listing(s("GS"), s(NFT), 1, s("CT"), 10, Some(s("GS"))).unwrap();
    assert_eq!(id, 1);
    assert_eq!(
        market.create_listing(s("GS"), s(NFT), 1, s("CT"), 10, Some(s("GS"))).err(),
        Some(MarketError::AlreadyListed)
    );
    assert_eq!(market.buy(2, &s("GB"), &s(MARKET)).err(), Some(MarketError::ListingNotFound));
    assert_eq!(market.buy(1, &s("GB"), &s(MARKET)).err(), Some(MarketError::NotInitialized));
    assert_eq!(market.cancel_listing(1, &s("GX")).err(), Some(MarketError::OnlySellerCanCancel));
    market.cancel_listing(1, &s("GS")).unwrap();
    assert_eq!(market.cancel_listing(1, &s("GS")).err(), Some(MarketError::ListingNotActive));
    assert_eq!(market.buy(1, &s("GB"), &s(MARKET)).err(), Some(MarketError::ListingNotActive));
    let l = market.get_listing(1).unwrap();
    assert!(!l.active);
    assert!(market.get_listing(2).is_none());
    let id2 = market.create_listing(s("GS"), s(NFT), 1, s("CT"), 10, Some(s("GS"))).unwrap();
    assert_eq!(id2, 2);
}

#[test]
fn auction_errors() {
    let mut market = DSponsorMarket::new();
    assert_eq!(market.bid(1, s("GB"), 5, &s(MARKET)).err(), Some(MarketError::NoAuctions));
    assert_eq!(
        market.create_auction(s("GS"), s(NFT), 1, s("CT"), 10, Some(s("GX"))).err(),
        Some(MarketError::OnlyOwnerCanAuction)
    );
    market.create_listing(s("GS"), s(NFT), 2, s("CT"), 10, Some(s("GS"))).unwrap();
    assert_eq!(
        market.create_auction(s("GS"), s(NFT), 2, s("CT"), 10, Some(s("GS"))).err(),
        Some(MarketError::AlreadyListed)
    );
    let id = market.create_auction(s("GS"), s(NFT), 1, s("CT"), 10, Some(s("GS"))).unwrap();
    assert_eq!(
        market.create_auction(s("GS"), s(NFT), 1, s("CT"), 10, Some(s("GS"))).err(),
        Some(MarketError::AlreadyAuctioned)
    );
    assert_eq!(market.bid(id + 1, s("GB"), 50, &s(MARKET)).err(), Some(MarketError::AuctionNotFound));
    assert_eq!(market.bid(id, s("GB"), 9, &s(MARKET)).err(), Some(MarketError::BidTooLow));
    assert_eq!(market.bid(id, s("GB"), 50, &s(MARKET)).err(), Some(MarketError::NotInitialized));
    market.initialize(s("GA"), s("CT"), 0).unwrap();
    market.bid(id, s("GB"), 50, &s(MARKET)).unwrap();
    assert_eq!(market.bid(id, s("GC"), 50, &s(MARKET)).err(), Some(MarketError::BidTooLow));
    assert_eq!(
        market.finalize_auction(id, &s("GX"), &s(MARKET)).err(),
        Some(MarketError::OnlySellerCanFinalize)
    );
    let settlement = market.finalize_auction(id, &s("GS"), &s(MARKET)).unwrap();
    assert_eq!(settlement.payments.len(), 1);
    assert_eq!(
        market.finalize_auction(id, &s("GS"), &s(MARKET)).err(),
        Some(MarketError::AuctionNotActive)
    );
    assert_eq!(market.get_auction(id).unwrap().highest_bidder, Some(s("GB")));
}

#[test]
fn finalize_without_bids_moves_nothing() {
    let mut market = DSponsorMarket::new();
    market.initialize(s("GA"), s("CT"), 100).unwrap();
    let id = market.create_auction(s("GS"), s(NFT), 1, s("CT"), 10, Some(s("GS"))).unwrap();
    let settlement = market.finalize_auction(id, &s("GS"), &s(MARKET)).unwrap();
    assert!(settlement.payments.is_empty());
    assert!(settlement.nft_transfer.is_none());
    assert_eq!(market.get_all_auctions().len(), 0);
}

#[test]
fn market_fee_formula() {
    assert_eq!(market_fee(1000, 50), 50);
    assert_eq!(market_fee(999, 1), 0);
    assert_eq!(market_fee(800, 100), 80);
}

#[test]
fn initialize_restarts_counters() {
    let mut market = DSponsorMarket::new();
    market.create_listing(s("GS"), s(NFT), 1, s("CT"), 10, Some(s("GS"))).unwrap();
    market.initialize(s("GA"), s("CT"), 10).unwrap();
    let id = market.create_listing(s("GS"), s(NFT), 2, s("CT"), 20, Some(s("GS"))).unwrap();
    assert_eq!(id, 1);
    assert_eq!(market.get_listing(1).unwrap().token_id, 2);
}

#[test]
fn counter_overflow_is_the_last_refusal() {
    let mut market = DSponsorMarket::new();
    market.listing_count = u32::MAX;
    market.auction_count = u32::MAX;
    assert_eq!(
        market.create_listing(s("GS"), s(NFT), 1, s("CT"), 10, Some(s("GX"))).err(),
        Some(MarketError::OnlyOwnerCanList)
    );
    assert_eq!(
        market.create_listing(s("GS"), s(NFT), 1, s("CT"), 10, Some(s("GS"))).err(),
        Some(MarketError::ArithmeticOverflow)
    );
    assert_eq!(
        market.create_auction(s("GS"), s(NFT), 1, s("CT"), 10, None).err(),
        Some(MarketError::TokenNotMinted)
    );
    assert_eq!(
        market.create_auction(s("GS"), s(NFT), 1, s("CT"), 10, Some(s("GS"))).err(),
        Some(MarketError::ArithmeticOverflow)
    );
    assert!(market.get_listing(1).is_none());
}

#[test]
fn fee_overflow_refuses_the_sale() {
    let mut market = DSponsorMarket::new();
    market.initialize(s("GADMIN"), s("CT"), 1000).unwrap();
    let id = market.create_listing(s("GS"), s(NFT), 1, s("CT"), u128::MAX, Some(s("GS"))).unwrap();
    assert_eq!(market.buy(id, &s("GB"), &s(MARKET)).err(), Some(MarketError::ArithmeticOverflow));
    assert!(market.get_listing(id).unwrap().active);
    let aid = market.create_auction(s("GS"), s(NFT), 2, s("CT"), 0, Some(s("GS"))).unwrap();
    market.bid(aid, s("GB"), u128::MAX, &s(MARKET)).unwrap();
    assert_eq!(
        market.finalize_auction(aid, &s("GS"), &s(MARKET)).err(),
        Some(MarketError::ArithmeticOverflow)
    );
    assert!(market.get_auction(aid).unwrap().active);
}

#[test]
fn listings_walk_stops_at_the_first_gap() {
    let mut market = DSponsorMarket::new();
    market.listing_count = u32::MAX - 1;
    let id = market.create_listing(s("GS"), s(NFT), 1, s("CT"), 10, Some(s("GS"))).unwrap();
    assert_eq!(id, u32::MAX);
    assert!(market.get_all_listings().is_empty());
    assert!(market.get_all_auctions().is_empty());
}

#[test]
fn signers_of_market_actions() {
    let market = DSponsorMarket::new();
    assert_eq!(market.required_signer(&MarketAction::Initialize), None);
    assert_eq!(market.required_signer(&MarketAction::CreateListing { seller: s("GS") }), Some(s("GS")));
    assert_eq!(market.required_signer(&MarketAction::CancelListing { caller: s("GC") }), Some(s("GC")));
    assert_eq!(market.required_signer(&MarketAction::Buy { buyer: s("GB") }), Some(s("GB")));
    assert_eq!(market.required_signer(&MarketAction::CreateAuction { seller: s("GS") }), Some(s("GS")));
    assert_eq!(market.required_signer(&MarketAction::Bid { bidder: s("GD") }), Some(s("GD")));
    assert_eq!(market.required_signer(&MarketAction::FinalizeAuction { caller: s("GF") }), Some(s("GF")));
}

#[test]
fn finalized_auction_frees_the_token() {
    let mut market = DSponsorMarket::new();
    market.initialize(s("GA"), s("CT"), 0).unwrap();
    let id = market.create_auction(s("GS"), s(NFT), 1, s("CT"), 10, Some(s("GS"))).unwrap();
    assert_eq!(
        market.create_auction(s("GS"), s(NFT), 1, s("CT"), 10, Some(s("GS"))).err(),
        Some(MarketError::AlreadyAuctioned)
    );
    market.finalize_auction(id, &s("GS"), &s(MARKET)).unwrap();
    let id2 = market.create_auction(s("GS"), s(NFT), 1, s("CT"), 20, Some(s("GS"))).unwrap();
    assert_eq!(id2, id + 1);
    assert_eq!(market.get_auction(id2).unwrap().reserve_price, 20);
    assert!(!market.get_auction(id).unwrap().active);
}
