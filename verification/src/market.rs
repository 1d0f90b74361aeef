//! The marketplace: fixed-price listings and English auctions of sponsorship
//! NFTs, with a protocol fee on every sale.

use vstd::prelude::*;

use crate::calls::{call_views, CallView, NftTransferCall, NftTransferView, TokenCall};
use crate::keymap::{Duplicate, KeyMap};

verus! {

/// The largest protocol fee, in thousandths of the price.
pub const MAX_FEE_BPS: u32 = 1000u32;

/// A fixed-price offer to sell one token.
pub struct Listing {
    pub id: u32,
    pub seller: String,
    pub nft_contract: String,
    pub token_id: i128,
    pub currency: String,
    pub price: u128,
    pub active: bool,
}

pub struct ListingView {
    pub id: u32,
    pub seller: Seq<char>,
    pub nft_contract: Seq<char>,
    pub token_id: i128,
    pub currency: Seq<char>,
    pub price: u128,
    pub active: bool,
}

impl View for Listing {
    type V = ListingView;

    open spec fn view(&self) -> ListingView {
        ListingView {
            id: self.id,
            seller: self.seller@,
            nft_contract: self.nft_contract@,
            token_id: self.token_id,
            currency: self.currency@,
            price: self.price,
            active: self.active,
        }
    }
}

impl Duplicate for Listing {
    fn duplicate(&self) -> (r: Self) {
        Listing {
            id: self.id,
            seller: self.seller.clone(),
            nft_contract: self.nft_contract.clone(),
            token_id: self.token_id,
            currency: self.currency.clone(),
            price: self.price,
            active: self.active,
        }
    }
}

/// An English auction of one token; bids are held in escrow by the market.
pub struct Auction {
    pub id: u32,
    pub seller: String,
    pub nft_contract: String,
    pub token_id: i128,
    pub currency: String,
    pub reserve_price: u128,
    pub highest_bid: u128,
    pub highest_bidder: Option<String>,
    pub active: bool,
}

pub struct AuctionView {
    pub id: u32,
    pub seller: Seq<char>,
    pub nft_contract: Seq<char>,
    pub token_id: i128,
    pub currency: Seq<char>,
    pub reserve_price: u128,
    pub highest_bid: u128,
    pub highest_bidder: Option<Seq<char>>,
    pub active: bool,
}

/// The character sequence of an optional string.
pub open spec fn opt_text(o: Option<String>) -> Option<Seq<char>> {
    match o {
        Some(s) => Some(s@),
        None => None,
    }
}

impl View for Auction {
    type V = AuctionView;

    open spec fn view(&self) -> AuctionView {
        AuctionView {
            id: self.id,
            seller: self.seller@,
            nft_contract: self.nft_contract@,
            token_id: self.token_id,
            currency: self.currency@,
            reserve_price: self.reserve_price,
            highest_bid: self.highest_bid,
            highest_bidder: opt_text(self.highest_bidder),
            active: self.active,
        }
    }
}

impl Duplicate for Auction {
    fn duplicate(&self) -> (r: Self) {
        let highest_bidder = match &self.highest_bidder {
            Some(b) => Some(b.clone()),
            None => None,
        };
        Auction {
            id: self.id,
            seller: self.seller.clone(),
            nft_contract: self.nft_contract.clone(),
            token_id: self.token_id,
            currency: self.currency.clone(),
            reserve_price: self.reserve_price,
            highest_bid: self.highest_bid,
            highest_bidder,
            active: self.active,
        }
    }
}

/// The settings the market is initialized with.
pub struct MarketConfig {
    /// Receives the fees.
    pub admin: String,
    pub native: String,
    pub fee_bps: u32,
}

pub struct ConfigView {
    pub admin: Seq<char>,
    pub native: Seq<char>,
    pub fee_bps: u32,
}

impl View for MarketConfig {
    type V = ConfigView;

    open spec fn view(&self) -> ConfigView {
        ConfigView { admin: self.admin@, native: self.native@, fee_bps: self.fee_bps }
    }
}

/// Why the market refuses a request.
#[derive(Clone, Copy, Debug, PartialEq, Eq, Structural)]
pub enum MarketError {
    AlreadyInitialized,
    FeeTooHigh,
    /// The market was never initialized.
    NotInitialized,
    /// The NFT contract knows no owner for the token.
    TokenNotMinted,
    OnlyOwnerCanList,
    OnlyOwnerCanAuction,
    AlreadyListed,
    AlreadyAuctioned,
    /// No listing was ever created.
    NoListings,
    ListingNotFound,
    ListingNotActive,
    OnlySellerCanCancel,
    /// No auction was ever created.
    NoAuctions,
    AuctionNotFound,
    AuctionNotActive,
    BidTooLow,
    OnlySellerCanFinalize,
    /// A counter or the fee of a sale does not fit its integer type.
    ArithmeticOverflow,
}

/// The state of the market.
pub struct DSponsorMarket {
    pub config: Option<MarketConfig>,
    pub listing_count: u32,
    pub auction_count: u32,
    pub listings: KeyMap<u32, Listing>,
    pub auctions: KeyMap<u32, Auction>,
    /// Tokens, by NFT contract and id, that an active listing offers.
    pub listed_tokens: KeyMap<(String, i128), bool>,
    /// Tokens, by NFT contract and id, that an active auction offers.
    pub auctioned_tokens: KeyMap<(String, i128), bool>,
}

pub struct MarketModel {
    pub config: Option<ConfigView>,
    pub listing_count: u32,
    pub auction_count: u32,
    pub listings: Map<u32, ListingView>,
    pub auctions: Map<u32, AuctionView>,
    pub listed_tokens: Map<(Seq<char>, i128), bool>,
    pub auctioned_tokens: Map<(Seq<char>, i128), bool>,
}

impl View for DSponsorMarket {
    type V = MarketModel;

    open spec fn view(&self) -> MarketModel {
        MarketModel {
            config: match self.config {
                Some(c) => Some(c@),
                None => None,
            },
            listing_count: self.listing_count,
            auction_count: self.auction_count,
            listings: self.listings@,
            auctions: self.auctions@,
            listed_tokens: self.listed_tokens@,
            auctioned_tokens: self.auctioned_tokens@,
        }
    }
}

/// The fee on `amount`: `amount * fee_bps / 1000`, rounded down.
pub open spec fn fee_of(amount: u128, fee_bps: u32) -> int {
    (amount * fee_bps) / 1000
}

/// The payments of a sale of `amount` escrowed by the market: the seller gets
/// the amount less the fee, the fee recipient the fee if there is one.
pub open spec fn payout_calls(
    token: Seq<char>,
    market: Seq<char>,
    seller: Seq<char>,
    fee_recipient: Seq<char>,
    amount: u128,
    fee_bps: u32,
) -> Seq<CallView> {
    let fee = fee_of(amount, fee_bps);
    let to_seller = seq![
        CallView::Transfer { token, from: market, to: seller, amount: (amount - fee) as i128 },
    ];
    if fee > 0 {
        to_seller.push(CallView::Transfer { token, from: market, to: fee_recipient, amount: fee as i128 })
    } else {
        to_seller
    }
}

/// The calls of a bid of `amount` by `bidder` on auction `a`: the bid goes
/// into the market's escrow, and the previous highest bid back to its bidder.
pub open spec fn bid_calls(a: AuctionView, bidder: Seq<char>, amount: u128, market: Seq<char>) -> Seq<CallView> {
    let escrow = CallView::Transfer { token: a.currency, from: bidder, to: market, amount: amount as i128 };
    match a.highest_bidder {
        Some(prev) => if a.highest_bid > 0 {
            seq![
                escrow,
                CallView::Transfer { token: a.currency, from: market, to: prev, amount: a.highest_bid as i128 },
            ]
        } else {
            seq![escrow]
        },
        None => seq![escrow],
    }
}

/// The active listings with ids `i`, `i + 1`, ... up to the first id that has
/// no listing, in id order.
pub open spec fn active_listings_from(m: Map<u32, ListingView>, i: int) -> Seq<ListingView>
    decreases u32::MAX - i + 1,
{
    if i < 0 || i > u32::MAX || !m.contains_key(i as u32) {
        Seq::empty()
    } else {
        let rest = active_listings_from(m, i + 1);
        if m[i as u32].active {
            seq![m[i as u32]] + rest
        } else {
            rest
        }
    }
}

/// The active auctions with ids `i`, `i + 1`, ... up to the first id that has
/// no auction, in id order.
pub open spec fn active_auctions_from(m: Map<u32, AuctionView>, i: int) -> Seq<AuctionView>
    decreases u32::MAX - i + 1,
{
    if i < 0 || i > u32::MAX || !m.contains_key(i as u32) {
        Seq::empty()
    } else {
        let rest = active_auctions_from(m, i + 1);
        if m[i as u32].active {
            seq![m[i as u32]] + rest
        } else {
            rest
        }
    }
}

impl MarketModel {
    /// An auction has a highest bidder exactly when its highest bid is
    /// positive: the escrow holds the highest bid for the highest bidder.
    pub open spec fn escrow_consistent(self) -> bool {
        forall|id: u32| #[trigger] self.auctions.contains_key(id) ==> (self.auctions[id].highest_bidder is Some
            <==> self.auctions[id].highest_bid > 0)
    }

    pub open spec fn listed(self, nft_contract: Seq<char>, token_id: i128) -> bool {
        self.listed_tokens.contains_key((nft_contract, token_id)) && self.listed_tokens[(nft_contract, token_id)]
    }

    pub open spec fn auctioned(self, nft_contract: Seq<char>, token_id: i128) -> bool {
        self.auctioned_tokens.contains_key((nft_contract, token_id))
            && self.auctioned_tokens[(nft_contract, token_id)]
    }

    pub open spec fn fee_bps(self) -> u32 {
        match self.config {
            Some(c) => c.fee_bps,
            None => 0,
        }
    }

    pub open spec fn initialize_error(self, fee_bps: u32) -> Option<MarketError> {
        if self.config is Some {
            Some(MarketError::AlreadyInitialized)
        } else if fee_bps > MAX_FEE_BPS {
            Some(MarketError::FeeTooHigh)
        } else {
            None
        }
    }

    pub open spec fn create_listing_error(
        self,
        seller: Seq<char>,
        nft_contract: Seq<char>,
        token_id: i128,
        token_owner: Option<Seq<char>>,
    ) -> Option<MarketError> {
        match token_owner {
            None => Some(MarketError::TokenNotMinted),
            Some(o) => if o != seller {
                Some(MarketError::OnlyOwnerCanList)
            } else if self.listed(nft_contract, token_id) {
                Some(MarketError::AlreadyListed)
            } else if self.listing_count == u32::MAX {
                Some(MarketError::ArithmeticOverflow)
            } else {
                None
            },
        }
    }

    pub open spec fn create_auction_error(
        self,
        seller: Seq<char>,
        nft_contract: Seq<char>,
        token_id: i128,
        token_owner: Option<Seq<char>>,
    ) -> Option<MarketError> {
        match token_owner {
            None => Some(MarketError::TokenNotMinted),
            Some(o) => if o != seller {
                Some(MarketError::OnlyOwnerCanAuction)
            } else if self.listed(nft_contract, token_id) {
                Some(MarketError::AlreadyListed)
            } else if self.auctioned(nft_contract, token_id) {
                Some(MarketError::AlreadyAuctioned)
            } else if self.auction_count == u32::MAX {
                Some(MarketError::ArithmeticOverflow)
            } else {
                None
            },
        }
    }

    /// Why the listing `listing_id` cannot be acted on, if it cannot.
    pub open spec fn active_listing_error(self, listing_id: u32) -> Option<MarketError> {
        if self.listings.dom().is_empty() {
            Some(MarketError::NoListings)
        } else if !self.listings.contains_key(listing_id) {
            Some(MarketError::ListingNotFound)
        } else if !self.listings[listing_id].active {
            Some(MarketError::ListingNotActive)
        } else {
            None
        }
    }

    pub open spec fn cancel_listing_error(self, listing_id: u32, caller: Seq<char>) -> Option<MarketError> {
        if self.active_listing_error(listing_id) is Some {
            self.active_listing_error(listing_id)
        } else if self.listings[listing_id].seller != caller {
            Some(MarketError::OnlySellerCanCancel)
        } else {
            None
        }
    }

    pub open spec fn buy_error(self, listing_id: u32) -> Option<MarketError> {
        if self.active_listing_error(listing_id) is Some {
            self.active_listing_error(listing_id)
        } else if self.config is None {
            Some(MarketError::NotInitialized)
        } else if self.listings[listing_id].price * self.fee_bps() > u128::MAX {
            Some(MarketError::ArithmeticOverflow)
        } else {
            None
        }
    }

    /// The listing is closed and its token is no longer marked as listed.
    pub open spec fn after_close_listing(self, listing_id: u32) -> MarketModel {
        let l = self.listings[listing_id];
        MarketModel {
            listings: self.listings.insert(listing_id, ListingView { active: false, ..l }),
            listed_tokens: self.listed_tokens.remove((l.nft_contract, l.token_id)),
            ..self
        }
    }

    /// Why the auction `auction_id` cannot be acted on, if it cannot.
    pub open spec fn active_auction_error(self, auction_id: u32) -> Option<MarketError> {
        if self.auctions.dom().is_empty() {
            Some(MarketError::NoAuctions)
        } else if !self.auctions.contains_key(auction_id) {
            Some(MarketError::AuctionNotFound)
        } else if !self.auctions[auction_id].active {
            Some(MarketError::AuctionNotActive)
        } else {
            None
        }
    }

    pub open spec fn bid_error(self, auction_id: u32, amount: u128) -> Option<MarketError> {
        if self.active_auction_error(auction_id) is Some {
            self.active_auction_error(auction_id)
        } else if amount <= self.auctions[auction_id].highest_bid || amount
            < self.auctions[auction_id].reserve_price {
            Some(MarketError::BidTooLow)
        } else if self.config is None {
            Some(MarketError::NotInitialized)
        } else {
            None
        }
    }

    pub open spec fn finalize_error(self, auction_id: u32, caller: Seq<char>) -> Option<MarketError> {
        if self.active_auction_error(auction_id) is Some {
            self.active_auction_error(auction_id)
        } else if self.auctions[auction_id].seller != caller {
            Some(MarketError::OnlySellerCanFinalize)
        } else if self.config is None {
            Some(MarketError::NotInitialized)
        } else if self.auctions[auction_id].highest_bid * self.fee_bps() > u128::MAX {
            Some(MarketError::ArithmeticOverflow)
        } else {
            None
        }
    }
}

/// What a sale asks the host to do: the token payments, in order, then the
/// transfer of the NFT.
pub struct Settlement {
    pub payments: Vec<TokenCall>,
    pub nft_transfer: Option<NftTransferCall>,
}

impl DSponsorMarket {
    pub open spec fn wf(&self) -> bool {
        &&& self.config matches Some(c) ==> c.fee_bps <= MAX_FEE_BPS
        &&& self@.escrow_consistent()
    }

    /// A market that was deployed and not yet initialized.
    pub fn new() -> (r: Self)
        ensures
            r.wf(),
            r@.config is None,
            r@.listing_count == 0,
            r@.auction_count == 0,
            r@.listings == Map::<u32, ListingView>::empty(),
            r@.auctions == Map::<u32, AuctionView>::empty(),
            r@.listed_tokens == Map::<(Seq<char>, i128), bool>::empty(),
            r@.auctioned_tokens == Map::<(Seq<char>, i128), bool>::empty(),
    {
        DSponsorMarket {
            config: None,
            listing_count: 0,
            auction_count: 0,
            listings: KeyMap::new(),
            auctions: KeyMap::new(),
            listed_tokens: KeyMap::new(),
            auctioned_tokens: KeyMap::new(),
        }
    }

    /// Sets the fee recipient, the native currency and the fee, once; the
    /// listing and auction counters restart from zero.
    pub fn initialize(&mut self, admin: String, native_xlm: String, fee_bps: u32) -> (r: Result<(), MarketError>)
        requires
            old(self).wf(),
        ensures
            final(self).wf(),
            match r {
                Ok(()) => old(self)@.initialize_error(fee_bps) is None && final(self)@ == (MarketModel {
                    config: Some(ConfigView { admin: admin@, native: native_xlm@, fee_bps }),
                    listing_count: 0,
                    auction_count: 0,
                    ..old(self)@
                }),
                Err(e) => old(self)@.initialize_error(fee_bps) == Some(e) && *final(self) == *old(self),
            },
    {
        if self.config.is_some() {
            return Err(MarketError::AlreadyInitialized);
        }
        if fee_bps > MAX_FEE_BPS {
            return Err(MarketError::FeeTooHigh);
        }
        self.config = Some(MarketConfig { admin, native: native_xlm, fee_bps });
        self.listing_count = 0;
        self.auction_count = 0;
        Ok(())
    }

    fn is_listed(&self, nft_contract: &String, token_id: i128) -> (b: bool)
        requires
            self.wf(),
        ensures
            b == self@.listed(nft_contract@, token_id),
    {
        match self.listed_tokens.get(&(nft_contract.clone(), token_id)) {
            Some(b) => *b,
            None => false,
        }
    }

    fn is_auctioned(&self, nft_contract: &String, token_id: i128) -> (b: bool)
        requires
            self.wf(),
        ensures
            b == self@.auctioned(nft_contract@, token_id),
    {
        match self.auctioned_tokens.get(&(nft_contract.clone(), token_id)) {
            Some(b) => *b,
            None => false,
        }
    }

    /// Lists token `token_id` of `nft_contract` at `price`. `token_owner` is
    /// the owner that the NFT contract reports for the token.
    pub fn create_listing(
        &mut self,
        seller: String,
        nft_contract: String,
        token_id: i128,
        currency: String,
        price: u128,
        token_owner: Option<String>,
    ) -> (r: Result<u32, MarketError>)
        requires
            old(self).wf(),
        ensures
            final(self).wf(),
            match r {
                Ok(id) => {
                    &&& old(self)@.create_listing_error(seller@, nft_contract@, token_id, opt_text(token_owner)) is None
                    &&& id == old(self).listing_count + 1
                    &&& final(self)@ == (MarketModel {
                        listing_count: id,
                        listings: old(self)@.listings.insert(
                            id,
                            ListingView {
                                id,
                                seller: seller@,
                                nft_contract: nft_contract@,
                                token_id,
                                currency: currency@,
                                price,
                                active: true,
                            },
                        ),
                        listed_tokens: old(self)@.listed_tokens.insert((nft_contract@, token_id), true),
                        ..old(self)@
                    })
                },
                Err(e) => old(self)@.create_listing_error(seller@, nft_contract@, token_id, opt_text(token_owner))
                    == Some(e) && *final(self) == *old(self),
            },
    {
        match &token_owner {
            None => {
                return Err(MarketError::TokenNotMinted);
            },
            Some(o) => {
                if *o != seller {
                    return Err(MarketError::OnlyOwnerCanList);
                }
            },
        }
        if self.is_listed(&nft_contract, token_id) {
            return Err(MarketError::AlreadyListed);
        }
        if self.listing_count == u32::MAX {
            return Err(MarketError::ArithmeticOverflow);
        }
        let new_id = self.listing_count + 1;
        let key = (nft_contract.clone(), token_id);
        let listing = Listing { id: new_id, seller, nft_contract, token_id, currency, price, active: true };
        self.listings.insert(new_id, listing);
        self.listing_count = new_id;
        self.listed_tokens.insert(key, true);
        Ok(new_id)
    }

    /// Closes the active listing `listing_id` of `caller`.
    pub fn cancel_listing(&mut self, listing_id: u32, caller: &String) -> (r: Result<(), MarketError>)
        requires
            old(self).wf(),
        ensures
            final(self).wf(),
            match r {
                Ok(()) => old(self)@.cancel_listing_error(listing_id, caller@) is None
                    && final(self)@ == old(self)@.after_close_listing(listing_id),
                Err(e) => old(self)@.cancel_listing_error(listing_id, caller@) == Some(e)
                    && *final(self) == *old(self),
            },
    {
        if self.listings.is_empty() {
            proof {
                assert(self@.listings.dom() =~= Set::<u32>::empty());
            }
            return Err(MarketError::NoListings);
        }
        proof {
            assert(!self@.listings.dom().is_empty()) by {
                if self@.listings.dom().is_empty() {
                    assert(self@.listings =~= Map::<u32, ListingView>::empty());
                }
            }
        }
        match self.listings.get(&listing_id) {
            None => Err(MarketError::ListingNotFound),
            Some(l) => {
                if !l.active {
                    return Err(MarketError::ListingNotActive);
                }
                if l.seller != *caller {
                    return Err(MarketError::OnlySellerCanCancel);
                }
                self.close_listing(listing_id);
                Ok(())
            },
        }
    }

    /// Marks listing `listing_id` inactive and its token as no longer listed.
    fn close_listing(&mut self, listing_id: u32)
        requires
            old(self).wf(),
            old(self)@.listings.contains_key(listing_id),
        ensures
            final(self).wf(),
            final(self)@ == old(self)@.after_close_listing(listing_id),
    {
        let mut l = self.listings.take(&listing_id).unwrap();
        let ghost before = l@;
        let key = (l.nft_contract.clone(), l.token_id);
        l.active = false;
        self.listings.insert(listing_id, l);
        self.listed_tokens.remove(&key);
        proof {
            assert(old(self)@.listings.remove(listing_id).insert(listing_id, ListingView { active: false, ..before })
                =~= old(self)@.listings.insert(listing_id, ListingView { active: false, ..before }));
        }
    }

    /// `buyer` buys the active listing `listing_id`. The market takes the
    /// price from `buyer`, pays the seller the price less the fee and the fee
    /// recipient the fee, then moves the NFT, as an approved spender, from the
    /// seller to `buyer`.
    pub fn buy(&mut self, listing_id: u32, buyer: &String, market: &String) -> (r: Result<Settlement, MarketError>)
        requires
            old(self).wf(),
        ensures
            final(self).wf(),
            match r {
                Ok(s) => {
                    let l = old(self)@.listings[listing_id];
                    let c = old(self)@.config->0;
                    &&& old(self)@.buy_error(listing_id) is None
                    &&& final(self)@ == old(self)@.after_close_listing(listing_id)
                    &&& call_views(s.payments@) == seq![
                        CallView::Transfer { token: l.currency, from: buyer@, to: market@, amount: l.price as i128 },
                    ] + payout_calls(l.currency, market@, l.seller, c.admin, l.price, c.fee_bps)
                    &&& s.nft_transfer matches Some(t) && t@ == (NftTransferView {
                        nft_contract: l.nft_contract,
                        spender: market@,
                        from: l.seller,
                        to: buyer@,
                        token_id: l.token_id,
                    })
                },
                Err(e) => old(self)@.buy_error(listing_id) == Some(e) && *final(self) == *old(self),
            },
    {
        if self.listings.is_empty() {
            proof {
                assert(self@.listings.dom() =~= Set::<u32>::empty());
            }
            return Err(MarketError::NoListings);
        }
        proof {
            assert(!self@.listings.dom().is_empty()) by {
                if self@.listings.dom().is_empty() {
                    assert(self@.listings =~= Map::<u32, ListingView>::empty());
                }
            }
        }
        let l = match self.listings.get(&listing_id) {
            None => {
                return Err(MarketError::ListingNotFound);
            },
            Some(l) => l.duplicate(),
        };
        if !l.active {
            return Err(MarketError::ListingNotActive);
        }
        let (admin, fee_bps) = match &self.config {
            None => {
                return Err(MarketError::NotInitialized);
            },
            Some(c) => (c.admin.clone(), c.fee_bps),
        };
        if l.price.checked_mul(fee_bps as u128).is_none() {
            return Err(MarketError::ArithmeticOverflow);
        }
        let mut payments: Vec<TokenCall> = Vec::new();
        payments.push(
            TokenCall::Transfer {
                token: l.currency.clone(),
                from: buyer.clone(),
                to: market.clone(),
                amount: l.price as i128,
            },
        );
        push_payouts(&mut payments, &l.currency, market, &l.seller, &admin, l.price, fee_bps);
        let nft_transfer = NftTransferCall {
            nft_contract: l.nft_contract.clone(),
            spender: market.clone(),
            from: l.seller.clone(),
            to: buyer.clone(),
            token_id: l.token_id,
        };
        self.close_listing(listing_id);
        proof {
            assert(call_views(payments@) =~= seq![
                CallView::Transfer { token: l.currency@, from: buyer@, to: market@, amount: l.price as i128 },
            ] + payout_calls(l.currency@, market@, l.seller@, admin@, l.price, fee_bps));
        }
        Ok(Settlement { payments, nft_transfer: Some(nft_transfer) })
    }

    /// Puts token `token_id` of `nft_contract` to auction with a reserve
    /// price. `token_owner` is the owner that the NFT contract reports.
    pub fn create_auction(
        &mut self,
        seller: String,
        nft_contract: String,
        token_id: i128,
        currency: String,
        reserve_price: u128,
        token_owner: Option<String>,
    ) -> (r: Result<u32, MarketError>)
        requires
            old(self).wf(),
        ensures
            final(self).wf(),
            match r {
                Ok(id) => {
                    &&& old(self)@.create_auction_error(seller@, nft_contract@, token_id, opt_text(token_owner)) is None
                    &&& id == old(self).auction_count + 1
                    &&& final(self)@ == (MarketModel {
                        auction_count: id,
                        auctions: old(self)@.auctions.insert(
                            id,
                            AuctionView {
                                id,
                                seller: seller@,
                                nft_contract: nft_contract@,
                                token_id,
                                currency: currency@,
                                reserve_price,
                                highest_bid: 0,
                                highest_bidder: None,
                                active: true,
                            },
                        ),
                        auctioned_tokens: old(self)@.auctioned_tokens.insert((nft_contract@, token_id), true),
                        ..old(self)@
                    })
                },
                Err(e) => old(self)@.create_auction_error(seller@, nft_contract@, token_id, opt_text(token_owner))
                    == Some(e) && *final(self) == *old(self),
            },
    {
        match &token_owner {
            None => {
                return Err(MarketError::TokenNotMinted);
            },
            Some(o) => {
                if *o != seller {
                    return Err(MarketError::OnlyOwnerCanAuction);
                }
            },
        }
        if self.is_listed(&nft_contract, token_id) {
            return Err(MarketError::AlreadyListed);
        }
        if self.is_auctioned(&nft_contract, token_id) {
            return Err(MarketError::AlreadyAuctioned);
        }
        if self.auction_count == u32::MAX {
            return Err(MarketError::ArithmeticOverflow);
        }
        let new_id = self.auction_count + 1;
        let key = (nft_contract.clone(), token_id);
        let auction = Auction {
            id: new_id,
            seller,
            nft_contract,
            token_id,
            currency,
            reserve_price,
            highest_bid: 0,
            highest_bidder: None,
            active: true,
        };
        self.auctions.insert(new_id, auction);
        self.auction_count = new_id;
        self.auctioned_tokens.insert(key, true);
        Ok(new_id)
    }

    /// `bidder` bids `amount` on the active auction `auction_id`. The market
    /// takes the bid into escrow and refunds the previous highest bidder.
    pub fn bid(&mut self, auction_id: u32, bidder: String, amount: u128, market: &String) -> (r: Result<
        Vec<TokenCall>,
        MarketError,
    >)
        requires
            old(self).wf(),
        ensures
            final(self).wf(),
            match r {
                Ok(calls) => {
                    let a = old(self)@.auctions[auction_id];
                    &&& old(self)@.bid_error(auction_id, amount) is None
                    &&& final(self)@ == (MarketModel {
                        auctions: old(self)@.auctions.insert(
                            auction_id,
                            AuctionView { highest_bid: amount, highest_bidder: Some(bidder@), ..a },
                        ),
                        ..old(self)@
                    })
                    &&& call_views(calls@) == bid_calls(a, bidder@, amount, market@)
                },
                Err(e) => old(self)@.bid_error(auction_id, amount) == Some(e) && *final(self) == *old(self),
            },
    {
        if self.auctions.is_empty() {
            proof {
                assert(self@.auctions.dom() =~= Set::<u32>::empty());
            }
            return Err(MarketError::NoAuctions);
        }
        proof {
            assert(!self@.auctions.dom().is_empty()) by {
                if self@.auctions.dom().is_empty() {
                    assert(self@.auctions =~= Map::<u32, AuctionView>::empty());
                }
            }
        }
        match self.auctions.get(&auction_id) {
            None => {
                return Err(MarketError::AuctionNotFound);
            },
            Some(a) => {
                if !a.active {
                    return Err(MarketError::AuctionNotActive);
                }
                if amount <= a.highest_bid || amount < a.reserve_price {
                    return Err(MarketError::BidTooLow);
                }
            },
        }
        if self.config.is_none() {
            return Err(MarketError::NotInitialized);
        }
        let mut a = self.auctions.take(&auction_id).unwrap();
        let ghost before = a@;
        let mut calls: Vec<TokenCall> = Vec::new();
        calls.push(
            TokenCall::Transfer {
                token: a.currency.clone(),
                from: bidder.clone(),
                to: market.clone(),
                amount: amount as i128,
            },
        );
        match &a.highest_bidder {
            Some(prev) => {
                if a.highest_bid > 0 {
                    calls.push(
                        TokenCall::Transfer {
                            token: a.currency.clone(),
                            from: market.clone(),
                            to: prev.clone(),
                            amount: a.highest_bid as i128,
                        },
                    );
                }
            },
            None => {},
        }
        proof {
            let escrow = CallView::Transfer { token: before.currency, from: bidder@, to: market@, amount: amount as i128 };
            match before.highest_bidder {
                Some(prev) => {
                    if before.highest_bid > 0 {
                        assert(call_views(calls@) =~= seq![
                            escrow,
                            CallView::Transfer {
                                token: before.currency,
                                from: market@,
                                to: prev,
                                amount: before.highest_bid as i128,
                            },
                        ]);
                    } else {
                        assert(call_views(calls@) =~= seq![escrow]);
                    }
                },
                None => {
                    assert(call_views(calls@) =~= seq![escrow]);
                },
            }
        }
        a.highest_bid = amount;
        a.highest_bidder = Some(bidder);
        self.auctions.insert(auction_id, a);
        proof {
            assert(old(self)@.auctions.remove(auction_id).insert(
                auction_id,
                AuctionView { highest_bid: amount, highest_bidder: Some(bidder@), ..before },
            ) =~= old(self)@.auctions.insert(
                auction_id,
                AuctionView { highest_bid: amount, highest_bidder: Some(bidder@), ..before },
            ));
        }
        Ok(calls)
    }

    /// The seller closes the active auction `auction_id`. With a winner, the
    /// escrowed bid goes to the seller less the fee, the fee to the fee
    /// recipient, and the NFT from the seller to the winner; without one,
    /// nothing moves. Either way the token is free to be put to auction again.
    pub fn finalize_auction(&mut self, auction_id: u32, caller: &String, market: &String) -> (r: Result<
        Settlement,
        MarketError,
    >)
        requires
            old(self).wf(),
        ensures
            final(self).wf(),
            match r {
                Ok(s) => {
                    let a = old(self)@.auctions[auction_id];
                    let c = old(self)@.config->0;
                    &&& old(self)@.finalize_error(auction_id, caller@) is None
                    &&& final(self)@ == (MarketModel {
                        auctions: old(self)@.auctions.insert(auction_id, AuctionView { active: false, ..a }),
                        auctioned_tokens: old(self)@.auctioned_tokens.remove((a.nft_contract, a.token_id)),
                        ..old(self)@
                    })
                    &&& match a.highest_bidder {
                        Some(winner) => {
                            &&& call_views(s.payments@) == payout_calls(
                                a.currency,
                                market@,
                                a.seller,
                                c.admin,
                                a.highest_bid,
                                c.fee_bps,
                            )
                            &&& s.nft_transfer matches Some(t) && t@ == (NftTransferView {
                                nft_contract: a.nft_contract,
                                spender: market@,
                                from: a.seller,
                                to: winner,
                                token_id: a.token_id,
                            })
                        },
                        None => s.payments@.len() == 0 && s.nft_transfer is None,
                    }
                },
                Err(e) => old(self)@.finalize_error(auction_id, caller@) == Some(e) && *final(self)
                    == *old(self),
            },
    {
        if self.auctions.is_empty() {
            proof {
                assert(self@.auctions.dom() =~= Set::<u32>::empty());
            }
            return Err(MarketError::NoAuctions);
        }
        proof {
            assert(!self@.auctions.dom().is_empty()) by {
                if self@.auctions.dom().is_empty() {
                    assert(self@.auctions =~= Map::<u32, AuctionView>::empty());
                }
            }
        }
        match self.auctions.get(&auction_id) {
            None => {
                return Err(MarketError::AuctionNotFound);
            },
            Some(a) => {
                if !a.active {
                    return Err(MarketError::AuctionNotActive);
                }
                if a.seller != *caller {
                    return Err(MarketError::OnlySellerCanFinalize);
                }
            },
        }
        let (admin, fee_bps) = match &self.config {
            None => {
                return Err(MarketError::NotInitialized);
            },
            Some(c) => (c.admin.clone(), c.fee_bps),
        };
        match self.auctions.get(&auction_id) {
            Some(a) => {
                if a.highest_bid.checked_mul(fee_bps as u128).is_none() {
                    return Err(MarketError::ArithmeticOverflow);
                }
            },
            None => {},
        }
        let mut a = self.auctions.take(&auction_id).unwrap();
        let ghost before = a@;
        let mut payments: Vec<TokenCall> = Vec::new();
        let mut nft_transfer: Option<NftTransferCall> = None;
        match &a.highest_bidder {
            Some(winner) => {
                push_payouts(&mut payments, &a.currency, market, &a.seller, &admin, a.highest_bid, fee_bps);
                nft_transfer = Some(
                    NftTransferCall {
                        nft_contract: a.nft_contract.clone(),
                        spender: market.clone(),
                        from: a.seller.clone(),
                        to: winner.clone(),
                        token_id: a.token_id,
                    },
                );
                proof {
                    assert(call_views(payments@) =~= payout_calls(
                        before.currency,
                        market@,
                        before.seller,
                        admin@,
                        before.highest_bid,
                        fee_bps,
                    ));
                }
            },
            None => {},
        }
        a.active = false;
        let token_key = (a.nft_contract.clone(), a.token_id);
        self.auctions.insert(auction_id, a);
        self.auctioned_tokens.remove(&token_key);
        proof {
            assert(old(self)@.auctions.remove(auction_id).insert(auction_id, AuctionView { active: false, ..before })
                =~= old(self)@.auctions.insert(auction_id, AuctionView { active: false, ..before }));
        }
        Ok(Settlement { payments, nft_transfer })
    }

    pub fn get_listing(&self, listing_id: u32) -> (r: Option<Listing>)
        requires
            self.wf(),
        ensures
            match r {
                Some(l) => self@.listings.contains_key(listing_id) && l@ == self@.listings[listing_id],
                None => !self@.listings.contains_key(listing_id),
            },
    {
        match self.listings.get(&listing_id) {
            Some(l) => Some(l.duplicate()),
            None => None,
        }
    }

    pub fn get_auction(&self, auction_id: u32) -> (r: Option<Auction>)
        requires
            self.wf(),
        ensures
            match r {
                Some(a) => self@.auctions.contains_key(auction_id) && a@ == self@.auctions[auction_id],
                None => !self@.auctions.contains_key(auction_id),
            },
    {
        match self.auctions.get(&auction_id) {
            Some(a) => Some(a.duplicate()),
            None => None,
        }
    }

    /// The active listings, walking the ids from 1 up to the first id with no
    /// listing.
    pub fn get_all_listings(&self) -> (r: Vec<Listing>)
        requires
            self.wf(),
            exists|gap: u32| 1 <= gap && !#[trigger] self@.listings.contains_key(gap),
        ensures
            r@.map_values(|l: Listing| l@) == active_listings_from(self@.listings, 1),
    {
        let mut result: Vec<Listing> = Vec::new();
        let mut i: u32 = 1;
        let ghost gap = choose|gap: u32| 1 <= gap && !#[trigger] self@.listings.contains_key(gap);
        loop
            invariant
                self.wf(),
                1 <= gap,
                !self@.listings.contains_key(gap),
                forall|j: u32| 1 <= j < i ==> #[trigger] self@.listings.contains_key(j),
                1 <= i,
                result@.map_values(|l: Listing| l@) + active_listings_from(self@.listings, i as int)
                    == active_listings_from(self@.listings, 1),
            decreases u32::MAX - i,
        {
            match self.listings.get(&i) {
                Some(l) => {
                    proof {
                        if i == u32::MAX {
                            if gap < i {
                                assert(self@.listings.contains_key(gap));
                            }
                        }
                    }
                    let ghost prev = result@.map_values(|l: Listing| l@);
                    let ghost rest = active_listings_from(self@.listings, i + 1);
                    if l.active {
                        result.push(l.duplicate());
                        proof {
                            assert(result@.map_values(|l: Listing| l@) =~= prev.push(self@.listings[i]));
                            assert(prev + (seq![self@.listings[i]] + rest) =~= prev.push(self@.listings[i])
                                + rest);
                        }
                    }
                    i = i + 1;
                },
                None => {
                    proof {
                        assert(result@.map_values(|l: Listing| l@) + Seq::<ListingView>::empty()
                            =~= result@.map_values(|l: Listing| l@));
                    }
                    return result;
                },
            }
        }
    }

    /// The active auctions, walking the ids from 1 up to the first id with no
    /// auction.
    pub fn get_all_auctions(&self) -> (r: Vec<Auction>)
        requires
            self.wf(),
            exists|gap: u32| 1 <= gap && !#[trigger] self@.auctions.contains_key(gap),
        ensures
            r@.map_values(|a: Auction| a@) == active_auctions_from(self@.auctions, 1),
    {
        let mut result: Vec<Auction> = Vec::new();
        let mut i: u32 = 1;
        let ghost gap = choose|gap: u32| 1 <= gap && !#[trigger] self@.auctions.contains_key(gap);
        loop
            invariant
                self.wf(),
                1 <= gap,
                !self@.auctions.contains_key(gap),
                forall|j: u32| 1 <= j < i ==> #[trigger] self@.auctions.contains_key(j),
                1 <= i,
                result@.map_values(|a: Auction| a@) + active_auctions_from(self@.auctions, i as int)
                    == active_auctions_from(self@.auctions, 1),
            decreases u32::MAX - i,
        {
            match self.auctions.get(&i) {
                Some(a) => {
                    proof {
                        if i == u32::MAX {
                            if gap < i {
                                assert(self@.auctions.contains_key(gap));
                            }
                        }
                    }
                    let ghost prev = result@.map_values(|a: Auction| a@);
                    let ghost rest = active_auctions_from(self@.auctions, i + 1);
                    if a.active {
                        result.push(a.duplicate());
                        proof {
                            assert(result@.map_values(|a: Auction| a@) =~= prev.push(self@.auctions[i]));
                            assert(prev + (seq![self@.auctions[i]] + rest) =~= prev.push(self@.auctions[i])
                                + rest);
                        }
                    }
                    i = i + 1;
                },
                None => {
                    proof {
                        assert(result@.map_values(|a: Auction| a@) + Seq::<AuctionView>::empty()
                            =~= result@.map_values(|a: Auction| a@));
                    }
                    return result;
                },
            }
        }
    }
}

/// The operations that change the market, by who must sign them.
pub enum MarketAction {
    Initialize,
    CreateListing { seller: String },
    CancelListing { caller: String },
    Buy { buyer: String },
    CreateAuction { seller: String },
    Bid { bidder: String },
    FinalizeAuction { caller: String },
}

/// Who must authorize `action`, if anyone: the seller, buyer, bidder or
/// caller that it names; nobody for the initialization.
pub open spec fn market_signer(action: MarketAction) -> Option<Seq<char>> {
    match action {
        MarketAction::Initialize => None,
        MarketAction::CreateListing { seller } => Some(seller@),
        MarketAction::CancelListing { caller } => Some(caller@),
        MarketAction::Buy { buyer } => Some(buyer@),
        MarketAction::CreateAuction { seller } => Some(seller@),
        MarketAction::Bid { bidder } => Some(bidder@),
        MarketAction::FinalizeAuction { caller } => Some(caller@),
    }
}

impl DSponsorMarket {
    /// The address that must authorize `action`, if any.
    pub fn required_signer(&self, action: &MarketAction) -> (r: Option<String>)
        ensures
            opt_text(r) == market_signer(*action),
    {
        match action {
            MarketAction::Initialize => None,
            MarketAction::CreateListing { seller } => Some(seller.clone()),
            MarketAction::CancelListing { caller } => Some(caller.clone()),
            MarketAction::Buy { buyer } => Some(buyer.clone()),
            MarketAction::CreateAuction { seller } => Some(seller.clone()),
            MarketAction::Bid { bidder } => Some(bidder.clone()),
            MarketAction::FinalizeAuction { caller } => Some(caller.clone()),
        }
    }
}

/// The fee on `amount`: `amount * fee_bps / 1000`, rounded down.
pub fn market_fee(amount: u128, fee_bps: u32) -> (r: u128)
    requires
        amount * fee_bps <= u128::MAX,
    ensures
        r == fee_of(amount, fee_bps),
{
    amount * (fee_bps as u128) / 1000u128
}

/// Appends the payout of a sale of `amount` held by `market`.
fn push_payouts(
    payments: &mut Vec<TokenCall>,
    token: &String,
    market: &String,
    seller: &String,
    fee_recipient: &String,
    amount: u128,
    fee_bps: u32,
)
    requires
        amount * fee_bps <= u128::MAX,
        fee_bps <= MAX_FEE_BPS,
    ensures
        call_views(final(payments)@) == call_views(old(payments)@) + payout_calls(
            token@,
            market@,
            seller@,
            fee_recipient@,
            amount,
            fee_bps,
        ),
{
    let fee = market_fee(amount, fee_bps);
    proof {
        assert(fee <= amount) by (nonlinear_arith)
            requires
                fee == (amount * fee_bps) / 1000,
                fee_bps <= 1000,
        ;
    }
    let ghost pre = old(payments)@;
    payments.push(
        TokenCall::Transfer {
            token: token.clone(),
            from: market.clone(),
            to: seller.clone(),
            amount: (amount - fee) as i128,
        },
    );
    if fee > 0 {
        payments.push(
            TokenCall::Transfer {
                token: token.clone(),
                from: market.clone(),
                to: fee_recipient.clone(),
                amount: fee as i128,
            },
        );
    }
    proof {
        assert(call_views(payments@) =~= call_views(pre) + payout_calls(
            token@,
            market@,
            seller@,
            fee_recipient@,
            amount,
            fee_bps,
        ));
    }
}

} // verus!
