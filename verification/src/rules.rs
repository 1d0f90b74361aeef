//! What each operation accepts and what it hands out, stated over the inputs:
//! the conditions under which a request goes through, the completeness of the
//! listing views, the all-or-nothing batches and the prices of a new
//! collection.

use vstd::prelude::*;

use crate::admin::{
    protocol_fee, protocol_fee_calls, review_batch, submit_batch, AdminConfigView, AdminError,
    AdminModel, ReviewView, APPROVAL_LEDGERS,
};
use crate::calls::CallView;
use crate::laws::net_inflow;
use crate::market::{
    active_auctions_from, active_listings_from, bid_calls, fee_of, payout_calls, AuctionView, ListingView,
    MarketModel, MAX_FEE_BPS,
};
use crate::nft::{initial_model, with_defaults, InitParams, MintPriceSettings, NftError, NftModel};
use crate::text::seq_views;

verus! {

/// Every active listing before the first missing id is reported by the walk
/// that starts at or below it.
pub proof fn law_all_listings_complete(m: Map<u32, ListingView>, i: int, j: u32)
    requires
        1 <= i <= j,
        forall|k: u32| i <= k <= j ==> #[trigger] m.contains_key(k),
        m[j].active,
    ensures
        active_listings_from(m, i).contains(m[j]),
    decreases j - i,
{
    assert(m.contains_key(i as u32));
    let s = active_listings_from(m, i);
    if i == j {
        assert(s[0] == m[j]);
    } else {
        law_all_listings_complete(m, i + 1, j);
        let rest = active_listings_from(m, i + 1);
        let k = choose|k: int| 0 <= k < rest.len() && rest[k] == m[j];
        if m[i as u32].active {
            assert(s[k + 1] == rest[k]);
        } else {
            assert(s[k] == rest[k]);
        }
    }
}

/// Every active auction before the first missing id is reported by the walk
/// that starts at or below it.
pub proof fn law_all_auctions_complete(m: Map<u32, AuctionView>, i: int, j: u32)
    requires
        1 <= i <= j,
        forall|k: u32| i <= k <= j ==> #[trigger] m.contains_key(k),
        m[j].active,
    ensures
        active_auctions_from(m, i).contains(m[j]),
    decreases j - i,
{
    assert(m.contains_key(i as u32));
    let s = active_auctions_from(m, i);
    if i == j {
        assert(s[0] == m[j]);
    } else {
        law_all_auctions_complete(m, i + 1, j);
        let rest = active_auctions_from(m, i + 1);
        let k = choose|k: int| 0 <= k < rest.len() && rest[k] == m[j];
        if m[i as u32].active {
            assert(s[k + 1] == rest[k]);
        } else {
            assert(s[k] == rest[k]);
        }
    }
}

/// A mint goes through exactly when the token is the next one within the
/// supply, the allowlist (if it applies) allows it whoever calls, and the
/// caller is the admin, or the minter paying an enabled price. A token not
/// on an applying allowlist is refused as such, for the admin too.
pub proof fn law_mint_rules(m: NftModel, caller: Seq<char>, token_id: i128, currency: Seq<char>)
    requires
        m.consistent(),
    ensures
        m.mint_error(caller, token_id, currency) is None <==> {
            &&& token_id == m.token_count + 1
            &&& token_id <= m.max_supply
            &&& !m.apply_allowlist || (m.allowed.contains_key(token_id) && m.allowed[token_id])
            &&& caller == m.admin || (caller == m.minter && m.mint_price(token_id, currency).enabled)
        },
        token_id > m.token_count && m.apply_allowlist && !(m.allowed.contains_key(token_id)
            && m.allowed[token_id]) ==> m.mint_error(caller, token_id, currency) == Some(NftError::TokenNotAllowed),
{
}

/// On an active auction of an initialized market, a bid is accepted exactly
/// when it beats the highest bid and meets the reserve price.
pub proof fn law_bid_acceptance(m: MarketModel, auction_id: u32, amount: u128)
    requires
        m.auctions.contains_key(auction_id),
        m.auctions[auction_id].active,
        m.config is Some,
    ensures
        m.bid_error(auction_id, amount) is None <==> (amount > m.auctions[auction_id].highest_bid && amount
            >= m.auctions[auction_id].reserve_price),
{
    assert(m.auctions.dom().contains(auction_id));
}

/// Whether the `i`-th review of a batch is accepted in the state that the
/// reviews before it leave.
pub open spec fn review_accepted_at(m: AdminModel, reviews: Seq<ReviewView>, i: nat) -> bool {
    match review_batch(m, reviews, i) {
        Ok(mi) => mi.review_error(
            reviews[i as int].offer_id,
            reviews[i as int].token_id,
            reviews[i as int].proposal_id,
            reviews[i as int].ad_parameter,
            reviews[i as int].validator,
        ) is None,
        Err(_) => false,
    }
}

/// A batch of reviews succeeds only if each review is accepted in turn; the
/// first refused review makes the whole batch fail with its error.
pub proof fn law_review_batch_all_or_nothing(m: AdminModel, reviews: Seq<ReviewView>, n: nat, i: nat, e: AdminError)
    ensures
        review_batch(m, reviews, n) is Ok ==> forall|k: nat| k < n ==> #[trigger] review_accepted_at(m, reviews, k),
        ({
            &&& i < n
            &&& review_batch(m, reviews, i) matches Ok(mi)
            &&& mi.review_error(
                reviews[i as int].offer_id,
                reviews[i as int].token_id,
                reviews[i as int].proposal_id,
                reviews[i as int].ad_parameter,
                reviews[i as int].validator,
            ) == Some(e)
        }) ==> review_batch(m, reviews, n) == Err::<AdminModel, AdminError>(e),
    decreases n,
{
    if n > 0 {
        law_review_batch_all_or_nothing(m, reviews, (n - 1) as nat, i, e);
    }
}

/// Whether the `i`-th submission of a batch is accepted in the state that the
/// submissions before it leave.
pub open spec fn submission_accepted_at(
    m: AdminModel,
    offer_ids: Seq<u32>,
    token_ids: Seq<u32>,
    ad_parameters: Seq<Seq<char>>,
    datas: Seq<Seq<char>>,
    caller_is_user: Seq<bool>,
    i: nat,
) -> bool {
    match submit_batch(m, offer_ids, token_ids, ad_parameters, datas, caller_is_user, i) {
        Ok(mi) => mi.submit_error(
            offer_ids[i as int],
            ad_parameters[i as int],
            datas[i as int],
            caller_is_user[i as int],
        ) is None,
        Err(_) => false,
    }
}

/// A batch of submissions succeeds only if each submission is accepted in
/// turn, and then each gets the next proposal number; the first refused
/// submission makes the whole batch fail with its error.
pub proof fn law_submit_batch_all_or_nothing(
    m: AdminModel,
    offer_ids: Seq<u32>,
    token_ids: Seq<u32>,
    ad_parameters: Seq<Seq<char>>,
    datas: Seq<Seq<char>>,
    caller_is_user: Seq<bool>,
    n: nat,
    i: nat,
    e: AdminError,
)
    ensures
        submit_batch(m, offer_ids, token_ids, ad_parameters, datas, caller_is_user, n) is Ok ==> forall|k: nat|
            k < n ==> #[trigger] submission_accepted_at(
                m,
                offer_ids,
                token_ids,
                ad_parameters,
                datas,
                caller_is_user,
                k,
            ),
        submit_batch(m, offer_ids, token_ids, ad_parameters, datas, caller_is_user, n) matches Ok(m2)
            ==> m2.proposal_count == m.proposal_count + n,
        ({
            &&& i < n
            &&& submit_batch(m, offer_ids, token_ids, ad_parameters, datas, caller_is_user, i) matches Ok(mi)
            &&& mi.submit_error(offer_ids[i as int], ad_parameters[i as int], datas[i as int], caller_is_user[i as int])
                == Some(e)
        }) ==> submit_batch(m, offer_ids, token_ids, ad_parameters, datas, caller_is_user, n) == Err::<
            AdminModel,
            AdminError,
        >(e),
    decreases n,
{
    if n > 0 {
        law_submit_batch_all_or_nothing(m, offer_ids, token_ids, ad_parameters, datas, caller_is_user, (n - 1) as nat, i, e);
    }
}

/// Recording default prices keeps the native currency and the per-token
/// prices, and leaves each recorded currency, at its last occurrence, with
/// its enabled price: the native one as its native default, any other in
/// the table of defaults.
proof fn lemma_with_defaults(m: NftModel, currencies: Seq<Seq<char>>, prices: Seq<u128>, n: nat, i: int)
    requires
        n <= currencies.len(),
        0 <= i < n,
        forall|j: int| i < j < n ==> #[trigger] currencies[j] != currencies[i],
    ensures
        with_defaults(m, currencies, prices, n).native == m.native,
        with_defaults(m, currencies, prices, n).mint_prices == m.mint_prices,
        currencies[i] == m.native ==> with_defaults(m, currencies, prices, n).default_native_price
            == (MintPriceSettings { enabled: true, amount: prices[i] }),
        currencies[i] != m.native ==> {
            &&& with_defaults(m, currencies, prices, n).default_prices.contains_key(currencies[i])
            &&& with_defaults(m, currencies, prices, n).default_prices[currencies[i]] == (MintPriceSettings {
                enabled: true,
                amount: prices[i],
            })
        },
    decreases n,
{
    if i < n - 1 {
        lemma_with_defaults(m, currencies, prices, (n - 1) as nat, i);
        assert(currencies[n - 1] != currencies[i]);
    } else {
        lemma_with_defaults_keeps(m, currencies, prices, (n - 1) as nat);
    }
}

proof fn lemma_with_defaults_keeps(m: NftModel, currencies: Seq<Seq<char>>, prices: Seq<u128>, n: nat)
    ensures
        with_defaults(m, currencies, prices, n).native == m.native,
        with_defaults(m, currencies, prices, n).mint_prices == m.mint_prices,
    decreases n,
{
    if n > 0 {
        lemma_with_defaults_keeps(m, currencies, prices, (n - 1) as nat);
    }
}

/// A new collection prices every currency it is created with, at its last
/// occurrence, at the price given beside it, for every token: the native
/// currency as well as any other.
pub proof fn law_creation_prices(init: &InitParams, native: Seq<char>, i: int, token_id: i128)
    requires
        init.prices@.len() >= init.currencies@.len(),
        0 <= i < init.currencies@.len(),
        forall|j: int| i < j < init.currencies@.len() ==> #[trigger] init.currencies@[j]@ != init.currencies@[i]@,
    ensures
        initial_model(init, native).mint_price(token_id, init.currencies@[i]@) == (MintPriceSettings {
            enabled: true,
            amount: init.prices@[i],
        }),
{
    let cs = seq_views(init.currencies@);
    assert forall|j: int| i < j < cs.len() implies #[trigger] cs[j] != cs[i] by {
        assert(init.currencies@[j]@ != init.currencies@[i]@);
    }
    lemma_with_defaults(
        crate::nft::created_model(init, native),
        cs,
        init.prices@,
        init.currencies@.len(),
        i,
    );
}

/// A listing goes through exactly when the seller owns the token, the token
/// is not listed already, and the listing counter has room.
pub proof fn law_listing_acceptance(
    m: MarketModel,
    seller: Seq<char>,
    nft_contract: Seq<char>,
    token_id: i128,
    token_owner: Option<Seq<char>>,
)
    ensures
        m.create_listing_error(seller, nft_contract, token_id, token_owner) is None <==> {
            &&& token_owner == Some(seller)
            &&& !(m.listed_tokens.contains_key((nft_contract, token_id)) && m.listed_tokens[(nft_contract, token_id)])
            &&& m.listing_count < u32::MAX
        },
{
}

/// An auction goes through exactly when the seller owns the token, the token
/// is neither listed nor under an active auction, and the auction counter
/// has room.
pub proof fn law_auction_acceptance(
    m: MarketModel,
    seller: Seq<char>,
    nft_contract: Seq<char>,
    token_id: i128,
    token_owner: Option<Seq<char>>,
)
    ensures
        m.create_auction_error(seller, nft_contract, token_id, token_owner) is None <==> {
            &&& token_owner == Some(seller)
            &&& !(m.listed_tokens.contains_key((nft_contract, token_id)) && m.listed_tokens[(nft_contract, token_id)])
            &&& !(m.auctioned_tokens.contains_key((nft_contract, token_id))
                && m.auctioned_tokens[(nft_contract, token_id)])
            &&& m.auction_count < u32::MAX
        },
{
}

/// A sale goes through exactly when the listing exists and is active, the
/// market is initialized, and the fee of the price can be computed.
pub proof fn law_buy_acceptance(m: MarketModel, listing_id: u32)
    ensures
        m.buy_error(listing_id) is None <==> {
            &&& m.listings.contains_key(listing_id)
            &&& m.listings[listing_id].active
            &&& m.config matches Some(c) && m.listings[listing_id].price * c.fee_bps <= u128::MAX
        },
{
    if m.listings.contains_key(listing_id) {
        assert(m.listings.dom().contains(listing_id));
    }
}

/// A cancellation goes through exactly when the listing exists, is active and
/// belongs to the caller.
pub proof fn law_cancel_acceptance(m: MarketModel, listing_id: u32, caller: Seq<char>)
    ensures
        m.cancel_listing_error(listing_id, caller) is None <==> {
            &&& m.listings.contains_key(listing_id)
            &&& m.listings[listing_id].active
            &&& m.listings[listing_id].seller == caller
        },
{
    if m.listings.contains_key(listing_id) {
        assert(m.listings.dom().contains(listing_id));
    }
}

/// A finalization goes through exactly when the auction exists, is active and
/// belongs to the caller, the market is initialized, and the fee of the
/// highest bid can be computed.
pub proof fn law_finalize_acceptance(m: MarketModel, auction_id: u32, caller: Seq<char>)
    ensures
        m.finalize_error(auction_id, caller) is None <==> {
            &&& m.auctions.contains_key(auction_id)
            &&& m.auctions[auction_id].active
            &&& m.auctions[auction_id].seller == caller
            &&& m.config matches Some(c) && m.auctions[auction_id].highest_bid * c.fee_bps <= u128::MAX
        },
{
    if m.auctions.contains_key(auction_id) {
        assert(m.auctions.dom().contains(auction_id));
    }
}

/// A submission goes through exactly when the offer exists and is enabled,
/// the caller is the token's current user, the ad parameter is allowed, the
/// data is not empty, and the proposal counter has room.
pub proof fn law_submit_acceptance(
    m: AdminModel,
    offer_id: u32,
    ad_parameter: Seq<char>,
    data: Seq<char>,
    caller_is_user: bool,
)
    ensures
        m.submit_error(offer_id, ad_parameter, data, caller_is_user) is None <==> {
            &&& 1 <= offer_id <= m.offers.len()
            &&& caller_is_user
            &&& !m.offers[offer_id - 1].disabled
            &&& m.offers[offer_id - 1].ad_parameters.contains_key(ad_parameter)
            &&& m.offers[offer_id - 1].ad_parameters[ad_parameter]
            &&& data.len() > 0
            &&& m.proposal_count < u32::MAX
        },
{
}

/// A review goes through exactly when the offer exists and is enabled, the
/// validator is one of its validators, the ad parameter is allowed, and the
/// proposal is the one pending for the token and parameter.
pub proof fn law_review_acceptance(
    m: AdminModel,
    offer_id: u32,
    token_id: u32,
    proposal_id: u32,
    ad_parameter: Seq<char>,
    validator: Seq<char>,
)
    ensures
        m.review_error(offer_id, token_id, proposal_id, ad_parameter, validator) is None <==> {
            &&& 1 <= offer_id <= m.offers.len()
            &&& !m.offers[offer_id - 1].disabled
            &&& m.offers[offer_id - 1].validators.contains_key(validator)
            &&& m.offers[offer_id - 1].validators[validator]
            &&& m.offers[offer_id - 1].ad_parameters.contains_key(ad_parameter)
            &&& m.offers[offer_id - 1].ad_parameters[ad_parameter]
            &&& proposal_id != 0
            &&& m.offers[offer_id - 1].proposals.contains_key(token_id)
            &&& m.offers[offer_id - 1].proposals[token_id].contains_key(ad_parameter)
            &&& m.offers[offer_id - 1].proposals[token_id][ad_parameter].last_submitted == proposal_id
        },
{
}

/// The payout of a sale held by the market: the market gives up the whole
/// amount, the fee recipient receives the fee, `amount * fee_bps / 1000`
/// rounded down, and the seller the rest.
pub proof fn law_payout_split(
    token: Seq<char>,
    market: Seq<char>,
    seller: Seq<char>,
    fee_recipient: Seq<char>,
    amount: u128,
    fee_bps: u32,
)
    requires
        fee_bps <= MAX_FEE_BPS,
        amount * fee_bps <= u128::MAX,
        amount <= i128::MAX,
        market != seller,
        market != fee_recipient,
        seller != fee_recipient,
    ensures
        net_inflow(payout_calls(token, market, seller, fee_recipient, amount, fee_bps), market) == -(amount as int),
        net_inflow(payout_calls(token, market, seller, fee_recipient, amount, fee_bps), fee_recipient) == (amount
            * fee_bps) / 1000,
        net_inflow(payout_calls(token, market, seller, fee_recipient, amount, fee_bps), seller) == amount - (amount
            * fee_bps) / 1000,
{
    let fee = fee_of(amount, fee_bps);
    assert(0 <= fee <= amount) by (nonlinear_arith)
        requires
            fee == (amount * fee_bps) / 1000,
            fee_bps <= 1000,
            amount >= 0,
    ;
    let calls = payout_calls(token, market, seller, fee_recipient, amount, fee_bps);
    reveal_with_fuel(net_inflow, 3);
    if fee > 0 {
        assert(calls.drop_last().drop_last() =~= Seq::<CallView>::empty());
    } else {
        assert(calls.drop_last() =~= Seq::<CallView>::empty());
    }
}

/// A bid takes its amount from the bidder and gives the previous highest bid
/// back to its bidder.
pub proof fn law_bid_refunds_the_outbid(a: AuctionView, bidder: Seq<char>, amount: u128, market: Seq<char>)
    requires
        amount <= i128::MAX,
        a.highest_bid <= i128::MAX,
        a.highest_bidder matches Some(prev) && prev != bidder && prev != market,
        bidder != market,
    ensures
        net_inflow(bid_calls(a, bidder, amount, market), bidder) == -(amount as int),
        net_inflow(bid_calls(a, bidder, amount, market), a.highest_bidder->0) == a.highest_bid,
{
    let calls = bid_calls(a, bidder, amount, market);
    reveal_with_fuel(net_inflow, 3);
    if calls.len() == 2 {
        assert(calls.drop_last().drop_last() =~= Seq::<CallView>::empty());
    } else {
        assert(calls.drop_last() =~= Seq::<CallView>::empty());
    }
}

/// A mint through the gateway takes the price and the protocol fee from the
/// payer, pays the fee to the fee recipient, keeps the price for the
/// collection and allows the collection to take exactly the price.
pub proof fn law_protocol_fee_flows(
    c: AdminConfigView,
    contract: Seq<char>,
    target: Seq<char>,
    currency: Seq<char>,
    base_amount: u128,
    payer: Seq<char>,
    ledger_sequence: u32,
)
    requires
        base_amount + protocol_fee(base_amount, c.bps) <= i128::MAX,
        ledger_sequence + APPROVAL_LEDGERS <= u32::MAX,
        payer != contract,
        payer != c.fee_recipient,
        contract != c.fee_recipient,
    ensures
        net_inflow(protocol_fee_calls(c, contract, target, currency, base_amount, payer, ledger_sequence), payer)
            == -(base_amount + protocol_fee(base_amount, c.bps)),
        net_inflow(
            protocol_fee_calls(c, contract, target, currency, base_amount, payer, ledger_sequence),
            c.fee_recipient,
        ) == protocol_fee(base_amount, c.bps),
        net_inflow(protocol_fee_calls(c, contract, target, currency, base_amount, payer, ledger_sequence), contract)
            == base_amount,
        protocol_fee_calls(c, contract, target, currency, base_amount, payer, ledger_sequence)[1] == (CallView::Approve {
            token: currency,
            from: contract,
            spender: target,
            amount: base_amount as i128,
            expiration_ledger: (ledger_sequence + APPROVAL_LEDGERS) as u32,
        }),
{
    let calls = protocol_fee_calls(c, contract, target, currency, base_amount, payer, ledger_sequence);
    reveal_with_fuel(net_inflow, 4);
    if protocol_fee(base_amount, c.bps) > 0 {
        assert(calls.drop_last().drop_last().drop_last() =~= Seq::<CallView>::empty());
        assert(calls.drop_last().drop_last() =~= seq![calls[0]]);
        assert(calls.drop_last() =~= seq![calls[0], calls[1]]);
    } else {
        assert(calls.drop_last().drop_last() =~= Seq::<CallView>::empty());
        assert(calls.drop_last() =~= seq![calls[0]]);
    }
}

} // verus!
