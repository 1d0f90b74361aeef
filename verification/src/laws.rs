//! Properties of the contracts that relate several operations.

use vstd::prelude::*;

use crate::admin::{
    flagged, lemma_proposal_of_with, proposal_of, protocol_fee, review_batch, submit_batch, AdminConfigView,
    AdminError, AdminModel, OfferView, ProposalView, ReviewView, MAX_PROTOCOL_FEE_BPS,
};
use crate::calls::CallView;
use crate::market::{
    active_auctions_from, active_listings_from, bid_calls, fee_of, payout_calls, AuctionView, ConfigView,
    ListingView, MarketError, MarketModel, MAX_FEE_BPS,
};
use crate::nft::{MintPriceSettings, NftError, NftModel, USER_EXPIRY_EXTENSION};

verus! {

/// A mint hands the next token id to its recipient, as owner and as user, and
/// keeps the token count equal to the number of tokens.
pub proof fn law_mint_gives_next_token(
    m: NftModel,
    caller: Seq<char>,
    token_id: i128,
    to: Seq<char>,
    currency: Seq<char>,
    now: u64,
)
    requires
        m.consistent(),
        m.mint_error(caller, token_id, currency) is None,
        now <= u64::MAX - USER_EXPIRY_EXTENSION,
    ensures
        token_id == m.token_count + 1,
        m.after_mint(to, now).consistent(),
        m.after_mint(to, now).token_count == token_id,
        m.after_mint(to, now).owner(token_id as int) == Some(to),
        m.after_mint(to, now).is_user(token_id as int, to, now),
        forall|i: int| m.is_minted(i) ==> #[trigger] m.after_mint(to, now).owner(i) == m.owner(i),
{
    let m2 = m.after_mint(to, now);
    assert forall|i: int| m.is_minted(i) implies #[trigger] m2.owner(i) == m.owner(i) by {
        assert(m2.tokens[i - 1] == m.tokens[i - 1]);
    }
}

/// A token that was minted is never minted again.
pub proof fn law_no_double_mint(
    m: NftModel,
    caller: Seq<char>,
    token_id: i128,
    to: Seq<char>,
    currency: Seq<char>,
    now: u64,
    caller2: Seq<char>,
    currency2: Seq<char>,
)
    requires
        m.consistent(),
        m.mint_error(caller, token_id, currency) is None,
        now <= u64::MAX - USER_EXPIRY_EXTENSION,
    ensures
        m.after_mint(to, now).mint_error(caller2, token_id, currency2) == Some(NftError::TokenAlreadyMinted),
{
}

/// After a transfer, with or without an approved spender, the recipient owns
/// and uses the token and nobody is approved for it; other tokens keep their
/// owner.
pub proof fn law_move_hands_over(m: NftModel, to: Seq<char>, token_id: int, now: u64, operator: Seq<char>)
    requires
        m.consistent(),
        m.is_minted(token_id),
        now <= u64::MAX - USER_EXPIRY_EXTENSION,
    ensures
        m.after_move(to, token_id, now).consistent(),
        m.after_move(to, token_id, now).owner(token_id) == Some(to),
        m.after_move(to, token_id, now).is_user(token_id, to, now),
        !m.after_move(to, token_id, now).is_approved(operator, token_id),
        forall|i: int| i != token_id ==> #[trigger] m.after_move(to, token_id, now).owner(i) == m.owner(i),
{
    let m2 = m.after_move(to, token_id, now);
    assert(!m2.token(token_id).approvals.contains(operator));
}

/// After the owner approves an operator, the operator may move the token
/// from the owner.
pub proof fn law_approve_then_transfer_from(m: NftModel, owner: Seq<char>, operator: Seq<char>, token_id: int)
    requires
        m.consistent(),
        m.owner_error(owner, token_id) is None,
    ensures
        m.after_approve(operator, token_id).is_approved(operator, token_id),
        m.after_approve(operator, token_id).transfer_from_error(operator, owner, token_id) is None,
        m.after_approve(operator, token_id).owner(token_id) == m.owner(token_id),
{
    let t = m.token(token_id);
    if !t.approvals.contains(operator) {
        assert(t.approvals.push(operator)[t.approvals.len() as int] == operator);
    }
}

/// A price set for a token and currency, if enabled, is the price that
/// minting that token in that currency asks.
pub proof fn law_mint_price_read_after_write(
    m: NftModel,
    token_id: i128,
    currency: Seq<char>,
    settings: MintPriceSettings,
)
    requires
        settings.enabled,
    ensures
        m.after_set_mint_price(token_id, currency, settings).mint_price(token_id, currency) == settings,
{
}

/// A default price set for a currency, the native one as well as any other,
/// is the price of every token that has no enabled price of its own in that
/// currency.
pub proof fn law_default_price_read_after_write(
    m: NftModel,
    token_id: i128,
    currency: Seq<char>,
    settings: MintPriceSettings,
)
    requires
        !(m.mint_prices.contains_key((token_id, currency)) && m.mint_prices[(token_id, currency)].enabled),
    ensures
        m.after_set_default_price(currency, settings).mint_price(token_id, currency) == settings,
{
}

/// The fee of a sale never exceeds the amount, and the seller's part and the
/// fee add up to the amount: the payout of a sale hands out exactly what the
/// market holds for it.
pub proof fn law_payout_conserves_amount(
    token: Seq<char>,
    market: Seq<char>,
    seller: Seq<char>,
    fee_recipient: Seq<char>,
    amount: u128,
    fee_bps: u32,
)
    requires
        fee_bps <= MAX_FEE_BPS,
        amount * fee_bps <= u128::MAX,
        amount <= i128::MAX,
    ensures
        0 <= fee_of(amount, fee_bps) <= amount,
        payout_total(payout_calls(token, market, seller, fee_recipient, amount, fee_bps)) == amount,
{
    let fee = fee_of(amount, fee_bps);
    assert(0 <= fee <= amount) by (nonlinear_arith)
        requires
            fee == (amount * fee_bps) / 1000,
            fee_bps <= 1000,
            amount >= 0,
    ;
    let calls = payout_calls(token, market, seller, fee_recipient, amount, fee_bps);
    reveal_with_fuel(payout_total, 3);
    if fee > 0 {
        assert(calls.drop_last().drop_last() =~= Seq::<CallView>::empty());
    } else {
        assert(calls.drop_last() =~= Seq::<CallView>::empty());
    }
}

/// The sum of the amounts of a list of transfers.
pub open spec fn payout_total(calls: Seq<CallView>) -> int
    decreases calls.len(),
{
    if calls.len() == 0 {
        0
    } else {
        payout_total(calls.drop_last()) + match calls.last() {
            CallView::Transfer { amount, .. } => amount as int,
            _ => 0,
        }
    }
}

/// A listing that was sold or cancelled cannot be sold again, and its token
/// is no longer marked as listed.
pub proof fn law_closed_listing_is_final(m: MarketModel, listing_id: u32)
    requires
        m.listings.contains_key(listing_id),
    ensures
        m.after_close_listing(listing_id).buy_error(listing_id) == Some(MarketError::ListingNotActive),
        !m.after_close_listing(listing_id).listed(
            m.listings[listing_id].nft_contract,
            m.listings[listing_id].token_id,
        ),
{
    let m2 = m.after_close_listing(listing_id);
    assert(m2.listings.contains_key(listing_id));
    assert(!m2.listings.dom().is_empty());
}

/// Finalizing an auction frees its token: the seller who still owns it may
/// put it to auction again, unless it is listed.
pub proof fn law_finalized_auction_frees_token(m: MarketModel, auction_id: u32, seller: Seq<char>)
    requires
        m.auctions.contains_key(auction_id),
        !m.listed(m.auctions[auction_id].nft_contract, m.auctions[auction_id].token_id),
        m.auction_count < u32::MAX,
    ensures
        ({
            let a = m.auctions[auction_id];
            let m2 = MarketModel {
                auctions: m.auctions.insert(auction_id, AuctionView { active: false, ..a }),
                auctioned_tokens: m.auctioned_tokens.remove((a.nft_contract, a.token_id)),
                ..m
            };
            m2.create_auction_error(seller, a.nft_contract, a.token_id, Some(seller)) is None
        }),
{
}

/// The listings that `get_all_listings` walks are all active, and every one
/// of them is a listing of the market.
pub proof fn law_all_listings_active(m: Map<u32, ListingView>, i: int)
    ensures
        forall|j: int| 0 <= j < active_listings_from(m, i).len() ==> (#[trigger] active_listings_from(m, i)[j]).active,
        forall|j: int| 0 <= j < active_listings_from(m, i).len() ==> is_listing_in(m, #[trigger] active_listings_from(m, i)[j]),
    decreases u32::MAX - i + 1,
{
    if i < 0 || i > u32::MAX || !m.contains_key(i as u32) {
    } else {
        law_all_listings_active(m, i + 1);
        let rest = active_listings_from(m, i + 1);
        let s = active_listings_from(m, i);
        if m[i as u32].active {
            assert forall|j: int| 0 <= j < s.len() implies (#[trigger] s[j]).active by {
                if j > 0 {
                    assert(s[j] == rest[j - 1]);
                }
            }
            assert forall|j: int| 0 <= j < s.len() implies is_listing_in(m, #[trigger] s[j]) by {
                if j > 0 {
                    assert(s[j] == rest[j - 1]);
                } else {
                    assert(m.contains_key(i as u32) && m[i as u32] == s[0]);
                }
            }
        }
    }
}

/// Whether `v` is one of the listings of `m`.
pub open spec fn is_listing_in(m: Map<u32, ListingView>, v: ListingView) -> bool {
    exists|k: u32| #[trigger] m.contains_key(k) && m[k] == v
}

/// The auctions that `get_all_auctions` walks are all active.
pub proof fn law_all_auctions_active(m: Map<u32, AuctionView>, i: int)
    ensures
        forall|j: int| 0 <= j < active_auctions_from(m, i).len() ==> (#[trigger] active_auctions_from(m, i)[j]).active,
    decreases u32::MAX - i + 1,
{
    if i < 0 || i > u32::MAX || !m.contains_key(i as u32) {
    } else {
        law_all_auctions_active(m, i + 1);
        let rest = active_auctions_from(m, i + 1);
        let s = active_auctions_from(m, i);
        if m[i as u32].active {
            assert forall|j: int| 0 <= j < s.len() implies (#[trigger] s[j]).active by {
                if j > 0 {
                    assert(s[j] == rest[j - 1]);
                }
            }
        }
    }
}

/// The protocol fee never exceeds the amount it is taken on.
pub proof fn law_protocol_fee_bounded(base_amount: u128, bps: u32)
    requires
        bps <= MAX_PROTOCOL_FEE_BPS,
    ensures
        protocol_fee(base_amount, bps) <= base_amount,
{
    if base_amount * bps <= u128::MAX {
        assert((base_amount * bps) / 1000 <= base_amount) by (nonlinear_arith)
            requires
                bps <= 1000,
                base_amount >= 0,
        ;
    }
}

/// A submission is numbered after every earlier one and becomes the pending
/// proposal of its token and ad parameter, with the submitted data.
pub proof fn law_submission_is_pending(
    m: AdminModel,
    offer_id: u32,
    token_id: u32,
    ad_parameter: Seq<char>,
    data: Seq<char>,
    caller_is_user: bool,
)
    requires
        m.submit_error(offer_id, ad_parameter, data, caller_is_user) is None,
    ensures
        m.after_submit(offer_id, token_id, ad_parameter, data).proposal_count == m.proposal_count + 1,
        proposal_of(m.after_submit(offer_id, token_id, ad_parameter, data).offer(offer_id), token_id, ad_parameter).last_submitted
            == m.proposal_count + 1,
        proposal_of(m.after_submit(offer_id, token_id, ad_parameter, data).offer(offer_id), token_id, ad_parameter).data
            == data,
        m.after_submit(offer_id, token_id, ad_parameter, data).offers.len() == m.offers.len(),
{
}

/// A validator's review is final: once a proposal was validated or rejected,
/// it cannot be reviewed again.
pub proof fn law_review_is_final(
    m: AdminModel,
    offer_id: u32,
    token_id: u32,
    proposal_id: u32,
    ad_parameter: Seq<char>,
    validated: bool,
    validator: Seq<char>,
    validator2: Seq<char>,
)
    requires
        m.review_error(offer_id, token_id, proposal_id, ad_parameter, validator) is None,
    ensures
        m.after_review(offer_id, token_id, proposal_id, ad_parameter, validated).review_error(
            offer_id,
            token_id,
            proposal_id,
            ad_parameter,
            validator2,
        ) is Some,
        proposal_of(
            m.after_review(offer_id, token_id, proposal_id, ad_parameter, validated).offer(offer_id),
            token_id,
            ad_parameter,
        ).last_submitted == 0,
        validated ==> proposal_of(
            m.after_review(offer_id, token_id, proposal_id, ad_parameter, validated).offer(offer_id),
            token_id,
            ad_parameter,
        ).last_validated == proposal_id,
        !validated ==> proposal_of(
            m.after_review(offer_id, token_id, proposal_id, ad_parameter, validated).offer(offer_id),
            token_id,
            ad_parameter,
        ).last_rejected == proposal_id,
{
}

/// The owner's rental is what `is_user_of` reports: the chosen user may use
/// the token until the chosen time, and nobody else may.
pub proof fn law_set_user_grants_use(
    m: NftModel,
    token_id: int,
    user: Seq<char>,
    expiry: u64,
    other: Seq<char>,
    now: u64,
)
    requires
        m.consistent(),
        m.is_minted(token_id),
    ensures
        m.after_set_user(token_id, user, expiry).consistent(),
        m.after_set_user(token_id, user, expiry).is_user(token_id, user, now) == (now <= expiry),
        other != user ==> !m.after_set_user(token_id, user, expiry).is_user(token_id, other, now),
        m.after_set_user(token_id, user, expiry).owner(token_id) == m.owner(token_id),
{
}

/// A token stays on sale once: while its listing is active, neither a second
/// listing nor an auction of it is accepted.
pub proof fn law_no_double_listing(
    m: MarketModel,
    id: u32,
    listing: ListingView,
    seller: Seq<char>,
    token_owner: Option<Seq<char>>,
)
    requires
        listing.active,
    ensures
        ({
            let m2 = MarketModel {
                listings: m.listings.insert(id, listing),
                listed_tokens: m.listed_tokens.insert((listing.nft_contract, listing.token_id), true),
                ..m
            };
            &&& m2.create_listing_error(seller, listing.nft_contract, listing.token_id, token_owner) is Some
            &&& m2.create_auction_error(seller, listing.nft_contract, listing.token_id, token_owner) is Some
        }),
{
}

/// A market or a gateway is initialized once: a second initialization is
/// refused.
pub proof fn law_initialize_once(
    market: MarketModel,
    admin: Seq<char>,
    native: Seq<char>,
    fee_bps: u32,
    fee_bps2: u32,
    gateway: AdminModel,
    config: AdminConfigView,
    bps2: u32,
)
    ensures
        (MarketModel { config: Some(ConfigView { admin, native, fee_bps }), ..market }).initialize_error(fee_bps2)
            == Some(MarketError::AlreadyInitialized),
        (AdminModel { config: Some(config), ..gateway }).initialize_error(bps2) == Some(
            AdminError::AlreadyInitialized,
        ),
{
}

/// A proposal that was just submitted can be reviewed under its number by any
/// validator of the offer.
pub proof fn law_submitted_proposal_can_be_reviewed(
    m: AdminModel,
    offer_id: u32,
    token_id: u32,
    ad_parameter: Seq<char>,
    data: Seq<char>,
    validator: Seq<char>,
)
    requires
        m.submit_error(offer_id, ad_parameter, data, true) is None,
        flagged(m.offer(offer_id).validators, validator),
    ensures
        m.after_submit(offer_id, token_id, ad_parameter, data).review_error(
            offer_id,
            token_id,
            (m.proposal_count + 1) as u32,
            ad_parameter,
            validator,
        ) is None,
{
}

/// Proposal `p` of `token_id` for `ad_parameter` in offer `offer_id` was
/// handed out and is not pending: a review of it is refused.
pub open spec fn review_closed(m: AdminModel, offer_id: u32, token_id: u32, ad_parameter: Seq<char>, p: u32) -> bool {
    &&& 1 <= offer_id <= m.offers.len()
    &&& 1 <= p <= m.proposal_count
    &&& proposal_of(m.offer(offer_id), token_id, ad_parameter).last_submitted != p
}

/// A review closes the proposal it reviews.
pub proof fn law_review_closes_proposal(
    m: AdminModel,
    offer_id: u32,
    token_id: u32,
    p: u32,
    ad_parameter: Seq<char>,
    validated: bool,
    validator: Seq<char>,
)
    requires
        m.proposals_numbered(),
        m.review_error(offer_id, token_id, p, ad_parameter, validator) is None,
    ensures
        review_closed(m.after_review(offer_id, token_id, p, ad_parameter, validated), offer_id, token_id, ad_parameter, p),
{
    let o = m.offer(offer_id);
    assert(proposal_of(m.offers[offer_id - 1], token_id, ad_parameter).last_submitted <= m.proposal_count);
    let pr = proposal_of(o, token_id, ad_parameter);
    let reviewed = if validated {
        ProposalView { last_validated: p, last_submitted: 0, ..pr }
    } else {
        ProposalView { last_rejected: p, last_submitted: 0, ..pr }
    };
    lemma_proposal_of_with(o, token_id, ad_parameter, reviewed, token_id, ad_parameter);
}

/// A closed proposal refuses every review of it, whoever the validator.
pub proof fn law_closed_proposal_refuses_review(
    m: AdminModel,
    offer_id: u32,
    token_id: u32,
    ad_parameter: Seq<char>,
    p: u32,
    validator: Seq<char>,
)
    requires
        review_closed(m, offer_id, token_id, ad_parameter, p),
    ensures
        m.review_error(offer_id, token_id, p, ad_parameter, validator) is Some,
{
}

/// A proposal stays closed through every later submission: new submissions
/// get numbers above it.
pub proof fn law_closed_proposal_survives_submit(
    m: AdminModel,
    offer_id: u32,
    token_id: u32,
    ad_parameter: Seq<char>,
    p: u32,
    offer2: u32,
    token2: u32,
    ad_parameter2: Seq<char>,
    data2: Seq<char>,
    caller_is_user: bool,
)
    requires
        review_closed(m, offer_id, token_id, ad_parameter, p),
        m.submit_error(offer2, ad_parameter2, data2, caller_is_user) is None,
    ensures
        review_closed(m.after_submit(offer2, token2, ad_parameter2, data2), offer_id, token_id, ad_parameter, p),
{
    let o2 = m.offer(offer2);
    let pr = proposal_of(o2, token2, ad_parameter2);
    let np = ProposalView { last_submitted: (m.proposal_count + 1) as u32, data: data2, ..pr };
    lemma_proposal_of_with(o2, token2, ad_parameter2, np, token_id, ad_parameter);
}

/// A proposal stays closed through every later review.
pub proof fn law_closed_proposal_survives_review(
    m: AdminModel,
    offer_id: u32,
    token_id: u32,
    ad_parameter: Seq<char>,
    p: u32,
    review: ReviewView,
)
    requires
        review_closed(m, offer_id, token_id, ad_parameter, p),
        m.review_error(review.offer_id, review.token_id, review.proposal_id, review.ad_parameter, review.validator)
            is None,
    ensures
        review_closed(
            m.after_review(review.offer_id, review.token_id, review.proposal_id, review.ad_parameter, review.validated),
            offer_id,
            token_id,
            ad_parameter,
            p,
        ),
{
    let o2 = m.offer(review.offer_id);
    let pr = proposal_of(o2, review.token_id, review.ad_parameter);
    let reviewed = if review.validated {
        ProposalView { last_validated: review.proposal_id, last_submitted: 0, ..pr }
    } else {
        ProposalView { last_rejected: review.proposal_id, last_submitted: 0, ..pr }
    };
    lemma_proposal_of_with(o2, review.token_id, review.ad_parameter, reviewed, token_id, ad_parameter);
}

/// A proposal stays closed when an offer is created, when an offer's admins,
/// validators and ad parameters are replaced, and when the settings change.
pub proof fn law_closed_proposal_survives_offer_changes(
    m: AdminModel,
    offer_id: u32,
    token_id: u32,
    ad_parameter: Seq<char>,
    p: u32,
    new_offer: OfferView,
    j: int,
    admins: Map<Seq<char>, bool>,
    validators: Map<Seq<char>, bool>,
    ad_parameters: Map<Seq<char>, bool>,
    config: Option<AdminConfigView>,
)
    requires
        review_closed(m, offer_id, token_id, ad_parameter, p),
        0 <= j < m.offers.len(),
    ensures
        review_closed(AdminModel { offers: m.offers.push(new_offer), ..m }, offer_id, token_id, ad_parameter, p),
        review_closed(
            AdminModel {
                offers: m.offers.update(j, OfferView { admins, validators, ad_parameters, ..m.offers[j] }),
                ..m
            },
            offer_id,
            token_id,
            ad_parameter,
            p,
        ),
        review_closed(AdminModel { config, ..m }, offer_id, token_id, ad_parameter, p),
{
    assert(m.offers.push(new_offer)[offer_id - 1] == m.offers[offer_id - 1]);
}

/// A proposal stays closed through a batch of submissions and through a batch
/// of reviews, whether the gateway runs them alone or in a mint.
pub proof fn law_closed_proposal_survives_batches(
    m: AdminModel,
    offer_id: u32,
    token_id: u32,
    ad_parameter: Seq<char>,
    p: u32,
    offer_ids: Seq<u32>,
    token_ids: Seq<u32>,
    ad_parameters: Seq<Seq<char>>,
    datas: Seq<Seq<char>>,
    caller_is_user: Seq<bool>,
    reviews: Seq<ReviewView>,
    n: nat,
)
    requires
        review_closed(m, offer_id, token_id, ad_parameter, p),
    ensures
        submit_batch(m, offer_ids, token_ids, ad_parameters, datas, caller_is_user, n) matches Ok(m2)
            ==> review_closed(m2, offer_id, token_id, ad_parameter, p),
        review_batch(m, reviews, n) matches Ok(m2) ==> review_closed(m2, offer_id, token_id, ad_parameter, p),
    decreases n,
{
    if n > 0 {
        law_closed_proposal_survives_batches(
            m,
            offer_id,
            token_id,
            ad_parameter,
            p,
            offer_ids,
            token_ids,
            ad_parameters,
            datas,
            caller_is_user,
            reviews,
            (n - 1) as nat,
        );
        let i = n - 1;
        if let Ok(m1) = submit_batch(m, offer_ids, token_ids, ad_parameters, datas, caller_is_user, (n - 1) as nat) {
            if m1.submit_error(offer_ids[i], ad_parameters[i], datas[i], caller_is_user[i]) is None {
                law_closed_proposal_survives_submit(
                    m1,
                    offer_id,
                    token_id,
                    ad_parameter,
                    p,
                    offer_ids[i],
                    token_ids[i],
                    ad_parameters[i],
                    datas[i],
                    caller_is_user[i],
                );
            }
        }
        if let Ok(m1) = review_batch(m, reviews, (n - 1) as nat) {
            let r = reviews[i];
            if m1.review_error(r.offer_id, r.token_id, r.proposal_id, r.ad_parameter, r.validator) is None {
                law_closed_proposal_survives_review(m1, offer_id, token_id, ad_parameter, p, r);
            }
        }
    }
}

/// What a list of token calls moves into `account`, less what it moves out;
/// an approval moves nothing.
pub open spec fn net_inflow(calls: Seq<CallView>, account: Seq<char>) -> int
    decreases calls.len(),
{
    if calls.len() == 0 {
        0
    } else {
        net_inflow(calls.drop_last(), account) + match calls.last() {
            CallView::Transfer { from, to, amount, .. } => (if to == account {
                amount as int
            } else {
                0
            }) - (if from == account {
                amount as int
            } else {
                0
            }),
            CallView::TransferFrom { from, to, amount, .. } => (if to == account {
                amount as int
            } else {
                0
            }) - (if from == account {
                amount as int
            } else {
                0
            }),
            CallView::Approve { .. } => 0,
        }
    }
}

/// A bid raises the market's escrow of the auction by exactly the rise of its
/// highest bid: the new bid comes in and the previous highest bid goes back.
pub proof fn law_bid_escrow_tracks_highest_bid(
    m: MarketModel,
    auction_id: u32,
    bidder: Seq<char>,
    amount: u128,
    market: Seq<char>,
)
    requires
        m.escrow_consistent(),
        m.bid_error(auction_id, amount) is None,
        amount <= i128::MAX,
        bidder != market,
        m.auctions[auction_id].highest_bidder matches Some(prev) ==> prev != market,
    ensures
        net_inflow(bid_calls(m.auctions[auction_id], bidder, amount, market), market) == amount
            - m.auctions[auction_id].highest_bid,
{
    let a = m.auctions[auction_id];
    let calls = bid_calls(a, bidder, amount, market);
    reveal_with_fuel(net_inflow, 3);
    assert(a.highest_bid < amount);
    if calls.len() == 2 {
        assert(calls.drop_last().drop_last() =~= Seq::<CallView>::empty());
    } else {
        assert(calls.drop_last() =~= Seq::<CallView>::empty());
    }
}

} // verus!
