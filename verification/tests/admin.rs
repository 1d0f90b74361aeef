use std::collections::HashMap;

use dsponsor::admin::{
    AdminAction, AdminError, DSponsorAdmin, InitParams, MintAndSubmitParams, MintPriceSettings, OfferInitParams,
    OfferOptions, ReviewAdProposal, SponsoringProposal,
};
use dsponsor::calls::TokenCall;
use dsponsor::keymap::KeyMap;
use dsponsor::nft::DSponsorNFT;

fn s(x: &str) -> String {
    x.to_string()
}

const CONTRACT: &str = "CADMIN";
const FACTORY: &str = "CFACTORY";
const FEE_RECIPIENT: &str = "GFEE";
const NATIVE: &str = "CNATIVE";

/// Balances of one token, moved by the calls a contract asks for.
struct Ledger {
    balances: HashMap<String, i128>,
}

impl Ledger {
    fn new() -> Self {
        Ledger { balances: HashMap::new() }
    }

    fn mint(&mut self, who: &str, amount: i128) {
        *self.balances.entry(s(who)).or_insert(0) += amount;
    }

    fn balance(&self, who: &str) -> i128 {
        *self.balances.get(who).unwrap_or(&0)
    }

    fn apply(&mut self, calls: &[TokenCall]) {
        for c in calls {
            match c {
                TokenCall::Transfer { from, to, amount, .. }
                | TokenCall::TransferFrom { from, to, amount, .. } => {
                    assert!(self.balance(from) >= *amount, "insufficient balance");
                    *self.balances.entry(from.clone()).or_insert(0) -= amount;
                    *self.balances.entry(to.clone()).or_insert(0) += amount;
                }
                TokenCall::Approve { .. } => {}
            }
        }
    }
}

fn setup_test_env(user: &str) -> DSponsorAdmin {
    let mut client = DSponsorAdmin::new();
    client.initialize(s(FACTORY), s(FEE_RECIPIENT), s(NATIVE), 50, s(user)).unwrap();
    client
}

fn nft_params(minter: &str, admin: &str, currency: &str, allowed: Vec<u32>, apply: bool) -> InitParams {
    InitParams {
        name: s("Test NFT"),
        symbol: s("TEST"),
        base_uri: s("https://test.com/"),
        contract_uri: s("https://test.com/contract"),
        minter: s(minter),
        max_supply: 1000,
        forwarder: s("GFORWARDER"),
        initial_owner: s(admin),
        royalty_bps: 500,
        currencies: vec![s(currency)],
        prices: vec![1000],
        allowed_token_ids: allowed,
        apply_tokens_allowlist: apply,
        default_native_price: MintPriceSettings { enabled: true, amount: 1000 },
    }
}

fn offer_params(admin: &str, validator: &str) -> OfferInitParams {
    OfferInitParams {
        name: s("Test Offer"),
        offer_metadata: s("Test metadata"),
        options: OfferOptions {
            admins: vec![s(admin)],
            validators: vec![s(validator)],
            ad_parameters: vec![s("title"), s("description")],
        },
    }
}

fn proposal(m: &KeyMap<String, SponsoringProposal>, key: &str) -> (u32, u32, u32) {
    let p = m.get(&s(key)).unwrap();
    (p.last_submitted, p.last_validated, p.last_rejected)
}

/// An NFT collection with token 1 (and 2 when asked) minted to `user`, and
/// an offer on it whose admin is `admin` and validator is `user`.
fn setup_offer(client: &mut DSponsorAdmin, user: &str, admin: &str, tokens: i128) -> (DSponsorNFT, u32) {
    let mut nft = DSponsorNFT::new(nft_params(user, admin, NATIVE, vec![1, 2, 3], true), s(NATIVE));
    for t in 1..=tokens {
        nft.mint(&s(user), t, s(user), &s(NATIVE), &s("CNFT"), 0).unwrap();
    }
    let offer_id = client.create_offer(s("CNFT"), &offer_params(admin, user)).unwrap();
    (nft, offer_id)
}

#[test]
fn test_create_offer() {
    let user = "GUSER";
    let mut client = setup_test_env(user);
    let offer_params = offer_params(FACTORY, user);
    let offer_id = client.create_offer(s("CNFTCONTRACT"), &offer_params).unwrap();
    assert_eq!(offer_id, 1);
    assert_eq!(client.get_offer_contract(offer_id).unwrap(), s("CNFTCONTRACT"));
    assert!(client.is_offer_admin(offer_id, &s(FACTORY)).unwrap());
    assert!(client.is_offer_validator(offer_id, &s(user)).unwrap());
    assert!(client.is_allowed_ad_parameter(offer_id, &s("title")).unwrap());
    assert!(client.is_allowed_ad_parameter(offer_id, &s("description")).unwrap());
}

#[test]
fn test_submit_ad_proposal() {
    let user = "GUSER";
    let mut client = setup_test_env(user);
    let (nft, offer_id) = setup_offer(&mut client, user, FACTORY, 1);
    let is_user = nft.is_user_of(1, &s(user), 0);
    let proposal_id = client
        .submit_ad_proposal(&s(user), offer_id, 1, s("title"), s("Test ad title"), is_user)
        .unwrap();
    assert_eq!(proposal_id, 1);
    let proposals = client.get_offer_proposals(offer_id, 1).unwrap();
    assert_eq!(proposal(&proposals, "title"), (1, 0, 0));
}

#[test]
fn test_submit_ad_proposals() {
    let user = "GUSER";
    let mut client = setup_test_env(user);
    let (nft, offer_id) = setup_offer(&mut client, user, FACTORY, 2);
    let flags = vec![nft.is_user_of(1, &s(user), 0), nft.is_user_of(2, &s(user), 0)];
    client
        .submit_ad_proposals(
            &vec![offer_id, offer_id],
            &vec![1, 2],
            &vec![s("title"), s("description")],
            &vec![s("Test ad title"), s("Test ad description")],
            &s(user),
            &flags,
        )
        .unwrap();
    let proposals1 = client.get_offer_proposals(offer_id, 1).unwrap();
    let proposals2 = client.get_offer_proposals(offer_id, 2).unwrap();
    assert_eq!(proposal(&proposals1, "title").0, 1);
    assert_eq!(proposal(&proposals2, "description").0, 2);
}

#[test]
fn test_review_ad_proposal() {
    let user = "GUSER";
    let mut client = setup_test_env(user);
    let (_nft, offer_id) = setup_offer(&mut client, user, FACTORY, 1);
    let proposal_id = client
        .submit_ad_proposal(&s(user), offer_id, 1, s("title"), s("Test ad title"), true)
        .unwrap();
    let review_id = client
        .review_ad_proposal(offer_id, 1, proposal_id, s("title"), true, &s("Looks good"), &s(user))
        .unwrap();
    assert_eq!(review_id, proposal_id);
    let proposals = client.get_offer_proposals(offer_id, 1).unwrap();
    assert_eq!(proposal(&proposals, "title"), (0, proposal_id, 0));
}

#[test]
fn test_review_ad_proposals() {
    let user = "GUSER";
    let mut client = setup_test_env(user);
    let (_nft, offer_id) = setup_offer(&mut client, user, FACTORY, 1);
    let proposal_id1 = client
        .submit_ad_proposal(&s(user), offer_id, 1, s("title"), s("Test ad title"), true)
        .unwrap();
    let proposal_id2 = client
        .submit_ad_proposal(&s(user), offer_id, 1, s("description"), s("Test ad description"), true)
        .unwrap();
    let reviews = vec![
        ReviewAdProposal {
            offer_id,
            token_id: 1,
            proposal_id: proposal_id1,
            ad_parameter: s("title"),
            validated: true,
            reason: s("Looks good"),
            validator: s(user),
        },
        ReviewAdProposal {
            offer_id,
            token_id: 1,
            proposal_id: proposal_id2,
            ad_parameter: s("description"),
            validated: true,
            reason: s("Looks good too"),
            validator: s(user),
        },
    ];
    let review_ids = client.review_ad_proposals(&reviews).unwrap();
    assert_eq!(review_ids.len(), 2);
    assert_eq!(review_ids[0], proposal_id1);
    assert_eq!(review_ids[1], proposal_id2);
    let proposals = client.get_offer_proposals(offer_id, 1).unwrap();
    assert_eq!(proposal(&proposals, "title"), (0, proposal_id1, 0));
    assert_eq!(proposal(&proposals, "description"), (0, proposal_id2, 0));
}

#[test]
fn test_update_offer() {
    let user = "GUSER";
    let mut client = setup_test_env(user);
    let offer_id = client.create_offer(s("CNFTCONTRACT"), &offer_params(FACTORY, user)).unwrap();
    let new_offer_params = OfferInitParams {
        name: s("Updated Offer"),
        offer_metadata: s("Updated metadata"),
        options: OfferOptions {
            admins: vec![s("GNEWADMIN")],
            validators: vec![s("GNEWVALIDATOR")],
            ad_parameters: vec![s("title"), s("image")],
        },
    };
    let result = client.update_offer(offer_id, &s(FACTORY), &new_offer_params).unwrap();
    assert!(result);
    assert!(!client.is_offer_admin(offer_id, &s(FACTORY)).unwrap());
    assert!(client.is_offer_admin(offer_id, &s("GNEWADMIN")).unwrap());
    assert!(!client.is_offer_validator(offer_id, &s(user)).unwrap());
    assert!(client.is_offer_validator(offer_id, &s("GNEWVALIDATOR")).unwrap());
    assert!(client.is_allowed_ad_parameter(offer_id, &s("title")).unwrap());
    assert!(!client.is_allowed_ad_parameter(offer_id, &s("description")).unwrap());
    assert!(client.is_allowed_ad_parameter(offer_id, &s("image")).unwrap());
}

#[test]
fn test_is_offer_disabled() {
    let user = "GUSER";
    let mut client = setup_test_env(user);
    let offer_id = client.create_offer(s("CNFTCONTRACT"), &offer_params(FACTORY, user)).unwrap();
    assert!(!client.is_offer_disabled(offer_id).unwrap());
}

#[test]
fn test_update_protocol_fee() {
    let mut client = setup_test_env("GUSER");
    let new_bps = 75u32;
    let result = client.update_protocol_fee(new_bps, s("GNEWRECIPIENT")).unwrap();
    assert!(result);
    let base_amount = 1000u128;
    let expected_fee = (base_amount * new_bps as u128) / 1000;
    assert_eq!(client.get_fee_amount(base_amount), expected_fee);
}

#[test]
fn test_update_protocol_fee_invalid() {
    let mut client = setup_test_env("GUSER");
    assert_eq!(client.update_protocol_fee(1001, s("GNEWRECIPIENT")).err(), Some(AdminError::FeeTooHigh));
}

#[test]
fn test_create_dsponsor_nft_and_offer() {
    let user = "GUSER";
    let mut client = setup_test_env(user);
    let init_params = nft_params(user, user, "CTOKEN", vec![1, 2, 3], false);
    let offer_params = offer_params(user, user);
    let (call, offer_id) = client
        .create_dsponsor_nft_and_offer(init_params, &offer_params, &s(CONTRACT), s("CDEPLOYED"))
        .unwrap();
    assert_eq!(call.factory, s(FACTORY));
    assert_eq!(call.init_params.minter, s(CONTRACT));
    assert_eq!(call.native_xlm, s(NATIVE));
    assert_eq!(offer_id, 1);
    assert_eq!(client.get_offer_contract(offer_id).unwrap(), s("CDEPLOYED"));
    assert!(client.is_offer_admin(offer_id, &s(user)).unwrap());
    assert!(client.is_offer_validator(offer_id, &s(user)).unwrap());
    assert!(client.is_allowed_ad_parameter(offer_id, &s("title")).unwrap());
    assert!(client.is_allowed_ad_parameter(offer_id, &s("description")).unwrap());
}

/// Runs a mint through the gateway, carrying out its calls on `ledger` and
/// `nft`, then submits its ad proposals.
fn run_mint_and_submit(
    client: &mut DSponsorAdmin,
    nft: &mut DSponsorNFT,
    ledger: &mut Ledger,
    params: &MintAndSubmitParams,
) {
    let price = nft.get_mint_price(params.token_id as i128, &params.currency);
    let plan = client.mint_plan(params, price, &s(CONTRACT), 10).unwrap();
    ledger.apply(&plan.token_calls);
    // The collection takes the price out of the gateway's allowance when it mints.
    let receipt = nft
        .mint(&plan.mint.caller, plan.mint.token_id, plan.mint.to.clone(), &plan.mint.currency, &s("CNFT"), 0)
        .unwrap();
    if let Some(TokenCall::TransferFrom { spender, from, to, amount, .. }) = &receipt.payment {
        assert_eq!(spender, "CNFT");
        ledger.apply(&[TokenCall::Transfer { token: s(""), from: from.clone(), to: to.clone(), amount: *amount }]);
    }
    let flags: Vec<bool> = params
        .ad_parameters
        .iter()
        .map(|_| nft.is_user_of(params.token_id as i128, &params.to, 0))
        .collect();
    client.mint_and_submit(params, price, &s(CONTRACT), 10, &flags).unwrap();
}

fn mint_params(offer_id: u32, user: &str, currency: &str) -> MintAndSubmitParams {
    MintAndSubmitParams {
        token_id: 1,
        to: s(user),
        currency: s(currency),
        token_data: s("token_data"),
        offer_id,
        ad_parameters: vec![s("title"), s("description")],
        ad_datas: vec![s("Ad Title"), s("Ad Description")],
        referral_info: s("referral_info"),
    }
}

#[test]
fn test_mint_and_submit() {
    let user = "GUSER";
    let admin = "GNFTADMIN";
    let currency = "CTOKEN";
    let mut client = setup_test_env(user);
    let mut ledger = Ledger::new();
    ledger.mint(user, 10000);
    let init_params = nft_params(user, admin, currency, vec![], false);
    let (call, offer_id) = client
        .create_dsponsor_nft_and_offer(init_params, &offer_params(user, user), &s(CONTRACT), s("CNFT"))
        .unwrap();
    let mut nft = DSponsorNFT::new(call.init_params, call.native_xlm);
    let params = mint_params(offer_id, user, currency);
    run_mint_and_submit(&mut client, &mut nft, &mut ledger, &params);
    let proposals = client.get_offer_proposals(offer_id, 1).unwrap();
    assert_eq!(proposal(&proposals, "title").0, 1);
    assert_eq!(proposal(&proposals, "description").0, 2);
    let protocol_fee = client.get_fee_amount(1000);
    let total_amount = 1000u128 + protocol_fee;
    let expected_balance = 10000u128 - total_amount;
    assert_eq!(ledger.balance(user), expected_balance as i128);
    assert_eq!(ledger.balance(admin), 1000u128 as i128);
}

#[test]
fn test_mint_and_submit_with_native_xlm() {
    let user = "GUSER";
    let admin = "GNFTADMIN";
    let mut client = setup_test_env(user);
    let mut ledger = Ledger::new();
    ledger.mint(user, 10000);
    let init_params = nft_params(user, admin, NATIVE, vec![1, 2, 3], true);
    let (call, offer_id) = client
        .create_dsponsor_nft_and_offer(init_params, &offer_params(user, user), &s(CONTRACT), s("CNFT"))
        .unwrap();
    let mut nft = DSponsorNFT::new(call.init_params, call.native_xlm);
    let params = mint_params(offer_id, user, NATIVE);
    run_mint_and_submit(&mut client, &mut nft, &mut ledger, &params);
    let proposals = client.get_offer_proposals(offer_id, 1).unwrap();
    assert_eq!(proposal(&proposals, "title").0, 1);
    assert_eq!(proposal(&proposals, "description").0, 2);
    let protocol_fee = client.get_fee_amount(1000);
    let total_amount = 1000u128 + protocol_fee;
    let expected_balance = 10000u128 - total_amount;
    assert_eq!(ledger.balance(user), expected_balance as i128);
    assert_eq!(ledger.balance(admin), 1000u128 as i128);
    assert_eq!(ledger.balance(FEE_RECIPIENT), 50);
    assert_eq!(ledger.balance(CONTRACT), 0);
}

#[test]
fn mint_and_submit_plan_for_a_token_currency() {
    let user = "GUSER";
    let mut client = setup_test_env(user);
    let offer_id = client.create_offer(s("CNFT"), &offer_params(user, user)).unwrap();
    let params = mint_params(offer_id, user, "CTOKEN");
    let price = MintPriceSettings { enabled: true, amount: 1000 };
    let plan = client.mint_and_submit(&params, price, &s(CONTRACT), 10, &vec![true, true]).unwrap();
    assert!(!plan.payer_authorizes);
    assert_eq!(plan.token_calls.len(), 3);
    match &plan.token_calls[0] {
        TokenCall::TransferFrom { spender, from, to, amount, .. } => {
            assert_eq!(spender, CONTRACT);
            assert_eq!(from, user);
            assert_eq!(to, CONTRACT);
            assert_eq!(*amount, 1050);
        }
        _ => panic!("expected transfer_from"),
    }
    match &plan.token_calls[1] {
        TokenCall::Approve { spender, amount, expiration_ledger, .. } => {
            assert_eq!(spender, "CNFT");
            assert_eq!(*amount, 1000);
            assert_eq!(*expiration_ledger, 110);
        }
        _ => panic!("expected approve"),
    }
    match &plan.token_calls[2] {
        TokenCall::Transfer { from, to, amount, .. } => {
            assert_eq!(from, CONTRACT);
            assert_eq!(to, FEE_RECIPIENT);
            assert_eq!(*amount, 50);
        }
        _ => panic!("expected transfer"),
    }
    assert_eq!(plan.mint.token_id, 1);
    assert_eq!(plan.mint.caller, s(CONTRACT));
}

#[test]
fn mint_and_submit_errors_leave_the_state() {
    let user = "GUSER";
    let mut client = setup_test_env(user);
    let price = MintPriceSettings { enabled: true, amount: 1000 };
    assert_eq!(
        client.mint_and_submit(&mint_params(1, user, "CT"), price, &s(CONTRACT), 10, &vec![true, true]).err(),
        Some(AdminError::NoOffers)
    );
    let offer_id = client.create_offer(s("CNFT"), &offer_params(user, user)).unwrap();
    let off = MintPriceSettings { enabled: false, amount: 1000 };
    assert_eq!(
        client.mint_and_submit(&mint_params(offer_id, user, "CT"), off, &s(CONTRACT), 10, &vec![true, true]).err(),
        Some(AdminError::PriceNotEnabled)
    );
    let mut p = mint_params(offer_id, user, "CT");
    p.ad_datas = vec![s("only one")];
    assert_eq!(
        client.mint_and_submit(&p, price, &s(CONTRACT), 10, &vec![true, true]).err(),
        Some(AdminError::MissingAdData)
    );
    assert_eq!(client.get_offer_proposals(offer_id, 1).unwrap().is_empty(), true);
    assert_eq!(
        client.mint_and_submit(&mint_params(offer_id, user, "CT"), price, &s(CONTRACT), 10, &vec![true, false]).err(),
        Some(AdminError::OnlySponsor)
    );
    assert_eq!(client.proposal_count, 0);
}

#[test]
fn admin_initialize_errors() {
    let mut client = DSponsorAdmin::new();
    assert_eq!(client.get_fee_amount(1000), 0);
    assert_eq!(client.update_protocol_fee(10, s("G")).err(), Some(AdminError::NotInitialized));
    assert_eq!(
        client.initialize(s(FACTORY), s(FEE_RECIPIENT), s(NATIVE), 1001, s("GA")).err(),
        Some(AdminError::FeeTooHigh)
    );
    client.initialize(s(FACTORY), s(FEE_RECIPIENT), s(NATIVE), 1000, s("GA")).unwrap();
    assert_eq!(
        client.initialize(s(FACTORY), s(FEE_RECIPIENT), s(NATIVE), 10, s("GA")).err(),
        Some(AdminError::AlreadyInitialized)
    );
    assert_eq!(client.get_fee_amount(1000), 1000);
    assert_eq!(client.get_fee_amount(u128::MAX), 0);
}

#[test]
fn offer_errors() {
    let user = "GUSER";
    let mut client = setup_test_env(user);
    assert_eq!(client.get_total_offers().err(), Some(AdminError::NoOffers));
    assert_eq!(client.get_all_offers().err(), Some(AdminError::NoOffers));
    assert_eq!(client.get_offer_contract(1).err(), Some(AdminError::NoOffers));
    let mut bad = offer_params(user, user);
    bad.offer_metadata = s("");
    assert_eq!(client.create_offer(s("CNFT"), &bad).err(), Some(AdminError::EmptyOfferMetadata));
    let mut bad = offer_params(user, user);
    bad.options.admins = vec![];
    assert_eq!(client.create_offer(s("CNFT"), &bad).err(), Some(AdminError::NoAdmins));
    let mut bad = offer_params(user, user);
    bad.options.ad_parameters = vec![];
    assert_eq!(client.create_offer(s("CNFT"), &bad).err(), Some(AdminError::NoAdParameters));
    let id = client.create_offer(s("CNFT"), &offer_params(user, user)).unwrap();
    assert_eq!(client.create_offer(s("CNFT2"), &offer_params("GOTHER", user)).unwrap(), 2);
    assert_eq!(client.get_total_offers().unwrap(), 2);
    assert_eq!(client.get_all_offers().unwrap().len(), 2);
    let mine = client.get_user_offers(&s(user)).unwrap();
    assert_eq!(mine.len(), 1);
    assert_eq!(mine[0].id, id);
    assert_eq!(client.get_offer_contract(3).err(), Some(AdminError::OfferNotFound));
    assert_eq!(
        client.update_offer(id, &s("GSTRANGER"), &offer_params(user, user)).err(),
        Some(AdminError::UnauthorizedAdmin)
    );
}

#[test]
fn submission_and_review_errors() {
    let user = "GUSER";
    let mut client = setup_test_env(user);
    let id = client.create_offer(s("CNFT"), &offer_params(user, user)).unwrap();
    assert_eq!(
        client.submit_ad_proposal(&s(user), id, 1, s("title"), s("x"), false).err(),
        Some(AdminError::OnlySponsor)
    );
    assert_eq!(
        client.submit_ad_proposal(&s(user), id, 1, s("logo"), s("x"), true).err(),
        Some(AdminError::UnallowedAdParameter)
    );
    assert_eq!(
        client.submit_ad_proposal(&s(user), id, 1, s("title"), s(""), true).err(),
        Some(AdminError::NoAdData)
    );
    assert_eq!(
        client
            .submit_ad_proposals(&vec![id], &vec![1, 2], &vec![s("title")], &vec![s("x")], &s(user), &vec![true])
            .err(),
        Some(AdminError::LengthMismatch)
    );
    let pid = client.submit_ad_proposal(&s(user), id, 1, s("title"), s("x"), true).unwrap();
    assert_eq!(
        client.review_ad_proposal(id, 1, pid, s("title"), true, &s("r"), &s("GSTRANGER")).err(),
        Some(AdminError::UnauthorizedValidator)
    );
    assert_eq!(
        client.review_ad_proposal(id, 1, pid + 1, s("title"), true, &s("r"), &s(user)).err(),
        Some(AdminError::ProposalNotSubmitted)
    );
    client.review_ad_proposal(id, 1, pid, s("title"), false, &s("no"), &s(user)).unwrap();
    assert_eq!(
        client.review_ad_proposal(id, 1, pid, s("title"), true, &s("r"), &s(user)).err(),
        Some(AdminError::ProposalNotSubmitted)
    );
    let proposals = client.get_offer_proposals(id, 1).unwrap();
    assert_eq!(proposal(&proposals, "title"), (0, 0, pid));
    assert_eq!(client.review_ad_proposals(&vec![]).err(), Some(AdminError::NoReviews));
}

#[test]
fn failed_batch_changes_nothing() {
    let user = "GUSER";
    let mut client = setup_test_env(user);
    let id = client.create_offer(s("CNFT"), &offer_params(user, user)).unwrap();
    let r = client.submit_ad_proposals(
        &vec![id, id],
        &vec![1, 1],
        &vec![s("title"), s("logo")],
        &vec![s("a"), s("b")],
        &s(user),
        &vec![true, true],
    );
    assert_eq!(r.err(), Some(AdminError::UnallowedAdParameter));
    assert_eq!(client.proposal_count, 0);
    assert!(client.get_offer_proposals(id, 1).unwrap().is_empty());
}

#[test]
fn create_dsponsor_nft_sets_the_gateway_as_minter() {
    let user = "GUSER";
    let client = setup_test_env(user);
    let d = client
        .create_dsponsor_nft(nft_params(user, user, NATIVE, vec![], false), Some([7; 32]), &s(CONTRACT), 3)
        .unwrap();
    assert_eq!(d.init_params.minter, s(CONTRACT));
    assert_eq!(d.native_xlm, s(NATIVE));
    assert_eq!(d.salt, [7; 32]);
    let d2 = client
        .create_dsponsor_nft(nft_params(user, user, NATIVE, vec![], false), None, &s(CONTRACT), 3)
        .unwrap();
    assert_eq!(d2.salt[0], 3);
    assert_eq!(d2.salt[1], 4);
    let fresh = DSponsorAdmin::new();
    assert_eq!(
        fresh
            .create_dsponsor_nft(nft_params(user, user, NATIVE, vec![], false), None, &s(CONTRACT), 3)
            .err()
            .is_some(),
        true
    );
}

#[test]
fn review_stays_final_after_new_submissions() {
    let user = "GUSER";
    let mut client = setup_test_env(user);
    let id = client.create_offer(s("CNFT"), &offer_params(user, user)).unwrap();
    let p1 = client.submit_ad_proposal(&s(user), id, 1, s("title"), s("first"), true).unwrap();
    client.review_ad_proposal(id, 1, p1, s("title"), true, &s("ok"), &s(user)).unwrap();
    let p2 = client.submit_ad_proposal(&s(user), id, 1, s("title"), s("second"), true).unwrap();
    assert_eq!(p2, p1 + 1);
    assert_eq!(
        client.review_ad_proposal(id, 1, p1, s("title"), false, &s("again"), &s(user)).err(),
        Some(AdminError::ProposalNotSubmitted)
    );
    client.review_ad_proposal(id, 1, p2, s("title"), false, &s("no"), &s(user)).unwrap();
    assert_eq!(
        client.review_ad_proposal(id, 1, p1, s("title"), false, &s("again"), &s(user)).err(),
        Some(AdminError::ProposalNotSubmitted)
    );
    assert_eq!(proposal(&client.get_offer_proposals(id, 1).unwrap(), "title"), (0, p1, p2));
}

#[test]
fn overflow_is_the_last_refusal() {
    let user = "GUSER";
    let mut client = setup_test_env(user);
    let id = client.create_offer(s("CNFT"), &offer_params(user, user)).unwrap();
    client.proposal_count = u32::MAX;
    assert_eq!(
        client.submit_ad_proposal(&s(user), id, 1, s("title"), s("x"), false).err(),
        Some(AdminError::OnlySponsor)
    );
    assert_eq!(
        client.submit_ad_proposal(&s(user), id, 1, s("title"), s("x"), true).err(),
        Some(AdminError::ArithmeticOverflow)
    );
    let params = mint_params(id, user, "CTOKEN");
    let off = MintPriceSettings { enabled: false, amount: 1000 };
    assert_eq!(
        client.mint_plan(&params, off, &s(CONTRACT), u32::MAX).err(),
        Some(AdminError::PriceNotEnabled)
    );
    let price = MintPriceSettings { enabled: true, amount: 1000 };
    assert_eq!(
        client.mint_plan(&params, price, &s(CONTRACT), u32::MAX).err(),
        Some(AdminError::ArithmeticOverflow)
    );
    client.update_protocol_fee(1, s(FEE_RECIPIENT)).unwrap();
    let huge = MintPriceSettings { enabled: true, amount: u128::MAX - 1 };
    assert_eq!(client.get_fee_amount(u128::MAX - 1), (u128::MAX - 1) / 1000);
    assert_eq!(
        client.mint_plan(&params, huge, &s(CONTRACT), 10).err(),
        Some(AdminError::ArithmeticOverflow)
    );
    assert_eq!(
        client.mint_and_submit(&params, price, &s(CONTRACT), 10, &vec![true, true]).err(),
        Some(AdminError::ArithmeticOverflow)
    );
}

#[test]
fn signers_of_gateway_actions() {
    let user = "GUSER";
    let fresh = DSponsorAdmin::new();
    assert_eq!(fresh.required_signer(&AdminAction::UpdateProtocolFee), None);
    let client = setup_test_env(user);
    assert_eq!(client.required_signer(&AdminAction::Initialize), None);
    assert_eq!(client.required_signer(&AdminAction::CreateOffer), None);
    assert_eq!(client.required_signer(&AdminAction::UpdateOffer), None);
    assert_eq!(client.required_signer(&AdminAction::CreateDsponsorNft), None);
    assert_eq!(client.required_signer(&AdminAction::CreateDsponsorNftAndOffer), None);
    assert_eq!(client.required_signer(&AdminAction::UpdateProtocolFee), Some(s(user)));
    assert_eq!(
        client.required_signer(&AdminAction::SubmitAdProposals { caller: s("GC") }),
        Some(s("GC"))
    );
    assert_eq!(
        client.required_signer(&AdminAction::ReviewAdProposal { validator: s("GV") }),
        Some(s("GV"))
    );
    assert_eq!(
        client.required_signer(&AdminAction::MintAndSubmit { to: s("GT"), currency: s(NATIVE) }),
        Some(s("GT"))
    );
    assert_eq!(
        client.required_signer(&AdminAction::MintAndSubmit { to: s("GT"), currency: s("CTOKEN") }),
        None
    );
}

#[test]
fn review_of_proposal_zero_is_refused() {
    let user = "GUSER";
    let mut client = setup_test_env(user);
    let id = client.create_offer(s("CNFT"), &offer_params(user, user)).unwrap();
    assert_eq!(
        client.review_ad_proposal(id, 1, 0, s("title"), true, &s("r"), &s(user)).err(),
        Some(AdminError::ProposalNotSubmitted)
    );
    let pid = client.submit_ad_proposal(&s(user), id, 1, s("title"), s("x"), true).unwrap();
    client.review_ad_proposal(id, 1, pid, s("title"), true, &s("ok"), &s(user)).unwrap();
    assert_eq!(
        client.review_ad_proposal(id, 1, 0, s("title"), false, &s("r"), &s(user)).err(),
        Some(AdminError::ProposalNotSubmitted)
    );
    assert_eq!(proposal(&client.get_offer_proposals(id, 1).unwrap(), "title"), (0, pid, 0));
}
