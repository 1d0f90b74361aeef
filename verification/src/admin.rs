//! The admin gateway: sponsoring offers, the ad proposals that sponsors
//! submit for them and validators review, and the protocol fee taken on mints.

use vstd::prelude::*;

use crate::calls::{call_views, CallView, TokenCall};
use crate::factory::{chosen_salt, default_salt, NftDeployment};
use crate::keymap::{Duplicate, KeyMap};
use crate::text::{is_empty_text, seq_views};

pub use crate::nft::{InitParams, MintPriceSettings};

verus! {

/// The largest protocol fee, in thousandths of the amount.
pub const MAX_PROTOCOL_FEE_BPS: u32 = 1000u32;

/// For how many ledgers the approval given to a collection for a mint lasts.
pub const APPROVAL_LEDGERS: u32 = 100u32;

pub struct OfferOptions {
    pub admins: Vec<String>,
    pub validators: Vec<String>,
    pub ad_parameters: Vec<String>,
}

pub struct OfferInitParams {
    pub name: String,
    pub offer_metadata: String,
    pub options: OfferOptions,
}

/// The latest submission and review of one ad parameter of one token.
pub struct SponsoringProposal {
    pub last_validated: u32,
    pub last_rejected: u32,
    pub last_submitted: u32,
    pub data: String,
}

pub struct ProposalView {
    pub last_validated: u32,
    pub last_rejected: u32,
    pub last_submitted: u32,
    pub data: Seq<char>,
}

impl View for SponsoringProposal {
    type V = ProposalView;

    open spec fn view(&self) -> ProposalView {
        ProposalView {
            last_validated: self.last_validated,
            last_rejected: self.last_rejected,
            last_submitted: self.last_submitted,
            data: self.data@,
        }
    }
}

impl Duplicate for SponsoringProposal {
    fn duplicate(&self) -> (r: Self) {
        SponsoringProposal {
            last_validated: self.last_validated,
            last_rejected: self.last_rejected,
            last_submitted: self.last_submitted,
            data: self.data.clone(),
        }
    }
}

/// The proposal that stands where none was submitted.
pub open spec fn empty_proposal() -> ProposalView {
    ProposalView { last_validated: 0, last_rejected: 0, last_submitted: 0, data: Seq::empty() }
}

/// An ad space offered for sponsoring, backed by one NFT collection.
pub struct SponsoringOffer {
    pub id: u32,
    pub disabled: bool,
    pub nft_contract: String,
    pub admins: KeyMap<String, bool>,
    pub validators: KeyMap<String, bool>,
    pub ad_parameters: KeyMap<String, bool>,
    /// Proposals by token id, then by ad parameter.
    pub proposals: KeyMap<u32, KeyMap<String, SponsoringProposal>>,
    pub offer_metadata: String,
}

pub struct OfferView {
    pub id: u32,
    pub disabled: bool,
    pub nft_contract: Seq<char>,
    pub admins: Map<Seq<char>, bool>,
    pub validators: Map<Seq<char>, bool>,
    pub ad_parameters: Map<Seq<char>, bool>,
    pub proposals: Map<u32, Map<Seq<char>, ProposalView>>,
    pub offer_metadata: Seq<char>,
}

impl View for SponsoringOffer {
    type V = OfferView;

    open spec fn view(&self) -> OfferView {
        OfferView {
            id: self.id,
            disabled: self.disabled,
            nft_contract: self.nft_contract@,
            admins: self.admins@,
            validators: self.validators@,
            ad_parameters: self.ad_parameters@,
            proposals: self.proposals@,
            offer_metadata: self.offer_metadata@,
        }
    }
}

impl Duplicate for SponsoringOffer {
    fn duplicate(&self) -> (r: Self) {
        SponsoringOffer {
            id: self.id,
            disabled: self.disabled,
            nft_contract: self.nft_contract.clone(),
            admins: self.admins.duplicate(),
            validators: self.validators.duplicate(),
            ad_parameters: self.ad_parameters.duplicate(),
            proposals: self.proposals.duplicate(),
            offer_metadata: self.offer_metadata.clone(),
        }
    }
}

/// Whether `m` marks `k`.
pub open spec fn flagged(m: Map<Seq<char>, bool>, k: Seq<char>) -> bool {
    m.contains_key(k) && m[k]
}

/// The map that marks exactly the texts of `keys`.
pub open spec fn flag_map(keys: Seq<Seq<char>>) -> Map<Seq<char>, bool> {
    Map::new(|k: Seq<char>| keys.contains(k), |k: Seq<char>| true)
}

/// The proposal of `token_id` for `ad_parameter` in `o`, or the empty one.
pub open spec fn proposal_of(o: OfferView, token_id: u32, ad_parameter: Seq<char>) -> ProposalView {
    if o.proposals.contains_key(token_id) && o.proposals[token_id].contains_key(ad_parameter) {
        o.proposals[token_id][ad_parameter]
    } else {
        empty_proposal()
    }
}

/// The proposals of `token_id` in `o`, or none.
pub open spec fn proposals_of(o: OfferView, token_id: u32) -> Map<Seq<char>, ProposalView> {
    if o.proposals.contains_key(token_id) {
        o.proposals[token_id]
    } else {
        Map::empty()
    }
}

/// `o` with the proposal of `token_id` for `ad_parameter` replaced by `p`.
pub open spec fn with_proposal(o: OfferView, token_id: u32, ad_parameter: Seq<char>, p: ProposalView) -> OfferView {
    OfferView {
        proposals: o.proposals.insert(token_id, proposals_of(o, token_id).insert(ad_parameter, p)),
        ..o
    }
}

/// The proposal of `token_id` for `ad_parameter` after `with_proposal`: the
/// replaced one is `p`, every other is as before.
pub proof fn lemma_proposal_of_with(
    o: OfferView,
    token_id: u32,
    ad_parameter: Seq<char>,
    p: ProposalView,
    t: u32,
    k: Seq<char>,
)
    ensures
        proposal_of(with_proposal(o, token_id, ad_parameter, p), t, k) == if t == token_id && k == ad_parameter {
            p
        } else {
            proposal_of(o, t, k)
        },
{
}

/// Every proposal number that `o` records is at most `n`.
pub open spec fn offer_numbered(o: OfferView, n: u32) -> bool {
    forall|t: u32, k: Seq<char>|
        {
            &&& (#[trigger] proposal_of(o, t, k)).last_submitted <= n
            &&& proposal_of(o, t, k).last_validated <= n
            &&& proposal_of(o, t, k).last_rejected <= n
        }
}

/// Replacing offer `idx + 1` by one whose numbers are handed out keeps every
/// number handed out, under a counter that only grows.
proof fn lemma_numbered_update(m: AdminModel, idx: int, o: OfferView, n: u32)
    requires
        m.proposals_numbered(),
        0 <= idx < m.offers.len(),
        m.proposal_count <= n,
        offer_numbered(o, n),
    ensures
        (AdminModel { proposal_count: n, offers: m.offers.update(idx, o), ..m }).proposals_numbered(),
{
    let m2 = AdminModel { proposal_count: n, offers: m.offers.update(idx, o), ..m };
    assert forall|i: int, t: u32, k: Seq<char>| 0 <= i < m2.offers.len() implies {
        &&& (#[trigger] proposal_of(m2.offers[i], t, k)).last_submitted <= m2.proposal_count
        &&& proposal_of(m2.offers[i], t, k).last_validated <= m2.proposal_count
        &&& proposal_of(m2.offers[i], t, k).last_rejected <= m2.proposal_count
    } by {
        if i == idx {
            assert(proposal_of(o, t, k).last_submitted <= n);
        } else {
            assert(proposal_of(m.offers[i], t, k).last_submitted <= m.proposal_count);
        }
    }
}

pub struct MintAndSubmitParams {
    pub token_id: u32,
    pub to: String,
    pub currency: String,
    pub token_data: String,
    pub offer_id: u32,
    pub ad_parameters: Vec<String>,
    pub ad_datas: Vec<String>,
    pub referral_info: String,
}

pub struct ReferralInfo {
    pub enabler: String,
    pub spender: String,
    pub additional_info: String,
}

pub struct ReviewAdProposal {
    pub offer_id: u32,
    pub token_id: u32,
    pub proposal_id: u32,
    pub ad_parameter: String,
    pub validated: bool,
    pub reason: String,
    pub validator: String,
}

pub struct ReviewView {
    pub offer_id: u32,
    pub token_id: u32,
    pub proposal_id: u32,
    pub ad_parameter: Seq<char>,
    pub validated: bool,
    pub validator: Seq<char>,
}

impl View for ReviewAdProposal {
    type V = ReviewView;

    open spec fn view(&self) -> ReviewView {
        ReviewView {
            offer_id: self.offer_id,
            token_id: self.token_id,
            proposal_id: self.proposal_id,
            ad_parameter: self.ad_parameter@,
            validated: self.validated,
            validator: self.validator@,
        }
    }
}

/// The settings of the gateway, set once by `initialize`.
pub struct AdminConfig {
    pub factory: String,
    pub bps: u32,
    pub fee_recipient: String,
    pub admin: String,
    pub native: String,
}

pub struct AdminConfigView {
    pub factory: Seq<char>,
    pub bps: u32,
    pub fee_recipient: Seq<char>,
    pub admin: Seq<char>,
    pub native: Seq<char>,
}

impl View for AdminConfig {
    type V = AdminConfigView;

    open spec fn view(&self) -> AdminConfigView {
        AdminConfigView {
            factory: self.factory@,
            bps: self.bps,
            fee_recipient: self.fee_recipient@,
            admin: self.admin@,
            native: self.native@,
        }
    }
}

/// Why the gateway refuses a request.
#[derive(Clone, Copy, Debug, PartialEq, Eq, Structural)]
pub enum AdminError {
    AlreadyInitialized,
    /// The protocol fee is above `MAX_PROTOCOL_FEE_BPS`.
    FeeTooHigh,
    NotInitialized,
    EmptyOfferMetadata,
    NoAdmins,
    NoAdParameters,
    /// No offer was ever created.
    NoOffers,
    OfferNotFound,
    /// The caller is not the current user of the token.
    OnlySponsor,
    OfferDisabled,
    UnallowedAdParameter,
    NoAdData,
    /// An ad parameter of a mint has no data beside it.
    MissingAdData,
    LengthMismatch,
    UnauthorizedValidator,
    /// The proposal id is not that of a pending proposal: none is pending, or
    /// another one is.
    ProposalNotSubmitted,
    NoReviews,
    UnauthorizedAdmin,
    NativeNotSet,
    FeeRecipientNotSet,
    FactoryNotSet,
    /// A payment in the native currency from anyone but the gateway itself.
    CannotSendFromSender,
    /// The collection has no enabled price for this token and currency.
    PriceNotEnabled,
    /// A counter, the price of a mint with its fee, or the expiry ledger of
    /// an approval does not fit its integer type.
    ArithmeticOverflow,
}

/// The state of the gateway. Offer `i + 1` is `offers[i]`.
pub struct DSponsorAdmin {
    pub config: Option<AdminConfig>,
    pub proposal_count: u32,
    pub offers: Vec<SponsoringOffer>,
}

pub struct AdminModel {
    pub config: Option<AdminConfigView>,
    pub proposal_count: u32,
    pub offers: Seq<OfferView>,
}

impl View for DSponsorAdmin {
    type V = AdminModel;

    open spec fn view(&self) -> AdminModel {
        AdminModel {
            config: match self.config {
                Some(c) => Some(c@),
                None => None,
            },
            proposal_count: self.proposal_count,
            offers: self.offers@.map_values(|o: SponsoringOffer| o@),
        }
    }
}

/// The protocol fee on `base_amount` at `bps` thousandths, or 0 where the
/// product does not fit in a `u128`.
pub open spec fn protocol_fee(base_amount: u128, bps: u32) -> u128 {
    if base_amount * bps > u128::MAX {
        0
    } else {
        ((base_amount * bps) / 1000) as u128
    }
}

/// The offer that `offer_params` create as offer `id` of `nft_contract`.
pub open spec fn new_offer(id: u32, nft_contract: Seq<char>, offer_params: &OfferInitParams) -> OfferView {
    OfferView {
        id,
        disabled: false,
        nft_contract,
        admins: flag_map(seq_views(offer_params.options.admins@)),
        validators: flag_map(seq_views(offer_params.options.validators@)),
        ad_parameters: flag_map(seq_views(offer_params.options.ad_parameters@)),
        proposals: Map::empty(),
        offer_metadata: offer_params.offer_metadata@,
    }
}

/// Why offer parameters are refused, if they are: an offer needs metadata,
/// an admin and an ad parameter.
pub open spec fn offer_params_error(offer_params: &OfferInitParams) -> Option<AdminError> {
    if offer_params.offer_metadata@.len() == 0 {
        Some(AdminError::EmptyOfferMetadata)
    } else if offer_params.options.admins@.len() == 0 {
        Some(AdminError::NoAdmins)
    } else if offer_params.options.ad_parameters@.len() == 0 {
        Some(AdminError::NoAdParameters)
    } else {
        None
    }
}

/// The smaller of two lengths.
pub open spec fn min_len(a: nat, b: nat) -> nat {
    if a < b {
        a
    } else {
        b
    }
}

impl AdminModel {
    /// Every proposal number that an offer records was handed out: none is
    /// above the proposal counter.
    pub open spec fn proposals_numbered(self) -> bool {
        forall|i: int, t: u32, k: Seq<char>|
            0 <= i < self.offers.len() ==> {
                &&& (#[trigger] proposal_of(self.offers[i], t, k)).last_submitted <= self.proposal_count
                &&& proposal_of(self.offers[i], t, k).last_validated <= self.proposal_count
                &&& proposal_of(self.offers[i], t, k).last_rejected <= self.proposal_count
            }
    }

    pub open spec fn fee_bps(self) -> u32 {
        match self.config {
            Some(c) => c.bps,
            None => 0,
        }
    }

    pub open spec fn initialize_error(self, bps: u32) -> Option<AdminError> {
        if self.config is Some {
            Some(AdminError::AlreadyInitialized)
        } else if bps > MAX_PROTOCOL_FEE_BPS {
            Some(AdminError::FeeTooHigh)
        } else {
            None
        }
    }

    pub open spec fn update_offer_error(self, offer_id: u32, admin: Seq<char>, offer_params: &OfferInitParams) -> Option<
        AdminError,
    > {
        if offer_params_error(offer_params) is Some {
            offer_params_error(offer_params)
        } else if self.offer_error(offer_id) is Some {
            self.offer_error(offer_id)
        } else if !flagged(self.offer(offer_id).admins, admin) {
            Some(AdminError::UnauthorizedAdmin)
        } else {
            None
        }
    }

    /// The submissions of a mint's ad proposals: the proposals that have data
    /// beside them, in order.
    pub open spec fn submissions_of(self, params: &MintAndSubmitParams, caller_is_user: Seq<bool>) -> Result<
        AdminModel,
        AdminError,
    > {
        let m = min_len(params.ad_parameters@.len(), params.ad_datas@.len());
        submit_batch(
            self,
            Seq::new(m, |i: int| params.offer_id),
            Seq::new(m, |i: int| params.token_id),
            seq_views(params.ad_parameters@.take(m as int)),
            seq_views(params.ad_datas@.take(m as int)),
            caller_is_user.take(m as int),
            m,
        )
    }

    /// Why a mint through the gateway is refused, if it is.
    pub open spec fn mint_plan_error(
        self,
        params: &MintAndSubmitParams,
        price: MintPriceSettings,
        ledger_sequence: u32,
    ) -> Option<AdminError> {
        if self.offer_error(params.offer_id) is Some {
            self.offer_error(params.offer_id)
        } else if !price.enabled {
            Some(AdminError::PriceNotEnabled)
        } else if self.config is None {
            Some(AdminError::NativeNotSet)
        } else if price.amount + protocol_fee(price.amount, self.fee_bps()) > u128::MAX || ledger_sequence
            + APPROVAL_LEDGERS > u32::MAX {
            Some(AdminError::ArithmeticOverflow)
        } else {
            None
        }
    }

    /// Why offer parameters are refused, or the offer counter would overflow.
    pub open spec fn create_offer_error(self, offer_params: &OfferInitParams) -> Option<AdminError> {
        if offer_params_error(offer_params) is Some {
            offer_params_error(offer_params)
        } else if self.offers.len() >= u32::MAX {
            Some(AdminError::ArithmeticOverflow)
        } else {
            None
        }
    }

    /// Why a mint through the gateway with its ad proposals is refused, if it
    /// is.
    pub open spec fn mint_and_submit_error(
        self,
        params: &MintAndSubmitParams,
        price: MintPriceSettings,
        ledger_sequence: u32,
        caller_is_user: Seq<bool>,
    ) -> Option<AdminError> {
        if self.mint_plan_error(params, price, ledger_sequence) is Some {
            self.mint_plan_error(params, price, ledger_sequence)
        } else {
            match self.submissions_of(params, caller_is_user) {
                Err(e) => Some(e),
                Ok(_) => if params.ad_datas@.len() < params.ad_parameters@.len() {
                    Some(AdminError::MissingAdData)
                } else {
                    None
                },
            }
        }
    }

    /// Why offer `offer_id` cannot be looked up, if it cannot.
    pub open spec fn offer_error(self, offer_id: u32) -> Option<AdminError> {
        if self.offers.len() == 0 {
            Some(AdminError::NoOffers)
        } else if !(1 <= offer_id <= self.offers.len()) {
            Some(AdminError::OfferNotFound)
        } else {
            None
        }
    }

    pub open spec fn offer(self, offer_id: u32) -> OfferView {
        self.offers[offer_id - 1]
    }

    pub open spec fn submit_error(
        self,
        offer_id: u32,
        ad_parameter: Seq<char>,
        data: Seq<char>,
        caller_is_user: bool,
    ) -> Option<AdminError> {
        if self.offer_error(offer_id) is Some {
            self.offer_error(offer_id)
        } else if !caller_is_user {
            Some(AdminError::OnlySponsor)
        } else if self.offer(offer_id).disabled {
            Some(AdminError::OfferDisabled)
        } else if !flagged(self.offer(offer_id).ad_parameters, ad_parameter) {
            Some(AdminError::UnallowedAdParameter)
        } else if data.len() == 0 {
            Some(AdminError::NoAdData)
        } else if self.proposal_count == u32::MAX {
            Some(AdminError::ArithmeticOverflow)
        } else {
            None
        }
    }

    /// A new proposal, numbered after the last one, replaces the pending one
    /// of `token_id` for `ad_parameter`; its reviews so far stay.
    pub open spec fn after_submit(self, offer_id: u32, token_id: u32, ad_parameter: Seq<char>, data: Seq<char>) -> AdminModel {
        let id = (self.proposal_count + 1) as u32;
        let o = self.offer(offer_id);
        let p = proposal_of(o, token_id, ad_parameter);
        AdminModel {
            proposal_count: id,
            offers: self.offers.update(
                offer_id - 1,
                with_proposal(o, token_id, ad_parameter, ProposalView { last_submitted: id, data: data, ..p }),
            ),
            ..self
        }
    }

    pub open spec fn review_error(
        self,
        offer_id: u32,
        token_id: u32,
        proposal_id: u32,
        ad_parameter: Seq<char>,
        validator: Seq<char>,
    ) -> Option<AdminError> {
        if self.offer_error(offer_id) is Some {
            self.offer_error(offer_id)
        } else if self.offer(offer_id).disabled {
            Some(AdminError::OfferDisabled)
        } else if !flagged(self.offer(offer_id).validators, validator) {
            Some(AdminError::UnauthorizedValidator)
        } else if !flagged(self.offer(offer_id).ad_parameters, ad_parameter) {
            Some(AdminError::UnallowedAdParameter)
        } else if proposal_id == 0 || proposal_id != proposal_of(self.offer(offer_id), token_id, ad_parameter).last_submitted {
            Some(AdminError::ProposalNotSubmitted)
        } else {
            None
        }
    }

    /// The pending proposal becomes validated or rejected, and nothing is
    /// pending any more.
    pub open spec fn after_review(
        self,
        offer_id: u32,
        token_id: u32,
        proposal_id: u32,
        ad_parameter: Seq<char>,
        validated: bool,
    ) -> AdminModel {
        let o = self.offer(offer_id);
        let p = proposal_of(o, token_id, ad_parameter);
        let reviewed = if validated {
            ProposalView { last_validated: proposal_id, last_submitted: 0, ..p }
        } else {
            ProposalView { last_rejected: proposal_id, last_submitted: 0, ..p }
        };
        AdminModel {
            offers: self.offers.update(offer_id - 1, with_proposal(o, token_id, ad_parameter, reviewed)),
            ..self
        }
    }
}

/// Submits the first `n` proposals of a batch in order, stopping at the first
/// refusal.
pub open spec fn submit_batch(
    m: AdminModel,
    offer_ids: Seq<u32>,
    token_ids: Seq<u32>,
    ad_parameters: Seq<Seq<char>>,
    datas: Seq<Seq<char>>,
    caller_is_user: Seq<bool>,
    n: nat,
) -> Result<AdminModel, AdminError>
    decreases n,
{
    if n == 0 {
        Ok(m)
    } else {
        match submit_batch(m, offer_ids, token_ids, ad_parameters, datas, caller_is_user, (n - 1) as nat) {
            Err(e) => Err(e),
            Ok(m2) => {
                let i = n - 1;
                match m2.submit_error(offer_ids[i], ad_parameters[i], datas[i], caller_is_user[i]) {
                    Some(e) => Err(e),
                    None => Ok(m2.after_submit(offer_ids[i], token_ids[i], ad_parameters[i], datas[i])),
                }
            },
        }
    }
}

/// Applies the first `n` reviews in order, stopping at the first refusal.
pub open spec fn review_batch(m: AdminModel, reviews: Seq<ReviewView>, n: nat) -> Result<AdminModel, AdminError>
    decreases n,
{
    if n == 0 {
        Ok(m)
    } else {
        match review_batch(m, reviews, (n - 1) as nat) {
            Err(e) => Err(e),
            Ok(m2) => {
                let r = reviews[n - 1];
                match m2.review_error(r.offer_id, r.token_id, r.proposal_id, r.ad_parameter, r.validator) {
                    Some(e) => Err(e),
                    None => Ok(m2.after_review(r.offer_id, r.token_id, r.proposal_id, r.ad_parameter, r.validated)),
                }
            },
        }
    }
}

/// The offers among the first `n` of which `user` is an admin, in order.
pub open spec fn user_offers(offers: Seq<OfferView>, user: Seq<char>, n: nat) -> Seq<OfferView>
    decreases n,
{
    if n == 0 || n > offers.len() {
        Seq::empty()
    } else {
        let before = user_offers(offers, user, (n - 1) as nat);
        if flagged(offers[n - 1].admins, user) {
            before.push(offers[n - 1])
        } else {
            before
        }
    }
}

/// A batch stays refused once a step of it is refused.
proof fn lemma_submit_batch_err(
    m: AdminModel,
    offer_ids: Seq<u32>,
    token_ids: Seq<u32>,
    ad_parameters: Seq<Seq<char>>,
    datas: Seq<Seq<char>>,
    caller_is_user: Seq<bool>,
    i: nat,
    n: nat,
    e: AdminError,
)
    requires
        i <= n,
        submit_batch(m, offer_ids, token_ids, ad_parameters, datas, caller_is_user, i) == Err::<AdminModel, AdminError>(e),
    ensures
        submit_batch(m, offer_ids, token_ids, ad_parameters, datas, caller_is_user, n) == Err::<AdminModel, AdminError>(e),
    decreases n - i,
{
    if i < n {
        lemma_submit_batch_err(m, offer_ids, token_ids, ad_parameters, datas, caller_is_user, i, (n - 1) as nat, e);
    }
}

proof fn lemma_review_batch_err(m: AdminModel, reviews: Seq<ReviewView>, i: nat, n: nat, e: AdminError)
    requires
        i <= n,
        review_batch(m, reviews, i) == Err::<AdminModel, AdminError>(e),
    ensures
        review_batch(m, reviews, n) == Err::<AdminModel, AdminError>(e),
    decreases n - i,
{
    if i < n {
        lemma_review_batch_err(m, reviews, i, (n - 1) as nat, e);
    }
}

proof fn lemma_contains_push(s: Seq<Seq<char>>, x: Seq<char>, k: Seq<char>)
    ensures
        s.push(x).contains(k) == (s.contains(k) || k == x),
{
    if s.push(x).contains(k) {
        let j = choose|j: int| 0 <= j < s.push(x).len() && s.push(x)[j] == k;
        if j < s.len() {
            assert(s[j] == k);
        }
    }
    if s.contains(k) {
        let j = choose|j: int| 0 <= j < s.len() && s[j] == k;
        assert(s.push(x)[j] == k);
    }
    if k == x {
        assert(s.push(x)[s.len() as int] == k);
    }
}

/// The map that marks exactly the strings of `list`.
pub fn flag_map_of(list: &Vec<String>) -> (m: KeyMap<String, bool>)
    ensures
        m@ == flag_map(seq_views(list@)),
{
    let mut m: KeyMap<String, bool> = KeyMap::new();
    let ghost keys = seq_views(list@);
    let mut i: usize = 0;
    proof {
        assert(flag_map(keys.take(0)) =~= Map::<Seq<char>, bool>::empty());
    }
    while i < list.len()
        invariant
            i <= list@.len(),
            keys == seq_views(list@),
            m@ == flag_map(keys.take(i as int)),
        decreases list@.len() - i,
    {
        m.insert(list[i].clone(), true);
        proof {
            assert(keys.take(i + 1) =~= keys.take(i as int).push(list@[i as int]@));
            assert forall|k: Seq<char>| #[trigger] keys.take(i + 1).contains(k) == (keys.take(i as int).contains(k)
                || k == list@[i as int]@) by {
                lemma_contains_push(keys.take(i as int), list@[i as int]@, k);
            }
            assert(flag_map(keys.take(i + 1)) =~= flag_map(keys.take(i as int)).insert(list@[i as int]@, true));
        }
        i = i + 1;
    }
    proof {
        assert(keys.take(list@.len() as int) =~= keys);
    }
    m
}

/// Whether `m` marks `k`.
fn is_flagged(m: &KeyMap<String, bool>, k: &String) -> (b: bool)
    ensures
        b == flagged(m@, k@),
{
    match m.get(k) {
        Some(b) => *b,
        None => false,
    }
}

/// The token calls that a mint through the gateway makes, and the mint
/// itself: the gateway collects the price and the fee from the payer, lets
/// the collection take the price, and pays the fee to the fee recipient.
pub struct ProtocolFeePlan {
    /// Whether the payer must authorize the first transfer itself.
    pub payer_authorizes: bool,
    pub token_calls: Vec<TokenCall>,
    /// The mint on the collection that follows the payments.
    pub mint: NftMintCall,
}

/// The call `mint(caller, token_id, to, currency)` on a collection.
pub struct NftMintCall {
    pub nft_contract: String,
    pub caller: String,
    pub token_id: i128,
    pub to: String,
    pub currency: String,
}

pub struct NftMintView {
    pub nft_contract: Seq<char>,
    pub caller: Seq<char>,
    pub token_id: i128,
    pub to: Seq<char>,
    pub currency: Seq<char>,
}

impl View for NftMintCall {
    type V = NftMintView;

    open spec fn view(&self) -> NftMintView {
        NftMintView {
            nft_contract: self.nft_contract@,
            caller: self.caller@,
            token_id: self.token_id,
            to: self.to@,
            currency: self.currency@,
        }
    }
}

/// The payment of `amount` from `from` to `to` in `currency`, made by the
/// gateway `contract`, or nothing for a zero amount.
pub open spec fn payment_call(
    native: Seq<char>,
    contract: Seq<char>,
    from: Seq<char>,
    to: Seq<char>,
    amount: u128,
    currency: Seq<char>,
) -> Seq<CallView> {
    if amount == 0 {
        Seq::empty()
    } else if currency == native || from == contract {
        seq![CallView::Transfer { token: currency, from, to, amount: amount as i128 }]
    } else {
        seq![CallView::TransferFrom { token: currency, spender: contract, from, to, amount: amount as i128 }]
    }
}

/// The token calls of a mint of `base_amount` through the gateway `contract`:
/// the payer hands over the amount and the fee, the collection `target` is
/// allowed to take the amount, and the fee goes to the fee recipient.
pub open spec fn protocol_fee_calls(
    c: AdminConfigView,
    contract: Seq<char>,
    target: Seq<char>,
    currency: Seq<char>,
    base_amount: u128,
    payer: Seq<char>,
    ledger_sequence: u32,
) -> Seq<CallView> {
    let fee = protocol_fee(base_amount, c.bps);
    let total = (base_amount + fee) as i128;
    let collect = if currency == c.native {
        CallView::Transfer { token: currency, from: payer, to: contract, amount: total }
    } else {
        CallView::TransferFrom { token: currency, spender: contract, from: payer, to: contract, amount: total }
    };
    seq![
        collect,
        CallView::Approve {
            token: currency,
            from: contract,
            spender: target,
            amount: base_amount as i128,
            expiration_ledger: (ledger_sequence + APPROVAL_LEDGERS) as u32,
        },
    ] + payment_call(c.native, contract, contract, c.fee_recipient, fee, currency)
}

impl DSponsorAdmin {
    pub open spec fn wf(&self) -> bool {
        &&& self@.offers.len() <= u32::MAX
        &&& forall|i: int| 0 <= i < self@.offers.len() ==> #[trigger] self@.offers[i].id == i + 1
        &&& self.config matches Some(c) ==> c.bps <= MAX_PROTOCOL_FEE_BPS
        &&& self@.proposals_numbered()
    }

    /// A gateway that was deployed and not yet initialized.
    pub fn new() -> (r: Self)
        ensures
            r.wf(),
            r@.config is None,
            r@.proposal_count == 0,
            r@.offers.len() == 0,
    {
        DSponsorAdmin { config: None, proposal_count: 0, offers: Vec::new() }
    }

    /// Sets the factory, the protocol fee and its recipient, the admin and
    /// the native currency, once.
    pub fn initialize(
        &mut self,
        nft_factory: String,
        fee_recipient: String,
        native_xlm: String,
        bps: u32,
        admin: String,
    ) -> (r: Result<(), AdminError>)
        requires
            old(self).wf(),
        ensures
            final(self).wf(),
            match r {
                Ok(()) => old(self)@.initialize_error(bps) is None && final(self)@ == (AdminModel {
                    config: Some(
                        AdminConfigView {
                            factory: nft_factory@,
                            bps,
                            fee_recipient: fee_recipient@,
                            admin: admin@,
                            native: native_xlm@,
                        },
                    ),
                    ..old(self)@
                }),
                Err(e) => old(self)@.initialize_error(bps) == Some(e) && *final(self) == *old(self),
            },
    {
        if self.config.is_some() {
            return Err(AdminError::AlreadyInitialized);
        }
        if bps > MAX_PROTOCOL_FEE_BPS {
            return Err(AdminError::FeeTooHigh);
        }
        self.config = Some(AdminConfig { factory: nft_factory, bps, fee_recipient, admin, native: native_xlm });
        Ok(())
    }

    /// Creates offer number `offers.len() + 1` for the collection
    /// `nft_contract`, with the given admins, validators and ad parameters.
    pub fn create_offer(&mut self, nft_contract: String, offer_params: &OfferInitParams) -> (r: Result<u32, AdminError>)
        requires
            old(self).wf(),
        ensures
            final(self).wf(),
            match r {
                Ok(id) => {
                    &&& old(self)@.create_offer_error(offer_params) is None
                    &&& id == old(self)@.offers.len() + 1
                    &&& final(self)@ == (AdminModel {
                        offers: old(self)@.offers.push(new_offer(id, nft_contract@, offer_params)),
                        ..old(self)@
                    })
                },
                Err(e) => old(self)@.create_offer_error(offer_params) == Some(e) && *final(self) == *old(self),
            },
    {
        if is_empty_text(&offer_params.offer_metadata) {
            return Err(AdminError::EmptyOfferMetadata);
        }
        if offer_params.options.admins.len() == 0 {
            return Err(AdminError::NoAdmins);
        }
        if offer_params.options.ad_parameters.len() == 0 {
            return Err(AdminError::NoAdParameters);
        }
        if self.offers.len() >= u32::MAX as usize {
            return Err(AdminError::ArithmeticOverflow);
        }
        let new_id = (self.offers.len() + 1) as u32;
        let offer = SponsoringOffer {
            id: new_id,
            disabled: false,
            nft_contract,
            admins: flag_map_of(&offer_params.options.admins),
            validators: flag_map_of(&offer_params.options.validators),
            ad_parameters: flag_map_of(&offer_params.options.ad_parameters),
            proposals: KeyMap::new(),
            offer_metadata: offer_params.offer_metadata.clone(),
        };
        let ghost pre = self@;
        self.offers.push(offer);
        proof {
            assert(self@.offers =~= pre.offers.push(self.offers@.last()@));
        }
        Ok(new_id)
    }
    /// Checks that offer `offer_id` exists and gives its index.
    fn offer_index(&self, offer_id: u32) -> (r: Result<usize, AdminError>)
        requires
            self.wf(),
        ensures
            match r {
                Ok(i) => self@.offer_error(offer_id) is None && i == offer_id - 1,
                Err(e) => self@.offer_error(offer_id) == Some(e),
            },
    {
        if self.offers.len() == 0 {
            return Err(AdminError::NoOffers);
        }
        if offer_id < 1 || offer_id as usize > self.offers.len() {
            return Err(AdminError::OfferNotFound);
        }
        Ok((offer_id - 1) as usize)
    }

    /// `caller` proposes `data` for `ad_parameter` of token `token_id` in offer
    /// `offer_id`. `caller_is_user` is whether the offer's collection reports
    /// `caller` as the current user of the token.
    pub fn submit_ad_proposal(
        &mut self,
        caller: &String,
        offer_id: u32,
        token_id: u32,
        ad_parameter: String,
        data: String,
        caller_is_user: bool,
    ) -> (r: Result<u32, AdminError>)
        requires
            old(self).wf(),
        ensures
            final(self).wf(),
            match r {
                Ok(id) => old(self)@.submit_error(offer_id, ad_parameter@, data@, caller_is_user) is None
                    && id == old(self).proposal_count + 1
                    && final(self)@ == old(self)@.after_submit(offer_id, token_id, ad_parameter@, data@),
                Err(e) => old(self)@.submit_error(offer_id, ad_parameter@, data@, caller_is_user) == Some(e)
                    && *final(self) == *old(self),
            },
    {
        let idx = match self.offer_index(offer_id) {
            Ok(i) => i,
            Err(e) => {
                return Err(e);
            },
        };
        if !caller_is_user {
            return Err(AdminError::OnlySponsor);
        }
        if self.offers[idx].disabled {
            return Err(AdminError::OfferDisabled);
        }
        if !is_flagged(&self.offers[idx].ad_parameters, &ad_parameter) {
            return Err(AdminError::UnallowedAdParameter);
        }
        if is_empty_text(&data) {
            return Err(AdminError::NoAdData);
        }
        if self.proposal_count == u32::MAX {
            return Err(AdminError::ArithmeticOverflow);
        }
        let new_id = self.proposal_count + 1;
        self.store_submission(idx, token_id, ad_parameter, data, new_id);
        Ok(new_id)
    }

    /// Records proposal `id` of `data` for `ad_parameter` of token `token_id`
    /// in offer `idx + 1`.
    fn store_submission(&mut self, idx: usize, token_id: u32, ad_parameter: String, data: String, id: u32)
        requires
            old(self).wf(),
            idx < old(self).offers@.len(),
            id == old(self).proposal_count + 1,
        ensures
            final(self).wf(),
            final(self)@ == old(self)@.after_submit((idx + 1) as u32, token_id, ad_parameter@, data@),
    {
        let ghost pre = self@;
        let ghost o = pre.offers[idx as int];
        let ghost param = ad_parameter@;
        let ghost p = proposal_of(o, token_id, param);
        let mut offer = self.offers.remove(idx);
        let mut inner = match offer.proposals.take(&token_id) {
            Some(m) => m,
            None => KeyMap::new(),
        };
        assert(inner@ == proposals_of(o, token_id));
        let mut proposal = match inner.take(&ad_parameter) {
            Some(p) => p,
            None => SponsoringProposal { last_validated: 0, last_rejected: 0, last_submitted: 0, data: String::new() },
        };
        assert(proposal@ == p);
        proposal.last_submitted = id;
        proposal.data = data;
        inner.insert(ad_parameter, proposal);
        offer.proposals.insert(token_id, inner);
        self.offers.insert(idx, offer);
        proof {
            let newp = ProposalView { last_submitted: id, data: data@, ..p };
            assert(proposals_of(o, token_id).remove(param).insert(param, newp) =~= proposals_of(o, token_id).insert(
                param,
                newp,
            ));
            assert(o.proposals.remove(token_id).insert(token_id, proposals_of(o, token_id).insert(param, newp))
                =~= o.proposals.insert(token_id, proposals_of(o, token_id).insert(param, newp)));
            assert(self@.offers =~= pre.offers.update(idx as int, with_proposal(o, token_id, param, newp)));
            assert(proposal_of(pre.offers[idx as int], token_id, param).last_validated <= pre.proposal_count);
            assert forall|t: u32, k: Seq<char>| #![trigger proposal_of(with_proposal(o, token_id, param, newp), t, k)]
                {
                    &&& proposal_of(with_proposal(o, token_id, param, newp), t, k).last_submitted <= id
                    &&& proposal_of(with_proposal(o, token_id, param, newp), t, k).last_validated <= id
                    &&& proposal_of(with_proposal(o, token_id, param, newp), t, k).last_rejected <= id
                } by {
                lemma_proposal_of_with(o, token_id, param, newp, t, k);
                assert(proposal_of(pre.offers[idx as int], t, k).last_submitted <= pre.proposal_count);
            }
            lemma_numbered_update(pre, idx as int, with_proposal(o, token_id, param, newp), id);
        }
        self.proposal_count = id;
    }

    /// Submits the proposals of a batch in order; either all of them are
    /// recorded or, at the first refusal, none. `caller_is_user[i]` is whether
    /// the collection of offer `offer_ids[i]` reports `caller` as the user of
    /// token `token_ids[i]`.
    pub fn submit_ad_proposals(
        &mut self,
        offer_ids: &Vec<u32>,
        token_ids: &Vec<u32>,
        ad_parameters: &Vec<String>,
        datas: &Vec<String>,
        caller: &String,
        caller_is_user: &Vec<bool>,
    ) -> (r: Result<(), AdminError>)
        requires
            old(self).wf(),
            caller_is_user@.len() == offer_ids@.len(),
        ensures
            final(self).wf(),
            match r {
                Ok(()) => {
                    &&& offer_ids@.len() == token_ids@.len() == ad_parameters@.len() == datas@.len()
                    &&& submit_batch(
                        old(self)@,
                        offer_ids@,
                        token_ids@,
                        seq_views(ad_parameters@),
                        seq_views(datas@),
                        caller_is_user@,
                        offer_ids@.len(),
                    ) == Ok::<AdminModel, AdminError>(final(self)@)
                },
                Err(e) => *final(self) == *old(self) && if offer_ids@.len() != token_ids@.len() || offer_ids@.len()
                    != ad_parameters@.len() || offer_ids@.len() != datas@.len() {
                    e == AdminError::LengthMismatch
                } else {
                    submit_batch(
                        old(self)@,
                        offer_ids@,
                        token_ids@,
                        seq_views(ad_parameters@),
                        seq_views(datas@),
                        caller_is_user@,
                        offer_ids@.len(),
                    ) == Err::<AdminModel, AdminError>(e)
                },
            },
    {
        if offer_ids.len() != token_ids.len() || offer_ids.len() != ad_parameters.len() || offer_ids.len()
            != datas.len() {
            return Err(AdminError::LengthMismatch);
        }
        let ghost params = seq_views(ad_parameters@);
        let ghost texts = seq_views(datas@);
        let mut work = self.duplicate();
        let mut i: usize = 0;
        while i < offer_ids.len()
            invariant
                i <= offer_ids@.len(),
                offer_ids@.len() == token_ids@.len() == ad_parameters@.len() == datas@.len()
                    == caller_is_user@.len(),
                params == seq_views(ad_parameters@),
                texts == seq_views(datas@),
                work.wf(),
                self.wf(),
                submit_batch(old(self)@, offer_ids@, token_ids@, params, texts, caller_is_user@, i as nat)
                    == Ok::<AdminModel, AdminError>(work@),
            decreases offer_ids@.len() - i,
        {
            match work.submit_ad_proposal(
                caller,
                offer_ids[i],
                token_ids[i],
                ad_parameters[i].clone(),
                datas[i].clone(),
                caller_is_user[i],
            ) {
                Ok(_) => {},
                Err(e) => {
                    proof {
                        lemma_submit_batch_err(
                            old(self)@,
                            offer_ids@,
                            token_ids@,
                            params,
                            texts,
                            caller_is_user@,
                            (i + 1) as nat,
                            offer_ids@.len(),
                            e,
                        );
                    }
                    return Err(e);
                },
            }
            i = i + 1;
        }
        *self = work;
        Ok(())
    }

    /// `validator` validates or rejects the pending proposal `proposal_id` of
    /// `ad_parameter` of token `token_id` in offer `offer_id`.
    pub fn review_ad_proposal(
        &mut self,
        offer_id: u32,
        token_id: u32,
        proposal_id: u32,
        ad_parameter: String,
        validated: bool,
        reason: &String,
        validator: &String,
    ) -> (r: Result<u32, AdminError>)
        requires
            old(self).wf(),
        ensures
            final(self).wf(),
            match r {
                Ok(id) => old(self)@.review_error(offer_id, token_id, proposal_id, ad_parameter@, validator@) is None
                    && id == proposal_id && final(self)@ == old(self)@.after_review(
                    offer_id,
                    token_id,
                    proposal_id,
                    ad_parameter@,
                    validated,
                ),
                Err(e) => old(self)@.review_error(offer_id, token_id, proposal_id, ad_parameter@, validator@)
                    == Some(e) && *final(self) == *old(self),
            },
    {
        let idx = match self.offer_index(offer_id) {
            Ok(i) => i,
            Err(e) => {
                return Err(e);
            },
        };
        if self.offers[idx].disabled {
            return Err(AdminError::OfferDisabled);
        }
        if !is_flagged(&self.offers[idx].validators, validator) {
            return Err(AdminError::UnauthorizedValidator);
        }
        if !is_flagged(&self.offers[idx].ad_parameters, &ad_parameter) {
            return Err(AdminError::UnallowedAdParameter);
        }
        let pending = match self.offers[idx].proposals.get(&token_id) {
            Some(inner) => match inner.get(&ad_parameter) {
                Some(p) => p.last_submitted,
                None => 0,
            },
            None => 0,
        };
        if proposal_id == 0 || proposal_id != pending {
            return Err(AdminError::ProposalNotSubmitted);
        }
        let ghost pre = self@;
        let ghost o = pre.offers[idx as int];
        let ghost param = ad_parameter@;
        let ghost p = proposal_of(o, token_id, param);
        let mut offer = self.offers.remove(idx);
        let mut inner = match offer.proposals.take(&token_id) {
            Some(m) => m,
            None => KeyMap::new(),
        };
        assert(inner@ == proposals_of(o, token_id));
        let mut proposal = match inner.take(&ad_parameter) {
            Some(p) => p,
            None => SponsoringProposal { last_validated: 0, last_rejected: 0, last_submitted: 0, data: String::new() },
        };
        assert(proposal@ == p);
        if validated {
            proposal.last_validated = proposal_id;
        } else {
            proposal.last_rejected = proposal_id;
        }
        proposal.last_submitted = 0;
        let ghost newp = proposal@;
        inner.insert(ad_parameter, proposal);
        offer.proposals.insert(token_id, inner);
        self.offers.insert(idx, offer);
        proof {
            assert(proposals_of(o, token_id).remove(param).insert(param, newp) =~= proposals_of(o, token_id).insert(
                param,
                newp,
            ));
            assert(o.proposals.remove(token_id).insert(token_id, proposals_of(o, token_id).insert(param, newp))
                =~= o.proposals.insert(token_id, proposals_of(o, token_id).insert(param, newp)));
            assert(self@.offers =~= pre.offers.update(idx as int, with_proposal(o, token_id, param, newp)));
            let n = pre.proposal_count;
            assert(proposal_of(pre.offers[idx as int], token_id, param).last_submitted <= n);
            assert forall|t: u32, k: Seq<char>| #![trigger proposal_of(with_proposal(o, token_id, param, newp), t, k)]
                {
                    &&& proposal_of(with_proposal(o, token_id, param, newp), t, k).last_submitted <= n
                    &&& proposal_of(with_proposal(o, token_id, param, newp), t, k).last_validated <= n
                    &&& proposal_of(with_proposal(o, token_id, param, newp), t, k).last_rejected <= n
                } by {
                lemma_proposal_of_with(o, token_id, param, newp, t, k);
                assert(proposal_of(pre.offers[idx as int], t, k).last_submitted <= n);
            }
            lemma_numbered_update(pre, idx as int, with_proposal(o, token_id, param, newp), n);
            assert(self@ == (AdminModel {
                proposal_count: n,
                offers: pre.offers.update(idx as int, with_proposal(o, token_id, param, newp)),
                ..pre
            }));
        }
        Ok(proposal_id)
    }

    /// Applies the reviews in order and returns their proposal ids; either all
    /// of them are applied or, at the first refusal, none.
    pub fn review_ad_proposals(&mut self, reviews: &Vec<ReviewAdProposal>) -> (r: Result<Vec<u32>, AdminError>)
        requires
            old(self).wf(),
        ensures
            final(self).wf(),
            match r {
                Ok(ids) => {
                    &&& reviews@.len() > 0
                    &&& review_batch(old(self)@, reviews@.map_values(|x: ReviewAdProposal| x@), reviews@.len())
                        == Ok::<AdminModel, AdminError>(final(self)@)
                    &&& ids@ == reviews@.map_values(|x: ReviewAdProposal| x.proposal_id)
                },
                Err(e) => *final(self) == *old(self) && if reviews@.len() == 0 {
                    e == AdminError::NoReviews
                } else {
                    review_batch(old(self)@, reviews@.map_values(|x: ReviewAdProposal| x@), reviews@.len())
                        == Err::<AdminModel, AdminError>(e)
                },
            },
    {
        if reviews.len() == 0 {
            return Err(AdminError::NoReviews);
        }
        let ghost rv = reviews@.map_values(|x: ReviewAdProposal| x@);
        let mut work = self.duplicate();
        let mut ids: Vec<u32> = Vec::new();
        let mut i: usize = 0;
        while i < reviews.len()
            invariant
                i <= reviews@.len(),
                rv == reviews@.map_values(|x: ReviewAdProposal| x@),
                work.wf(),
                self.wf(),
                review_batch(old(self)@, rv, i as nat) == Ok::<AdminModel, AdminError>(work@),
                ids@ == reviews@.map_values(|x: ReviewAdProposal| x.proposal_id).take(i as int),
            decreases reviews@.len() - i,
        {
            let review = &reviews[i];
            match work.review_ad_proposal(
                review.offer_id,
                review.token_id,
                review.proposal_id,
                review.ad_parameter.clone(),
                review.validated,
                &review.reason,
                &review.validator,
            ) {
                Ok(id) => {
                    ids.push(id);
                },
                Err(e) => {
                    proof {
                        lemma_review_batch_err(old(self)@, rv, (i + 1) as nat, reviews@.len(), e);
                    }
                    return Err(e);
                },
            }
            proof {
                assert(ids@ =~= reviews@.map_values(|x: ReviewAdProposal| x.proposal_id).take(i + 1));
            }
            i = i + 1;
        }
        proof {
            assert(ids@ =~= reviews@.map_values(|x: ReviewAdProposal| x.proposal_id));
        }
        *self = work;
        Ok(ids)
    }

    /// An admin of offer `offer_id` replaces its admins, validators and ad
    /// parameters.
    pub fn update_offer(&mut self, offer_id: u32, admin: &String, offer_params: &OfferInitParams) -> (r: Result<
        bool,
        AdminError,
    >)
        requires
            old(self).wf(),
        ensures
            final(self).wf(),
            match r {
                Ok(b) => {
                    &&& b
                    &&& old(self)@.update_offer_error(offer_id, admin@, offer_params) is None
                    &&& final(self)@ == (AdminModel {
                        offers: old(self)@.offers.update(
                            offer_id - 1,
                            OfferView {
                                admins: flag_map(seq_views(offer_params.options.admins@)),
                                validators: flag_map(seq_views(offer_params.options.validators@)),
                                ad_parameters: flag_map(seq_views(offer_params.options.ad_parameters@)),
                                ..old(self)@.offer(offer_id)
                            },
                        ),
                        ..old(self)@
                    })
                },
                Err(e) => old(self)@.update_offer_error(offer_id, admin@, offer_params) == Some(e)
                    && *final(self) == *old(self),
            },
    {
        if is_empty_text(&offer_params.offer_metadata) {
            return Err(AdminError::EmptyOfferMetadata);
        }
        if offer_params.options.admins.len() == 0 {
            return Err(AdminError::NoAdmins);
        }
        if offer_params.options.ad_parameters.len() == 0 {
            return Err(AdminError::NoAdParameters);
        }
        let idx = match self.offer_index(offer_id) {
            Ok(i) => i,
            Err(e) => {
                return Err(e);
            },
        };
        if !is_flagged(&self.offers[idx].admins, admin) {
            return Err(AdminError::UnauthorizedAdmin);
        }
        let ghost pre = self@;
        let mut offer = self.offers.remove(idx);
        offer.admins = flag_map_of(&offer_params.options.admins);
        offer.validators = flag_map_of(&offer_params.options.validators);
        offer.ad_parameters = flag_map_of(&offer_params.options.ad_parameters);
        self.offers.insert(idx, offer);
        proof {
            assert(self@.offers =~= pre.offers.update(
                idx as int,
                OfferView {
                    admins: flag_map(seq_views(offer_params.options.admins@)),
                    validators: flag_map(seq_views(offer_params.options.validators@)),
                    ad_parameters: flag_map(seq_views(offer_params.options.ad_parameters@)),
                    ..pre.offers[idx as int]
                },
            ));
            let o2 = self@.offers[idx as int];
            assert forall|t: u32, k: Seq<char>| #![trigger proposal_of(o2, t, k)]
                {
                    &&& proposal_of(o2, t, k).last_submitted <= pre.proposal_count
                    &&& proposal_of(o2, t, k).last_validated <= pre.proposal_count
                    &&& proposal_of(o2, t, k).last_rejected <= pre.proposal_count
                } by {
                assert(proposal_of(o2, t, k) == proposal_of(pre.offers[idx as int], t, k));
                assert(proposal_of(pre.offers[idx as int], t, k).last_submitted <= pre.proposal_count);
            }
            lemma_numbered_update(pre, idx as int, o2, pre.proposal_count);
            assert(self@ == (AdminModel { offers: pre.offers.update(idx as int, o2), ..pre }));
        }
        Ok(true)
    }
    pub fn get_offer_contract(&self, offer_id: u32) -> (r: Result<String, AdminError>)
        requires
            self.wf(),
        ensures
            match r {
                Ok(c) => self@.offer_error(offer_id) is None && c@ == self@.offer(offer_id).nft_contract,
                Err(e) => self@.offer_error(offer_id) == Some(e),
            },
    {
        let idx = self.offer_index(offer_id)?;
        Ok(self.offers[idx].nft_contract.clone())
    }

    /// The number of offers; refused while there is none.
    pub fn get_total_offers(&self) -> (r: Result<u32, AdminError>)
        requires
            self.wf(),
        ensures
            match r {
                Ok(n) => self@.offers.len() > 0 && n == self@.offers.len(),
                Err(e) => self@.offers.len() == 0 && e == AdminError::NoOffers,
            },
    {
        if self.offers.len() == 0 {
            return Err(AdminError::NoOffers);
        }
        Ok(self.offers.len() as u32)
    }

    /// All offers in id order; refused while there is none.
    pub fn get_all_offers(&self) -> (r: Result<Vec<SponsoringOffer>, AdminError>)
        requires
            self.wf(),
        ensures
            match r {
                Ok(v) => self@.offers.len() > 0 && v@.map_values(|o: SponsoringOffer| o@) == self@.offers,
                Err(e) => self@.offers.len() == 0 && e == AdminError::NoOffers,
            },
    {
        if self.offers.len() == 0 {
            return Err(AdminError::NoOffers);
        }
        Ok(copy_offers(&self.offers))
    }

    /// The offers of which `user` is an admin, in id order; refused while there
    /// is no offer.
    pub fn get_user_offers(&self, user: &String) -> (r: Result<Vec<SponsoringOffer>, AdminError>)
        requires
            self.wf(),
        ensures
            match r {
                Ok(v) => self@.offers.len() > 0 && v@.map_values(|o: SponsoringOffer| o@) == user_offers(
                    self@.offers,
                    user@,
                    self@.offers.len(),
                ),
                Err(e) => self@.offers.len() == 0 && e == AdminError::NoOffers,
            },
    {
        if self.offers.len() == 0 {
            return Err(AdminError::NoOffers);
        }
        let ghost all = self@.offers;
        let mut result: Vec<SponsoringOffer> = Vec::new();
        let mut i: usize = 0;
        while i < self.offers.len()
            invariant
                i <= self.offers@.len(),
                all == self@.offers,
                result@.map_values(|o: SponsoringOffer| o@) == user_offers(all, user@, i as nat),
            decreases self.offers@.len() - i,
        {
            let ghost before = result@.map_values(|o: SponsoringOffer| o@);
            if is_flagged(&self.offers[i].admins, user) {
                result.push(self.offers[i].duplicate());
                proof {
                    assert(result@.map_values(|o: SponsoringOffer| o@) =~= before.push(all[i as int]));
                }
            }
            i = i + 1;
        }
        Ok(result)
    }

    /// The proposals of token `token_id` in offer `offer_id`, by ad parameter.
    pub fn get_offer_proposals(&self, offer_id: u32, token_id: u32) -> (r: Result<
        KeyMap<String, SponsoringProposal>,
        AdminError,
    >)
        requires
            self.wf(),
        ensures
            match r {
                Ok(m) => self@.offer_error(offer_id) is None && m@ == proposals_of(self@.offer(offer_id), token_id),
                Err(e) => self@.offer_error(offer_id) == Some(e),
            },
    {
        let idx = self.offer_index(offer_id)?;
        match self.offers[idx].proposals.get(&token_id) {
            Some(m) => Ok(m.duplicate()),
            None => Ok(KeyMap::new()),
        }
    }

    pub fn is_allowed_ad_parameter(&self, offer_id: u32, ad_parameter: &String) -> (r: Result<bool, AdminError>)
        requires
            self.wf(),
        ensures
            match r {
                Ok(b) => self@.offer_error(offer_id) is None && b == flagged(
                    self@.offer(offer_id).ad_parameters,
                    ad_parameter@,
                ),
                Err(e) => self@.offer_error(offer_id) == Some(e),
            },
    {
        let idx = self.offer_index(offer_id)?;
        Ok(is_flagged(&self.offers[idx].ad_parameters, ad_parameter))
    }

    pub fn is_offer_admin(&self, offer_id: u32, admin: &String) -> (r: Result<bool, AdminError>)
        requires
            self.wf(),
        ensures
            match r {
                Ok(b) => self@.offer_error(offer_id) is None && b == flagged(self@.offer(offer_id).admins, admin@),
                Err(e) => self@.offer_error(offer_id) == Some(e),
            },
    {
        let idx = self.offer_index(offer_id)?;
        Ok(is_flagged(&self.offers[idx].admins, admin))
    }

    pub fn is_offer_disabled(&self, offer_id: u32) -> (r: Result<bool, AdminError>)
        requires
            self.wf(),
        ensures
            match r {
                Ok(b) => self@.offer_error(offer_id) is None && b == self@.offer(offer_id).disabled,
                Err(e) => self@.offer_error(offer_id) == Some(e),
            },
    {
        let idx = self.offer_index(offer_id)?;
        Ok(self.offers[idx].disabled)
    }

    pub fn is_offer_validator(&self, offer_id: u32, validator: &String) -> (r: Result<bool, AdminError>)
        requires
            self.wf(),
        ensures
            match r {
                Ok(b) => self@.offer_error(offer_id) is None && b == flagged(
                    self@.offer(offer_id).validators,
                    validator@,
                ),
                Err(e) => self@.offer_error(offer_id) == Some(e),
            },
    {
        let idx = self.offer_index(offer_id)?;
        Ok(is_flagged(&self.offers[idx].validators, validator))
    }

    /// The protocol fee on `base_amount`: `base_amount * bps / 1000`, or 0
    /// where the product overflows or the gateway is not initialized.
    pub fn get_fee_amount(&self, base_amount: u128) -> (r: u128)
        ensures
            r == protocol_fee(base_amount, self@.fee_bps()),
    {
        let bps = match &self.config {
            Some(c) => c.bps,
            None => 0,
        };
        match base_amount.checked_mul(bps as u128) {
            Some(p) => p / 1000,
            None => 0,
        }
    }

    /// Sets a new protocol fee and fee recipient.
    pub fn update_protocol_fee(&mut self, new_bps: u32, new_recipient: String) -> (r: Result<bool, AdminError>)
        requires
            old(self).wf(),
        ensures
            final(self).wf(),
            match r {
                Ok(b) => {
                    let c = old(self)@.config->0;
                    &&& b
                    &&& old(self)@.config is Some
                    &&& new_bps <= MAX_PROTOCOL_FEE_BPS
                    &&& final(self)@ == (AdminModel {
                        config: Some(AdminConfigView { bps: new_bps, fee_recipient: new_recipient@, ..c }),
                        ..old(self)@
                    })
                },
                Err(e) => *final(self) == *old(self) && if old(self)@.config is None {
                    e == AdminError::NotInitialized
                } else {
                    new_bps > MAX_PROTOCOL_FEE_BPS && e == AdminError::FeeTooHigh
                },
            },
    {
        match &mut self.config {
            None => Err(AdminError::NotInitialized),
            Some(c) => {
                if new_bps > MAX_PROTOCOL_FEE_BPS {
                    return Err(AdminError::FeeTooHigh);
                }
                c.bps = new_bps;
                c.fee_recipient = new_recipient;
                Ok(true)
            },
        }
    }

    /// The call that pays `amount` of `currency` from `from` to `to`: none for
    /// a zero amount; a payment in the native currency may only come from the
    /// gateway itself.
    fn pay(&self, from: &String, to: &String, amount: u128, currency: &String, contract: &String) -> (r: Result<
        Vec<TokenCall>,
        AdminError,
    >)
        ensures
            match r {
                Ok(calls) => {
                    &&& amount == 0 || self@.config is Some
                    &&& amount == 0 || currency@ != self@.config->0.native || from@ == contract@
                    &&& call_views(calls@) == payment_call(
                        self@.config->0.native,
                        contract@,
                        from@,
                        to@,
                        amount,
                        currency@,
                    )
                },
                Err(e) => amount > 0 && if self@.config is None {
                    e == AdminError::NativeNotSet
                } else {
                    currency@ == self@.config->0.native && from@ != contract@ && e
                        == AdminError::CannotSendFromSender
                },
            },
    {
        let mut calls: Vec<TokenCall> = Vec::new();
        if amount > 0 {
            let native = match &self.config {
                Some(c) => c.native.clone(),
                None => {
                    return Err(AdminError::NativeNotSet);
                },
            };
            if *currency == native {
                if *from != *contract {
                    return Err(AdminError::CannotSendFromSender);
                }
                calls.push(
                    TokenCall::Transfer {
                        token: native,
                        from: from.clone(),
                        to: to.clone(),
                        amount: amount as i128,
                    },
                );
            } else if *from == *contract {
                calls.push(
                    TokenCall::Transfer {
                        token: currency.clone(),
                        from: contract.clone(),
                        to: to.clone(),
                        amount: amount as i128,
                    },
                );
            } else {
                calls.push(
                    TokenCall::TransferFrom {
                        token: currency.clone(),
                        spender: contract.clone(),
                        from: from.clone(),
                        to: to.clone(),
                        amount: amount as i128,
                    },
                );
            }
        }
        proof {
            assert(call_views(calls@) =~= payment_call(
                self@.config->0.native,
                contract@,
                from@,
                to@,
                amount,
                currency@,
            ));
        }
        Ok(calls)
    }

    /// The call that pays the protocol fee `fee_amount` from `from` to the fee
    /// recipient.
    fn pay_fee(&self, from: &String, currency: &String, fee_amount: u128, contract: &String) -> (r: Result<
        Vec<TokenCall>,
        AdminError,
    >)
        ensures
            match r {
                Ok(calls) => {
                    &&& self@.config is Some
                    &&& fee_amount == 0 || currency@ != self@.config->0.native || from@ == contract@
                    &&& call_views(calls@) == payment_call(
                        self@.config->0.native,
                        contract@,
                        from@,
                        self@.config->0.fee_recipient,
                        fee_amount,
                        currency@,
                    )
                },
                Err(e) => if self@.config is None {
                    e == AdminError::FeeRecipientNotSet
                } else {
                    fee_amount > 0 && currency@ == self@.config->0.native && from@ != contract@ && e
                        == AdminError::CannotSendFromSender
                },
            },
    {
        let fee_recipient = match &self.config {
            Some(c) => c.fee_recipient.clone(),
            None => {
                return Err(AdminError::FeeRecipientNotSet);
            },
        };
        self.pay(from, &fee_recipient, fee_amount, currency, contract)
    }

    /// The token calls that collect the price and the protocol fee of a mint of
    /// `base_amount` in `currency` from the referral's spender, let the
    /// collection `target` take the price, and pay the fee; then the mint of
    /// `params.token_id` to `params.to` on `target`.
    pub fn external_call_with_protocol_fee(
        &self,
        target: &String,
        currency: &String,
        base_amount: u128,
        referral_info: &ReferralInfo,
        params: &MintAndSubmitParams,
        contract: &String,
        ledger_sequence: u32,
    ) -> (r: Result<ProtocolFeePlan, AdminError>)
        requires
            self.wf(),
        ensures
            match r {
                Ok(plan) => {
                    &&& self@.config is Some
                    &&& base_amount + protocol_fee(base_amount, self@.fee_bps()) <= u128::MAX
                    &&& ledger_sequence + APPROVAL_LEDGERS <= u32::MAX
                    &&& plan.payer_authorizes == (currency@ == self@.config->0.native)
                    &&& call_views(plan.token_calls@) == protocol_fee_calls(
                        self@.config->0,
                        contract@,
                        target@,
                        currency@,
                        base_amount,
                        referral_info.spender@,
                        ledger_sequence,
                    )
                    &&& plan.mint@ == (NftMintView {
                        nft_contract: target@,
                        caller: contract@,
                        token_id: params.token_id as i128,
                        to: params.to@,
                        currency: params.currency@,
                    })
                },
                Err(e) => if self@.config is None {
                    e == AdminError::NativeNotSet
                } else {
                    (base_amount + protocol_fee(base_amount, self@.fee_bps()) > u128::MAX || ledger_sequence
                        + APPROVAL_LEDGERS > u32::MAX) && e == AdminError::ArithmeticOverflow
                },
            },
    {
        let fee = self.get_fee_amount(base_amount);
        let native = match &self.config {
            Some(c) => c.native.clone(),
            None => {
                return Err(AdminError::NativeNotSet);
            },
        };
        let total = match base_amount.checked_add(fee) {
            Some(t) => t,
            None => {
                return Err(AdminError::ArithmeticOverflow);
            },
        };
        if ledger_sequence > u32::MAX - APPROVAL_LEDGERS {
            return Err(AdminError::ArithmeticOverflow);
        }
        let payer_authorizes = *currency == native;
        let mut token_calls: Vec<TokenCall> = Vec::new();
        if payer_authorizes {
            token_calls.push(
                TokenCall::Transfer {
                    token: currency.clone(),
                    from: referral_info.spender.clone(),
                    to: contract.clone(),
                    amount: total as i128,
                },
            );
        } else {
            token_calls.push(
                TokenCall::TransferFrom {
                    token: currency.clone(),
                    spender: contract.clone(),
                    from: referral_info.spender.clone(),
                    to: contract.clone(),
                    amount: total as i128,
                },
            );
        }
        token_calls.push(
            TokenCall::Approve {
                token: currency.clone(),
                from: contract.clone(),
                spender: target.clone(),
                amount: base_amount as i128,
                expiration_ledger: ledger_sequence + APPROVAL_LEDGERS,
            },
        );
        let mut fee_calls = match self.pay_fee(contract, currency, fee, contract) {
            Ok(calls) => calls,
            Err(e) => {
                return Err(e);
            },
        };
        let ghost first = token_calls@;
        let ghost second = fee_calls@;
        token_calls.append(&mut fee_calls);
        proof {
            assert(call_views(token_calls@) =~= call_views(first) + call_views(second));
            assert(call_views(token_calls@) =~= protocol_fee_calls(
                self@.config->0,
                contract@,
                target@,
                currency@,
                base_amount,
                referral_info.spender@,
                ledger_sequence,
            ));
        }
        let mint = NftMintCall {
            nft_contract: target.clone(),
            caller: contract.clone(),
            token_id: params.token_id as i128,
            to: params.to.clone(),
            currency: params.currency.clone(),
        };
        Ok(ProtocolFeePlan { payer_authorizes, token_calls, mint })
    }

    /// The deployment of a new collection from this gateway: the gateway
    /// becomes its minter, and the salt is the given one or the one derived
    /// from the ledger time.
    pub fn create_dsponsor_nft(
        &self,
        init_params: InitParams,
        salt: Option<[u8; 32]>,
        contract: &String,
        timestamp: u64,
    ) -> (r: Result<NftDeployment, AdminError>)
        ensures
            match r {
                Ok(d) => {
                    &&& self@.config is Some
                    &&& d.native_xlm@ == self@.config->0.native
                    &&& d.init_params == (InitParams { minter: *contract, ..init_params })
                    &&& chosen_salt(salt, timestamp, d.salt)
                },
                Err(e) => self@.config is None && e == AdminError::NativeNotSet,
            },
    {
        let native = match &self.config {
            Some(c) => c.native.clone(),
            None => {
                return Err(AdminError::NativeNotSet);
            },
        };
        let mut init_params = init_params;
        init_params.minter = contract.clone();
        let salt_bytes = match salt {
            Some(s) => s,
            None => default_salt(timestamp),
        };
        Ok(NftDeployment { init_params, native_xlm: native, salt: salt_bytes })
    }

    /// The call on the factory that deploys the collection of a new offer, with
    /// the gateway as its minter.
    pub fn nft_factory_call(&self, init_params: InitParams, contract: &String) -> (r: Result<
        FactoryCall,
        AdminError,
    >)
        ensures
            match r {
                Ok(call) => {
                    &&& self@.config is Some
                    &&& call.factory@ == self@.config->0.factory
                    &&& call.native_xlm@ == self@.config->0.native
                    &&& call.init_params == (InitParams { minter: *contract, ..init_params })
                },
                Err(e) => self@.config is None && e == AdminError::FactoryNotSet,
            },
    {
        let (factory, native) = match &self.config {
            Some(c) => (c.factory.clone(), c.native.clone()),
            None => {
                return Err(AdminError::FactoryNotSet);
            },
        };
        let mut init_params = init_params;
        init_params.minter = contract.clone();
        Ok(FactoryCall { factory, init_params, native_xlm: native })
    }

    /// Creates an offer for the collection `nft_contract` that the factory
    /// deployed for `init_params`.
    pub fn create_dsponsor_nft_and_offer(
        &mut self,
        init_params: InitParams,
        offer_params: &OfferInitParams,
        contract: &String,
        nft_contract: String,
    ) -> (r: Result<(FactoryCall, u32), AdminError>)
        requires
            old(self).wf(),
        ensures
            final(self).wf(),
            match r {
                Ok((call, id)) => {
                    &&& old(self)@.config is Some
                    &&& call.factory@ == old(self)@.config->0.factory
                    &&& call.native_xlm@ == old(self)@.config->0.native
                    &&& call.init_params == (InitParams { minter: *contract, ..init_params })
                    &&& old(self)@.create_offer_error(offer_params) is None
                    &&& id == old(self)@.offers.len() + 1
                    &&& final(self)@ == (AdminModel {
                        offers: old(self)@.offers.push(new_offer(id, nft_contract@, offer_params)),
                        ..old(self)@
                    })
                },
                Err(e) => *final(self) == *old(self) && if old(self)@.config is None {
                    e == AdminError::FactoryNotSet
                } else {
                    old(self)@.create_offer_error(offer_params) == Some(e)
                },
            },
    {
        let call = self.nft_factory_call(init_params, contract)?;
        let id = self.create_offer(nft_contract, offer_params)?;
        Ok((call, id))
    }

    /// The payments and the mint of `params` through the gateway, priced at
    /// the collection's `price` for the token and currency.
    pub fn mint_plan(
        &self,
        params: &MintAndSubmitParams,
        price: MintPriceSettings,
        contract: &String,
        ledger_sequence: u32,
    ) -> (r: Result<ProtocolFeePlan, AdminError>)
        requires
            self.wf(),
        ensures
            match r {
                Ok(plan) => {
                    &&& self@.mint_plan_error(params, price, ledger_sequence) is None
                    &&& call_views(plan.token_calls@) == protocol_fee_calls(
                        self@.config->0,
                        contract@,
                        self@.offer(params.offer_id).nft_contract,
                        params.currency@,
                        price.amount,
                        params.to@,
                        ledger_sequence,
                    )
                    &&& plan.payer_authorizes == (params.currency@ == self@.config->0.native)
                    &&& plan.mint@ == (NftMintView {
                        nft_contract: self@.offer(params.offer_id).nft_contract,
                        caller: contract@,
                        token_id: params.token_id as i128,
                        to: params.to@,
                        currency: params.currency@,
                    })
                },
                Err(e) => self@.mint_plan_error(params, price, ledger_sequence) == Some(e),
            },
    {
        let nft_contract = self.get_offer_contract(params.offer_id)?;
        if !price.enabled {
            return Err(AdminError::PriceNotEnabled);
        }
        let referral_info = ReferralInfo {
            enabler: contract.clone(),
            spender: params.to.clone(),
            additional_info: params.referral_info.clone(),
        };
        self.external_call_with_protocol_fee(
            &nft_contract,
            &params.currency,
            price.amount,
            &referral_info,
            params,
            contract,
            ledger_sequence,
        )
    }

    /// The payments and the mint of `params`, priced at the collection's
    /// `price` for the token and currency, then the submission of its ad
    /// proposals by `params.to`; either all of it happens or, at the first
    /// refusal, none. `caller_is_user[i]` is whether the collection reports
    /// `params.to` as user of the token after the mint.
    pub fn mint_and_submit(
        &mut self,
        params: &MintAndSubmitParams,
        price: MintPriceSettings,
        contract: &String,
        ledger_sequence: u32,
        caller_is_user: &Vec<bool>,
    ) -> (r: Result<ProtocolFeePlan, AdminError>)
        requires
            old(self).wf(),
            caller_is_user@.len() == params.ad_parameters@.len(),
        ensures
            final(self).wf(),
            match r {
                Ok(plan) => {
                    &&& old(self)@.mint_and_submit_error(params, price, ledger_sequence, caller_is_user@) is None
                    &&& call_views(plan.token_calls@) == protocol_fee_calls(
                        old(self)@.config->0,
                        contract@,
                        old(self)@.offer(params.offer_id).nft_contract,
                        params.currency@,
                        price.amount,
                        params.to@,
                        ledger_sequence,
                    )
                    &&& plan.payer_authorizes == (params.currency@ == old(self)@.config->0.native)
                    &&& plan.mint@ == (NftMintView {
                        nft_contract: old(self)@.offer(params.offer_id).nft_contract,
                        caller: contract@,
                        token_id: params.token_id as i128,
                        to: params.to@,
                        currency: params.currency@,
                    })
                    &&& old(self)@.submissions_of(params, caller_is_user@) == Ok::<AdminModel, AdminError>(final(self)@)
                },
                Err(e) => old(self)@.mint_and_submit_error(params, price, ledger_sequence, caller_is_user@) == Some(e)
                    && *final(self) == *old(self),
            },
    {
        let plan = self.mint_plan(params, price, contract, ledger_sequence)?;
        let n = params.ad_parameters.len();
        let m = if params.ad_datas.len() < n {
            params.ad_datas.len()
        } else {
            n
        };
        let mut offer_ids: Vec<u32> = Vec::new();
        let mut token_ids: Vec<u32> = Vec::new();
        let mut ad_parameters: Vec<String> = Vec::new();
        let mut datas: Vec<String> = Vec::new();
        let mut flags: Vec<bool> = Vec::new();
        let mut i: usize = 0;
        while i < m
            invariant
                i <= m,
                m <= params.ad_parameters@.len(),
                m <= params.ad_datas@.len(),
                m <= caller_is_user@.len(),
                offer_ids@ == Seq::new(i as nat, |j: int| params.offer_id),
                token_ids@ == Seq::new(i as nat, |j: int| params.token_id),
                seq_views(ad_parameters@) == seq_views(params.ad_parameters@.take(i as int)),
                seq_views(datas@) == seq_views(params.ad_datas@.take(i as int)),
                flags@ == caller_is_user@.take(i as int),
            decreases m - i,
        {
            let ghost before_p = ad_parameters@;
            let ghost before_d = datas@;
            offer_ids.push(params.offer_id);
            token_ids.push(params.token_id);
            ad_parameters.push(params.ad_parameters[i].clone());
            datas.push(params.ad_datas[i].clone());
            flags.push(caller_is_user[i]);
            proof {
                assert(offer_ids@ =~= Seq::new((i + 1) as nat, |j: int| params.offer_id));
                assert(token_ids@ =~= Seq::new((i + 1) as nat, |j: int| params.token_id));
                assert(params.ad_datas@.take(i + 1) =~= params.ad_datas@.take(i as int).push(params.ad_datas@[i as int]));
                assert(seq_views(datas@) =~= seq_views(before_d).push(params.ad_datas@[i as int]@));
                assert(seq_views(params.ad_datas@.take(i + 1)) =~= seq_views(params.ad_datas@.take(i as int)).push(
                    params.ad_datas@[i as int]@,
                ));
                assert(params.ad_parameters@.take(i + 1) =~= params.ad_parameters@.take(i as int).push(
                    params.ad_parameters@[i as int],
                ));
                assert(seq_views(ad_parameters@) =~= seq_views(before_p).push(params.ad_parameters@[i as int]@));
                assert(seq_views(params.ad_parameters@.take(i + 1)) =~= seq_views(params.ad_parameters@.take(i as int)).push(
                    params.ad_parameters@[i as int]@,
                ));
                assert(flags@ =~= caller_is_user@.take(i + 1));
            }
            i = i + 1;
        }
        let mut work = self.duplicate();
        match work.submit_ad_proposals(&offer_ids, &token_ids, &ad_parameters, &datas, &params.to, &flags) {
            Ok(()) => {},
            Err(e) => {
                return Err(e);
            },
        }
        if m < n {
            return Err(AdminError::MissingAdData);
        }
        *self = work;
        Ok(plan)
    }

    /// A copy of the gateway's state.
    pub fn duplicate(&self) -> (r: Self)
        requires
            self.wf(),
        ensures
            r.wf(),
            r@ == self@,
    {
        let config = match &self.config {
            Some(c) => Some(
                AdminConfig {
                    factory: c.factory.clone(),
                    bps: c.bps,
                    fee_recipient: c.fee_recipient.clone(),
                    admin: c.admin.clone(),
                    native: c.native.clone(),
                },
            ),
            None => None,
        };
        DSponsorAdmin { config, proposal_count: self.proposal_count, offers: copy_offers(&self.offers) }
    }
}

/// The operations that change the gateway, by who must sign them.
pub enum AdminAction {
    Initialize,
    CreateOffer,
    /// One submission or a batch of them by `caller`.
    SubmitAdProposals { caller: String },
    /// One review by `validator`; a batch needs each of its validators.
    ReviewAdProposal { validator: String },
    UpdateOffer,
    CreateDsponsorNft,
    UpdateProtocolFee,
    CreateDsponsorNftAndOffer,
    /// A mint through the gateway for `to`, paid in `currency`.
    MintAndSubmit { to: String, currency: String },
}

impl AdminModel {
    /// Who must authorize `action`, if anyone. Creating and updating offers
    /// and deploying collections need nobody; the protocol fee needs the
    /// gateway's admin; a mint needs its recipient, who pays, only in the
    /// native currency (other currencies are taken from an allowance).
    pub open spec fn required_signer(self, action: AdminAction) -> Option<Seq<char>> {
        match action {
            AdminAction::SubmitAdProposals { caller } => Some(caller@),
            AdminAction::ReviewAdProposal { validator } => Some(validator@),
            AdminAction::UpdateProtocolFee => match self.config {
                Some(c) => Some(c.admin),
                None => None,
            },
            AdminAction::MintAndSubmit { to, currency } => match self.config {
                Some(c) => if currency@ == c.native {
                    Some(to@)
                } else {
                    None
                },
                None => None,
            },
            _ => None,
        }
    }
}

impl DSponsorAdmin {
    /// The address that must authorize `action`, if any.
    pub fn required_signer(&self, action: &AdminAction) -> (r: Option<String>)
        ensures
            match r {
                Some(a) => self@.required_signer(*action) == Some(a@),
                None => self@.required_signer(*action) is None,
            },
    {
        match action {
            AdminAction::SubmitAdProposals { caller } => Some(caller.clone()),
            AdminAction::ReviewAdProposal { validator } => Some(validator.clone()),
            AdminAction::UpdateProtocolFee => match &self.config {
                Some(c) => Some(c.admin.clone()),
                None => None,
            },
            AdminAction::MintAndSubmit { to, currency } => match &self.config {
                Some(c) => {
                    if *currency == c.native {
                        Some(to.clone())
                    } else {
                        None
                    }
                },
                None => None,
            },
            _ => None,
        }
    }
}

/// The call `create_dsponsor_nft(init_params, native_xlm, None)` on the
/// factory.
pub struct FactoryCall {
    pub factory: String,
    pub init_params: InitParams,
    pub native_xlm: String,
}

/// A copy of a list of offers.
fn copy_offers(offers: &Vec<SponsoringOffer>) -> (r: Vec<SponsoringOffer>)
    ensures
        r@.map_values(|o: SponsoringOffer| o@) == offers@.map_values(|o: SponsoringOffer| o@),
{
    let mut r: Vec<SponsoringOffer> = Vec::new();
    let mut i: usize = 0;
    while i < offers.len()
        invariant
            i <= offers@.len(),
            r@.len() == i,
            forall|j: int| 0 <= j < i ==> #[trigger] r@[j]@ == offers@[j]@,
        decreases offers@.len() - i,
    {
        r.push(offers[i].duplicate());
        i = i + 1;
    }
    assert(r@.map_values(|o: SponsoringOffer| o@) =~= offers@.map_values(|o: SponsoringOffer| o@));
    r
}

} // verus!
