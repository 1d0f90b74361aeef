//! The sponsorship NFT: ownership, approvals, rental users, mint prices and
//! the token allowlist of one ad-space collection.

use vstd::prelude::*;

use crate::calls::TokenCall;
use crate::keymap::{Duplicate, KeyMap};
use crate::text::{contains_text, seq_views};

verus! {

/// What is added to the ledger time to give a token's holder an unbounded
/// use of it.
pub const USER_EXPIRY_EXTENSION: u64 = 3153600000000u64;

/// The largest royalty, in basis points, that the collection accepts.
pub const MAX_ROYALTY_BPS: u32 = 1000u32;

/// Whether a mint price applies, and how much it asks.
#[derive(Clone, Copy, Debug, PartialEq, Eq, Structural)]
pub struct MintPriceSettings {
    pub enabled: bool,
    pub amount: u128,
}

impl View for MintPriceSettings {
    type V = MintPriceSettings;

    open spec fn view(&self) -> MintPriceSettings {
        *self
    }
}

impl Duplicate for MintPriceSettings {
    fn duplicate(&self) -> (r: Self) {
        *self
    }
}

/// The price settings that stand where none was set.
pub open spec fn disabled_price() -> MintPriceSettings {
    MintPriceSettings { enabled: false, amount: 0 }
}

/// The parameters a collection is created with.
pub struct InitParams {
    pub name: String,
    pub symbol: String,
    pub base_uri: String,
    pub contract_uri: String,
    pub minter: String,
    pub max_supply: u32,
    pub forwarder: String,
    pub initial_owner: String,
    pub royalty_bps: u32,
    pub currencies: Vec<String>,
    pub prices: Vec<u128>,
    pub allowed_token_ids: Vec<u32>,
    pub apply_tokens_allowlist: bool,
    pub default_native_price: MintPriceSettings,
}

/// Why the collection refuses a request.
#[derive(Clone, Copy, Debug, PartialEq, Eq, Structural)]
pub enum NftError {
    /// The token id is not above the number of tokens minted so far.
    TokenAlreadyMinted,
    /// The allowlist applies and the token id is not on it.
    TokenNotAllowed,
    /// The caller is neither the admin nor the minter.
    UnauthorizedToMint,
    /// The mint price for this token and currency is not enabled.
    ForbiddenCurrency,
    /// The token id is above the maximum supply.
    MaxSupplyReached,
    /// The token id is not the one after the last minted token.
    NotNextTokenId,
    /// No token with this id has been minted.
    TokenNotMinted,
    /// The caller does not own the token.
    NotTokenOwner,
    /// The `from` address does not own the token.
    FromNotOwner,
    /// The spender has no approval for the token.
    SpenderNotApproved,
    /// The royalty is above `MAX_ROYALTY_BPS`.
    RoyaltyTooHigh,
    /// Two lists that go together have different lengths.
    LengthMismatch,
}

/// One minted token.
pub struct TokenRecord {
    pub owner: String,
    /// Addresses approved to move the token with `transfer_from`.
    pub approvals: Vec<String>,
    /// The current user (renter) of the token and the time its use ends.
    pub user: String,
    pub user_expiry: u64,
}

/// The mathematical value of a token record.
pub struct TokenView {
    pub owner: Seq<char>,
    pub approvals: Seq<Seq<char>>,
    pub user: Seq<char>,
    pub user_expiry: u64,
}

impl View for TokenRecord {
    type V = TokenView;

    open spec fn view(&self) -> TokenView {
        TokenView {
            owner: self.owner@,
            approvals: seq_views(self.approvals@),
            user: self.user@,
            user_expiry: self.user_expiry,
        }
    }
}

/// A fresh record: `to` owns and uses the token until `expiry`, nobody is
/// approved.
pub open spec fn fresh_token(to: Seq<char>, expiry: u64) -> TokenView {
    TokenView { owner: to, approvals: Seq::empty(), user: to, user_expiry: expiry }
}

/// The state of one collection. Token `i + 1` is `tokens[i]`.
pub struct DSponsorNFT {
    pub name: String,
    pub symbol: String,
    pub base_uri: String,
    pub contract_uri: String,
    pub minter: String,
    pub max_supply: u32,
    pub forwarder: String,
    pub royalty_bps: u32,
    pub apply_allowlist: bool,
    /// The default price in the native currency.
    pub default_native_price: MintPriceSettings,
    /// The address of the native currency's token contract.
    pub native: String,
    pub admin: String,
    pub token_count: i128,
    pub tokens: Vec<TokenRecord>,
    pub allowed: KeyMap<i128, bool>,
    /// Prices for one token in one currency.
    pub mint_prices: KeyMap<(i128, String), MintPriceSettings>,
    /// Default prices of the currencies other than the native one.
    pub default_prices: KeyMap<String, MintPriceSettings>,
}

/// The mathematical value of a collection.
pub struct NftModel {
    pub name: Seq<char>,
    pub symbol: Seq<char>,
    pub base_uri: Seq<char>,
    pub contract_uri: Seq<char>,
    pub minter: Seq<char>,
    pub max_supply: u32,
    pub forwarder: Seq<char>,
    pub royalty_bps: u32,
    pub apply_allowlist: bool,
    pub default_native_price: MintPriceSettings,
    pub native: Seq<char>,
    pub admin: Seq<char>,
    pub token_count: int,
    pub tokens: Seq<TokenView>,
    pub allowed: Map<i128, bool>,
    pub mint_prices: Map<(i128, Seq<char>), MintPriceSettings>,
    pub default_prices: Map<Seq<char>, MintPriceSettings>,
}

impl View for DSponsorNFT {
    type V = NftModel;

    open spec fn view(&self) -> NftModel {
        NftModel {
            name: self.name@,
            symbol: self.symbol@,
            base_uri: self.base_uri@,
            contract_uri: self.contract_uri@,
            minter: self.minter@,
            max_supply: self.max_supply,
            forwarder: self.forwarder@,
            royalty_bps: self.royalty_bps,
            apply_allowlist: self.apply_allowlist,
            default_native_price: self.default_native_price,
            native: self.native@,
            admin: self.admin@,
            token_count: self.token_count as int,
            tokens: self.tokens@.map_values(|t: TokenRecord| t@),
            allowed: self.allowed@,
            mint_prices: self.mint_prices@,
            default_prices: self.default_prices@,
        }
    }
}

impl NftModel {
    /// The token count is the number of minted tokens, which the maximum
    /// supply bounds.
    pub open spec fn consistent(self) -> bool {
        &&& self.token_count == self.tokens.len()
        &&& self.token_count <= self.max_supply
    }

    pub open spec fn is_minted(self, token_id: int) -> bool {
        1 <= token_id <= self.tokens.len()
    }

    pub open spec fn token(self, token_id: int) -> TokenView {
        self.tokens[token_id - 1]
    }

    pub open spec fn owner(self, token_id: int) -> Option<Seq<char>> {
        if self.is_minted(token_id) {
            Some(self.token(token_id).owner)
        } else {
            None
        }
    }

    pub open spec fn is_allowed(self, token_id: i128) -> bool {
        self.allowed.contains_key(token_id) && self.allowed[token_id]
    }

    pub open spec fn is_approved(self, operator: Seq<char>, token_id: int) -> bool {
        self.is_minted(token_id) && self.token(token_id).approvals.contains(operator)
    }

    pub open spec fn is_user(self, token_id: int, user: Seq<char>, now: u64) -> bool {
        &&& self.is_minted(token_id)
        &&& now <= self.token(token_id).user_expiry
        &&& self.token(token_id).user == user
    }

    /// The price of minting `token_id` in `currency`: the token's own price if
    /// it is enabled, else the currency's default.
    pub open spec fn mint_price(self, token_id: i128, currency: Seq<char>) -> MintPriceSettings {
        let own = if self.mint_prices.contains_key((token_id, currency)) {
            self.mint_prices[(token_id, currency)]
        } else {
            disabled_price()
        };
        if own.enabled {
            own
        } else if currency == self.native {
            self.default_native_price
        } else if self.default_prices.contains_key(currency) {
            self.default_prices[currency]
        } else {
            disabled_price()
        }
    }

    /// Why `caller` may not mint `token_id` paying in `currency`, if it may not.
    pub open spec fn mint_error(self, caller: Seq<char>, token_id: i128, currency: Seq<char>) -> Option<NftError> {
        if token_id <= self.token_count {
            Some(NftError::TokenAlreadyMinted)
        } else if self.apply_allowlist && !self.is_allowed(token_id) {
            Some(NftError::TokenNotAllowed)
        } else if caller != self.admin && caller != self.minter {
            Some(NftError::UnauthorizedToMint)
        } else if caller != self.admin && !self.mint_price(token_id, currency).enabled {
            Some(NftError::ForbiddenCurrency)
        } else if token_id > self.max_supply {
            Some(NftError::MaxSupplyReached)
        } else if token_id != self.token_count + 1 {
            Some(NftError::NotNextTokenId)
        } else {
            None
        }
    }

    /// What `caller` pays to mint `token_id` in `currency`: nothing for the
    /// admin, else the mint price.
    pub open spec fn mint_due(self, caller: Seq<char>, token_id: i128, currency: Seq<char>) -> u128 {
        if caller == self.admin {
            0
        } else {
            self.mint_price(token_id, currency).amount
        }
    }

    pub open spec fn after_mint(self, to: Seq<char>, now: u64) -> NftModel {
        NftModel {
            token_count: self.token_count + 1,
            tokens: self.tokens.push(fresh_token(to, (now + USER_EXPIRY_EXTENSION) as u64)),
            ..self
        }
    }

    /// Why `owner` may not transfer or approve `token_id`, if it may not.
    pub open spec fn owner_error(self, owner: Seq<char>, token_id: int) -> Option<NftError> {
        if !self.is_minted(token_id) {
            Some(NftError::TokenNotMinted)
        } else if self.token(token_id).owner != owner {
            Some(NftError::NotTokenOwner)
        } else {
            None
        }
    }

    /// `to` becomes owner and user of `token_id`, and every approval is dropped.
    pub open spec fn after_move(self, to: Seq<char>, token_id: int, now: u64) -> NftModel {
        NftModel {
            tokens: self.tokens.update(token_id - 1, fresh_token(to, (now + USER_EXPIRY_EXTENSION) as u64)),
            ..self
        }
    }

    pub open spec fn after_approve(self, to: Seq<char>, token_id: int) -> NftModel {
        let t = self.token(token_id);
        if t.approvals.contains(to) {
            self
        } else {
            NftModel {
                tokens: self.tokens.update(token_id - 1, TokenView { approvals: t.approvals.push(to), ..t }),
                ..self
            }
        }
    }

    /// Why `spender` may not move `token_id` from `from`, if it may not.
    pub open spec fn transfer_from_error(self, spender: Seq<char>, from: Seq<char>, token_id: int) -> Option<NftError> {
        if !self.is_minted(token_id) {
            Some(NftError::TokenNotMinted)
        } else if self.token(token_id).owner != from {
            Some(NftError::FromNotOwner)
        } else if !self.token(token_id).approvals.contains(spender) {
            Some(NftError::SpenderNotApproved)
        } else {
            None
        }
    }

    pub open spec fn after_set_user(self, token_id: int, user: Seq<char>, expiry: u64) -> NftModel {
        let t = self.token(token_id);
        NftModel {
            tokens: self.tokens.update(token_id - 1, TokenView { user: user, user_expiry: expiry, ..t }),
            ..self
        }
    }

    /// Records a default price for `currency`: the native currency's default,
    /// or the entry of `currency` in the table of the others.
    pub open spec fn after_set_default_price(self, currency: Seq<char>, settings: MintPriceSettings) -> NftModel {
        if currency != self.native {
            NftModel { default_prices: self.default_prices.insert(currency, settings), ..self }
        } else {
            NftModel { default_native_price: settings, ..self }
        }
    }

    pub open spec fn after_set_mint_price(self, token_id: i128, currency: Seq<char>, settings: MintPriceSettings) -> NftModel {
        NftModel { mint_prices: self.mint_prices.insert((token_id, currency), settings), ..self }
    }
}

/// The allowlist that the first `n` ids of `ids` make.
pub open spec fn allowlist_of(ids: Seq<u32>, n: nat) -> Map<i128, bool>
    decreases n,
{
    if n == 0 || n > ids.len() {
        Map::empty()
    } else {
        allowlist_of(ids, (n - 1) as nat).insert(ids[n - 1] as i128, true)
    }
}

/// The model after the first `n` currencies of creation had their default
/// price recorded.
pub open spec fn with_defaults(m: NftModel, currencies: Seq<Seq<char>>, prices: Seq<u128>, n: nat) -> NftModel
    decreases n,
{
    if n == 0 || n > currencies.len() {
        m
    } else {
        with_defaults(m, currencies, prices, (n - 1) as nat).after_set_default_price(
            currencies[n - 1],
            MintPriceSettings { enabled: true, amount: prices[n - 1] },
        )
    }
}

/// The model of a collection right after creation, before the currencies'
/// default prices are recorded.
pub open spec fn created_model(init: &InitParams, native: Seq<char>) -> NftModel {
    NftModel {
        name: init.name@,
        symbol: init.symbol@,
        base_uri: init.base_uri@,
        contract_uri: init.contract_uri@,
        minter: init.minter@,
        max_supply: init.max_supply,
        forwarder: init.forwarder@,
        royalty_bps: init.royalty_bps,
        apply_allowlist: init.apply_tokens_allowlist || init.allowed_token_ids@.len() > 0,
        default_native_price: init.default_native_price,
        native: native,
        admin: init.initial_owner@,
        token_count: 0,
        tokens: Seq::empty(),
        allowed: allowlist_of(init.allowed_token_ids@, init.allowed_token_ids@.len()),
        mint_prices: Map::empty(),
        default_prices: Map::empty(),
    }
}

/// The model of a freshly created collection.
pub open spec fn initial_model(init: &InitParams, native: Seq<char>) -> NftModel {
    with_defaults(
        created_model(init, native),
        seq_views(init.currencies@),
        init.prices@,
        init.currencies@.len(),
    )
}

impl DSponsorNFT {
    pub open spec fn wf(&self) -> bool {
        &&& self@.consistent()
    }

    proof fn lemma_token_view(&self, token_id: int)
        requires
            self.wf(),
            self@.is_minted(token_id),
        ensures
            self@.token(token_id) == self.tokens@[token_id - 1]@,
    {
    }

    /// Creates a collection. The allowlist applies as soon as allowed ids are
    /// given, and every currency gets its price as an enabled default.
    pub fn new(init_params: InitParams, native_xlm: String) -> (r: Self)
        requires
            init_params.prices@.len() >= init_params.currencies@.len(),
        ensures
            r.wf(),
            r@ == initial_model(&init_params, native_xlm@),
    {
        let ghost init = init_params;
        let ghost native_view = native_xlm@;
        let InitParams {
            name,
            symbol,
            base_uri,
            contract_uri,
            minter,
            max_supply,
            forwarder,
            initial_owner,
            royalty_bps,
            currencies,
            prices,
            allowed_token_ids,
            apply_tokens_allowlist,
            default_native_price,
        } = init_params;
        let mut nft = DSponsorNFT {
            name,
            symbol,
            base_uri,
            contract_uri,
            minter,
            max_supply,
            forwarder,
            royalty_bps,
            apply_allowlist: apply_tokens_allowlist,
            default_native_price,
            native: native_xlm,
            admin: initial_owner,
            token_count: 0,
            tokens: Vec::new(),
            allowed: KeyMap::new(),
            mint_prices: KeyMap::new(),
            default_prices: KeyMap::new(),
        };
        proof {
            assert(nft@.tokens =~= Seq::<TokenView>::empty());
        }
        let mut i: usize = 0;
        while i < allowed_token_ids.len()
            invariant
                i <= allowed_token_ids@.len(),
                allowed_token_ids@ == init.allowed_token_ids@,
                nft.native@ == native_view,
                nft.wf(),
                nft@ == (NftModel {
                    apply_allowlist: init.apply_tokens_allowlist || i > 0,
                    allowed: allowlist_of(init.allowed_token_ids@, i as nat),
                    ..created_model(&init, nft.native@)
                }),
            decreases allowed_token_ids@.len() - i,
        {
            nft.apply_allowlist = true;
            let id = allowed_token_ids[i] as i128;
            nft.allowed.insert(id, true);
            i = i + 1;
            proof {
                assert(nft@.tokens =~= Seq::<TokenView>::empty());
            }
        }
        proof {
            assert(nft@.tokens =~= Seq::<TokenView>::empty());
            assert(nft@ == created_model(&init, nft.native@));
        }
        let mut j: usize = 0;
        while j < currencies.len()
            invariant
                j <= currencies@.len(),
                currencies@ == init.currencies@,
                prices@ == init.prices@,
                prices@.len() >= currencies@.len(),
                nft.native@ == native_view,
                nft.wf(),
                nft@ == with_defaults(created_model(&init, nft.native@), seq_views(currencies@), prices@, j as nat),
            decreases currencies@.len() - j,
        {
            let settings = MintPriceSettings { enabled: true, amount: prices[j] };
            nft.record_default_price(&currencies[j], settings);
            j = j + 1;
        }
        nft
    }

    /// Records `settings` as the default price of `currency`.
    fn record_default_price(&mut self, currency: &String, settings: MintPriceSettings)
        requires
            old(self).wf(),
        ensures
            final(self).wf(),
            final(self)@ == old(self)@.after_set_default_price(currency@, settings),
    {
        if *currency != self.native {
            self.default_prices.insert(currency.clone(), settings);
        } else {
            self.default_native_price = settings;
        }
    }

    /// Mints `token_id` to `to` on behalf of `caller`. Anybody but the admin
    /// pays the mint price to the admin: the receipt holds the token transfer
    /// that the contract makes for it, as spender, from `caller`'s allowance.
    pub fn mint(
        &mut self,
        caller: &String,
        token_id: i128,
        to: String,
        currency: &String,
        contract: &String,
        now: u64,
    ) -> (r: Result<MintReceipt, NftError>)
        requires
            old(self).wf(),
            old(self)@.mint_error(caller@, token_id, currency@) is None ==> now <= u64::MAX - USER_EXPIRY_EXTENSION,
        ensures
            final(self).wf(),
            match r {
                Ok(receipt) => {
                    let due = old(self)@.mint_due(caller@, token_id, currency@);
                    &&& old(self)@.mint_error(caller@, token_id, currency@) is None
                    &&& final(self)@ == old(self)@.after_mint(to@, now)
                    &&& receipt.paid_amount == due
                    &&& receipt.payment == if due > 0 {
                        Some(
                            TokenCall::TransferFrom {
                                token: *currency,
                                spender: *contract,
                                from: *caller,
                                to: old(self).admin,
                                amount: due as i128,
                            },
                        )
                    } else {
                        None
                    }
                },
                Err(e) => {
                    &&& old(self)@.mint_error(caller@, token_id, currency@) == Some(e)
                    &&& *final(self) == *old(self)
                },
            },
    {
        if token_id <= self.token_count {
            return Err(NftError::TokenAlreadyMinted);
        }
        if self.apply_allowlist && !self.is_token_id_allowed(token_id) {
            return Err(NftError::TokenNotAllowed);
        }
        let mut paid_amount: u128 = 0;
        let mut payment: Option<TokenCall> = None;
        if *caller != self.admin {
            if *caller != self.minter {
                return Err(NftError::UnauthorizedToMint);
            }
            let price = self.get_mint_price(token_id, currency);
            if !price.enabled {
                return Err(NftError::ForbiddenCurrency);
            }
            if price.amount > 0 {
                payment = Some(
                    TokenCall::TransferFrom {
                        token: currency.clone(),
                        spender: contract.clone(),
                        from: caller.clone(),
                        to: self.admin.clone(),
                        amount: price.amount as i128,
                    },
                );
                paid_amount = price.amount;
            }
        }
        if token_id > self.max_supply as i128 {
            return Err(NftError::MaxSupplyReached);
        }
        if token_id != self.token_count + 1 {
            return Err(NftError::NotNextTokenId);
        }
        let ghost pre = self@;
        let expiry = now + USER_EXPIRY_EXTENSION;
        let user = to.clone();
        self.tokens.push(TokenRecord { owner: to, approvals: Vec::new(), user, user_expiry: expiry });
        self.token_count = token_id;
        proof {
            assert(self.tokens@.last()@.approvals =~= Seq::<Seq<char>>::empty());
            assert(self@.tokens =~= pre.tokens.push(fresh_token(to@, expiry)));
        }
        Ok(MintReceipt { payment, paid_amount })
    }

    pub fn owner_of(&self, token_id: i128) -> (r: Option<String>)
        requires
            self.wf(),
        ensures
            match r {
                Some(o) => self@.owner(token_id as int) == Some(o@),
                None => self@.owner(token_id as int) is None,
            },
    {
        if 1 <= token_id && token_id <= self.token_count {
            let i = (token_id - 1) as usize;
            Some(self.tokens[i].owner.clone())
        } else {
            None
        }
    }

    pub fn name(&self) -> (r: Option<String>)
        ensures
            r matches Some(n) && n@ == self@.name,
    {
        Some(self.name.clone())
    }

    pub fn symbol(&self) -> (r: Option<String>)
        ensures
            r matches Some(s) && s@ == self@.symbol,
    {
        Some(self.symbol.clone())
    }

    /// Every token's metadata is the collection's contract URI.
    pub fn token_uri(&self, token_id: i128) -> (r: String)
        ensures
            r@ == self@.contract_uri,
    {
        self.contract_uri.clone()
    }

    pub fn token_image(&self) -> (r: String)
        ensures
            r@ == self@.base_uri,
    {
        self.base_uri.clone()
    }

    pub fn is_approved(&self, operator: &String, token_id: i128) -> (r: bool)
        requires
            self.wf(),
        ensures
            r == self@.is_approved(operator@, token_id as int),
    {
        if 1 <= token_id && token_id <= self.token_count {
            let i = (token_id - 1) as usize;
            proof {
                self.lemma_token_view(token_id as int);
            }
            contains_text(&self.tokens[i].approvals, operator)
        } else {
            false
        }
    }

    /// The owner hands `token_id` to `to`, who becomes its user; approvals
    /// are dropped.
    pub fn transfer(&mut self, owner: &String, to: String, token_id: i128, now: u64) -> (r: Result<(), NftError>)
        requires
            old(self).wf(),
            old(self)@.owner_error(owner@, token_id as int) is None ==> now <= u64::MAX - USER_EXPIRY_EXTENSION,
        ensures
            final(self).wf(),
            match r {
                Ok(()) => old(self)@.owner_error(owner@, token_id as int) is None
                    && final(self)@ == old(self)@.after_move(to@, token_id as int, now),
                Err(e) => old(self)@.owner_error(owner@, token_id as int) == Some(e)
                    && *final(self) == *old(self),
            },
    {
        if !(1 <= token_id && token_id <= self.token_count) {
            return Err(NftError::TokenNotMinted);
        }
        let i = (token_id - 1) as usize;
        proof {
            self.lemma_token_view(token_id as int);
        }
        if self.tokens[i].owner != *owner {
            return Err(NftError::NotTokenOwner);
        }
        self.move_token(i, to, now);
        Ok(())
    }

    /// Gives token `i + 1` to `to` as owner and user, with no approvals.
    fn move_token(&mut self, i: usize, to: String, now: u64)
        requires
            old(self).wf(),
            i < old(self).tokens@.len(),
            now <= u64::MAX - USER_EXPIRY_EXTENSION,
        ensures
            final(self).wf(),
            final(self)@ == old(self)@.after_move(to@, i + 1, now),
    {
        let ghost pre = self@;
        let expiry = now + USER_EXPIRY_EXTENSION;
        let user = to.clone();
        self.tokens.set(i, TokenRecord { owner: to, approvals: Vec::new(), user, user_expiry: expiry });
        proof {
            assert(self.tokens@[i as int]@.approvals =~= Seq::<Seq<char>>::empty());
            assert(self@.tokens =~= pre.tokens.update(i as int, fresh_token(to@, expiry)));
        }
    }

    /// The owner approves `to` to move `token_id`.
    pub fn approve(&mut self, owner: &String, to: String, token_id: i128) -> (r: Result<(), NftError>)
        requires
            old(self).wf(),
        ensures
            final(self).wf(),
            match r {
                Ok(()) => old(self)@.owner_error(owner@, token_id as int) is None
                    && final(self)@ == old(self)@.after_approve(to@, token_id as int),
                Err(e) => old(self)@.owner_error(owner@, token_id as int) == Some(e)
                    && *final(self) == *old(self),
            },
    {
        if !(1 <= token_id && token_id <= self.token_count) {
            return Err(NftError::TokenNotMinted);
        }
        let i = (token_id - 1) as usize;
        proof {
            self.lemma_token_view(token_id as int);
        }
        if self.tokens[i].owner != *owner {
            return Err(NftError::NotTokenOwner);
        }
        if !contains_text(&self.tokens[i].approvals, &to) {
            let ghost pre = self@;
            let ghost toview = to@;
            let mut record = self.tokens.remove(i);
            let ghost before = record@;
            record.approvals.push(to);
            proof {
                assert(seq_views(record.approvals@) =~= before.approvals.push(toview));
            }
            self.tokens.insert(i, record);
            proof {
                assert(self@.tokens =~= pre.tokens.update(
                    i as int,
                    TokenView { approvals: before.approvals.push(toview), ..before },
                ));
            }
        }
        Ok(())
    }

    /// `spender`, approved for `token_id`, moves it from its owner `from` to
    /// `to`, who becomes its user; approvals are dropped.
    pub fn transfer_from(
        &mut self,
        spender: &String,
        from: &String,
        to: String,
        token_id: i128,
        now: u64,
    ) -> (r: Result<(), NftError>)
        requires
            old(self).wf(),
            old(self)@.transfer_from_error(spender@, from@, token_id as int) is None ==> now <= u64::MAX
                - USER_EXPIRY_EXTENSION,
        ensures
            final(self).wf(),
            match r {
                Ok(()) => old(self)@.transfer_from_error(spender@, from@, token_id as int) is None
                    && final(self)@ == old(self)@.after_move(to@, token_id as int, now),
                Err(e) => old(self)@.transfer_from_error(spender@, from@, token_id as int) == Some(e)
                    && *final(self) == *old(self),
            },
    {
        if !(1 <= token_id && token_id <= self.token_count) {
            return Err(NftError::TokenNotMinted);
        }
        let i = (token_id - 1) as usize;
        proof {
            self.lemma_token_view(token_id as int);
        }
        if self.tokens[i].owner != *from {
            return Err(NftError::FromNotOwner);
        }
        if !contains_text(&self.tokens[i].approvals, spender) {
            return Err(NftError::SpenderNotApproved);
        }
        self.move_token(i, to, now);
        Ok(())
    }

    /// The owner lends `token_id` to `to` until `expiry`.
    pub fn set_user(&mut self, caller: &String, token_id: i128, to: String, expiry: u64) -> (r: Result<(), NftError>)
        requires
            old(self).wf(),
        ensures
            final(self).wf(),
            match r {
                Ok(()) => old(self)@.owner_error(caller@, token_id as int) is None
                    && final(self)@ == old(self)@.after_set_user(token_id as int, to@, expiry),
                Err(e) => old(self)@.owner_error(caller@, token_id as int) == Some(e)
                    && *final(self) == *old(self),
            },
    {
        if !(1 <= token_id && token_id <= self.token_count) {
            return Err(NftError::TokenNotMinted);
        }
        let i = (token_id - 1) as usize;
        proof {
            self.lemma_token_view(token_id as int);
        }
        if self.tokens[i].owner != *caller {
            return Err(NftError::NotTokenOwner);
        }
        let ghost pre = self@;
        let ghost toview = to@;
        let mut record = self.tokens.remove(i);
        let ghost before = record@;
        record.user = to;
        record.user_expiry = expiry;
        self.tokens.insert(i, record);
        proof {
            assert(self@.tokens =~= pre.tokens.update(
                i as int,
                TokenView { user: toview, user_expiry: expiry, ..before },
            ));
        }
        Ok(())
    }

    /// Whether `user` may use `token_id` at time `now`.
    pub fn is_user_of(&self, token_id: i128, user: &String, now: u64) -> (r: bool)
        requires
            self.wf(),
        ensures
            r == self@.is_user(token_id as int, user@, now),
    {
        if 1 <= token_id && token_id <= self.token_count {
            let i = (token_id - 1) as usize;
            proof {
                self.lemma_token_view(token_id as int);
            }
            let record = &self.tokens[i];
            if now > record.user_expiry || record.user != *user {
                return false;
            }
            true
        } else {
            false
        }
    }

    pub fn user_of(&self, token_id: i128) -> (r: Option<String>)
        requires
            self.wf(),
        ensures
            match r {
                Some(u) => self@.is_minted(token_id as int) && u@ == self@.token(token_id as int).user,
                None => !self@.is_minted(token_id as int),
            },
    {
        if 1 <= token_id && token_id <= self.token_count {
            let i = (token_id - 1) as usize;
            proof {
                self.lemma_token_view(token_id as int);
            }
            Some(self.tokens[i].user.clone())
        } else {
            None
        }
    }

    pub fn is_token_id_allowed(&self, token_id: i128) -> (r: bool)
        requires
            self.wf(),
        ensures
            r == self@.is_allowed(token_id),
    {
        match self.allowed.get(&token_id) {
            Some(b) => *b,
            None => false,
        }
    }

    /// The admin, who receives the mint payments.
    pub fn get_owner(&self) -> (r: String)
        ensures
            r@ == self@.admin,
    {
        self.admin.clone()
    }

    pub fn get_mint_price(&self, token_id: i128, currency: &String) -> (r: MintPriceSettings)
        requires
            self.wf(),
        ensures
            r == self@.mint_price(token_id, currency@),
    {
        let own = match self.mint_prices.get(&(token_id, currency.clone())) {
            Some(s) => *s,
            None => MintPriceSettings { enabled: false, amount: 0 },
        };
        if own.enabled {
            return own;
        }
        if *currency == self.native {
            self.default_native_price
        } else {
            match self.default_prices.get(currency) {
                Some(s) => *s,
                None => MintPriceSettings { enabled: false, amount: 0 },
            }
        }
    }

    pub fn get_token_count(&self) -> (r: i128)
        ensures
            r == self.token_count,
    {
        self.token_count
    }

    pub fn set_base_uri(&mut self, new_base_uri: String)
        requires
            old(self).wf(),
        ensures
            final(self).wf(),
            final(self)@ == (NftModel { base_uri: new_base_uri@, ..old(self)@ }),
    {
        self.base_uri = new_base_uri;
    }

    pub fn set_contract_uri(&mut self, new_contract_uri: String)
        requires
            old(self).wf(),
        ensures
            final(self).wf(),
            final(self)@ == (NftModel { contract_uri: new_contract_uri@, ..old(self)@ }),
    {
        self.contract_uri = new_contract_uri;
    }

    /// Sets the default price of `currency`.
    pub fn set_default_mint_price(&mut self, currency: &String, enabled: bool, amount: u128)
        requires
            old(self).wf(),
        ensures
            final(self).wf(),
            final(self)@ == old(self)@.after_set_default_price(
                currency@,
                MintPriceSettings { enabled, amount },
            ),
    {
        self.record_default_price(currency, MintPriceSettings { enabled, amount });
    }

    /// Sets the price of `token_id` in `currency`.
    pub fn set_mint_price(&mut self, token_id: i128, currency: &String, enabled: bool, amount: u128)
        requires
            old(self).wf(),
        ensures
            final(self).wf(),
            final(self)@ == old(self)@.after_set_mint_price(
                token_id,
                currency@,
                MintPriceSettings { enabled, amount },
            ),
    {
        self.mint_prices.insert((token_id, currency.clone()), MintPriceSettings { enabled, amount });
    }

    pub fn set_royalty(&mut self, new_royalty_bps: u32) -> (r: Result<(), NftError>)
        requires
            old(self).wf(),
        ensures
            final(self).wf(),
            match r {
                Ok(()) => new_royalty_bps <= MAX_ROYALTY_BPS
                    && final(self)@ == (NftModel { royalty_bps: new_royalty_bps, ..old(self)@ }),
                Err(e) => new_royalty_bps > MAX_ROYALTY_BPS && e == NftError::RoyaltyTooHigh
                    && *final(self) == *old(self),
            },
    {
        if new_royalty_bps > MAX_ROYALTY_BPS {
            return Err(NftError::RoyaltyTooHigh);
        }
        self.royalty_bps = new_royalty_bps;
        Ok(())
    }

    pub fn set_minter(&mut self, new_minter: String)
        requires
            old(self).wf(),
        ensures
            final(self).wf(),
            final(self)@ == (NftModel { minter: new_minter@, ..old(self)@ }),
    {
        self.minter = new_minter;
    }

    pub fn set_forwarder(&mut self, new_forwarder: String)
        requires
            old(self).wf(),
        ensures
            final(self).wf(),
            final(self)@ == (NftModel { forwarder: new_forwarder@, ..old(self)@ }),
    {
        self.forwarder = new_forwarder;
    }

    /// Turns the allowlist on or off.
    pub fn set_tokens_allowlist(&mut self, apply: bool)
        requires
            old(self).wf(),
        ensures
            final(self).wf(),
            final(self)@ == (NftModel { apply_allowlist: apply, ..old(self)@ }),
    {
        self.apply_allowlist = apply;
    }

    /// Sets, for each `i`, whether `token_ids[i]` is allowed to
    /// `are_allowed[i]`; a later entry for the same id wins.
    pub fn set_tokens_are_allowed(&mut self, token_ids: &Vec<i128>, are_allowed: &Vec<bool>) -> (r: Result<
        (),
        NftError,
    >)
        requires
            old(self).wf(),
        ensures
            final(self).wf(),
            match r {
                Ok(()) => token_ids@.len() == are_allowed@.len() && final(self)@ == (NftModel {
                    allowed: allowlist_update(old(self)@.allowed, token_ids@, are_allowed@, token_ids@.len()),
                    ..old(self)@
                }),
                Err(e) => token_ids@.len() != are_allowed@.len() && e == NftError::LengthMismatch
                    && *final(self) == *old(self),
            },
    {
        if token_ids.len() != are_allowed.len() {
            return Err(NftError::LengthMismatch);
        }
        let ghost pre = self@;
        let mut i: usize = 0;
        while i < token_ids.len()
            invariant
                i <= token_ids@.len(),
                token_ids@.len() == are_allowed@.len(),
                self.wf(),
                self@ == (NftModel {
                    allowed: allowlist_update(pre.allowed, token_ids@, are_allowed@, i as nat),
                    ..pre
                }),
            decreases token_ids@.len() - i,
        {
            self.allowed.insert(token_ids[i], are_allowed[i]);
            i = i + 1;
        }
        Ok(())
    }

    pub fn add_allowed_token_id(&mut self, token_id: i128)
        requires
            old(self).wf(),
        ensures
            final(self).wf(),
            final(self)@ == (NftModel { allowed: old(self)@.allowed.insert(token_id, true), ..old(self)@ }),
    {
        self.allowed.insert(token_id, true);
    }

    pub fn remove_allowed_token_id(&mut self, token_id: i128)
        requires
            old(self).wf(),
        ensures
            final(self).wf(),
            final(self)@ == (NftModel { allowed: old(self)@.allowed.remove(token_id), ..old(self)@ }),
    {
        self.allowed.remove(&token_id);
    }

    /// Hands the admin role to `new_admin`.
    pub fn transfer_admin(&mut self, new_admin: String)
        requires
            old(self).wf(),
        ensures
            final(self).wf(),
            final(self)@ == (NftModel { admin: new_admin@, ..old(self)@ }),
    {
        self.admin = new_admin;
    }
}

/// The operations that change a collection, by who must sign them.
pub enum NftAction {
    Mint { caller: String },
    Transfer { owner: String },
    Approve { owner: String },
    TransferFrom { spender: String },
    SetUser { caller: String },
    /// A setting of the admin's: the URIs, the prices, the royalty, the minter,
    /// the forwarder, the allowlist or the admin role itself.
    Administer,
}

impl NftModel {
    /// Who must authorize `action`: the caller, owner or spender that it
    /// names, or the admin for a setting.
    pub open spec fn required_signer(self, action: NftAction) -> Seq<char> {
        match action {
            NftAction::Mint { caller } => caller@,
            NftAction::Transfer { owner } => owner@,
            NftAction::Approve { owner } => owner@,
            NftAction::TransferFrom { spender } => spender@,
            NftAction::SetUser { caller } => caller@,
            NftAction::Administer => self.admin,
        }
    }
}

impl DSponsorNFT {
    /// The address that must authorize `action`.
    pub fn required_signer(&self, action: &NftAction) -> (r: String)
        ensures
            r@ == self@.required_signer(*action),
    {
        match action {
            NftAction::Mint { caller } => caller.clone(),
            NftAction::Transfer { owner } => owner.clone(),
            NftAction::Approve { owner } => owner.clone(),
            NftAction::TransferFrom { spender } => spender.clone(),
            NftAction::SetUser { caller } => caller.clone(),
            NftAction::Administer => self.admin.clone(),
        }
    }
}

/// The allowlist after the first `n` updates of `ids` and `flags`.
pub open spec fn allowlist_update(m: Map<i128, bool>, ids: Seq<i128>, flags: Seq<bool>, n: nat) -> Map<i128, bool>
    decreases n,
{
    if n == 0 || n > ids.len() {
        m
    } else {
        allowlist_update(m, ids, flags, (n - 1) as nat).insert(ids[n - 1], flags[n - 1])
    }
}

/// What a successful mint asks to be paid, and the amount paid.
pub struct MintReceipt {
    pub payment: Option<TokenCall>,
    pub paid_amount: u128,
}

} // verus!
