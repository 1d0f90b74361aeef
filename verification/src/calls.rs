//! Calls on token contracts that a contract operation asks the host to make.

use vstd::prelude::*;

verus! {

/// A call on the token contract at address `token`.
pub enum TokenCall {
    /// `transfer(from, to, amount)`, authorised by `from`.
    Transfer { token: String, from: String, to: String, amount: i128 },
    /// `transfer_from(spender, from, to, amount)`, spending an allowance that
    /// `from` gave to `spender`.
    TransferFrom { token: String, spender: String, from: String, to: String, amount: i128 },
    /// `approve(from, spender, amount, expiration_ledger)`.
    Approve { token: String, from: String, spender: String, amount: i128, expiration_ledger: u32 },
}

/// The call `transfer_from(spender, from, to, token_id)` on an NFT contract.
pub struct NftTransferCall {
    pub nft_contract: String,
    pub spender: String,
    pub from: String,
    pub to: String,
    pub token_id: i128,
}

/// The mathematical value of a token call.
pub enum CallView {
    Transfer { token: Seq<char>, from: Seq<char>, to: Seq<char>, amount: i128 },
    TransferFrom { token: Seq<char>, spender: Seq<char>, from: Seq<char>, to: Seq<char>, amount: i128 },
    Approve { token: Seq<char>, from: Seq<char>, spender: Seq<char>, amount: i128, expiration_ledger: u32 },
}

impl View for TokenCall {
    type V = CallView;

    open spec fn view(&self) -> CallView {
        match self {
            TokenCall::Transfer { token, from, to, amount } => CallView::Transfer {
                token: token@,
                from: from@,
                to: to@,
                amount: *amount,
            },
            TokenCall::TransferFrom { token, spender, from, to, amount } => CallView::TransferFrom {
                token: token@,
                spender: spender@,
                from: from@,
                to: to@,
                amount: *amount,
            },
            TokenCall::Approve { token, from, spender, amount, expiration_ledger } => CallView::Approve {
                token: token@,
                from: from@,
                spender: spender@,
                amount: *amount,
                expiration_ledger: *expiration_ledger,
            },
        }
    }
}

/// The views of a list of token calls.
pub open spec fn call_views(calls: Seq<TokenCall>) -> Seq<CallView> {
    calls.map_values(|c: TokenCall| c@)
}

/// The mathematical value of an NFT transfer call.
pub struct NftTransferView {
    pub nft_contract: Seq<char>,
    pub spender: Seq<char>,
    pub from: Seq<char>,
    pub to: Seq<char>,
    pub token_id: i128,
}

impl View for NftTransferCall {
    type V = NftTransferView;

    open spec fn view(&self) -> NftTransferView {
        NftTransferView {
            nft_contract: self.nft_contract@,
            spender: self.spender@,
            from: self.from@,
            to: self.to@,
            token_id: self.token_id,
        }
    }
}

} // verus!
