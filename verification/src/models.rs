//! Records exchanged with the bank's API, with every decimal amount held as
//! an integer number of cents.

use vstd::prelude::*;

verus! {

/// The token endpoint's successful reply.
pub struct TokenResponse {
    pub access_token: String,
    pub expires_in: u64,
}

/// One bank account; read-only display data keyed by `account_id`.
pub struct Account {
    pub account_id: String,
    pub account_number: String,
    pub account_name: String,
    pub reference_name: String,
    pub product_name: String,
    pub kyc_compliant: bool,
    pub profile_id: String,
    pub profile_name: String,
}

/// The list under the accounts endpoint's `data` wrapper.
pub struct AccountsResponse {
    pub accounts: Vec<Account>,
}

/// The bank wraps every response in `{data: T}`.
pub struct ApiResponse<T> {
    pub data: T,
}

/// Account balances, in cents.
pub struct Balance {
    pub account_id: String,
    pub current_balance_cents: i64,
    pub available_balance_cents: i64,
    pub currency: String,
    pub budget_balance_cents: i64,
    pub straight_balance_cents: i64,
    pub cash_balance_cents: i64,
}

/// One bank transaction. `uuid`, when present, is the dedup key; `amount_cents`
/// holds the signed amount in cents.
pub struct Transaction {
    pub account_id: String,
    pub type_: String,
    pub transaction_type: Option<String>,
    pub status: String,
    pub description: String,
    pub card_number: Option<String>,
    pub posted_order: Option<i64>,
    pub posting_date: Option<String>,
    pub value_date: Option<String>,
    pub action_date: Option<String>,
    pub transaction_date: Option<String>,
    pub amount_cents: i64,
    pub running_balance_cents: Option<i64>,
    pub uuid: Option<String>,
}

/// The list under the transactions endpoint's `data` wrapper.
pub struct TransactionsResponse {
    pub transactions: Vec<Transaction>,
}

impl Transaction {
    /// A field-for-field duplicate, for storing a row while the caller keeps
    /// the original.
    pub fn duplicate(&self) -> (r: Transaction)
        ensures
            r == *self,
    {
        Transaction {
            account_id: self.account_id.clone(),
            type_: self.type_.clone(),
            transaction_type: crate::text::clone_opt_string(&self.transaction_type),
            status: self.status.clone(),
            description: self.description.clone(),
            card_number: crate::text::clone_opt_string(&self.card_number),
            posted_order: self.posted_order,
            posting_date: crate::text::clone_opt_string(&self.posting_date),
            value_date: crate::text::clone_opt_string(&self.value_date),
            action_date: crate::text::clone_opt_string(&self.action_date),
            transaction_date: crate::text::clone_opt_string(&self.transaction_date),
            amount_cents: self.amount_cents,
            running_balance_cents: self.running_balance_cents,
            uuid: crate::text::clone_opt_string(&self.uuid),
        }
    }
}

} // verus!
