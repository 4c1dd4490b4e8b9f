//! The transaction entity.
use vstd::prelude::*;

use crate::number::is_float_text;

verus! {

/// One recorded stock purchase. The two amounts are held as the decimal text
/// that the store keeps for a number.
#[derive(Debug, Clone, PartialEq)]
pub struct Transaction {
    pub id: String,
    pub symbol: String,
    pub purchase_cost: String,
    pub count: String,
    pub created_at: i64,
}

pub struct TransactionView {
    pub id: Seq<char>,
    pub symbol: Seq<char>,
    pub purchase_cost: Seq<char>,
    pub count: Seq<char>,
    pub created_at: i64,
}

impl View for Transaction {
    type V = TransactionView;

    open spec fn view(&self) -> TransactionView {
        TransactionView {
            id: self.id@,
            symbol: self.symbol@,
            purchase_cost: self.purchase_cost@,
            count: self.count@,
            created_at: self.created_at,
        }
    }
}

/// Both amounts are text that a 64-bit float can be read from.
pub open spec fn amounts_readable(t: TransactionView) -> bool {
    is_float_text(t.purchase_cost) && is_float_text(t.count)
}

} // verus!
