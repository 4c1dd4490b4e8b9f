//! The two operations of the stock service. Both are stateless: the store is
//! read and written by the caller, which hands the outcome back here.
use vstd::prelude::*;

use crate::collection::{
    after_put, all_decode, decode_all, is_listing, lemma_written_then_listed, listed,
    record_views, transaction_views, CollectionView,
};
use crate::number::{is_amount, is_amount_text, is_float_text};
use vstd::string::StrSliceExecFns;
use crate::record::{decode_spec, encode_transaction, is_record_of, DecodeError, Record, RecordView};
use crate::transaction::{Transaction, TransactionView};

verus! {

/// Why a create request is refused before the store is touched.
#[derive(Debug, Clone, Copy, PartialEq, Eq, Structural)]
pub enum InputError {
    EmptySymbol,
    /// The cost is not a finite number at or above zero.
    InvalidCost,
}

/// How the store failed.
#[derive(Debug, Clone, Copy, PartialEq, Eq, Structural)]
pub enum StoreError {
    /// The store could not be reached.
    Unreachable,
    /// The store refused the operation.
    Rejected,
}

/// The failure of one operation: bad input, the store, or stored data that
/// holds no transaction.
#[derive(Debug, Clone, Copy, PartialEq, Eq, Structural)]
pub enum ServiceError {
    InvalidInput(InputError),
    Store(StoreError),
    Decode(DecodeError),
}

#[derive(Debug)]
pub struct CreateTransactionRequest {
    pub symbol: String,
    /// The cost as decimal text.
    pub purchase_cost: String,
}

#[derive(Debug)]
pub struct CreateTransactionResponse {
    pub id: String,
}

#[derive(Debug)]
pub struct ListTransactionsRequest {
    /// Accepted and not used: a place for a filter to come.
    pub name: String,
}

#[derive(Debug)]
pub struct ListTransactionsResponse {
    pub transactions: Vec<Transaction>,
}

/// A transaction that is ready to be written: its new identifier and the
/// record to put into the store.
#[derive(Debug)]
pub struct PreparedCreate {
    pub id: String,
    pub item: Record,
}

/// The stock service. What the server assigns to a new transaction, rather
/// than the caller, is configured here.
#[derive(Debug)]
pub struct StockServiceImpl {
    /// The count given to each new transaction, as decimal text.
    pub count: String,
    /// The creation time given to each new transaction.
    pub created_at: i64,
}

pub open spec fn is_lower_hex(c: char) -> bool {
    ('0' <= c && c <= '9') || ('a' <= c && c <= 'f')
}

/// The hyphenated lower-case text of a random (version 4, RFC variant) UUID.
pub open spec fn is_uuid_v4_text(s: Seq<char>) -> bool {
    &&& s.len() == 36
    &&& forall|i: int|
        0 <= i < 36 ==> if i == 8 || i == 13 || i == 18 || i == 23 {
            #[trigger] s[i] == '-'
        } else {
            is_lower_hex(s[i])
        }
    &&& s[14] == '4'
    &&& (s[19] == '8' || s[19] == '9' || s[19] == 'a' || s[19] == 'b')
}

/// Relies on `uuid::Uuid::new_v4`, a random version 4 UUID, and on its
/// `Display`, which writes the hyphenated lower-case form.
#[verifier::external_body]
fn new_transaction_id() -> (r: String)
    ensures
        is_uuid_v4_text(r@),
{
    uuid::Uuid::new_v4().to_string()
}

/// Why a create request is refused, if it is.
pub open spec fn request_error(symbol: Seq<char>, cost: Seq<char>) -> Option<InputError> {
    if symbol.len() == 0 {
        Some(InputError::EmptySymbol)
    } else if !is_amount_text(cost) {
        Some(InputError::InvalidCost)
    } else {
        None
    }
}

/// The transaction that a create request makes under identifier `id`.
pub open spec fn new_transaction(
    svc: StockServiceImpl,
    symbol: Seq<char>,
    cost: Seq<char>,
    id: Seq<char>,
) -> TransactionView {
    TransactionView {
        id,
        symbol,
        purchase_cost: cost,
        count: svc.count@,
        created_at: svc.created_at,
    }
}

/// Checks a create request: a symbol that is not empty, and a cost that is a
/// finite number at or above zero.
pub fn check_request(req: &CreateTransactionRequest) -> (r: Result<(), InputError>)
    ensures
        match r {
            Ok(()) => request_error(req.symbol@, req.purchase_cost@) is None,
            Err(e) => request_error(req.symbol@, req.purchase_cost@) == Some(e),
        },
{
    if req.symbol.as_str().unicode_len() == 0 {
        Err(InputError::EmptySymbol)
    } else if !is_amount(req.purchase_cost.as_str()) {
        Err(InputError::InvalidCost)
    } else {
        Ok(())
    }
}

impl StockServiceImpl {
    /// A service that gives each new transaction a count of 5000 and a
    /// creation time of 5000.
    pub fn new() -> (r: StockServiceImpl)
        ensures
            r.count@ == seq!['5', '0', '0', '0'],
            r.created_at == 5000,
    {
        proof {
            reveal_strlit("5000");
        }
        StockServiceImpl { count: String::from_str("5000"), created_at: 5000 }
    }

    /// The transaction that `req` makes under identifier `id`.
    pub fn build_transaction(&self, req: &CreateTransactionRequest, id: String) -> (t:
        Transaction)
        ensures
            t@ == new_transaction(*self, req.symbol@, req.purchase_cost@, id@),
    {
        Transaction {
            id,
            symbol: req.symbol.clone(),
            purchase_cost: req.purchase_cost.clone(),
            count: self.count.clone(),
            created_at: self.created_at,
        }
    }

    /// The first half of creating a transaction: checks the request, draws a
    /// fresh identifier and builds the record to write. Nothing is written.
    pub fn create_transaction(&self, req: &CreateTransactionRequest) -> (r: Result<
        PreparedCreate,
        ServiceError,
    >)
        ensures
            match r {
                Ok(p) => {
                    &&& request_error(req.symbol@, req.purchase_cost@) is None
                    &&& is_uuid_v4_text(p.id@)
                    &&& is_record_of(
                        p.item@,
                        new_transaction(*self, req.symbol@, req.purchase_cost@, p.id@),
                    )
                },
                Err(e) => request_error(req.symbol@, req.purchase_cost@) matches Some(ie) && e
                    == ServiceError::InvalidInput(ie),
            },
    {
        if let Err(e) = check_request(req) {
            return Err(ServiceError::InvalidInput(e));
        }
        let id = new_transaction_id();
        let t = self.build_transaction(req, id);
        let item = encode_transaction(&t);
        Ok(PreparedCreate { id: t.id, item })
    }

    /// Lists the transactions that a scan of the store returned: all of them,
    /// unchanged, or the failure, with no partial result. The request's name
    /// is not used.
    pub fn list_transactions(
        &self,
        _req: &ListTransactionsRequest,
        scanned: Result<Vec<Record>, StoreError>,
    ) -> (r: Result<ListTransactionsResponse, ServiceError>)
        ensures
            match scanned {
                Err(e) => r == Err::<ListTransactionsResponse, ServiceError>(ServiceError::Store(e)),
                Ok(rs) => match r {
                    Ok(resp) => all_decode(record_views(rs@)) && transaction_views(
                        resp.transactions@,
                    ) == listed(record_views(rs@)),
                    Err(e) => {
                        &&& !all_decode(record_views(rs@))
                        &&& exists|k: int|
                            0 <= k < rs@.len() && (forall|j: int|
                                0 <= j < k ==> #[trigger] decode_spec(record_views(rs@)[j]) is Ok)
                                && decode_spec(record_views(rs@)[k]) is Err && e
                                == ServiceError::Decode(decode_spec(record_views(rs@)[k])->Err_0)
                    },
                },
            },
    {
        match scanned {
            Err(e) => Err(ServiceError::Store(e)),
            Ok(rs) => match decode_all(&rs) {
                Ok(transactions) => Ok(ListTransactionsResponse { transactions }),
                Err(e) => Err(ServiceError::Decode(e)),
            },
        }
    }
}

/// Once the record that a create request prepared is written, a scan lists
/// the new transaction exactly once, with the request's symbol and cost and the
/// service's count and creation time.
pub proof fn lemma_created_then_listed(
    svc: StockServiceImpl,
    symbol: Seq<char>,
    cost: Seq<char>,
    id: Seq<char>,
    item: RecordView,
    c: CollectionView,
    s: Seq<RecordView>,
)
    requires
        request_error(symbol, cost) is None,
        is_float_text(svc.count@),
        is_record_of(item, new_transaction(svc, symbol, cost, id)),
        is_listing(after_put(c, item), s),
        all_decode(s),
    ensures
        exists|i: int|
            0 <= i < s.len() && listed(s)[i] == new_transaction(svc, symbol, cost, id),
        forall|i: int|
            0 <= i < s.len() && listed(s)[i].id == id ==> listed(s)[i].symbol == symbol
                && listed(s)[i].purchase_cost == cost,
        forall|i: int, j: int|
            0 <= i < s.len() && 0 <= j < s.len() && listed(s)[i].id == id && listed(s)[j].id
                == id ==> i == j,
{
    lemma_written_then_listed(c, new_transaction(svc, symbol, cost, id), item, s);
}

impl PreparedCreate {
    /// The second half of creating a transaction, given how the write went:
    /// the new identifier where the record was written, else the store's
    /// failure and no identifier.
    pub fn complete(self, written: Result<(), StoreError>) -> (r: Result<
        CreateTransactionResponse,
        ServiceError,
    >)
        ensures
            match written {
                Ok(()) => r matches Ok(resp) && resp.id@ == self.id@,
                Err(e) => r == Err::<CreateTransactionResponse, ServiceError>(
                    ServiceError::Store(e),
                ),
            },
    {
        match written {
            Ok(()) => Ok(CreateTransactionResponse { id: self.id }),
            Err(e) => Err(ServiceError::Store(e)),
        }
    }
}

impl Default for StockServiceImpl {
    fn default() -> (r: StockServiceImpl)
        ensures
            r.count@ == seq!['5', '0', '0', '0'],
            r.created_at == 5000,
    {
        StockServiceImpl::new()
    }
}

} // verus!
