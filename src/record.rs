//! The stored form of a transaction: a record of named, typed attributes.
use vstd::prelude::*;

use crate::number::{i64_of_text, i64_text, is_decimal_of, is_float, is_float_text, parse_i64};
use crate::transaction::{amounts_readable, Transaction, TransactionView};


verus! {

/// An attribute value as the store types it: a string, a number (kept as its
/// decimal text), or any other kind, which no field of a transaction uses.
#[derive(Debug, Clone, PartialEq)]
pub enum AttrValue {
    S(String),
    N(String),
    Other,
}

pub enum AttrModel {
    S(Seq<char>),
    N(Seq<char>),
    Other,
}

impl View for AttrValue {
    type V = AttrModel;

    open spec fn view(&self) -> AttrModel {
        match self {
            AttrValue::S(s) => AttrModel::S(s@),
            AttrValue::N(s) => AttrModel::N(s@),
            AttrValue::Other => AttrModel::Other,
        }
    }
}

/// One stored record: attribute names with their values. Where a name occurs
/// twice, the first occurrence counts.
#[derive(Debug, Clone, PartialEq)]
pub struct Record {
    pub attrs: Vec<(String, AttrValue)>,
}

pub type RecordView = Seq<(Seq<char>, AttrModel)>;

impl View for Record {
    type V = RecordView;

    open spec fn view(&self) -> RecordView {
        self.attrs@.map_values(|p: (String, AttrValue)| (p.0@, p.1@))
    }
}

/// The fields of a transaction, each stored under an attribute of its own.
#[derive(Debug, Clone, Copy, PartialEq, Eq, Structural)]
pub enum Field {
    Id,
    Symbol,
    PurchaseCost,
    Count,
    CreatedAt,
}

/// Why a stored record is no transaction.
#[derive(Debug, Clone, Copy, PartialEq, Eq, Structural)]
pub enum DecodeError {
    /// The record has no attribute of that name.
    Missing(Field),
    /// The attribute is of another kind than the field is stored as.
    WrongType(Field),
    /// The attribute's text cannot be read as the field's number.
    Unparsable(Field),
}

pub open spec fn field_name(f: Field) -> Seq<char> {
    match f {
        Field::Id => seq!['i', 'd'],
        Field::Symbol => seq!['s', 'y', 'm', 'b', 'o', 'l'],
        Field::PurchaseCost => seq!['p', 'u', 'r', 'c', 'h', 'a', 's', 'e', 'C', 'o', 's', 't'],
        Field::Count => seq!['c', 'o', 'u', 'n', 't'],
        Field::CreatedAt => seq!['c', 'r', 'e', 'a', 't', 'e', 'd', 'A', 't'],
    }
}

/// The value of the first attribute named `name`.
pub open spec fn attr_of(r: RecordView, name: Seq<char>) -> Option<AttrModel>
    decreases r.len(),
{
    if r.len() == 0 {
        None
    } else if r[0].0 == name {
        Some(r[0].1)
    } else {
        attr_of(r.drop_first(), name)
    }
}

/// Identifier, symbol and timestamp are stored as strings, the amounts as numbers.
pub open spec fn stored_as_string(f: Field) -> bool {
    f is Id || f is Symbol || f is CreatedAt
}

pub open spec fn field_error(r: RecordView, f: Field) -> Option<DecodeError> {
    match attr_of(r, field_name(f)) {
        None => Some(DecodeError::Missing(f)),
        Some(AttrModel::S(t)) => if !stored_as_string(f) {
            Some(DecodeError::WrongType(f))
        } else if f is CreatedAt && i64_of_text(t) is None {
            Some(DecodeError::Unparsable(f))
        } else {
            None
        },
        Some(AttrModel::N(t)) => if stored_as_string(f) {
            Some(DecodeError::WrongType(f))
        } else if !is_float_text(t) {
            Some(DecodeError::Unparsable(f))
        } else {
            None
        },
        Some(AttrModel::Other) => Some(DecodeError::WrongType(f)),
    }
}

/// The first field that fails, in the order id, count, purchase cost,
/// creation time, symbol.
pub open spec fn decode_error(r: RecordView) -> Option<DecodeError> {
    if field_error(r, Field::Id) is Some {
        field_error(r, Field::Id)
    } else if field_error(r, Field::Count) is Some {
        field_error(r, Field::Count)
    } else if field_error(r, Field::PurchaseCost) is Some {
        field_error(r, Field::PurchaseCost)
    } else if field_error(r, Field::CreatedAt) is Some {
        field_error(r, Field::CreatedAt)
    } else {
        field_error(r, Field::Symbol)
    }
}

pub open spec fn attr_text(r: RecordView, f: Field) -> Seq<char> {
    match attr_of(r, field_name(f)) {
        Some(AttrModel::S(t)) => t,
        Some(AttrModel::N(t)) => t,
        _ => Seq::empty(),
    }
}

pub open spec fn decoded(r: RecordView) -> TransactionView {
    TransactionView {
        id: attr_text(r, Field::Id),
        symbol: attr_text(r, Field::Symbol),
        purchase_cost: attr_text(r, Field::PurchaseCost),
        count: attr_text(r, Field::Count),
        created_at: match i64_of_text(attr_text(r, Field::CreatedAt)) {
            Some(v) => v,
            None => 0,
        },
    }
}

/// The transaction that a stored record holds, or the first reason it holds none.
pub open spec fn decode_spec(r: RecordView) -> Result<TransactionView, DecodeError> {
    match decode_error(r) {
        Some(e) => Err(e),
        None => Ok(decoded(r)),
    }
}

/// `r` is the stored form of `t`: its five fields under their names, the
/// creation time as the decimal text of the integer.
pub open spec fn is_record_of(r: RecordView, t: TransactionView) -> bool {
    &&& r.len() == 5
    &&& r[0] == (field_name(Field::Id), AttrModel::S(t.id))
    &&& r[1] == (field_name(Field::Symbol), AttrModel::S(t.symbol))
    &&& r[2] == (field_name(Field::PurchaseCost), AttrModel::N(t.purchase_cost))
    &&& r[3].0 == field_name(Field::CreatedAt)
    &&& r[3].1 matches AttrModel::S(s) && is_decimal_of(s, t.created_at as int)
    &&& r[4] == (field_name(Field::Count), AttrModel::N(t.count))
}

fn attr_name(f: Field) -> (r: &'static str)
    ensures
        r@ == field_name(f),
{
    proof {
        reveal_strlit("id");
        reveal_strlit("symbol");
        reveal_strlit("purchaseCost");
        reveal_strlit("count");
        reveal_strlit("createdAt");
    }
    match f {
        Field::Id => "id",
        Field::Symbol => "symbol",
        Field::PurchaseCost => "purchaseCost",
        Field::Count => "count",
        Field::CreatedAt => "createdAt",
    }
}

impl Record {
    /// The value of the first attribute named `name`.
    pub fn get(&self, name: &str) -> (res: Option<&AttrValue>)
        ensures
            match res {
                Some(v) => attr_of(self@, name@) == Some(v@),
                None => attr_of(self@, name@) is None,
            },
    {
        let key = String::from_str(name);
        let mut i: usize = 0;
        assert(self@.skip(0) =~= self@);
        while i < self.attrs.len()
            invariant
                i <= self.attrs@.len(),
                key@ == name@,
                attr_of(self@, name@) == attr_of(self@.skip(i as int), name@),
            decreases self.attrs@.len() - i,
        {
            assert(self@.skip(i as int).drop_first() =~= self@.skip(i + 1));
            if self.attrs[i].0 == key {
                return Some(&self.attrs[i].1);
            }
            i = i + 1;
        }
        None
    }
}

/// The text of field `f`, checked against the kind it is stored as and, for
/// the amounts and the creation time, against the number it must read as.
fn field_text(r: &Record, f: Field) -> (res: Result<String, DecodeError>)
    ensures
        match res {
            Ok(t) => field_error(r@, f) is None && t@ == attr_text(r@, f),
            Err(e) => field_error(r@, f) == Some(e),
        },
{
    match r.get(attr_name(f)) {
        None => Err(DecodeError::Missing(f)),
        Some(AttrValue::S(t)) => {
            if !(f == Field::Id || f == Field::Symbol || f == Field::CreatedAt) {
                Err(DecodeError::WrongType(f))
            } else if f == Field::CreatedAt && parse_i64(t.as_str()).is_none() {
                Err(DecodeError::Unparsable(f))
            } else {
                Ok(t.clone())
            }
        },
        Some(AttrValue::N(t)) => {
            if f == Field::Id || f == Field::Symbol || f == Field::CreatedAt {
                Err(DecodeError::WrongType(f))
            } else if !is_float(t.as_str()) {
                Err(DecodeError::Unparsable(f))
            } else {
                Ok(t.clone())
            }
        },
        Some(AttrValue::Other) => Err(DecodeError::WrongType(f)),
    }
}

/// Reads a transaction out of its stored record. Fails on a missing
/// attribute, an attribute of the wrong kind, or number text that does not
/// read; no field is filled in with a default.
pub fn decode_record(r: &Record) -> (res: Result<Transaction, DecodeError>)
    ensures
        match res {
            Ok(t) => decode_spec(r@) == Ok::<TransactionView, DecodeError>(t@),
            Err(e) => decode_spec(r@) == Err::<TransactionView, DecodeError>(e),
        },
{
    let id = match field_text(r, Field::Id) {
        Ok(t) => t,
        Err(e) => return Err(e),
    };
    let count = match field_text(r, Field::Count) {
        Ok(t) => t,
        Err(e) => return Err(e),
    };
    let purchase_cost = match field_text(r, Field::PurchaseCost) {
        Ok(t) => t,
        Err(e) => return Err(e),
    };
    let created_text = match field_text(r, Field::CreatedAt) {
        Ok(t) => t,
        Err(e) => return Err(e),
    };
    let symbol = match field_text(r, Field::Symbol) {
        Ok(t) => t,
        Err(e) => return Err(e),
    };
    let created_at = match parse_i64(created_text.as_str()) {
        Some(v) => v,
        None => return Err(DecodeError::Unparsable(Field::CreatedAt)),
    };
    let t = Transaction { id, symbol, purchase_cost, count, created_at };
    assert(t@ == decoded(r@));
    Ok(t)
}

/// A transaction read back from its stored record is the transaction written.
pub proof fn lemma_record_round_trip(r: RecordView, t: TransactionView)
    requires
        is_record_of(r, t),
        amounts_readable(t),
    ensures
        decode_spec(r) == Ok::<TransactionView, DecodeError>(t),
{
    reveal_with_fuel(attr_of, 6);
    let s = match r[3].1 {
        AttrModel::S(s) => s,
        _ => Seq::empty(),
    };
    crate::number::lemma_decimal_reads_back(s, t.created_at);
    assert(r.drop_first()[0] == r[1]);
    assert(r.drop_first().drop_first()[0] == r[2]);
    assert(r.drop_first().drop_first().drop_first()[0] == r[3]);
    assert(r.drop_first().drop_first().drop_first().drop_first()[0] == r[4]);
    assert(decoded(r) == t);
}

/// The stored record of a transaction.
pub fn encode_transaction(t: &Transaction) -> (r: Record)
    ensures
        is_record_of(r@, t@),
{
    let mut attrs: Vec<(String, AttrValue)> = Vec::new();
    attrs.push((String::from_str(attr_name(Field::Id)), AttrValue::S(t.id.clone())));
    attrs.push((String::from_str(attr_name(Field::Symbol)), AttrValue::S(t.symbol.clone())));
    attrs.push(
        (
            String::from_str(attr_name(Field::PurchaseCost)),
            AttrValue::N(t.purchase_cost.clone()),
        ),
    );
    attrs.push((String::from_str(attr_name(Field::CreatedAt)), AttrValue::S(i64_text(t.created_at))));
    attrs.push((String::from_str(attr_name(Field::Count)), AttrValue::N(t.count.clone())));
    let r = Record { attrs };
    assert(r@.len() == 5);
    r
}

} // verus!
