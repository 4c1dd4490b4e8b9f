//! The collection of stored records, keyed by each record's `id`, and reading
//! transactions out of a scan of it.
use vstd::prelude::*;

use crate::record::{
    attr_of, decode_record, decode_spec, decoded, field_name, is_record_of,
    lemma_record_round_trip, AttrModel, DecodeError, Field, Record, RecordView,
};
use crate::transaction::{amounts_readable, Transaction, TransactionView};

verus! {

/// The key of a record: its `id` attribute, where that is a string.
pub open spec fn key_of(r: RecordView) -> Option<Seq<char>> {
    match attr_of(r, field_name(Field::Id)) {
        Some(AttrModel::S(k)) => Some(k),
        _ => None,
    }
}

/// The collection's state: each key with the record stored under it.
pub type CollectionView = Map<Seq<char>, RecordView>;

/// Writing a keyed record replaces whatever was stored under its key.
pub open spec fn after_put(c: CollectionView, r: RecordView) -> CollectionView {
    match key_of(r) {
        Some(k) => c.insert(k, r),
        None => c,
    }
}

/// `s` is what a scan of `c` returns: every stored record exactly once, in
/// any order.
pub open spec fn is_listing(c: CollectionView, s: Seq<RecordView>) -> bool {
    &&& forall|i: int|
        0 <= i < s.len() ==> (#[trigger] key_of(s[i]) matches Some(k) && c.contains_key(k)
            && c[k] == s[i])
    &&& forall|k: Seq<char>|
        #[trigger] c.contains_key(k) ==> exists|i: int| 0 <= i < s.len() && key_of(s[i]) == Some(k)
    &&& forall|i: int, j: int| 0 <= i < j < s.len() ==> key_of(s[i]) != key_of(s[j])
}

/// Every listed record holds a transaction.
pub open spec fn all_decode(s: Seq<RecordView>) -> bool {
    forall|i: int| 0 <= i < s.len() ==> #[trigger] decode_spec(s[i]) is Ok
}

/// The transactions that the listed records hold, in their order.
pub open spec fn listed(s: Seq<RecordView>) -> Seq<TransactionView> {
    s.map_values(|r: RecordView| decoded(r))
}

pub open spec fn record_views(rs: Seq<Record>) -> Seq<RecordView> {
    rs.map_values(|r: Record| r@)
}

pub open spec fn transaction_views(ts: Seq<Transaction>) -> Seq<TransactionView> {
    ts.map_values(|t: Transaction| t@)
}

/// The transactions of all the records, or the error of the first record that
/// holds none: no partial result.
pub fn decode_all(records: &Vec<Record>) -> (res: Result<Vec<Transaction>, DecodeError>)
    ensures
        match res {
            Ok(ts) => all_decode(record_views(records@)) && transaction_views(ts@) == listed(
                record_views(records@),
            ),
            Err(e) => exists|k: int|
                0 <= k < records@.len() && (forall|j: int|
                    0 <= j < k ==> #[trigger] decode_spec(record_views(records@)[j]) is Ok)
                    && decode_spec(record_views(records@)[k]) == Err::<TransactionView, DecodeError>(e),
        },
{
    let ghost rs = record_views(records@);
    let mut out: Vec<Transaction> = Vec::new();
    let mut i: usize = 0;
    while i < records.len()
        invariant
            i <= records@.len(),
            rs == record_views(records@),
            out@.len() == i,
            forall|j: int| 0 <= j < i ==> #[trigger] decode_spec(rs[j]) is Ok,
            forall|j: int| 0 <= j < i ==> #[trigger] out@[j]@ == decoded(rs[j]),
        decreases records@.len() - i,
    {
        match decode_record(&records[i]) {
            Ok(t) => {
                out.push(t);
            },
            Err(e) => {
                assert(decode_spec(rs[i as int]) == Err::<TransactionView, DecodeError>(e));
                return Err(e);
            },
        }
        i = i + 1;
    }
    assert(transaction_views(out@) =~= listed(rs));
    Ok(out)
}

/// Within one listing no two transactions share an `id`.
pub proof fn lemma_listed_ids_distinct(c: CollectionView, s: Seq<RecordView>, i: int, j: int)
    requires
        is_listing(c, s),
        all_decode(s),
        0 <= i < s.len(),
        0 <= j < s.len(),
        listed(s)[i].id == listed(s)[j].id,
    ensures
        i == j,
{
    lemma_decoded_key(s[i]);
    lemma_decoded_key(s[j]);
    if i < j {
        assert(key_of(s[i]) != key_of(s[j]));
    } else if j < i {
        assert(key_of(s[j]) != key_of(s[i]));
    }
}

/// A record that holds a transaction is keyed by that transaction's `id`.
proof fn lemma_decoded_key(r: RecordView)
    requires
        decode_spec(r) is Ok,
    ensures
        key_of(r) == Some(decoded(r).id),
{
}

/// After a transaction is written, a scan lists it exactly once, with every
/// field as written.
pub proof fn lemma_written_then_listed(
    c: CollectionView,
    t: TransactionView,
    r: RecordView,
    s: Seq<RecordView>,
)
    requires
        is_record_of(r, t),
        amounts_readable(t),
        is_listing(after_put(c, r), s),
        all_decode(s),
    ensures
        exists|i: int| 0 <= i < s.len() && listed(s)[i] == t,
        forall|i: int| 0 <= i < s.len() && listed(s)[i].id == t.id ==> listed(s)[i] == t,
        forall|i: int, j: int|
            0 <= i < s.len() && 0 <= j < s.len() && listed(s)[i].id == t.id && listed(s)[j].id
                == t.id ==> i == j,
{
    lemma_record_round_trip(r, t);
    lemma_decoded_key(r);
    let c2 = after_put(c, r);
    assert(c2.contains_key(t.id));
    let i0 = choose|i: int| 0 <= i < s.len() && key_of(s[i]) == Some(t.id);
    assert(c2[t.id] == r);
    assert(s[i0] == r);
    assert(listed(s)[i0] == t);
    assert forall|i: int| 0 <= i < s.len() && listed(s)[i].id == t.id implies listed(s)[i]
        == t by {
        assert(decode_spec(s[i]) is Ok);
        lemma_decoded_key(s[i]);
        if i != i0 {
            if i < i0 {
                assert(key_of(s[i]) != key_of(s[i0]));
            } else {
                assert(key_of(s[i0]) != key_of(s[i]));
            }
        }
    }
    assert forall|i: int, j: int|
        0 <= i < s.len() && 0 <= j < s.len() && listed(s)[i].id == t.id && listed(s)[j].id
            == t.id implies i == j by {
        lemma_listed_ids_distinct(c2, s, i, j);
    }
}

/// Writing a second record under the same `id` replaces the first: a scan
/// lists only the second, once, with none of the first one's fields.
pub proof fn lemma_overwrite(
    c: CollectionView,
    t1: TransactionView,
    r1: RecordView,
    t2: TransactionView,
    r2: RecordView,
    s: Seq<RecordView>,
)
    requires
        t1.id == t2.id,
        is_record_of(r1, t1),
        is_record_of(r2, t2),
        amounts_readable(t1),
        amounts_readable(t2),
        is_listing(after_put(after_put(c, r1), r2), s),
        all_decode(s),
    ensures
        exists|i: int| 0 <= i < s.len() && listed(s)[i] == t2,
        forall|i: int| 0 <= i < s.len() && listed(s)[i].id == t2.id ==> listed(s)[i] == t2,
        forall|i: int, j: int|
            0 <= i < s.len() && 0 <= j < s.len() && listed(s)[i].id == t2.id && listed(s)[j].id
                == t2.id ==> i == j,
{
    lemma_record_round_trip(r1, t1);
    lemma_record_round_trip(r2, t2);
    lemma_decoded_key(r1);
    lemma_decoded_key(r2);
    assert(after_put(after_put(c, r1), r2) =~= after_put(c, r2));
    lemma_written_then_listed(c, t2, r2, s);
}

/// Two scans of one unchanged collection agree: both hold transactions only
/// or neither does, and then they list the same transactions, none twice.
pub proof fn lemma_scans_agree(c: CollectionView, s1: Seq<RecordView>, s2: Seq<RecordView>)
    requires
        is_listing(c, s1),
        is_listing(c, s2),
    ensures
        all_decode(s1) <==> all_decode(s2),
        all_decode(s1) ==> listed(s1).to_set() == listed(s2).to_set(),
        all_decode(s1) ==> listed(s1).no_duplicates() && listed(s2).no_duplicates(),
{
    lemma_listing_covered(c, s1, s2);
    lemma_listing_covered(c, s2, s1);
    if all_decode(s1) {
        assert(listed(s1).to_set() =~= listed(s2).to_set()) by {
            assert forall|x: TransactionView| listed(s1).to_set().contains(x) implies listed(
                s2,
            ).to_set().contains(x) by {
                let i = choose|i: int| 0 <= i < listed(s1).len() && listed(s1)[i] == x;
                let j = choose|j: int| 0 <= j < s2.len() && s2[j] == s1[i];
                assert(listed(s2)[j] == x);
            }
            assert forall|x: TransactionView| listed(s2).to_set().contains(x) implies listed(
                s1,
            ).to_set().contains(x) by {
                let j = choose|j: int| 0 <= j < listed(s2).len() && listed(s2)[j] == x;
                let i = choose|i: int| 0 <= i < s1.len() && s1[i] == s2[j];
                assert(listed(s1)[i] == x);
            }
        }
        assert forall|i: int, j: int|
            0 <= i < listed(s1).len() && 0 <= j < listed(s1).len() && i != j implies listed(
                s1,
            )[i] != listed(s1)[j] by {
            if listed(s1)[i] == listed(s1)[j] {
                lemma_listed_ids_distinct(c, s1, i, j);
            }
        }
        assert forall|i: int, j: int|
            0 <= i < listed(s2).len() && 0 <= j < listed(s2).len() && i != j implies listed(
                s2,
            )[i] != listed(s2)[j] by {
            if listed(s2)[i] == listed(s2)[j] {
                lemma_listed_ids_distinct(c, s2, i, j);
            }
        }
    }
}

/// Each record of one listing stands in the other.
proof fn lemma_listing_covered(c: CollectionView, s1: Seq<RecordView>, s2: Seq<RecordView>)
    requires
        is_listing(c, s1),
        is_listing(c, s2),
    ensures
        forall|i: int| 0 <= i < s1.len() ==> s2.contains(#[trigger] s1[i]),
        all_decode(s2) ==> all_decode(s1),
{
    assert forall|i: int| 0 <= i < s1.len() implies s2.contains(#[trigger] s1[i]) by {
        let k = key_of(s1[i])->Some_0;
        assert(c.contains_key(k) && c[k] == s1[i]);
        let j = choose|j: int| 0 <= j < s2.len() && key_of(s2[j]) == Some(k);
        assert(key_of(s2[j]) matches Some(k2) && c[k2] == s2[j]);
        assert(s2[j] == s1[i]);
    }
    if all_decode(s2) {
        assert forall|i: int| 0 <= i < s1.len() implies #[trigger] decode_spec(s1[i]) is Ok by {
            let j = choose|j: int| 0 <= j < s2.len() && s2[j] == s1[i];
            assert(decode_spec(s2[j]) is Ok);
        }
    }
}

} // verus!
