use vstd::prelude::*;

use crate::document::{records_view, Document, DocumentModel};
use crate::record::{
    field_value, first_key_at, has_key, lemma_field_value_at, lemma_first_key_exists, key_client, key_po, key_stock, record_has_po, record_quantity,
    text_or_empty, Field, Record, RecordModel, Value, ValueModel,
};

verus! {

/// A stock-out request: one unit of `po` goes to `recipient`.
#[derive(Clone, Debug, PartialEq, Eq)]
pub struct StockOutRequest {
    pub po: String,
    pub recipient: String,
    pub kind: String,
    pub note: String,
    /// Overrides the lot's client when present and non-empty.
    pub client: Option<String>,
}

pub struct RequestModel {
    pub po: Seq<char>,
    pub recipient: Seq<char>,
    pub kind: Seq<char>,
    pub note: Seq<char>,
    pub client: Option<Seq<char>>,
}

impl View for StockOutRequest {
    type V = RequestModel;

    open spec fn view(&self) -> RequestModel {
        RequestModel {
            po: self.po@,
            recipient: self.recipient@,
            kind: self.kind@,
            note: self.note@,
            client: match self.client {
                Some(c) => Some(c@),
                None => None,
            },
        }
    }
}

/// A committed allocation: the new `stockOut` record, the stock left in the
/// lot it drew on, and that lot's position in `stockIn`.
#[derive(Clone, Debug, PartialEq, Eq)]
pub struct Allocated {
    pub record: Record,
    pub remaining: i64,
    pub lot: usize,
}

#[derive(PartialEq, Eq, Structural, Clone, Copy, Debug)]
pub enum AllocError {
    /// No lot of the requested PO has stock left.
    StockUnavailable,
}

pub open spec fn lot_available(lot: RecordModel, po: Seq<char>) -> bool {
    record_has_po(lot, po) && record_quantity(lot) > 0
}

/// `i` is the first lot, in stored order, that can serve `po`.
pub open spec fn first_available_at(lots: Seq<RecordModel>, po: Seq<char>, i: int) -> bool {
    &&& 0 <= i < lots.len()
    &&& lot_available(lots[i], po)
    &&& forall|k: int| 0 <= k < i ==> !lot_available(#[trigger] lots[k], po)
}

pub open spec fn any_available(lots: Seq<RecordModel>, po: Seq<char>) -> bool {
    exists|i: int| 0 <= i < lots.len() && lot_available(#[trigger] lots[i], po)
}

/// The client the allocation is booked to: the requested one when present
/// and non-empty, else the lot's own, else empty.
pub open spec fn effective_client(requested: Option<Seq<char>>, lot: RecordModel) -> Seq<char> {
    match requested {
        Some(c) if c.len() > 0 => c,
        _ => text_or_empty(field_value(lot, key_client())),
    }
}

/// The lot with its stock lowered by one and stored as a number, in place.
pub open spec fn decremented(lot: RecordModel) -> RecordModel {
    let j = choose|j: int| first_key_at(lot, key_stock(), j);
    lot.update(j, (key_stock(), ValueModel::Int(record_quantity(lot) - 1)))
}

pub open spec fn allocation_record(
    id: Seq<char>,
    date: Seq<char>,
    req: RequestModel,
    client: Seq<char>,
) -> RecordModel {
    seq![
        ("id"@, ValueModel::Text(id)),
        ("date"@, ValueModel::Text(date)),
        ("PO"@, ValueModel::Text(req.po)),
        ("client"@, ValueModel::Text(client)),
        ("recipient"@, ValueModel::Text(req.recipient)),
        ("type"@, ValueModel::Text(req.kind)),
        ("note"@, ValueModel::Text(req.note)),
    ]
}

/// What an allocation does to `d`: the new document, the new record, the
/// remaining stock and the lot drawn on; `None` when no lot can serve.
pub open spec fn allocation_outcome(
    d: DocumentModel,
    req: RequestModel,
    id: Seq<char>,
    date: Seq<char>,
) -> Option<(DocumentModel, RecordModel, int, int)> {
    if any_available(d.stock_in, req.po) {
        let i = choose|i: int| first_available_at(d.stock_in, req.po, i);
        let lot = d.stock_in[i];
        let rec = allocation_record(id, date, req, effective_client(req.client, lot));
        let nd = DocumentModel {
            stock_in: d.stock_in.update(i, decremented(lot)),
            stock_out: seq![rec] + d.stock_out,
            system_list: d.system_list,
        };
        Some((nd, rec, record_quantity(lot) - 1, i))
    } else {
        None
    }
}

pub proof fn lemma_first_available_unique(lots: Seq<RecordModel>, po: Seq<char>, i: int, j: int)
    requires
        first_available_at(lots, po, i),
        first_available_at(lots, po, j),
    ensures
        i == j,
{
    if i < j {
        assert(!lot_available(lots[i], po));
    } else if j < i {
        assert(!lot_available(lots[j], po));
    }
}

/// Any available lot means a first one.
pub proof fn lemma_first_available_exists(lots: Seq<RecordModel>, po: Seq<char>)
    requires
        any_available(lots, po),
    ensures
        exists|i: int| first_available_at(lots, po, i),
    decreases lots.len(),
{
    let w = choose|i: int| 0 <= i < lots.len() && lot_available(#[trigger] lots[i], po);
    if lot_available(lots[0], po) {
        assert(first_available_at(lots, po, 0));
    } else {
        let rest = lots.drop_first();
        assert(rest[w - 1] == lots[w]);
        lemma_first_available_exists(rest, po);
        let i = choose|i: int| first_available_at(rest, po, i);
        assert forall|k: int| 0 <= k < i + 1 implies !lot_available(#[trigger] lots[k], po) by {
            if k > 0 {
                assert(lots[k] == rest[k - 1]);
            }
        }
        assert(first_available_at(lots, po, i + 1));
    }
}

/// The text of the field `key` of `r`, or the empty string.
fn text_field(r: &Record, key: &str) -> (s: String)
    ensures
        s@ == text_or_empty(field_value(r@, key@)),
{
    match r.get(key) {
        Some(Value::Text(t)) => t.clone(),
        _ => String::new(),
    }
}

/// The stock quantity of a lot.
fn lot_quantity(r: &Record) -> (q: i64)
    ensures
        q as int == record_quantity(r@),
{
    match r.get("stock") {
        Some(v) => v.quantity(),
        None => 0,
    }
}

fn lot_has_po(r: &Record, po: &String) -> (b: bool)
    ensures
        b == record_has_po(r@, po@),
{
    match r.get("PO") {
        Some(Value::Text(t)) => *t == *po,
        _ => false,
    }
}

/// The stock-out transaction: takes one unit from the first lot of the
/// requested PO that still has stock, and prepends the allocation record,
/// stamped with `id` and `date`, to `stock_out`. When no lot can serve, the
/// document is left exactly as it was.
pub fn allocate(doc: &mut Document, req: &StockOutRequest, id: String, date: String) -> (r: Result<
    Allocated,
    AllocError,
>)
    ensures
        r matches Ok(a) ==> a.remaining >= 0 && first_available_at(
            old(doc)@.stock_in,
            req.po@,
            a.lot as int,
        ),
        match r {
            Ok(a) => allocation_outcome(old(doc)@, req@, id@, date@) == Some(
                (final(doc)@, a.record@, a.remaining as int, a.lot as int),
            ),
            Err(e) => e == AllocError::StockUnavailable && allocation_outcome(
                old(doc)@,
                req@,
                id@,
                date@,
            ) is None && final(doc)@ == old(doc)@,
        },
{
    let ghost d0 = doc@;
    let mut i: usize = 0;
    let mut found = false;
    let mut q: i64 = 0;
    while !found && i < doc.stock_in.len()
        invariant
            doc@ == d0,
            i <= doc.stock_in@.len(),
            forall|k: int| 0 <= k < i ==> !lot_available(#[trigger] d0.stock_in[k], req.po@),
            found ==> i < doc.stock_in@.len() && lot_available(d0.stock_in[i as int], req.po@)
                && q as int == record_quantity(d0.stock_in[i as int]),
        decreases doc.stock_in@.len() - i + (if found { 0int } else { 1int }),
    {
        let lot = &doc.stock_in[i];
        assert(d0.stock_in[i as int] == lot@);
        let mut hit = false;
        if lot_has_po(lot, &req.po) {
            q = lot_quantity(lot);
            hit = q > 0;
        }
        if hit {
            found = true;
        } else {
            i = i + 1;
        }
    }
    if !found {
        proof {
            if any_available(d0.stock_in, req.po@) {
                let w = choose|w: int|
                    0 <= w < d0.stock_in.len() && lot_available(#[trigger] d0.stock_in[w], req.po@);
                assert(!lot_available(d0.stock_in[w], req.po@));
            }
        }
        return Err(AllocError::StockUnavailable);
    }
    assert(first_available_at(d0.stock_in, req.po@, i as int));
    let ghost lot0 = d0.stock_in[i as int];
    let client = match &req.client {
        Some(c) if c.as_str().unicode_len() > 0 => c.clone(),
        _ => text_field(&doc.stock_in[i], "client"),
    };
    assert(client@ == effective_client(req@.client, lot0));

    // a lot with positive stock has a stock field, so this never fails
    let j = match doc.stock_in[i].find("stock") {
        Some(j) => j,
        None => {
            proof {
                assert(record_quantity(lot0) == 0);
            }
            return Err(AllocError::StockUnavailable);
        },
    };

    // lower the lot's stock by one, in place, stored as a number
    let mut lot = doc.stock_in.remove(i);
    assert(lot@ == lot0);
    let ghost fields0 = lot.fields@;
    let old_field = lot.fields.remove(j);
    assert(old_field.key@ == key_stock());
    lot.fields.insert(j, Field { key: old_field.key, value: Value::Int(q - 1) });
    proof {
        let c = choose|c: int| first_key_at(lot0, key_stock(), c);
        crate::record::lemma_first_key_unique(lot0, key_stock(), c, j as int);
        assert(lot.fields@ =~= fields0.update(j as int, lot.fields@[j as int]));
        assert(lot@ =~= decremented(lot0));
    }
    doc.stock_in.insert(i, lot);
    proof {
        assert(doc.stock_in@ =~= old(doc).stock_in@.update(i as int, doc.stock_in@[i as int]));
        assert(doc@.stock_in =~= d0.stock_in.update(i as int, decremented(lot0)));
    }

    let mut fields: Vec<Field> = Vec::new();
    fields.push(Field::text("id", id));
    fields.push(Field::text("date", date));
    fields.push(Field::text("PO", req.po.clone()));
    fields.push(Field::text("client", client));
    fields.push(Field::text("recipient", req.recipient.clone()));
    fields.push(Field::text("type", req.kind.clone()));
    fields.push(Field::text("note", req.note.clone()));
    let record = Record { fields };
    proof {
        let rv = allocation_record(id@, date@, req@, effective_client(req@.client, lot0));
        assert(record.fields@.len() == 7);
        assert forall|k: int| 0 <= k < 7 implies #[trigger] record@[k] == rv[k] by {
            assert(record@[k] == record.fields@[k]@);
        }
        assert(record@ =~= rv);
    }
    let stored = record.copy();
    doc.stock_out.insert(0, stored);
    proof {
        assert(record@ =~= allocation_record(id@, date@, req@, effective_client(req@.client, lot0)));
        assert(doc@.stock_out =~= seq![record@] + d0.stock_out);
        assert(doc@.system_list == d0.system_list);
        let w = choose|w: int| first_available_at(d0.stock_in, req.po@, w);
        lemma_first_available_unique(d0.stock_in, req.po@, w, i as int);
        assert(any_available(d0.stock_in, req.po@)) by {
            assert(lot_available(d0.stock_in[i as int], req.po@));
        }
    }
    Ok(Allocated { record, remaining: q - 1, lot: i })
}

/// Lowering a lot's stock leaves it one below what it was.
pub proof fn lemma_decremented_quantity(lot: RecordModel)
    requires
        record_quantity(lot) > 0,
    ensures
        record_quantity(decremented(lot)) == record_quantity(lot) - 1,
{
    assert(has_key(lot, key_stock()));
    let c = choose|c: int| first_key_at(lot, key_stock(), c);
    assert(first_key_at(lot, key_stock(), c)) by {
        let w = choose|w: int| 0 <= w < lot.len() && (#[trigger] lot[w]).0 == key_stock();
        lemma_first_key_exists(lot, key_stock(), w);
    }
    let nl = decremented(lot);
    assert(first_key_at(nl, key_stock(), c));
    lemma_field_value_at(nl, key_stock(), c);
}

/// Allocating against a PO that no lot carries fails, and so changes nothing.
pub proof fn lemma_unknown_po_rejected(
    d: DocumentModel,
    req: RequestModel,
    id: Seq<char>,
    date: Seq<char>,
)
    requires
        forall|i: int| 0 <= i < d.stock_in.len() ==> !record_has_po(#[trigger] d.stock_in[i], req.po),
    ensures
        allocation_outcome(d, req, id, date) is None,
{
}

/// Allocating against the first lot of a PO with stock `n > 0` succeeds,
/// leaves exactly `n - 1` in that lot, and, with no client override, books
/// the new record (the new head of `stock_out`) to the lot's client.
pub proof fn lemma_allocation_takes_one(
    d: DocumentModel,
    req: RequestModel,
    id: Seq<char>,
    date: Seq<char>,
    i: int,
)
    requires
        first_available_at(d.stock_in, req.po, i),
    ensures
        allocation_outcome(d, req, id, date) matches Some((nd, rec, remaining, lot)) && lot == i
            && remaining == record_quantity(d.stock_in[i]) - 1
            && record_quantity(nd.stock_in[i]) == remaining
            && nd.stock_out.len() == d.stock_out.len() + 1
            && nd.stock_out[0] == rec
            && (req.client is None ==> field_value(rec, key_client()) == Some(
                ValueModel::Text(text_or_empty(field_value(d.stock_in[i], key_client()))),
            )),
{
    assert(any_available(d.stock_in, req.po)) by {
        assert(lot_available(d.stock_in[i], req.po));
    }
    let w = choose|w: int| first_available_at(d.stock_in, req.po, w);
    lemma_first_available_exists(d.stock_in, req.po);
    lemma_first_available_unique(d.stock_in, req.po, w, i);
    lemma_decremented_quantity(d.stock_in[i]);
    let lot = d.stock_in[i];
    let rec = allocation_record(id, date, req, effective_client(req.client, lot));
    reveal_strlit("id");
    reveal_strlit("date");
    reveal_strlit("PO");
    reveal_strlit("client");
    assert(first_key_at(rec, key_client(), 3)) by {
        assert(rec[0].0 != key_client()) by { assert(rec[0].0[0] != key_client()[0]); }
        assert(rec[1].0 != key_client()) by { assert(rec[1].0[0] != key_client()[0]); }
        assert(rec[2].0 != key_client()) by { assert(rec[2].0[0] != key_client()[0]); }
    }
    lemma_field_value_at(rec, key_client(), 3);
}

/// The lot drawn on is always the first, in stored order, whose PO matches
/// and whose stock is positive, whatever stock the later lots hold.
pub proof fn lemma_first_lot_in_order(
    d: DocumentModel,
    req: RequestModel,
    id: Seq<char>,
    date: Seq<char>,
    i: int,
    k: int,
)
    requires
        0 <= i < k < d.stock_in.len(),
        record_has_po(d.stock_in[i], req.po),
        record_has_po(d.stock_in[k], req.po),
        record_quantity(d.stock_in[i]) > 0,
    ensures
        allocation_outcome(d, req, id, date) matches Some((_, _, _, lot)) && lot <= i && lot != k
            && first_available_at(d.stock_in, req.po, lot),
{
    assert(lot_available(d.stock_in[i], req.po));
    assert(any_available(d.stock_in, req.po));
    lemma_first_available_exists(d.stock_in, req.po);
    let w = choose|w: int| first_available_at(d.stock_in, req.po, w);
    if w > i {
        assert(!lot_available(d.stock_in[i], req.po));
    }
}

/// Two allocations of one PO whose stock is a single unit, run one after the
/// other as the store's lock orders them (either may come first): the first
/// succeeds, the second finds no stock, and the lot ends at zero.
pub proof fn lemma_last_unit_allocated_once(
    d: DocumentModel,
    first: RequestModel,
    second: RequestModel,
    id1: Seq<char>,
    date1: Seq<char>,
    id2: Seq<char>,
    date2: Seq<char>,
    i: int,
)
    requires
        second.po == first.po,
        0 <= i < d.stock_in.len(),
        record_has_po(d.stock_in[i], first.po),
        record_quantity(d.stock_in[i]) == 1,
        forall|k: int|
            0 <= k < d.stock_in.len() && k != i ==> !lot_available(#[trigger] d.stock_in[k], first.po),
    ensures
        allocation_outcome(d, first, id1, date1) matches Some((nd, _, remaining, lot)) && lot == i
            && remaining == 0 && record_quantity(nd.stock_in[i]) == 0
            && allocation_outcome(nd, second, id2, date2) is None,
{
    assert(first_available_at(d.stock_in, first.po, i));
    lemma_allocation_takes_one(d, first, id1, date1, i);
    let nd = allocation_outcome(d, first, id1, date1).unwrap().0;
    assert(nd.stock_in == d.stock_in.update(i, decremented(d.stock_in[i])));
    assert forall|k: int| 0 <= k < nd.stock_in.len() implies !lot_available(
        #[trigger] nd.stock_in[k],
        second.po,
    ) by {
        if k != i {
            assert(nd.stock_in[k] == d.stock_in[k]);
        }
    }
}

} // verus!
