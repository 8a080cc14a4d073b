use vstd::prelude::*;

use crate::quantity::{parse_quantity, text_quantity};

verus! {

/// A field value of an open record. Strings and integers are read by the
/// inventory rules; anything else is kept as its JSON text, verbatim.
#[derive(Clone, Debug, PartialEq, Eq)]
pub enum Value {
    Text(String),
    Int(i64),
    Raw(String),
}

pub enum ValueModel {
    Text(Seq<char>),
    Int(int),
    Raw(Seq<char>),
}

impl View for Value {
    type V = ValueModel;

    open spec fn view(&self) -> ValueModel {
        match self {
            Value::Text(s) => ValueModel::Text(s@),
            Value::Int(n) => ValueModel::Int(*n as int),
            Value::Raw(s) => ValueModel::Raw(s@),
        }
    }
}

#[derive(Clone, Debug, PartialEq, Eq)]
pub struct Field {
    pub key: String,
    pub value: Value,
}

impl View for Field {
    type V = (Seq<char>, ValueModel);

    open spec fn view(&self) -> (Seq<char>, ValueModel) {
        (self.key@, self.value@)
    }
}

/// A semi-structured record: its fields in stored order.
#[derive(Clone, Debug, PartialEq, Eq)]
pub struct Record {
    pub fields: Vec<Field>,
}

pub type RecordModel = Seq<(Seq<char>, ValueModel)>;

impl View for Record {
    type V = RecordModel;

    open spec fn view(&self) -> RecordModel {
        self.fields@.map_values(|f: Field| f@)
    }
}

/// `j` is the first position of `key` among the fields.
pub open spec fn first_key_at(r: RecordModel, key: Seq<char>, j: int) -> bool {
    &&& 0 <= j < r.len()
    &&& r[j].0 == key
    &&& forall|k: int| 0 <= k < j ==> (#[trigger] r[k]).0 != key
}

pub open spec fn has_key(r: RecordModel, key: Seq<char>) -> bool {
    exists|j: int| 0 <= j < r.len() && (#[trigger] r[j]).0 == key
}

/// The value of the first field named `key`.
pub open spec fn field_value(r: RecordModel, key: Seq<char>) -> Option<ValueModel> {
    if has_key(r, key) {
        Some(r[choose|j: int| first_key_at(r, key, j)].1)
    } else {
        None
    }
}

pub proof fn lemma_first_key_unique(r: RecordModel, key: Seq<char>, i: int, j: int)
    requires
        first_key_at(r, key, i),
        first_key_at(r, key, j),
    ensures
        i == j,
{
    if i < j {
        assert(r[i].0 != key);
    } else if j < i {
        assert(r[j].0 != key);
    }
}

/// A key that occurs has a first occurrence, at or before any given one.
pub proof fn lemma_first_key_exists(r: RecordModel, key: Seq<char>, w: int)
    requires
        0 <= w < r.len(),
        r[w].0 == key,
    ensures
        exists|j: int| first_key_at(r, key, j) && j <= w,
    decreases w,
{
    if exists|k: int| 0 <= k < w && (#[trigger] r[k]).0 == key {
        let k = choose|k: int| 0 <= k < w && (#[trigger] r[k]).0 == key;
        lemma_first_key_exists(r, key, k);
    } else {
        assert(first_key_at(r, key, w));
    }
}

/// With `key` first at `j`, the record's value for `key` is the one at `j`.
pub proof fn lemma_field_value_at(r: RecordModel, key: Seq<char>, j: int)
    requires
        first_key_at(r, key, j),
    ensures
        field_value(r, key) == Some(r[j].1),
{
    assert(has_key(r, key)) by {
        assert(r[j].0 == key);
    }
    let c = choose|k: int| first_key_at(r, key, k);
    lemma_first_key_unique(r, key, c, j);
}

pub open spec fn key_po() -> Seq<char> {
    "PO"@
}

pub open spec fn key_stock() -> Seq<char> {
    "stock"@
}

pub open spec fn key_client() -> Seq<char> {
    "client"@
}

/// A stock value as a quantity: an integer, or a numeric string; anything
/// else, an unparsable string or an absent field counts as zero.
pub open spec fn value_quantity(v: Option<ValueModel>) -> int {
    match v {
        Some(ValueModel::Int(n)) => n,
        Some(ValueModel::Text(s)) => match text_quantity(s) {
            Some(q) => q,
            None => 0,
        },
        _ => 0,
    }
}

pub open spec fn record_quantity(r: RecordModel) -> int {
    value_quantity(field_value(r, key_stock()))
}

pub open spec fn record_has_po(r: RecordModel, po: Seq<char>) -> bool {
    field_value(r, key_po()) == Some(ValueModel::Text(po))
}

/// The text of a string field, or the empty string.
pub open spec fn text_or_empty(v: Option<ValueModel>) -> Seq<char> {
    match v {
        Some(ValueModel::Text(s)) => s,
        _ => Seq::empty(),
    }
}

impl Value {
    pub fn copy(&self) -> (r: Value)
        ensures
            r@ == self@,
    {
        match self {
            Value::Text(s) => Value::Text(s.clone()),
            Value::Int(n) => Value::Int(*n),
            Value::Raw(s) => Value::Raw(s.clone()),
        }
    }

    /// The quantity this value stands for when it is a stock value.
    pub fn quantity(&self) -> (q: i64)
        ensures
            q as int == value_quantity(Some(self@)),
    {
        match self {
            Value::Int(n) => *n,
            Value::Text(s) => match parse_quantity(s.as_str()) {
                Some(q) => q,
                None => 0,
            },
            Value::Raw(_) => 0,
        }
    }
}

impl Field {
    pub fn text(key: &str, value: String) -> (r: Field)
        ensures
            r@ == (key@, ValueModel::Text(value@)),
    {
        Field { key: key.to_string(), value: Value::Text(value) }
    }
}

impl Record {
    pub fn new() -> (r: Record)
        ensures
            r@ == Seq::<(Seq<char>, ValueModel)>::empty(),
    {
        let r = Record { fields: Vec::new() };
        assert(r@ =~= Seq::<(Seq<char>, ValueModel)>::empty());
        r
    }

    /// Position of the first field named `key`.
    pub fn find(&self, key: &str) -> (r: Option<usize>)
        ensures
            r matches Some(j) ==> first_key_at(self@, key@, j as int),
            r is None ==> !has_key(self@, key@),
    {
        let wanted = key.to_string();
        let mut j: usize = 0;
        while j < self.fields.len()
            invariant
                j <= self.fields@.len(),
                wanted@ == key@,
                forall|k: int| 0 <= k < j ==> (#[trigger] self@[k]).0 != key@,
            decreases self.fields@.len() - j,
        {
            assert(self@[j as int] == self.fields@[j as int]@);
            if self.fields[j].key == wanted {
                return Some(j);
            }
            j = j + 1;
        }
        None
    }

    /// The value of the first field named `key`.
    pub fn get(&self, key: &str) -> (r: Option<&Value>)
        ensures
            r matches Some(v) ==> field_value(self@, key@) == Some(v@),
            r is None ==> field_value(self@, key@) is None,
    {
        match self.find(key) {
            Some(j) => {
                proof {
                    lemma_field_value_at(self@, key@, j as int);
                }
                Some(&self.fields[j].value)
            },
            None => None,
        }
    }

    pub fn copy(&self) -> (r: Record)
        ensures
            r@ == self@,
    {
        let mut fields: Vec<Field> = Vec::new();
        let mut j: usize = 0;
        while j < self.fields.len()
            invariant
                j <= self.fields@.len(),
                fields@.len() == j,
                forall|k: int| 0 <= k < j ==> (#[trigger] fields@[k])@ == self.fields@[k]@,
            decreases self.fields@.len() - j,
        {
            let f = &self.fields[j];
            fields.push(Field { key: f.key.clone(), value: f.value.copy() });
            j = j + 1;
        }
        let r = Record { fields };
        assert(r@ =~= self@);
        r
    }
}

} // verus!
