//! Records, the per-column diffs that create and update payloads turn into, and the payload
//! capabilities an entity provides.

use crate::codec::{values_view, KeyValue};
use crate::entity::{EntityDescriptor, EntityView};
use crate::value::{Value, ValueView};
use vstd::prelude::*;

verus! {

/// A stored record: one value per column, in the descriptor's column order.
#[derive(Debug, PartialEq, Eq)]
pub struct Record {
    pub values: Vec<Value>,
}

impl View for Record {
    type V = Seq<ValueView>;

    open spec fn view(&self) -> Seq<ValueView> {
        values_view(self.values@)
    }
}

/// What a diff says of one column: leave it as it is, or set it to a value.
#[derive(Debug)]
pub enum ActiveValue {
    Unset,
    SetTo(Value),
}

impl View for ActiveValue {
    type V = Option<ValueView>;

    open spec fn view(&self) -> Option<ValueView> {
        match self {
            ActiveValue::Unset => None,
            ActiveValue::SetTo(v) => Some(v@),
        }
    }
}

/// A diff over a record: per column, either unset or set to a value.
#[derive(Debug)]
pub struct ActiveModel {
    pub values: Vec<ActiveValue>,
}

impl View for ActiveModel {
    type V = Seq<Option<ValueView>>;

    open spec fn view(&self) -> Seq<Option<ValueView>> {
        self.values@.map_values(|a: ActiveValue| a@)
    }
}

/// The record that results from applying a diff: set columns take their new value, the
/// others keep theirs.
pub open spec fn apply_diff(row: Seq<ValueView>, d: Seq<Option<ValueView>>) -> Seq<ValueView> {
    Seq::new(
        row.len(),
        |c: int|
            match d[c] {
                Some(v) => v,
                None => row[c],
            },
    )
}

/// Whether a diff sets every column.
pub open spec fn is_full(d: Seq<Option<ValueView>>) -> bool {
    forall|c: int| 0 <= c < d.len() ==> (#[trigger] d[c]) is Some
}

/// The record that a full diff describes.
pub open spec fn full_record(d: Seq<Option<ValueView>>) -> Seq<ValueView> {
    Seq::new(d.len(), |c: int| d[c]->0)
}

/// The diff made of the payload fields: each field's column set to the field's value when
/// the field is present, every other column unset.
pub open spec fn fields_diff(width: nat, fields: Seq<(int, Option<ValueView>)>) -> Seq<
    Option<ValueView>,
>
    decreases fields.len(),
{
    if fields.len() == 0 {
        Seq::new(width, |c: int| None)
    } else {
        fields_diff(width, fields.drop_last()).update(fields.last().0, fields.last().1)
    }
}

/// Whether the fields name distinct columns below `width`.
pub open spec fn fields_fit(width: nat, fields: Seq<(int, Option<ValueView>)>) -> bool {
    &&& forall|i: int| 0 <= i < fields.len() ==> 0 <= #[trigger] fields[i].0 < width
    &&& forall|i: int, j: int|
        0 <= i < fields.len() && 0 <= j < fields.len() && i != j ==> fields[i].0 != fields[j].0
}

/// The diff after the first `n` key columns are set to the key's values.
pub open spec fn with_key_prefix(
    e: EntityView,
    d: Seq<Option<ValueView>>,
    k: Seq<ValueView>,
    n: nat,
) -> Seq<Option<ValueView>>
    decreases n,
{
    if n == 0 {
        d
    } else {
        with_key_prefix(e, d, k, (n - 1) as nat).update(e.key[n - 1], Some(k[n - 1]))
    }
}

/// The diff with every key column set to the key's value, so that it addresses one record.
pub open spec fn with_key(e: EntityView, d: Seq<Option<ValueView>>, k: Seq<ValueView>) -> Seq<
    Option<ValueView>,
> {
    with_key_prefix(e, d, k, e.key.len())
}

proof fn lemma_with_key_prefix(
    e: EntityView,
    d: Seq<Option<ValueView>>,
    k: Seq<ValueView>,
    n: nat,
)
    requires
        e.wf(),
        d.len() == e.width(),
        k.len() == e.key.len(),
        n <= e.key.len(),
    ensures
        with_key_prefix(e, d, k, n).len() == d.len(),
        forall|i: int| 0 <= i < n ==> with_key_prefix(e, d, k, n)[#[trigger] e.key[i]] == Some(k[i]),
        forall|c: int|
            0 <= c < d.len() && !e.key.take(n as int).contains(c) ==> #[trigger] with_key_prefix(
                e,
                d,
                k,
                n,
            )[c] == d[c],
    decreases n,
{
    if n > 0 {
        let m = (n - 1) as nat;
        lemma_with_key_prefix(e, d, k, m);
        assert forall|i: int| 0 <= i < n implies with_key_prefix(e, d, k, n)[#[trigger] e.key[i]]
            == Some(k[i]) by {
            if i < m {
                assert(e.key_name(i) != e.key_name(m as int));
            }
        }
        assert forall|c: int|
            0 <= c < d.len() && !e.key.take(n as int).contains(c) implies #[trigger] with_key_prefix(
            e,
            d,
            k,
            n,
        )[c] == d[c] by {
            assert(e.key.take(n as int)[m as int] == e.key[m as int]);
            assert forall|j: int| 0 <= j < m implies e.key.take(m as int)[j] != c by {
                assert(e.key.take(n as int)[j] == e.key.take(m as int)[j]);
            }
        }
    }
}

/// Setting the key sets each key column to the key's value and leaves every other column
/// as it was.
pub proof fn lemma_with_key(e: EntityView, d: Seq<Option<ValueView>>, k: Seq<ValueView>)
    requires
        e.wf(),
        d.len() == e.width(),
        k.len() == e.key.len(),
    ensures
        with_key(e, d, k).len() == d.len(),
        forall|i: int| 0 <= i < e.key.len() ==> with_key(e, d, k)[#[trigger] e.key[i]] == Some(k[i]),
        forall|c: int|
            0 <= c < d.len() && !e.key.contains(c) ==> #[trigger] with_key(e, d, k)[c] == d[c],
{
    lemma_with_key_prefix(e, d, k, e.key.len());
    assert(e.key.take(e.key.len() as int) =~= e.key);
}

/// The values of a record's key columns, in declared key order.
pub open spec fn key_of(e: EntityView, row: Seq<ValueView>) -> Seq<ValueView> {
    Seq::new(e.key.len(), |i: int| row[e.key[i]])
}

/// The diff of a payload's fields has one entry per column; each field's column holds that
/// field's value (or stays unset when the field is absent), and columns that no field names
/// stay unset.
pub proof fn lemma_fields_diff(width: nat, fields: Seq<(int, Option<ValueView>)>)
    requires
        fields_fit(width, fields),
    ensures
        fields_diff(width, fields).len() == width,
        forall|j: int|
            0 <= j < fields.len() ==> fields_diff(width, fields)[#[trigger] fields[j].0]
                == fields[j].1,
        forall|c: int|
            0 <= c < width && (forall|j: int| 0 <= j < fields.len() ==> fields[j].0 != c)
                ==> (#[trigger] fields_diff(width, fields)[c]) is None,
    decreases fields.len(),
{
    if fields.len() > 0 {
        let prev = fields.drop_last();
        assert forall|i: int| 0 <= i < prev.len() implies 0 <= #[trigger] prev[i].0 < width by {
            assert(prev[i] == fields[i]);
        }
        assert forall|i: int, j: int|
            0 <= i < prev.len() && 0 <= j < prev.len() && i != j implies prev[i].0
            != prev[j].0 by {
            assert(prev[i] == fields[i] && prev[j] == fields[j]);
        }
        lemma_fields_diff(width, prev);
        let n = fields.len() - 1;
        assert forall|j: int| 0 <= j < fields.len() implies fields_diff(width, fields)[
            #[trigger] fields[j].0] == fields[j].1 by {
            if j < n {
                assert(prev[j] == fields[j]);
                assert(fields[j].0 != fields[n].0);
            }
        }
        assert forall|c: int|
            0 <= c < width && (forall|j: int| 0 <= j < fields.len() ==> fields[j].0 != c)
            implies (#[trigger] fields_diff(width, fields)[c]) is None by {
            assert(fields[n].0 != c);
            assert forall|j: int| 0 <= j < prev.len() implies prev[j].0 != c by {
                assert(prev[j] == fields[j]);
            }
        }
    }
}

/// An update payload with no field present yields a diff that changes no column.
pub proof fn lemma_absent_fields_change_nothing(
    width: nat,
    fields: Seq<(int, Option<ValueView>)>,
    row: Seq<ValueView>,
)
    requires
        row.len() == width,
        fields_fit(width, fields),
        forall|i: int| 0 <= i < fields.len() ==> (#[trigger] fields[i]).1 is None,
    ensures
        apply_diff(row, fields_diff(width, fields)) == row,
{
    lemma_fields_diff(width, fields);
    let d = fields_diff(width, fields);
    assert forall|c: int| 0 <= c < width implies (#[trigger] d[c]) is None by {
        if exists|j: int| 0 <= j < fields.len() && fields[j].0 == c {
            let j = choose|j: int| 0 <= j < fields.len() && fields[j].0 == c;
            assert(fields[j].1 is None);
        }
    }
    assert(apply_diff(row, d) =~= row);
}

/// An update payload with exactly one field present yields a diff that sets exactly that
/// field's column to the field's value and leaves every other column as it was.
pub proof fn lemma_single_field_changes_its_column(
    width: nat,
    fields: Seq<(int, Option<ValueView>)>,
    row: Seq<ValueView>,
    i: int,
)
    requires
        row.len() == width,
        fields_fit(width, fields),
        0 <= i < fields.len(),
        fields[i].1 is Some,
        forall|j: int| 0 <= j < fields.len() && j != i ==> (#[trigger] fields[j]).1 is None,
    ensures
        apply_diff(row, fields_diff(width, fields)) == row.update(fields[i].0, fields[i].1->0),
{
    lemma_fields_diff(width, fields);
    let d = fields_diff(width, fields);
    assert forall|c: int| 0 <= c < width && c != fields[i].0 implies (#[trigger] d[c]) is None by {
        if exists|j: int| 0 <= j < fields.len() && fields[j].0 == c {
            let j = choose|j: int| 0 <= j < fields.len() && fields[j].0 == c;
            assert(fields[j].1 is None);
        }
    }
    assert(d[fields[i].0] == fields[i].1);
    assert(apply_diff(row, d) =~= row.update(fields[i].0, fields[i].1->0));
}

/// A payload that creates a record: every field is given.
pub trait Create: Sized {
    /// The number of columns of the entity.
    spec fn spec_width() -> nat;

    /// The column each field fills, in field order, with the field's value.
    spec fn spec_fields(&self) -> Seq<(int, Option<ValueView>)>;

    /// The pending record: each field's column set, the others (generated ones) unset.
    fn into_active_model(self) -> (m: ActiveModel)
        ensures
            fields_fit(Self::spec_width(), self.spec_fields()),
            m@ == fields_diff(Self::spec_width(), self.spec_fields()),
    ;
}

/// A payload that changes a record: every field is optional, and an absent field leaves its
/// column as it is.
pub trait Update: Sized {
    /// The number of columns of the entity.
    spec fn spec_width() -> nat;

    /// The column each field writes, in field order, with the field's value if present.
    spec fn spec_fields(&self) -> Seq<(int, Option<ValueView>)>;

    /// The partial diff: only the present fields' columns set.
    fn into_active_model(self) -> (m: ActiveModel)
        ensures
            fields_fit(Self::spec_width(), self.spec_fields()),
            m@ == fields_diff(Self::spec_width(), self.spec_fields()),
    ;
}

impl Record {
    pub fn duplicate(&self) -> (r: Record)
        ensures
            r@ == self@,
    {
        let mut values: Vec<Value> = Vec::new();
        let mut i: usize = 0;
        while i < self.values.len()
            invariant
                i <= self.values.len(),
                values@.len() == i,
                forall|j: int| 0 <= j < i ==> values@[j]@ == self.values@[j]@,
            decreases self.values.len() - i,
        {
            values.push(self.values[i].duplicate());
            i += 1;
        }
        assert(values_view(values@) =~= values_view(self.values@));
        Record { values }
    }

    /// The values of this record's key columns.
    pub fn key(&self, desc: &EntityDescriptor) -> (k: KeyValue)
        requires
            desc@.wf(),
            self@.len() == desc@.width(),
        ensures
            k@ == key_of(desc@, self@),
    {
        let mut values: Vec<Value> = Vec::new();
        let mut i: usize = 0;
        while i < desc.key.len()
            invariant
                desc@.wf(),
                self@.len() == desc@.width(),
                i <= desc.key.len(),
                values@.len() == i,
                forall|j: int| 0 <= j < i ==> values@[j]@ == self@[desc@.key[j]],
            decreases desc.key.len() - i,
        {
            assert(desc@.key[i as int] == desc.key@[i as int] as int);
            values.push(self.values[desc.key[i]].duplicate());
            i += 1;
        }
        assert(values_view(values@) =~= key_of(desc@, self@));
        KeyValue { values }
    }
}

impl ActiveModel {
    /// A diff of `width` columns that sets nothing.
    pub fn unset(width: usize) -> (m: ActiveModel)
        ensures
            m@ == Seq::new(width as nat, |c: int| None::<ValueView>),
    {
        let mut values: Vec<ActiveValue> = Vec::new();
        let mut i: usize = 0;
        while i < width
            invariant
                i <= width,
                values@.len() == i,
                forall|j: int| 0 <= j < i ==> values@[j]@ is None,
            decreases width - i,
        {
            values.push(ActiveValue::Unset);
            i += 1;
        }
        let m = ActiveModel { values };
        assert(m@ =~= Seq::new(width as nat, |c: int| None::<ValueView>));
        m
    }

    pub fn duplicate(&self) -> (m: ActiveModel)
        ensures
            m@ == self@,
    {
        let mut values: Vec<ActiveValue> = Vec::new();
        let mut i: usize = 0;
        while i < self.values.len()
            invariant
                i <= self.values.len(),
                values@.len() == i,
                forall|j: int| 0 <= j < i ==> (#[trigger] values@[j])@ == self.values@[j]@,
            decreases self.values.len() - i,
        {
            let v = match &self.values[i] {
                ActiveValue::Unset => ActiveValue::Unset,
                ActiveValue::SetTo(x) => ActiveValue::SetTo(x.duplicate()),
            };
            values.push(v);
            i += 1;
        }
        let m = ActiveModel { values };
        assert(m@ =~= self@);
        m
    }

    /// Sets one column.
    pub fn set_column(&mut self, column: usize, value: Value)
        requires
            column < old(self)@.len(),
        ensures
            final(self)@ == old(self)@.update(column as int, Some(value@)),
    {
        self.values.set(column, ActiveValue::SetTo(value));
        assert(final(self)@ =~= old(self)@.update(column as int, Some(value@)));
    }

    /// The record this diff describes when it sets every column.
    pub fn to_record(&self) -> (r: Option<Record>)
        ensures
            match r {
                Some(rec) => is_full(self@) && rec@ == full_record(self@),
                None => !is_full(self@),
            },
    {
        let mut values: Vec<Value> = Vec::new();
        let mut i: usize = 0;
        while i < self.values.len()
            invariant
                i <= self.values.len(),
                values@.len() == i,
                forall|j: int| 0 <= j < i ==> self@[j] == Some(#[trigger] values@[j]@),
            decreases self.values.len() - i,
        {
            match &self.values[i] {
                ActiveValue::Unset => {
                    assert(self@[i as int] is None);
                    return None;
                },
                ActiveValue::SetTo(v) => {
                    values.push(v.duplicate());
                },
            }
            i += 1;
        }
        assert forall|c: int| 0 <= c < self@.len() implies (#[trigger] self@[c]) is Some by {
            assert(self@[c] == Some(values@[c]@));
        }
        let rec = Record { values };
        assert(rec@ =~= full_record(self@));
        Some(rec)
    }
}

/// Sets every key column of the diff to the key's value, so that the diff addresses exactly
/// the record with that key.
pub fn set_primary_key(desc: &EntityDescriptor, key: &KeyValue, active_model: &mut ActiveModel)
    requires
        desc@.wf(),
        key@.len() == desc@.key.len(),
        old(active_model)@.len() == desc@.width(),
    ensures
        final(active_model)@ == with_key(desc@, old(active_model)@, key@),
{
    let ghost start = active_model@;
    let mut i: usize = 0;
    while i < desc.key.len()
        invariant
            desc@.wf(),
            key@.len() == desc@.key.len(),
            i <= desc.key.len(),
            active_model@ == with_key_prefix(desc@, start, key@, i as nat),
            active_model@.len() == desc@.width(),
        decreases desc.key.len() - i,
    {
        assert(desc@.key[i as int] == desc.key@[i as int] as int);
        assert(key@[i as int] == key.values@[i as int]@);
        active_model.set_column(desc.key[i], key.values[i].duplicate());
        i += 1;
    }
}

} // verus!
