//! An in-memory table that realizes the persistence contract the handlers rely on:
//! find, delete and update by key, insert returning the record, insert-or-replace, and a
//! filtered, paginated query with the count of all matches.

use crate::codec::KeyValue;
use crate::entity::{EntityDescriptor, EntityView};
use crate::error::{Error, ErrorView};
use crate::filter::{meets, Condition};
use crate::model::{apply_diff, full_record, is_full, key_of, ActiveModel, ActiveValue, Record};
use crate::value::{Value, ValueKind, ValueView};
use vstd::prelude::*;

verus! {

pub type Rows = Seq<Seq<ValueView>>;

/// The rows of one entity's table, in insertion order, and the next identifier the table
/// generates for a UUID key column that an insert leaves unset.
#[derive(Debug)]
pub struct MemoryStore {
    rows: Vec<Record>,
    next_id: u128,
}

impl View for MemoryStore {
    type V = Rows;

    closed spec fn view(&self) -> Rows {
        self.rows@.map_values(|r: Record| r@)
    }
}

/// Every row has one value per column, and no two rows share a key.
pub open spec fn table_wf(e: EntityView, rows: Rows) -> bool {
    &&& forall|i: int| 0 <= i < rows.len() ==> (#[trigger] rows[i]).len() == e.width()
    &&& forall|i: int, j: int|
        0 <= i < rows.len() && 0 <= j < rows.len() && i != j ==> key_of(e, rows[i]) != key_of(
            e,
            rows[j],
        )
}

/// Index of the first row from `i` on whose key is `k`.
pub open spec fn position_from(e: EntityView, rows: Rows, k: Seq<ValueView>, i: int) -> Option<int>
    decreases rows.len() - i,
{
    if i < 0 || i >= rows.len() {
        None
    } else if key_of(e, rows[i]) == k {
        Some(i)
    } else {
        position_from(e, rows, k, i + 1)
    }
}

/// Index of the row whose key is `k`.
pub open spec fn position(e: EntityView, rows: Rows, k: Seq<ValueView>) -> Option<int> {
    position_from(e, rows, k, 0)
}

/// The row whose key is `k`, if any.
pub open spec fn find_spec(e: EntityView, rows: Rows, k: Seq<ValueView>) -> Option<Seq<ValueView>> {
    match position(e, rows, k) {
        Some(i) => Some(rows[i]),
        None => None,
    }
}

/// The rows after deleting the one whose key is `k`; unchanged when there is none.
pub open spec fn delete_spec(e: EntityView, rows: Rows, k: Seq<ValueView>) -> Rows {
    match position(e, rows, k) {
        Some(i) => rows.remove(i),
        None => rows,
    }
}

/// Whether the diff sets every key column.
pub open spec fn key_is_set(e: EntityView, d: Seq<Option<ValueView>>) -> bool {
    forall|i: int| 0 <= i < e.key.len() ==> (#[trigger] d[e.key[i]]) is Some
}

/// The key a diff addresses.
pub open spec fn diff_key(e: EntityView, d: Seq<Option<ValueView>>) -> Seq<ValueView> {
    Seq::new(e.key.len(), |i: int| d[e.key[i]]->0)
}

/// The body of the error for a write that leaves a column without a value.
pub open spec fn missing_value_text() -> Seq<char> {
    "a column has no value"@
}

/// The body of the error for a write whose key another record holds.
pub open spec fn duplicate_key_text() -> Seq<char> {
    "a record with this key exists"@
}

/// The body of the error for an update that does not address a record by its key.
pub open spec fn unaddressed_text() -> Seq<char> {
    "a key column has no value"@
}

/// The diff after the first `n` key columns that are unset and hold UUIDs get the
/// generated identifier.
pub open spec fn generated_prefix(
    e: EntityView,
    d: Seq<Option<ValueView>>,
    id: u128,
    n: nat,
) -> Seq<Option<ValueView>>
    decreases n,
{
    if n == 0 {
        d
    } else {
        let p = generated_prefix(e, d, id, (n - 1) as nat);
        let c = e.key[n - 1];
        if 0 <= c < p.len() && p[c] is None && e.columns[c].1 == ValueKind::Uuid {
            p.update(c, Some(ValueView::Uuid(id)))
        } else {
            p
        }
    }
}

/// The diff with every unset UUID key column given the generated identifier.
pub open spec fn with_generated(e: EntityView, d: Seq<Option<ValueView>>, id: u128) -> Seq<
    Option<ValueView>,
> {
    generated_prefix(e, d, id, e.key.len())
}

/// The identifier generated after `id`.
pub open spec fn next_after(id: u128) -> u128 {
    if id < u128::MAX {
        (id + 1) as u128
    } else {
        id
    }
}

/// What inserting the diff returns.
pub open spec fn insert_outcome(e: EntityView, rows: Rows, d: Seq<Option<ValueView>>) -> Result<
    Seq<ValueView>,
    ErrorView,
> {
    if !(d.len() == e.width() && is_full(d)) {
        Err(ErrorView::Backend(missing_value_text()))
    } else if position(e, rows, key_of(e, full_record(d))) is Some {
        Err(ErrorView::Conflict(duplicate_key_text()))
    } else {
        Ok(full_record(d))
    }
}

/// The rows after inserting the diff.
pub open spec fn insert_rows(e: EntityView, rows: Rows, d: Seq<Option<ValueView>>) -> Rows {
    match insert_outcome(e, rows, d) {
        Ok(r) => rows.push(r),
        Err(_) => rows,
    }
}

/// What updating by the diff's key returns.
pub open spec fn update_outcome(e: EntityView, rows: Rows, d: Seq<Option<ValueView>>) -> Result<
    Seq<ValueView>,
    ErrorView,
> {
    if !(d.len() == e.width() && key_is_set(e, d)) {
        Err(ErrorView::Backend(unaddressed_text()))
    } else {
        match position(e, rows, diff_key(e, d)) {
            Some(i) => Ok(apply_diff(rows[i], d)),
            None => Err(ErrorView::NotFound),
        }
    }
}

/// The rows after updating by the diff's key.
pub open spec fn update_rows(e: EntityView, rows: Rows, d: Seq<Option<ValueView>>) -> Rows {
    match update_outcome(e, rows, d) {
        Ok(r) => rows.update(position(e, rows, diff_key(e, d))->0, r),
        Err(_) => rows,
    }
}

/// What inserting the diff, or replacing the record with its key, returns.
pub open spec fn upsert_outcome(e: EntityView, rows: Rows, d: Seq<Option<ValueView>>) -> Result<
    Seq<ValueView>,
    ErrorView,
> {
    if !(d.len() == e.width() && is_full(d)) {
        Err(ErrorView::Backend(missing_value_text()))
    } else {
        Ok(full_record(d))
    }
}

/// The rows after inserting the diff, or replacing the record with its key.
pub open spec fn upsert_rows(e: EntityView, rows: Rows, d: Seq<Option<ValueView>>) -> Rows {
    match upsert_outcome(e, rows, d) {
        Ok(r) => match position(e, rows, key_of(e, r)) {
            Some(i) => rows.update(i, r),
            None => rows.push(r),
        },
        Err(_) => rows,
    }
}

/// The rows that meet the condition, in table order.
pub open spec fn matching(rows: Rows, cond: Seq<(int, ValueView)>) -> Rows
    decreases rows.len(),
{
    if rows.len() == 0 {
        Seq::empty()
    } else {
        let prev = matching(rows.drop_last(), cond);
        if meets(rows.last(), cond) {
            prev.push(rows.last())
        } else {
            prev
        }
    }
}

/// The page of matching rows: `limit` rows from `page * limit` on.
pub open spec fn page_of(rows: Rows, cond: Seq<(int, ValueView)>, limit: int, page: int) -> Rows {
    let f = matching(rows, cond);
    let start = page * limit;
    let lo = if start < f.len() {
        start
    } else {
        f.len() as int
    };
    let hi = if start + limit < f.len() {
        start + limit
    } else {
        f.len() as int
    };
    f.subrange(lo, hi)
}

pub open spec fn opt_index(o: Option<usize>) -> Option<int> {
    match o {
        Some(i) => Some(i as int),
        None => None,
    }
}

pub open spec fn outcome_view(r: Result<Record, Error>) -> Result<Seq<ValueView>, ErrorView> {
    match r {
        Ok(rec) => Ok(rec@),
        Err(e) => Err(e@),
    }
}

proof fn lemma_position_from_none(e: EntityView, rows: Rows, k: Seq<ValueView>, i: int, j: int)
    requires
        0 <= i <= j < rows.len(),
        position_from(e, rows, k, i) is None,
    ensures
        key_of(e, rows[j]) != k,
    decreases j - i,
{
    if i < j {
        lemma_position_from_none(e, rows, k, i + 1, j);
    }
}

proof fn lemma_position_from_some(e: EntityView, rows: Rows, k: Seq<ValueView>, i: int)
    requires
        0 <= i,
        position_from(e, rows, k, i) is Some,
    ensures
        i <= position_from(e, rows, k, i)->0 < rows.len(),
        key_of(e, rows[position_from(e, rows, k, i)->0]) == k,
    decreases rows.len() - i,
{
    if i < rows.len() && key_of(e, rows[i]) != k {
        lemma_position_from_some(e, rows, k, i + 1);
    }
}

proof fn lemma_position_from_at(e: EntityView, rows: Rows, k: Seq<ValueView>, i: int, p: int)
    requires
        table_wf(e, rows),
        0 <= i <= p < rows.len(),
        key_of(e, rows[p]) == k,
    ensures
        position_from(e, rows, k, i) == Some(p),
    decreases p - i,
{
    if i < p {
        lemma_position_from_at(e, rows, k, i + 1, p);
    }
}

/// In a well-formed table, the position of a key is `None` exactly when no row has it, and
/// otherwise the one row that has it.
pub proof fn lemma_position(e: EntityView, rows: Rows, k: Seq<ValueView>)
    requires
        table_wf(e, rows),
    ensures
        position(e, rows, k) is None <==> forall|j: int|
            0 <= j < rows.len() ==> key_of(e, #[trigger] rows[j]) != k,
        forall|p: int|
            0 <= p < rows.len() && key_of(e, #[trigger] rows[p]) == k ==> position(e, rows, k)
                == Some(p),
{
    assert forall|p: int| 0 <= p < rows.len() && key_of(e, #[trigger] rows[p]) == k implies position(
        e,
        rows,
        k,
    ) == Some(p) by {
        lemma_position_from_at(e, rows, k, 0, p);
    }
    if position(e, rows, k) is None {
        assert forall|j: int| 0 <= j < rows.len() implies key_of(e, #[trigger] rows[j]) != k by {
            lemma_position_from_none(e, rows, k, 0, j);
        }
    } else {
        lemma_position_from_some(e, rows, k, 0);
    }
}

proof fn lemma_matching_len(rows: Rows, cond: Seq<(int, ValueView)>)
    ensures
        matching(rows, cond).len() <= rows.len(),
    decreases rows.len(),
{
    if rows.len() > 0 {
        lemma_matching_len(rows.drop_last(), cond);
    }
}

/// With no constraint, every row matches, in table order.
pub proof fn lemma_matching_all(rows: Rows)
    ensures
        matching(rows, Seq::empty()) == rows,
    decreases rows.len(),
{
    if rows.len() > 0 {
        lemma_matching_all(rows.drop_last());
        assert(rows.drop_last().push(rows.last()) =~= rows);
    }
}

/// The view of a sequence of records.
pub open spec fn records_view(v: Seq<Record>) -> Rows {
    v.map_values(|r: Record| r@)
}

fn diff_key_value(desc: &EntityDescriptor, active_model: &ActiveModel) -> (r: Option<KeyValue>)
    requires
        desc@.wf(),
        active_model@.len() == desc@.width(),
    ensures
        match r {
            Some(k) => key_is_set(desc@, active_model@) && k@ == diff_key(desc@, active_model@),
            None => !key_is_set(desc@, active_model@),
        },
{
    let mut values: Vec<Value> = Vec::new();
    let mut i: usize = 0;
    while i < desc.key.len()
        invariant
            desc@.wf(),
            active_model@.len() == desc@.width(),
            i <= desc.key.len(),
            values@.len() == i,
            forall|j: int|
                0 <= j < i ==> active_model@[desc@.key[j]] == Some(#[trigger] values@[j]@),
        decreases desc.key.len() - i,
    {
        assert(desc@.key[i as int] == desc.key@[i as int] as int);
        let c = desc.key[i];
        assert(active_model@[c as int] == active_model.values@[c as int]@);
        match &active_model.values[c] {
            ActiveValue::Unset => {
                return None;
            },
            ActiveValue::SetTo(v) => {
                values.push(v.duplicate());
            },
        }
        i += 1;
    }
    assert forall|j: int| 0 <= j < desc@.key.len() implies (#[trigger] active_model@[desc@.key[j]])
        is Some by {
        assert(active_model@[desc@.key[j]] == Some(values@[j]@));
    }
    let k = KeyValue { values };
    assert(k@ =~= diff_key(desc@, active_model@));
    Some(k)
}

fn apply_to(active_model: &ActiveModel, row: &Record) -> (r: Record)
    requires
        active_model@.len() == row@.len(),
    ensures
        r@ == apply_diff(row@, active_model@),
{
    let mut values: Vec<Value> = Vec::new();
    let mut i: usize = 0;
    while i < row.values.len()
        invariant
            active_model@.len() == row@.len(),
            i <= row.values.len(),
            values@.len() == i,
            forall|j: int| 0 <= j < i ==> (#[trigger] values@[j])@ == apply_diff(row@, active_model@)[j],
        decreases row.values.len() - i,
    {
        assert(active_model@[i as int] == active_model.values@[i as int]@);
        assert(row@[i as int] == row.values@[i as int]@);
        match &active_model.values[i] {
            ActiveValue::Unset => values.push(row.values[i].duplicate()),
            ActiveValue::SetTo(v) => values.push(v.duplicate()),
        }
        i += 1;
    }
    let r = Record { values };
    assert(r@ =~= apply_diff(row@, active_model@));
    r
}

fn key_matches(desc: &EntityDescriptor, row: &Record, key: &KeyValue) -> (r: bool)
    requires
        desc@.wf(),
        row@.len() == desc@.width(),
        key@.len() == desc@.key.len(),
    ensures
        r == (key_of(desc@, row@) == key@),
{
    let mut i: usize = 0;
    while i < desc.key.len()
        invariant
            desc@.wf(),
            row@.len() == desc@.width(),
            key@.len() == desc@.key.len(),
            i <= desc.key.len(),
            forall|j: int| 0 <= j < i ==> key_of(desc@, row@)[j] == key@[j],
        decreases desc.key.len() - i,
    {
        assert(desc@.key[i as int] == desc.key@[i as int] as int);
        let c = desc.key[i];
        assert(row@[c as int] == row.values@[c as int]@);
        assert(key@[i as int] == key.values@[i as int]@);
        if !row.values[c].same(&key.values[i]) {
            assert(key_of(desc@, row@)[i as int] != key@[i as int]);
            return false;
        }
        i += 1;
    }
    assert(key_of(desc@, row@) =~= key@);
    true
}

impl MemoryStore {
    pub fn new() -> (s: MemoryStore)
        ensures
            s@ == Seq::<Seq<ValueView>>::empty(),
            s.next_id() == 1,
    {
        let s = MemoryStore { rows: Vec::new(), next_id: 1 };
        assert(s@ =~= Seq::<Seq<ValueView>>::empty());
        s
    }

    /// The identifier the next insert generates.
    pub closed spec fn next_id(&self) -> u128 {
        self.next_id
    }

    fn with_generated_key(&self, desc: &EntityDescriptor, active_model: &ActiveModel) -> (m:
        ActiveModel)
        requires
            desc@.wf(),
        ensures
            m@ == with_generated(desc@, active_model@, self.next_id()),
    {
        let mut m = active_model.duplicate();
        let mut i: usize = 0;
        while i < desc.key.len()
            invariant
                desc@.wf(),
                i <= desc.key.len(),
                m@ == generated_prefix(desc@, active_model@, self.next_id, i as nat),
            decreases desc.key.len() - i,
        {
            assert(desc@.key[i as int] == desc.key@[i as int] as int);
            let c = desc.key[i];
            if c < m.values.len() {
                assert(m@[c as int] == m.values@[c as int]@);
                assert(desc@.columns[c as int].1 == desc.columns@[c as int].kind);
                let unset = match &m.values[c] {
                    ActiveValue::Unset => true,
                    ActiveValue::SetTo(_) => false,
                };
                if unset && desc.columns[c].kind == ValueKind::Uuid {
                    m.set_column(c, Value::Uuid(self.next_id));
                }
            }
            i += 1;
        }
        m
    }

    pub fn len(&self) -> (n: usize)
        ensures
            n == self@.len(),
    {
        self.rows.len()
    }

    fn find_index(&self, desc: &EntityDescriptor, key: &KeyValue) -> (r: Option<usize>)
        requires
            desc@.wf(),
            table_wf(desc@, self@),
            key@.len() == desc@.key.len(),
        ensures
            opt_index(r) == position(desc@, self@, key@),
            match r {
                Some(i) => i < self@.len() && key_of(desc@, self@[i as int]) == key@,
                None => true,
            },
    {
        let mut i: usize = 0;
        while i < self.rows.len()
            invariant
                desc@.wf(),
                table_wf(desc@, self@),
                key@.len() == desc@.key.len(),
                i <= self.rows.len(),
                position(desc@, self@, key@) == position_from(desc@, self@, key@, i as int),
            decreases self.rows.len() - i,
        {
            assert(self@[i as int] == self.rows@[i as int]@);
            if key_matches(desc, &self.rows[i], key) {
                proof {
                    lemma_position_from_some(desc@, self@, key@, i as int);
                }
                return Some(i);
            }
            i += 1;
        }
        None
    }

    /// The record with this key, if any.
    pub fn find_by_id(&self, desc: &EntityDescriptor, key: &KeyValue) -> (r: Option<Record>)
        requires
            desc@.wf(),
            table_wf(desc@, self@),
            key@.len() == desc@.key.len(),
        ensures
            match r {
                Some(rec) => find_spec(desc@, self@, key@) == Some(rec@),
                None => find_spec(desc@, self@, key@) is None,
            },
    {
        match self.find_index(desc, key) {
            Some(i) => {
                assert(self@[i as int] == self.rows@[i as int]@);
                Some(self.rows[i].duplicate())
            },
            None => None,
        }
    }

    /// Deletes the record with this key; a key that no record has changes nothing. Returns
    /// the number of records deleted.
    pub fn delete_by_id(&mut self, desc: &EntityDescriptor, key: &KeyValue) -> (n: usize)
        requires
            desc@.wf(),
            table_wf(desc@, old(self)@),
            key@.len() == desc@.key.len(),
        ensures
            final(self)@ == delete_spec(desc@, old(self)@, key@),
            final(self).next_id() == old(self).next_id(),
            table_wf(desc@, final(self)@),
            n == if position(desc@, old(self)@, key@) is Some {
                1usize
            } else {
                0usize
            },
    {
        match self.find_index(desc, key) {
            Some(i) => {
                let ghost before = self@;
                self.rows.remove(i);
                assert(self@ =~= before.remove(i as int));
                assert forall|a: int, b: int|
                    0 <= a < self@.len() && 0 <= b < self@.len() && a != b implies key_of(
                    desc@,
                    self@[a],
                ) != key_of(desc@, self@[b]) by {
                    let a2 = if a < i {
                        a
                    } else {
                        a + 1
                    };
                    let b2 = if b < i {
                        b
                    } else {
                        b + 1
                    };
                    assert(self@[a] == before[a2] && self@[b] == before[b2]);
                }
                assert forall|a: int| 0 <= a < self@.len() implies (#[trigger] self@[a]).len()
                    == desc@.width() by {
                    let a2 = if a < i {
                        a
                    } else {
                        a + 1
                    };
                    assert(self@[a] == before[a2]);
                }
                1
            },
            None => 0,
        }
    }

    /// Inserts the record a diff describes, after giving each unset UUID key column the
    /// generated identifier, and returns it. Fails when a column is still unset, or when a
    /// record with the same key exists. Each insert uses up one identifier.
    pub fn insert(&mut self, desc: &EntityDescriptor, active_model: &ActiveModel) -> (r: Result<
        Record,
        Error,
    >)
        requires
            desc@.wf(),
            table_wf(desc@, old(self)@),
        ensures
            outcome_view(r) == insert_outcome(
                desc@,
                old(self)@,
                with_generated(desc@, active_model@, old(self).next_id()),
            ),
            final(self)@ == insert_rows(
                desc@,
                old(self)@,
                with_generated(desc@, active_model@, old(self).next_id()),
            ),
            final(self).next_id() == next_after(old(self).next_id()),
            table_wf(desc@, final(self)@),
    {
        let filled = self.with_generated_key(desc, active_model);
        let r = self.insert_full(desc, &filled);
        if self.next_id < u128::MAX {
            self.next_id = self.next_id + 1;
        }
        r
    }

    fn insert_full(&mut self, desc: &EntityDescriptor, active_model: &ActiveModel) -> (r: Result<
        Record,
        Error,
    >)
        requires
            desc@.wf(),
            table_wf(desc@, old(self)@),
        ensures
            outcome_view(r) == insert_outcome(desc@, old(self)@, active_model@),
            final(self)@ == insert_rows(desc@, old(self)@, active_model@),
            final(self).next_id() == old(self).next_id(),
            table_wf(desc@, final(self)@),
    {
        if active_model.values.len() != desc.columns.len() {
            return Err(Error::Backend(String::from_str("a column has no value")));
        }
        match active_model.to_record() {
            None => Err(Error::Backend(String::from_str("a column has no value"))),
            Some(rec) => {
                let key = rec.key(desc);
                match self.find_index(desc, &key) {
                    Some(_) => Err(Error::Conflict(String::from_str("a record with this key exists"))),
                    None => {
                        let out = rec.duplicate();
                        let ghost before = self@;
                        proof {
                            lemma_position(desc@, before, key@);
                        }
                        self.rows.push(rec);
                        assert(self@ =~= before.push(out@));
                        assert forall|a: int, b: int|
                            0 <= a < self@.len() && 0 <= b < self@.len() && a != b implies key_of(
                            desc@,
                            self@[a],
                        ) != key_of(desc@, self@[b]) by {
                            if a < before.len() && b < before.len() {
                                assert(self@[a] == before[a] && self@[b] == before[b]);
                            } else if a < before.len() {
                                assert(self@[a] == before[a]);
                            } else {
                                assert(self@[b] == before[b]);
                            }
                        }
                        assert forall|a: int| 0 <= a < self@.len() implies (
                        #[trigger] self@[a]).len() == desc@.width() by {
                            if a < before.len() {
                                assert(self@[a] == before[a]);
                            }
                        }
                        Ok(out)
                    },
                }
            },
        }
    }
}

impl MemoryStore {
    proof fn lemma_replace_keeps_wf(e: EntityView, before: Rows, after: Rows, i: int)
        requires
            table_wf(e, before),
            0 <= i < before.len(),
            after.len() == before.len(),
            after[i].len() == e.width(),
            key_of(e, after[i]) == key_of(e, before[i]),
            forall|j: int| 0 <= j < before.len() && j != i ==> after[j] == before[j],
        ensures
            table_wf(e, after),
    {
        assert forall|a: int, b: int|
            0 <= a < after.len() && 0 <= b < after.len() && a != b implies key_of(e, after[a])
            != key_of(e, after[b]) by {
            assert(key_of(e, after[a]) == key_of(e, before[a]));
            assert(key_of(e, after[b]) == key_of(e, before[b]));
        }
        assert forall|a: int| 0 <= a < after.len() implies (#[trigger] after[a]).len() == e.width() by {
            if a != i {
                assert(after[a] == before[a]);
            }
        }
    }

    proof fn lemma_push_keeps_wf(e: EntityView, before: Rows, r: Seq<ValueView>)
        requires
            table_wf(e, before),
            r.len() == e.width(),
            position(e, before, key_of(e, r)) is None,
        ensures
            table_wf(e, before.push(r)),
    {
        lemma_position(e, before, key_of(e, r));
        let after = before.push(r);
        assert forall|a: int, b: int|
            0 <= a < after.len() && 0 <= b < after.len() && a != b implies key_of(e, after[a])
            != key_of(e, after[b]) by {
            if a < before.len() {
                assert(after[a] == before[a]);
            }
            if b < before.len() {
                assert(after[b] == before[b]);
            }
        }
        assert forall|a: int| 0 <= a < after.len() implies (#[trigger] after[a]).len() == e.width() by {
            if a < before.len() {
                assert(after[a] == before[a]);
            }
        }
    }

    /// Applies the diff to the record its key columns address and returns the result. Fails
    /// with `NotFound` when no record has that key.
    pub fn update(&mut self, desc: &EntityDescriptor, active_model: &ActiveModel) -> (r: Result<
        Record,
        Error,
    >)
        requires
            desc@.wf(),
            table_wf(desc@, old(self)@),
        ensures
            outcome_view(r) == update_outcome(desc@, old(self)@, active_model@),
            final(self)@ == update_rows(desc@, old(self)@, active_model@),
            final(self).next_id() == old(self).next_id(),
            table_wf(desc@, final(self)@),
    {
        if active_model.values.len() != desc.columns.len() {
            return Err(Error::Backend(String::from_str("a key column has no value")));
        }
        match diff_key_value(desc, active_model) {
            None => Err(Error::Backend(String::from_str("a key column has no value"))),
            Some(key) => match self.find_index(desc, &key) {
                None => Err(Error::NotFound),
                Some(i) => {
                    assert(self@[i as int] == self.rows@[i as int]@);
                    let updated = apply_to(active_model, &self.rows[i]);
                    let out = updated.duplicate();
                    let ghost before = self@;
                    assert(key_of(desc@, updated@) =~= key_of(desc@, before[i as int]));
                    self.rows.set(i, updated);
                    assert(self@ =~= before.update(i as int, out@));
                    proof {
                        Self::lemma_replace_keeps_wf(desc@, before, self@, i as int);
                    }
                    Ok(out)
                },
            },
        }
    }

    /// Inserts the record a full diff describes, replacing the record with the same key if
    /// there is one, and returns it. Fails when a column is unset.
    pub fn upsert(&mut self, desc: &EntityDescriptor, active_model: &ActiveModel) -> (r: Result<
        Record,
        Error,
    >)
        requires
            desc@.wf(),
            table_wf(desc@, old(self)@),
        ensures
            outcome_view(r) == upsert_outcome(desc@, old(self)@, active_model@),
            final(self)@ == upsert_rows(desc@, old(self)@, active_model@),
            final(self).next_id() == old(self).next_id(),
            table_wf(desc@, final(self)@),
    {
        if active_model.values.len() != desc.columns.len() {
            return Err(Error::Backend(String::from_str("a column has no value")));
        }
        match active_model.to_record() {
            None => Err(Error::Backend(String::from_str("a column has no value"))),
            Some(rec) => {
                let key = rec.key(desc);
                let out = rec.duplicate();
                let ghost before = self@;
                match self.find_index(desc, &key) {
                    Some(i) => {
                        self.rows.set(i, rec);
                        assert(self@ =~= before.update(i as int, out@));
                        proof {
                            Self::lemma_replace_keeps_wf(desc@, before, self@, i as int);
                        }
                    },
                    None => {
                        self.rows.push(rec);
                        assert(self@ =~= before.push(out@));
                        proof {
                            Self::lemma_push_keeps_wf(desc@, before, out@);
                        }
                    },
                }
                Ok(out)
            },
        }
    }

    fn matching_records(&self, cond: &Condition) -> (out: Vec<Record>)
        ensures
            records_view(out@) == matching(self@, cond@),
    {
        let mut out: Vec<Record> = Vec::new();
        let mut i: usize = 0;
        while i < self.rows.len()
            invariant
                i <= self.rows.len(),
                records_view(out@) == matching(self@.take(i as int), cond@),
            decreases self.rows.len() - i,
        {
            let ghost prefix = self@.take(i as int);
            assert(self@.take(i + 1).drop_last() =~= prefix);
            assert(self@.take(i + 1).last() == self.rows@[i as int]@);
            if cond.accepts(&self.rows[i]) {
                let ghost before = records_view(out@);
                out.push(self.rows[i].duplicate());
                assert(records_view(out@) =~= before.push(self.rows@[i as int]@));
            }
            i += 1;
        }
        assert(self@.take(self.rows.len() as int) =~= self@);
        out
    }

    /// The number of records that meet the condition.
    pub fn count(&self, cond: &Condition) -> (n: usize)
        ensures
            n == matching(self@, cond@).len(),
    {
        self.matching_records(cond).len()
    }

    /// The records that meet the condition, `limit` of them from the `page`-th page on,
    /// counting pages from 0.
    pub fn fetch_page(&self, cond: &Condition, limit: usize, page: usize) -> (out: Vec<Record>)
        ensures
            records_view(out@) == page_of(self@, cond@, limit as int, page as int),
    {
        let all = self.matching_records(cond);
        let n = all.len();
        let lo: usize = match page.checked_mul(limit) {
            Some(s) => if s < n {
                s
            } else {
                n
            },
            None => n,
        };
        let hi: usize = if lo == n {
            n
        } else if limit < n - lo {
            lo + limit
        } else {
            n
        };
        let ghost f = records_view(all@);
        let mut out: Vec<Record> = Vec::new();
        let mut i: usize = lo;
        while i < hi
            invariant
                lo <= i <= hi <= n,
                n == all@.len(),
                f == records_view(all@),
                records_view(out@) == f.subrange(lo as int, i as int),
            decreases hi - i,
        {
            let ghost before = records_view(out@);
            out.push(all[i].duplicate());
            assert(f[i as int] == all@[i as int]@);
            assert(records_view(out@) =~= before.push(all@[i as int]@));
            assert(records_view(out@) =~= f.subrange(lo as int, i + 1));
            i += 1;
        }
        out
    }
}

} // verus!
