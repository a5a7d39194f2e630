//! The primary-key path codec: the URL template of an entity's key, and the decoding of the
//! segments a router matched into a typed key value.

use crate::entity::{EntityDescriptor, EntityView};
use crate::error::{Error, ErrorView, InvalidPathSegment, MissingPathSegment};
use crate::value::{kind_of, parse_spec, same_text, text_of, Value, ValueView};
use vstd::prelude::*;

verus! {

/// The view of a sequence of values.
pub open spec fn values_view(v: Seq<Value>) -> Seq<ValueView> {
    v.map_values(|x: Value| x@)
}

/// A primary-key value: one value per key column, in the descriptor's declared key order.
#[derive(Debug)]
pub struct KeyValue {
    pub values: Vec<Value>,
}

impl View for KeyValue {
    type V = Seq<ValueView>;

    open spec fn view(&self) -> Seq<ValueView> {
        values_view(self.values@)
    }
}

impl KeyValue {
    pub fn duplicate(&self) -> (r: KeyValue)
        ensures
            r@ == self@,
    {
        let mut values: Vec<Value> = Vec::new();
        let mut i: usize = 0;
        while i < self.values.len()
            invariant
                i <= self.values.len(),
                values@.len() == i,
                forall|j: int| 0 <= j < i ==> values@[j]@ == self.values@[j]@,
            decreases self.values.len() - i,
        {
            values.push(self.values[i].duplicate());
            i += 1;
        }
        assert(values_view(values@) =~= values_view(self.values@));
        KeyValue { values }
    }
}

/// Whether a key value has one value of the right type for each key column.
pub open spec fn key_fits(e: EntityView, k: Seq<ValueView>) -> bool {
    &&& k.len() == e.key.len()
    &&& forall|i: int| 0 <= i < k.len() ==> kind_of(#[trigger] k[i]) == e.key_kind(i)
}

/// The named segments a router matched in a request path, in match order.
#[derive(Debug)]
pub struct PathParams {
    pub entries: Vec<(String, String)>,
}

pub type PathView = Seq<(Seq<char>, Seq<char>)>;

impl View for PathParams {
    type V = PathView;

    open spec fn view(&self) -> PathView {
        self.entries@.map_values(|e: (String, String)| (e.0@, e.1@))
    }
}

/// The segment that the first entry from position `i` on with this name holds.
pub open spec fn lookup_from(p: PathView, name: Seq<char>, i: int) -> Option<Seq<char>>
    decreases p.len() - i,
{
    if i < 0 || i >= p.len() {
        None
    } else if p[i].0 == name {
        Some(p[i].1)
    } else {
        lookup_from(p, name, i + 1)
    }
}

/// The segment that the first entry with this name holds.
pub open spec fn lookup(p: PathView, name: Seq<char>) -> Option<Seq<char>> {
    lookup_from(p, name, 0)
}

pub open spec fn opt_text(o: Option<String>) -> Option<Seq<char>> {
    match o {
        Some(s) => Some(s@),
        None => None,
    }
}

pub open spec fn scope_view(scope: Option<&str>) -> Option<Seq<char>> {
    match scope {
        Some(s) => Some(s@),
        None => None,
    }
}

impl PathParams {
    pub fn new() -> (p: PathParams)
        ensures
            p@ == Seq::<(Seq<char>, Seq<char>)>::empty(),
    {
        let p = PathParams { entries: Vec::new() };
        assert(p@ =~= Seq::<(Seq<char>, Seq<char>)>::empty());
        p
    }

    /// Records one matched segment.
    pub fn add(&mut self, name: &str, segment: &str)
        ensures
            final(self)@ == old(self)@.push((name@, segment@)),
    {
        self.entries.push((String::from_str(name), String::from_str(segment)));
        assert(final(self)@ =~= old(self)@.push((name@, segment@)));
    }

    /// The segment matched under `name`, if any.
    pub fn get(&self, name: &str) -> (r: Option<String>)
        ensures
            opt_text(r) == lookup(self@, name@),
    {
        let mut i: usize = 0;
        while i < self.entries.len()
            invariant
                i <= self.entries.len(),
                lookup(self@, name@) == lookup_from(self@, name@, i as int),
            decreases self.entries.len() - i,
        {
            let entry = &self.entries[i];
            if same_text(entry.0.as_str(), name) {
                return Some(entry.1.clone());
            }
            i += 1;
        }
        None
    }
}

/// The path variable for a column: the column name, after `<scope>_` when a scope is given.
pub open spec fn seg_name(scope: Option<Seq<char>>, column: Seq<char>) -> Seq<char> {
    match scope {
        Some(s) => s + "_"@ + column,
        None => column,
    }
}

/// Path variable names of the key columns, in declared key order.
pub open spec fn key_segment_names(e: EntityView, scope: Option<Seq<char>>) -> Seq<Seq<char>> {
    Seq::new(e.key.len(), |i: int| seg_name(scope, e.key_name(i)))
}

/// A placeholder segment `{name}`.
pub open spec fn placeholder(name: Seq<char>) -> Seq<char> {
    "{"@ + name + "}"@
}

/// The placeholders of the names, in order, joined with `/`.
pub open spec fn join_template(names: Seq<Seq<char>>) -> Seq<char>
    decreases names.len(),
{
    if names.len() == 0 {
        Seq::empty()
    } else if names.len() == 1 {
        placeholder(names[0])
    } else {
        join_template(names.drop_last()) + "/"@ + placeholder(names.last())
    }
}

/// How many times `c` occurs in `s`.
pub open spec fn count_char(s: Seq<char>, c: char) -> nat
    decreases s.len(),
{
    if s.len() == 0 {
        0
    } else {
        count_char(s.drop_last(), c) + if s.last() == c {
            1nat
        } else {
            0nat
        }
    }
}

proof fn lemma_count_char_concat(a: Seq<char>, b: Seq<char>, c: char)
    ensures
        count_char(a + b, c) == count_char(a, c) + count_char(b, c),
    decreases b.len(),
{
    if b.len() == 0 {
        assert(a + b =~= a);
    } else {
        lemma_count_char_concat(a, b.drop_last(), c);
        assert((a + b).drop_last() =~= a + b.drop_last());
        assert((a + b).last() == b.last());
    }
}

proof fn lemma_count_char_absent(s: Seq<char>, c: char)
    requires
        !s.contains(c),
    ensures
        count_char(s, c) == 0,
    decreases s.len(),
{
    if s.len() > 0 {
        assert(!s.drop_last().contains(c)) by {
            if s.drop_last().contains(c) {
                let i = choose|i: int| 0 <= i < s.drop_last().len() && s.drop_last()[i] == c;
                assert(s[i] == c);
            }
        }
        lemma_count_char_absent(s.drop_last(), c);
        assert(s.last() == s[s.len() - 1]);
    }
}

proof fn lemma_join_template_count(names: Seq<Seq<char>>)
    requires
        forall|i: int| 0 <= i < names.len() ==> !(#[trigger] names[i]).contains('{'),
    ensures
        count_char(join_template(names), '{') == names.len(),
    decreases names.len(),
{
    reveal_strlit("{");
    reveal_strlit("}");
    reveal_strlit("/");
    if names.len() > 0 {
        let last = names.last();
        assert(!last.contains('{')) by {
            assert(last == names[names.len() - 1]);
        }
        lemma_count_char_absent(last, '{');
        lemma_count_char_absent("}"@, '{');
        lemma_count_char_absent("/"@, '{');
        assert(count_char("{"@, '{') == 1) by {
            assert("{"@.len() == 1);
            assert("{"@.last() == '{');
            assert("{"@.drop_last() =~= Seq::<char>::empty());
            assert(count_char(Seq::<char>::empty(), '{') == 0);
        }
        lemma_count_char_concat("{"@, last, '{');
        lemma_count_char_concat("{"@ + last, "}"@, '{');
        if names.len() > 1 {
            let prev = names.drop_last();
            assert forall|i: int| 0 <= i < prev.len() implies !(#[trigger] prev[i]).contains('{') by {
                assert(prev[i] == names[i]);
            }
            lemma_join_template_count(prev);
            lemma_count_char_concat(join_template(prev), "/"@, '{');
            lemma_count_char_concat(join_template(prev) + "/"@, placeholder(last), '{');
        } else {
            assert(names[0] == last);
        }
    }
}

/// The key template holds exactly one placeholder per key column: when neither the scope
/// nor the key columns' names hold a `{`, the template holds as many `{` as the key has
/// columns. With [`join_template`], the placeholders stand in declared key order.
pub proof fn lemma_template_placeholder_count(e: EntityView, scope: Option<Seq<char>>)
    requires
        forall|i: int| 0 <= i < e.key.len() ==> !(#[trigger] e.key_name(i)).contains('{'),
        scope matches Some(s) ==> !s.contains('{'),
    ensures
        count_char(join_template(key_segment_names(e, scope)), '{') == e.key.len(),
{
    reveal_strlit("_");
    let names = key_segment_names(e, scope);
    assert forall|i: int| 0 <= i < names.len() implies !(#[trigger] names[i]).contains('{') by {
        let n = e.key_name(i);
        if let Some(s) = scope {
            let full = s + "_"@ + n;
            if full.contains('{') {
                let j = choose|j: int| 0 <= j < full.len() && full[j] == '{';
                if j < s.len() {
                    assert(s[j] == '{');
                } else if j < s.len() + 1 {
                    assert("_"@[j - s.len()] == '{');
                } else {
                    assert(n[j - s.len() - 1] == '{');
                }
            }
        }
    }
    lemma_join_template_count(names);
}

/// The key decoded from the first `n` key columns, or the error of the first that fails.
pub open spec fn decode_prefix(
    e: EntityView,
    scope: Option<Seq<char>>,
    p: PathView,
    n: nat,
) -> Result<Seq<ValueView>, ErrorView>
    decreases n,
{
    if n == 0 {
        Ok(Seq::empty())
    } else {
        match decode_prefix(e, scope, p, (n - 1) as nat) {
            Err(err) => Err(err),
            Ok(vs) => {
                let name = seg_name(scope, e.key_name(n - 1));
                match lookup(p, name) {
                    None => Err(ErrorView::MissingPathSegment(name)),
                    Some(t) => match parse_spec(e.key_kind(n - 1), t) {
                        None => Err(ErrorView::InvalidPathSegment(name)),
                        Some(v) => Ok(vs.push(v)),
                    },
                }
            },
        }
    }
}

/// The key that a matched path decodes to, or why it does not.
pub open spec fn decode(e: EntityView, scope: Option<Seq<char>>, p: PathView) -> Result<
    Seq<ValueView>,
    ErrorView,
> {
    decode_prefix(e, scope, p, e.key.len())
}

pub open spec fn key_result(r: Result<KeyValue, Error>) -> Result<Seq<ValueView>, ErrorView> {
    match r {
        Ok(k) => Ok(k@),
        Err(e) => Err(e@),
    }
}

proof fn lemma_decode_prefix_len(e: EntityView, scope: Option<Seq<char>>, p: PathView, n: nat)
    ensures
        decode_prefix(e, scope, p, n) is Ok ==> decode_prefix(e, scope, p, n)->Ok_0.len() == n,
    decreases n,
{
    if n > 0 {
        lemma_decode_prefix_len(e, scope, p, (n - 1) as nat);
    }
}

/// A decoded key has one value per key column.
pub proof fn lemma_decode_len(e: EntityView, scope: Option<Seq<char>>, p: PathView)
    ensures
        decode(e, scope, p) is Ok ==> decode(e, scope, p)->Ok_0.len() == e.key.len(),
{
    lemma_decode_prefix_len(e, scope, p, e.key.len());
}

proof fn lemma_decode_error_persists(
    e: EntityView,
    scope: Option<Seq<char>>,
    p: PathView,
    i: nat,
    n: nat,
)
    requires
        i <= n,
        decode_prefix(e, scope, p, i) is Err,
    ensures
        decode_prefix(e, scope, p, n) == decode_prefix(e, scope, p, i),
    decreases n - i,
{
    if i < n {
        lemma_decode_error_persists(e, scope, p, i, (n - 1) as nat);
    }
}

/// The path variable for a column, scoped when a scope is given.
pub fn segment_name(scope: Option<&str>, column: &str) -> (r: String)
    ensures
        r@ == seg_name(scope_view(scope), column@),
{
    match scope {
        Some(s) => String::from_str(s).concat("_").concat(column),
        None => String::from_str(column),
    }
}

/// The URL template of the entity's key: one `{name}` placeholder per key column, in
/// declared order, joined with `/`.
pub fn id_path(desc: &EntityDescriptor, scope: Option<&str>) -> (r: String)
    requires
        desc@.wf(),
    ensures
        r@ == join_template(key_segment_names(desc@, scope_view(scope))),
{
    let ghost names = key_segment_names(desc@, scope_view(scope));
    let mut out = String::new();
    let mut i: usize = 0;
    while i < desc.key.len()
        invariant
            desc@.wf(),
            names == key_segment_names(desc@, scope_view(scope)),
            i <= desc.key.len(),
            out@ == join_template(names.take(i as int)),
        decreases desc.key.len() - i,
    {
        assert(desc@.key[i as int] == desc.key@[i as int] as int);
        let col = &desc.columns[desc.key[i]];
        let name = segment_name(scope, col.name.as_str());
        assert(names.take(i + 1).drop_last() =~= names.take(i as int));
        if i > 0 {
            out.append("/");
        }
        out.append("{");
        out.append(name.as_str());
        out.append("}");
        assert(out@ =~= join_template(names.take(i + 1)));
        i += 1;
    }
    assert(names.take(desc.key.len() as int) =~= names);
    out
}

/// Decodes the key from the matched path: for each key column in declared order, the
/// named segment must be present and read as the column's type; the first that is not
/// ends the decoding with its error.
pub fn id_from_path(desc: &EntityDescriptor, scope: Option<&str>, path: &PathParams) -> (r: Result<
    KeyValue,
    Error,
>)
    requires
        desc@.wf(),
    ensures
        key_result(r) == decode(desc@, scope_view(scope), path@),
{
    let ghost sv = scope_view(scope);
    let mut values: Vec<Value> = Vec::new();
    assert(values_view(values@) =~= Seq::<ValueView>::empty());
    let mut i: usize = 0;
    while i < desc.key.len()
        invariant
            desc@.wf(),
            sv == scope_view(scope),
            i <= desc.key.len(),
            decode_prefix(desc@, sv, path@, i as nat) == Ok::<Seq<ValueView>, ErrorView>(
                values_view(values@),
            ),
        decreases desc.key.len() - i,
    {
        assert(desc@.key[i as int] == desc.key@[i as int] as int);
        let col = &desc.columns[desc.key[i]];
        let name = segment_name(scope, col.name.as_str());
        match path.get(name.as_str()) {
            None => {
                let err = MissingPathSegment(name.as_str());
                proof {
                    lemma_decode_error_persists(desc@, sv, path@, (i + 1) as nat, desc@.key.len());
                }
                return Err(err);
            },
            Some(text) => match Value::parse(col.kind, text.as_str()) {
                None => {
                    let err = InvalidPathSegment(name.as_str());
                    proof {
                        lemma_decode_error_persists(
                            desc@,
                            sv,
                            path@,
                            (i + 1) as nat,
                            desc@.key.len(),
                        );
                    }
                    return Err(err);
                },
                Some(v) => {
                    let ghost before = values_view(values@);
                    values.push(v);
                    assert(values_view(values@) =~= before.push(v@));
                },
            },
        }
        i += 1;
    }
    Ok(KeyValue { values })
}

/// Whether the `i`-th key column's segment is present and reads as the column's type.
pub open spec fn segment_reads(e: EntityView, scope: Option<Seq<char>>, p: PathView, i: int) -> bool {
    match lookup(p, seg_name(scope, e.key_name(i))) {
        Some(t) => parse_spec(e.key_kind(i), t) is Some,
        None => false,
    }
}

/// The value the `i`-th key column's segment reads as.
pub open spec fn segment_value(
    e: EntityView,
    scope: Option<Seq<char>>,
    p: PathView,
    i: int,
) -> ValueView {
    parse_spec(e.key_kind(i), lookup(p, seg_name(scope, e.key_name(i)))->0)->0
}

proof fn lemma_decode_prefix_ok(e: EntityView, scope: Option<Seq<char>>, p: PathView, n: nat)
    requires
        n <= e.key.len(),
        forall|i: int| 0 <= i < n ==> segment_reads(e, scope, p, i),
    ensures
        decode_prefix(e, scope, p, n) == Ok::<Seq<ValueView>, ErrorView>(
            Seq::new(n, |i: int| segment_value(e, scope, p, i)),
        ),
    decreases n,
{
    if n == 0 {
        assert(Seq::new(n, |i: int| segment_value(e, scope, p, i)) =~= Seq::<ValueView>::empty());
    } else {
        lemma_decode_prefix_ok(e, scope, p, (n - 1) as nat);
        assert(segment_reads(e, scope, p, n - 1));
        assert(Seq::new((n - 1) as nat, |i: int| segment_value(e, scope, p, i)).push(
            segment_value(e, scope, p, n - 1),
        ) =~= Seq::new(n, |i: int| segment_value(e, scope, p, i)));
    }
}

/// When every key column's segment is present and reads as its type, decoding yields the
/// key made of those values, in declared key order.
pub proof fn lemma_decode_succeeds(e: EntityView, scope: Option<Seq<char>>, p: PathView)
    requires
        forall|i: int| 0 <= i < e.key.len() ==> segment_reads(e, scope, p, i),
    ensures
        decode(e, scope, p) == Ok::<Seq<ValueView>, ErrorView>(
            Seq::new(e.key.len(), |i: int| segment_value(e, scope, p, i)),
        ),
{
    lemma_decode_prefix_ok(e, scope, p, e.key.len());
}

/// A single key column whose segment is absent or unreadable makes decoding fail, whatever
/// the other segments hold: no partial key is ever produced.
pub proof fn lemma_decode_fails(e: EntityView, scope: Option<Seq<char>>, p: PathView, j: int)
    requires
        0 <= j < e.key.len(),
        !segment_reads(e, scope, p, j),
    ensures
        decode(e, scope, p) is Err,
{
    let n = (j + 1) as nat;
    assert(decode_prefix(e, scope, p, n) is Err);
    lemma_decode_error_persists(e, scope, p, n, e.key.len());
}

/// Decoding fails on the first key column, in declared order, whose segment is absent
/// (`MissingPathSegment`) or present but unreadable (`InvalidPathSegment`), naming that
/// column's path variable, whatever the segments after it hold.
pub proof fn lemma_decode_first_failure(
    e: EntityView,
    scope: Option<Seq<char>>,
    p: PathView,
    j: int,
)
    requires
        0 <= j < e.key.len(),
        forall|i: int| 0 <= i < j ==> segment_reads(e, scope, p, i),
        !segment_reads(e, scope, p, j),
    ensures
        lookup(p, seg_name(scope, e.key_name(j))) is None ==> decode(e, scope, p) == Err::<
            Seq<ValueView>,
            ErrorView,
        >(ErrorView::MissingPathSegment(seg_name(scope, e.key_name(j)))),
        lookup(p, seg_name(scope, e.key_name(j))) is Some ==> decode(e, scope, p) == Err::<
            Seq<ValueView>,
            ErrorView,
        >(ErrorView::InvalidPathSegment(seg_name(scope, e.key_name(j)))),
{
    lemma_decode_prefix_ok(e, scope, p, j as nat);
    let n = (j + 1) as nat;
    assert(decode_prefix(e, scope, p, n) is Err);
    lemma_decode_error_persists(e, scope, p, n, e.key.len());
}

proof fn lemma_lookup_from_at(p: PathView, name: Seq<char>, i: int, m: int)
    requires
        0 <= i <= m < p.len(),
        p[m].0 == name,
        forall|j: int| 0 <= j < m ==> p[j].0 != name,
    ensures
        lookup_from(p, name, i) == Some(p[m].1),
    decreases m - i,
{
    if i < m {
        lemma_lookup_from_at(p, name, i + 1, m);
    }
}

proof fn lemma_seg_name_injective(scope: Option<Seq<char>>, a: Seq<char>, b: Seq<char>)
    requires
        a != b,
    ensures
        seg_name(scope, a) != seg_name(scope, b),
{
    if let Some(s) = scope {
        let k = s.len() + "_"@.len();
        let x = s + "_"@ + a;
        let y = s + "_"@ + b;
        if x == y {
            assert(x.len() == y.len());
            assert(x.len() == s.len() + "_"@.len() + a.len());
            assert(y.len() == s.len() + "_"@.len() + b.len());
            assert(x.subrange(k as int, (k + a.len()) as int) =~= a);
            assert(y.subrange(k as int, (k + b.len()) as int) =~= b);
        }
    }
}

proof fn lemma_decode_encoded(
    e: EntityView,
    scope: Option<Seq<char>>,
    p: PathView,
    k: Seq<ValueView>,
)
    requires
        e.wf(),
        k.len() == e.key.len(),
        p.len() == e.key.len(),
        forall|i: int| 0 <= i < p.len() ==> #[trigger] p[i].0 == seg_name(scope, e.key_name(i)),
        forall|i: int| 0 <= i < p.len() ==> parse_spec(e.key_kind(i), #[trigger] p[i].1) == Some(k[i]),
    ensures
        decode(e, scope, p) == Ok::<Seq<ValueView>, ErrorView>(k),
{
    assert forall|m: int| 0 <= m < e.key.len() implies #[trigger] segment_reads(e, scope, p, m)
        && segment_value(e, scope, p, m) == k[m] by {
        assert forall|j: int| 0 <= j < m implies p[j].0 != seg_name(scope, e.key_name(m)) by {
            lemma_seg_name_injective(scope, e.key_name(j), e.key_name(m));
        }
        lemma_lookup_from_at(p, seg_name(scope, e.key_name(m)), 0, m);
        assert(parse_spec(e.key_kind(m), p[m].1) == Some(k[m]));
    }
    lemma_decode_succeeds(e, scope, p);
    assert forall|m: int| 0 <= m < e.key.len() implies #[trigger] segment_value(e, scope, p, m)
        == k[m] by {
        assert(segment_reads(e, scope, p, m));
    }
    assert(Seq::new(e.key.len(), |i: int| segment_value(e, scope, p, i)) =~= k);
}

/// The segments a router matches for this key's URL: each key column's path variable,
/// in declared order, with the text of the key's value. Decoding them gives the key back.
pub fn encode_key(desc: &EntityDescriptor, scope: Option<&str>, key: &KeyValue) -> (p: PathParams)
    requires
        desc@.wf(),
        key_fits(desc@, key@),
    ensures
        p@.len() == desc@.key.len(),
        forall|i: int|
            0 <= i < p@.len() ==> #[trigger] p@[i] == (
                seg_name(scope_view(scope), desc@.key_name(i)),
                text_of(key@[i]),
            ),
        decode(desc@, scope_view(scope), p@) == Ok::<Seq<ValueView>, ErrorView>(key@),
{
    let ghost sv = scope_view(scope);
    let mut p = PathParams::new();
    let mut i: usize = 0;
    while i < desc.key.len()
        invariant
            desc@.wf(),
            key_fits(desc@, key@),
            sv == scope_view(scope),
            i <= desc.key.len(),
            p@.len() == i,
            forall|j: int|
                0 <= j < i ==> #[trigger] p@[j] == (seg_name(sv, desc@.key_name(j)), text_of(key@[j])),
            forall|j: int|
                0 <= j < i ==> parse_spec(desc@.key_kind(j), #[trigger] p@[j].1) == Some(key@[j]),
        decreases desc.key.len() - i,
    {
        assert(desc@.key[i as int] == desc.key@[i as int] as int);
        let col = &desc.columns[desc.key[i]];
        let name = segment_name(scope, col.name.as_str());
        let text = key.values[i].text();
        assert(key@[i as int] == key.values@[i as int]@);
        assert(kind_of(key@[i as int]) == desc@.key_kind(i as int));
        p.add(name.as_str(), text.as_str());
        i += 1;
    }
    proof {
        lemma_decode_encoded(desc@, sv, p@, key@);
    }
    p
}

} // verus!
