//! The JSON feeder: rows read from a JSON array of objects.
use vstd::prelude::*;
use serde_json::Value;
use rand::Rng;
use crate::string_map::StringMap;
use crate::text::{chars_of, owned};
use crate::feeders::{DataRow, Feeder, FeederConfig, FeederError, FeederKind, FeederStrategy, rows_view};

verus! {

/// `a` comes before `b` or equals it, comparing characters in order (the
/// order of `String`'s `Ord`).
pub open spec fn text_le(a: Seq<char>, b: Seq<char>) -> bool
    decreases a.len(),
{
    if a.len() == 0 {
        true
    } else if b.len() == 0 {
        false
    } else if a[0] < b[0] {
        true
    } else if a[0] > b[0] {
        false
    } else {
        text_le(a.drop_first(), b.drop_first())
    }
}

/// The texts are in order.
pub open spec fn texts_sorted(s: Seq<Seq<char>>) -> bool {
    forall|i: int, j: int| 0 <= i <= j < s.len() ==> text_le(s[i], s[j])
}

/// The texts of a list of strings.
pub open spec fn texts_view(v: Seq<String>) -> Seq<Seq<char>> {
    v.map_values(|s: String| s@)
}

proof fn lemma_text_le_total(a: Seq<char>, b: Seq<char>)
    ensures
        text_le(a, b) || text_le(b, a),
    decreases a.len(),
{
    if a.len() > 0 && b.len() > 0 && a[0] == b[0] {
        lemma_text_le_total(a.drop_first(), b.drop_first());
    }
}

proof fn lemma_text_le_trans(a: Seq<char>, b: Seq<char>, c: Seq<char>)
    requires
        text_le(a, b),
        text_le(b, c),
    ensures
        text_le(a, c),
    decreases a.len(),
{
    if a.len() > 0 && b.len() > 0 && c.len() > 0 && a[0] == b[0] && b[0] == c[0] {
        lemma_text_le_trans(a.drop_first(), b.drop_first(), c.drop_first());
    }
}

/// Whether `a` comes before `b` or equals it (see `text_le`).
pub fn text_less_eq(a: &str, b: &str) -> (r: bool)
    ensures
        r == text_le(a@, b@),
{
    let ca = chars_of(a);
    let cb = chars_of(b);
    let mut i: usize = 0;
    assert(ca@.skip(0) =~= ca@);
    assert(cb@.skip(0) =~= cb@);
    while i < ca.len() && i < cb.len() && ca[i] == cb[i]
        invariant
            i <= ca@.len(),
            i <= cb@.len(),
            forall|j: int| 0 <= j < i ==> ca@[j] == cb@[j],
            text_le(ca@, cb@) == text_le(ca@.skip(i as int), cb@.skip(i as int)),
        decreases ca.len() - i,
    {
        proof {
            assert(ca@.skip(i as int).drop_first() =~= ca@.skip(i + 1));
            assert(cb@.skip(i as int).drop_first() =~= cb@.skip(i + 1));
        }
        i += 1;
    }
    proof {
        assert(ca@.skip(0) =~= ca@);
        assert(cb@.skip(0) =~= cb@);
    }
    if i == ca.len() {
        true
    } else if i == cb.len() {
        false
    } else {
        ca[i] < cb[i]
    }
}

/// `v` in order (a stable insertion sort).
pub fn sort_texts(v: Vec<String>) -> (r: Vec<String>)
    ensures
        texts_sorted(texts_view(r@)),
        texts_view(r@).to_multiset() == texts_view(v@).to_multiset(),
{
    broadcast use vstd::seq_lib::group_to_multiset_ensures;

    let mut out: Vec<String> = Vec::new();
    let mut i: usize = 0;
    assert(texts_view(out@) =~= Seq::<Seq<char>>::empty());
    assert(texts_view(v@).take(0) =~= Seq::<Seq<char>>::empty());
    while i < v.len()
        invariant
            i <= v.len(),
            texts_sorted(texts_view(out@)),
            texts_view(out@).to_multiset() == texts_view(v@).take(i as int).to_multiset(),
        decreases v.len() - i,
    {
        let x = v[i].clone();
        let mut p = out.len();
        while p > 0 && !text_less_eq(out[p - 1].as_str(), x.as_str())
            invariant
                p <= out.len(),
                texts_sorted(texts_view(out@)),
                forall|j: int| p <= j < out@.len() ==> !text_le(out@[j]@, x@),
            decreases p,
        {
            p -= 1;
        }
        let ghost before = texts_view(out@);
        out.insert(p, x);
        proof {
            let after = texts_view(out@);
            assert(after =~= before.insert(p as int, x@));
            assert forall|a: int, b: int| 0 <= a <= b < after.len() implies text_le(
                after[a],
                after[b],
            ) by {
                if a < p as int && b > p as int {
                    assert(after[a] == before[a]);
                    assert(after[b] == before[b - 1]);
                } else if a < p as int && b == p as int {
                    assert(after[a] == before[a]);
                    assert(text_le(before[a], before[p - 1]));
                    assert(text_le(before[p - 1], x@));
                    lemma_text_le_trans(before[a], before[p - 1], x@);
                } else if a == p as int && b > p as int {
                    assert(after[b] == before[b - 1]);
                    lemma_text_le_total(before[b - 1], x@);
                } else if a > p as int {
                    assert(after[a] == before[a - 1]);
                    assert(after[b] == before[b - 1]);
                } else if b < p as int {
                    assert(after[a] == before[a]);
                    assert(after[b] == before[b]);
                } else {
                    lemma_text_le_total(x@, x@);
                }
            }
            assert(texts_view(v@).take(i + 1) =~= texts_view(v@).take(i as int).push(x@));
            vstd::seq_lib::to_multiset_insert(before, p as int, x@);
            vstd::seq_lib::to_multiset_build(texts_view(v@).take(i as int), x@);
        }
        i += 1;
    }
    proof {
        assert(texts_view(v@).take(v.len() as int) =~= texts_view(v@));
    }
    out
}

/// The kinds of JSON value a feeder tells apart.
#[derive(Debug, Clone, Copy, PartialEq, Eq, Structural)]
pub enum JsonKind {
    /// `null`.
    Null,
    /// A string.
    Text,
    /// A number, boolean, array or object.
    Rendered,
}

/// A JSON value: its kind and its text (the characters of a string;
/// `serde_json`'s compact rendering of a number, boolean, array or object;
/// empty for `null`).
#[derive(Debug)]
pub struct JsonValue {
    pub kind: JsonKind,
    pub text: String,
}

/// A JSON value seen as its kind and text.
pub open spec fn value_view(v: JsonValue) -> (JsonKind, Seq<char>) {
    (v.kind, v.text@)
}

/// An object's entries seen as text.
pub open spec fn entries_view(e: Seq<(String, JsonValue)>) -> Seq<(Seq<char>, (JsonKind, Seq<char>))> {
    e.map_values(|p: (String, JsonValue)| (p.0@, value_view(p.1)))
}

/// Array elements seen as text: an object as its entries, anything else
/// as `None`.
pub open spec fn elements_view(v: Seq<Option<Vec<(String, JsonValue)>>>) -> Seq<
    Option<Seq<(Seq<char>, (JsonKind, Seq<char>))>>,
> {
    v.map_values(
        |o: Option<Vec<(String, JsonValue)>>|
            match o {
                Some(e) => Some(entries_view(e@)),
                None => None,
            },
    )
}

/// What `serde_json::from_str::<Vec<serde_json::Value>>` gives for `text`:
/// the array's elements (each object as its entries in the map's order,
/// each value as its kind and text), or the text of the error.
pub uninterp spec fn json_array_of(text: Seq<char>) -> Result<
    Seq<Option<Seq<(Seq<char>, (JsonKind, Seq<char>))>>>,
    Seq<char>,
>;

/// Parses `text` as a JSON array with `serde_json`, handing out each
/// element as an object's entries (values by kind and text) or `None`;
/// named by `json_array_of`.
#[verifier::external_body]
fn parse_json_array(text: &str) -> (r: Result<Vec<Option<Vec<(String, JsonValue)>>>, String>)
    ensures
        match (r, json_array_of(text@)) {
            (Ok(v), Ok(s)) => elements_view(v@) == s,
            (Err(m), Err(t)) => m@ == t,
            _ => false,
        },
{
    match serde_json::from_str::<Vec<Value>>(text) {
        Err(e) => Err(e.to_string()),
        Ok(items) => Ok(items.into_iter().map(|item| match item {
            Value::Object(o) => Some(o.into_iter().map(|(k, v)| (k, match v {
                Value::Null => JsonValue { kind: JsonKind::Null, text: String::new() },
                Value::String(s) => JsonValue { kind: JsonKind::Text, text: s },
                other => JsonValue { kind: JsonKind::Rendered, text: other.to_string() },
            })).collect()),
            _ => None,
        }).collect()),
    }
}

/// The text a JSON value gives a row: a string's characters, nothing for
/// `null`, the rendering of anything else.
pub open spec fn value_text(v: (JsonKind, Seq<char>)) -> Seq<char> {
    match v.0 {
        JsonKind::Null => Seq::empty(),
        _ => v.1,
    }
}

/// The text of a JSON value (see `value_text`).
pub fn json_value_to_string(v: &JsonValue) -> (r: String)
    ensures
        r@ == value_text(value_view(*v)),
{
    match v.kind {
        JsonKind::Null => String::new(),
        _ => v.text.clone(),
    }
}

/// The text of the first entry named `key`, or nothing.
pub open spec fn entry_text(e: Seq<(Seq<char>, (JsonKind, Seq<char>))>, key: Seq<char>) -> Seq<char>
    decreases e.len(),
{
    if e.len() == 0 {
        Seq::empty()
    } else if e[0].0 == key {
        value_text(e[0].1)
    } else {
        entry_text(e.drop_first(), key)
    }
}

/// The row of an object: each header mapped to its entry's text.
pub open spec fn json_row(headers: Seq<Seq<char>>, e: Seq<(Seq<char>, (JsonKind, Seq<char>))>) -> Map<
    Seq<char>,
    Seq<char>,
> {
    Map::new(|k: Seq<char>| headers.contains(k), |k: Seq<char>| entry_text(e, k))
}

/// The first element at or after `i` that is not an object.
pub open spec fn first_non_object(
    elems: Seq<Option<Seq<(Seq<char>, (JsonKind, Seq<char>))>>>,
    i: int,
) -> Option<int>
    decreases elems.len() - i,
{
    if i < 0 || i >= elems.len() {
        None
    } else if elems[i] is None {
        Some(i)
    } else {
        first_non_object(elems, i + 1)
    }
}

fn lookup_entry(e: &Vec<(String, JsonValue)>, key: &str) -> (r: String)
    ensures
        r@ == entry_text(entries_view(e@), key@),
{
    let mut i: usize = 0;
    assert(entries_view(e@).skip(0) =~= entries_view(e@));
    while i < e.len()
        invariant
            i <= e@.len(),
            entry_text(entries_view(e@), key@) == entry_text(entries_view(e@).skip(i as int), key@),
        decreases e.len() - i,
    {
        proof {
            assert(entries_view(e@).skip(i as int)[0] == entries_view(e@)[i as int]);
            assert(entries_view(e@).skip(i as int).drop_first() =~= entries_view(e@).skip(i + 1));
        }
        if crate::text::str_eq(e[i].0.as_str(), key) {
            return json_value_to_string(&e[i].1);
        }
        i += 1;
    }
    String::new()
}

fn row_of_object(headers: &Vec<String>, e: &Vec<(String, JsonValue)>) -> (r: StringMap)
    ensures
        r@ == json_row(texts_view(headers@), entries_view(e@)),
{
    let mut row = StringMap::new();
    let mut j: usize = 0;
    while j < headers.len()
        invariant
            j <= headers@.len(),
            row@ == Map::new(
                |k: Seq<char>| texts_view(headers@).take(j as int).contains(k),
                |k: Seq<char>| entry_text(entries_view(e@), k),
            ),
        decreases headers.len() - j,
    {
        let v = lookup_entry(e, headers[j].as_str());
        let ghost before = row@;
        row.insert(headers[j].clone(), v);
        proof {
            let hs = texts_view(headers@);
            assert(hs.take(j + 1) =~= hs.take(j as int).push(hs[j as int]));
            let t0 = hs.take(j as int);
            let t1 = hs.take(j + 1);
            assert forall|k: Seq<char>| t1.contains(k) <==> (t0.contains(k) || k == hs[j as int]) by {
                if t1.contains(k) {
                    let x = choose|x: int| 0 <= x < t1.len() && #[trigger] t1[x] == k;
                    if x < j {
                        assert(t0[x] == k);
                    }
                }
                if t0.contains(k) {
                    let x = choose|x: int| 0 <= x < t0.len() && #[trigger] t0[x] == k;
                    assert(t1[x] == k);
                }
                if k == hs[j as int] {
                    assert(t1[j as int] == k);
                }
            }
            assert(row@ =~= Map::new(
                |k: Seq<char>| hs.take(j + 1).contains(k),
                |k: Seq<char>| entry_text(entries_view(e@), k),
            ));
        }
        j += 1;
    }
    proof {
        assert(texts_view(headers@).take(headers@.len() as int) =~= texts_view(headers@));
    }
    row
}

/// The keys of an object's entries, in order.
pub open spec fn entry_keys(e: Seq<(Seq<char>, (JsonKind, Seq<char>))>) -> Seq<Seq<char>> {
    e.map_values(|p: (Seq<char>, (JsonKind, Seq<char>))| p.0)
}

/// The first `n` rows are those of the first `n` elements, all objects.
pub open spec fn rows_of_objects(
    rows: Seq<Map<Seq<char>, Seq<char>>>,
    hs: Seq<Seq<char>>,
    elems: Seq<Option<Seq<(Seq<char>, (JsonKind, Seq<char>))>>>,
    n: int,
) -> bool {
    forall|i: int|
        #![trigger rows[i]]
        #![trigger elems[i]]
        0 <= i < n ==> elems[i] is Some && rows[i] == json_row(hs, elems[i]->0)
}

/// The outcome of reading JSON elements into a feeder: the array must not
/// be empty and must hold objects only (the first non-object is reported);
/// the headers are the first object's keys in order, and each object gives
/// the row of those headers.
pub open spec fn json_outcome(
    elems: Seq<Option<Seq<(Seq<char>, (JsonKind, Seq<char>))>>>,
    r: Result<JsonFeeder, FeederError>,
    strategy: FeederStrategy,
) -> bool {
    if elems.len() == 0 {
        r == Err::<JsonFeeder, FeederError>(FeederError::JsonEmptyArray)
    } else if elems[0] is None {
        r == Err::<JsonFeeder, FeederError>(FeederError::JsonNotObjects)
    } else {
        match first_non_object(elems, 0) {
            Some(i) => r == Err::<JsonFeeder, FeederError>(
                FeederError::JsonElementNotObject { index: i as usize },
            ),
            None => r matches Ok(f) && {
                let keys = entry_keys(elems[0]->0);
                let hs = texts_view(f.headers@);
                &&& texts_sorted(hs)
                &&& hs.to_multiset() == keys.to_multiset()
                &&& rows_view(f.data@).len() == elems.len()
                &&& forall|i: int|
                    0 <= i < elems.len() ==> #[trigger] rows_view(f.data@)[i] == json_row(
                        hs,
                        elems[i]->0,
                    )
                &&& f.strategy == strategy
                &&& f.cursor == 0
            },
        }
    }
}

/// One call of a JSON feeder: the cursor counts every call (wrapping
/// around at the top of `usize`); a sequential feeder gives the row at the
/// cursor while there is one, a cyclic one the row at the cursor modulo
/// the number of rows, a random one any row.
pub open spec fn json_step(
    data: Seq<Map<Seq<char>, Seq<char>>>,
    strategy: FeederStrategy,
    cursor: nat,
    next: nat,
    row: Option<Map<Seq<char>, Seq<char>>>,
) -> bool {
    if data.len() == 0 {
        row is None && next == cursor
    } else {
        match strategy {
            FeederStrategy::Sequential => {
                &&& next == (cursor + 1) % (usize::MAX as nat + 1)
                &&& row == if cursor < data.len() {
                    Some(data[cursor as int])
                } else {
                    None
                }
            },
            FeederStrategy::Cyclic => {
                &&& next == (cursor + 1) % (usize::MAX as nat + 1)
                &&& row == Some(data[(cursor % data.len()) as int])
            },
            FeederStrategy::Random => {
                &&& next == cursor
                &&& exists|i: int| 0 <= i < data.len() && row == Some(data[i])
            },
        }
    }
}

/// `rand::Rng::gen_range(0..len)` with the thread-local generator: some
/// index below `len`, chosen at random.
#[verifier::external_body]
fn random_index(len: usize) -> (r: usize)
    requires
        len > 0,
    ensures
        r < len,
{
    rand::thread_rng().gen_range(0..len)
}

/// Feeder over the objects of a JSON array.
pub struct JsonFeeder {
    pub data: Vec<DataRow>,
    pub strategy: FeederStrategy,
    /// Calls made since the last reset.
    pub cursor: usize,
    pub headers: Vec<String>,
}

impl JsonFeeder {
    /// The file path and strategy of a JSON feeder configuration.
    pub fn source(config: &FeederConfig) -> (r: Result<(String, FeederStrategy), FeederError>)
        ensures
            match *config {
                FeederConfig::Json { path, strategy, .. } => r matches Ok((p, st)) && p@ == path@
                    && st == strategy,
                _ => r == Err::<(String, FeederStrategy), FeederError>(
                    FeederError::WrongConfig(FeederKind::Json),
                ),
            },
    {
        match config {
            FeederConfig::Json { path, strategy, .. } => Ok((path.clone(), *strategy)),
            _ => Err(FeederError::WrongConfig(FeederKind::Json)),
        }
    }

    /// A feeder over the JSON text `content` of the file `path`, with its
    /// cursor at the start.
    pub fn from_json_text(path: &str, content: &str, strategy: FeederStrategy) -> (r: Result<
        JsonFeeder,
        FeederError,
    >)
        ensures
            match json_array_of(content@) {
                Err(t) => r matches Err(FeederError::JsonSyntax { path: p, detail: d }) && p@
                    == path@ && d@ == t,
                Ok(elems) => json_outcome(elems, r, strategy),
            },
    {
        let elems = match parse_json_array(content) {
            Err(t) => {
                return Err(FeederError::JsonSyntax { path: owned(path), detail: t });
            },
            Ok(v) => v,
        };
        let ghost ev = elements_view(elems@);
        if elems.len() == 0 {
            return Err(FeederError::JsonEmptyArray);
        }
        let mut keys: Vec<String> = Vec::new();
        match &elems[0] {
            None => {
                return Err(FeederError::JsonNotObjects);
            },
            Some(first) => {
                let mut i: usize = 0;
                while i < first.len()
                    invariant
                        i <= first@.len(),
                        texts_view(keys@) == entry_keys(entries_view(first@)).take(i as int),
                    decreases first.len() - i,
                {
                    let ghost before = keys@;
                    keys.push(first[i].0.clone());
                    proof {
                        let ks = entry_keys(entries_view(first@));
                        assert(ks[i as int] == first@[i as int].0@);
                        assert(texts_view(keys@) =~= texts_view(before).push(first@[i as int].0@));
                        assert(ks.take(i + 1) =~= ks.take(i as int).push(ks[i as int]));
                    }
                    i += 1;
                }
                proof {
                    assert(entry_keys(entries_view(first@)).take(first@.len() as int) =~= entry_keys(
                        entries_view(first@),
                    ));
                    assert(ev[0] == Some(entries_view(first@)));
                }
            },
        }
        let headers = sort_texts(keys);
        assert(elems@.len() > 0);
        let mut data: Vec<DataRow> = Vec::new();
        let mut idx: usize = 0;
        while idx < elems.len()
            invariant
                ev == elements_view(elems@),
                json_array_of(content@) == Ok::<
                    Seq<Option<Seq<(Seq<char>, (JsonKind, Seq<char>))>>>,
                    Seq<char>,
                >(ev),
                elems@.len() > 0,
                ev[0] is Some,
                texts_sorted(texts_view(headers@)),
                texts_view(headers@).to_multiset() == entry_keys(ev[0]->0).to_multiset(),
                idx <= elems@.len(),
                first_non_object(ev, 0) == first_non_object(ev, idx as int),
                data@.len() == idx,
                rows_of_objects(rows_view(data@), texts_view(headers@), ev, idx as int),
            decreases elems.len() - idx,
        {
            let row = match &elems[idx] {
                Some(e) => {
                    let row = row_of_object(&headers, e);
                    assert(ev[idx as int] == Some(entries_view(e@)));
                    row
                },
                None => {
                    return Err(FeederError::JsonElementNotObject { index: idx });
                },
            };
            assert(ev[idx as int] is Some);
            assert(row@ == json_row(texts_view(headers@), ev[idx as int]->0));
            let ghost before = data@;
            data.push(row);
            proof {
                let rs = rows_view(data@);
                let hs = texts_view(headers@);
                assert forall|i: int|
                    #![trigger rs[i]]
                    #![trigger ev[i]]
                    0 <= i < idx + 1 implies (ev[i] is Some && rs[i] == json_row(hs, ev[i]->0)) by {
                    if i < idx {
                        assert(data@[i] == before[i]);
                        assert(rows_view(before)[i] == json_row(hs, ev[i]->0));
                    } else {
                        assert(data@[i] == row);
                    }
                }
                assert(rows_of_objects(rs, hs, ev, idx + 1));
            }
            idx += 1;

        }
        Ok(JsonFeeder { data, strategy, cursor: 0, headers })
    }
}

/// The row a call of a JSON feeder hands out and the cursor after it:
/// sequential and cyclic as `json_step` says (the cursor counting calls,
/// wrapping at the top of `usize`); random: the row at the index the random
/// choice `chosen` picked, the cursor left as it was.
pub open spec fn json_picked(
    data: Seq<Map<Seq<char>, Seq<char>>>,
    strategy: FeederStrategy,
    cursor: nat,
    chosen: Option<usize>,
) -> (Option<Map<Seq<char>, Seq<char>>>, nat) {
    if data.len() == 0 {
        (None, cursor)
    } else {
        let next = (cursor + 1) % (usize::MAX as nat + 1);
        match strategy {
            FeederStrategy::Sequential => (
                if cursor < data.len() {
                    Some(data[cursor as int])
                } else {
                    None
                },
                next,
            ),
            FeederStrategy::Cyclic => (Some(data[(cursor % data.len()) as int]), next),
            FeederStrategy::Random => match chosen {
                Some(i) => (Some(data[i as int]), cursor),
                None => (None, cursor),
            },
        }
    }
}

fn json_pick(
    data: &Vec<StringMap>,
    strategy: FeederStrategy,
    cursor: usize,
    chosen: Option<usize>,
) -> (r: (Option<StringMap>, usize))
    requires
        chosen matches Some(i) ==> i < data@.len(),
        strategy == FeederStrategy::Random && data@.len() > 0 ==> chosen is Some,
    ensures
        (match r.0 {
            Some(m) => Some(m@),
            None => None,
        }, r.1 as nat) == json_picked(rows_view(data@), strategy, cursor as nat, chosen),
        json_step(
            rows_view(data@),
            strategy,
            cursor as nat,
            r.1 as nat,
            match r.0 {
                Some(m) => Some(m@),
                None => None,
            },
        ),
{
    let n = data.len();
    if n == 0 {
        return (None, cursor);
    }
    let c = cursor;
    let next = if c == usize::MAX {
        0
    } else {
        c + 1
    };
    proof {
        if c < usize::MAX {
            vstd::arithmetic::div_mod::lemma_small_mod((c + 1) as nat, (usize::MAX + 1) as nat);
        } else {
            vstd::arithmetic::div_mod::lemma_mod_self_0((usize::MAX + 1) as int);
        }
    }
    match strategy {
        FeederStrategy::Sequential => {
            if c >= n {
                (None, next)
            } else {
                (Some(data[c].clone()), next)
            }
        },
        FeederStrategy::Cyclic => (Some(data[c % n].clone()), next),
        FeederStrategy::Random => {
            match chosen {
                Some(i) => {
                    let row = data[i].clone();
                    assert(rows_view(data@)[i as int] == row@);
                    (Some(row), cursor)
                },
                None => (None, cursor),
            }
        },
    }
}

/// A random JSON feeder hands out the row at the very index the random
/// choice picked (so every row can come out), and leaves its cursor where it
/// was.
pub proof fn law_json_random_row_is_the_choice(
    data: Seq<Map<Seq<char>, Seq<char>>>,
    cursor: nat,
    i: usize,
)
    requires
        i < data.len(),
    ensures
        json_picked(data, FeederStrategy::Random, cursor, Some(i)) == (Some(data[i as int]), cursor),
{
}

impl Feeder for JsonFeeder {
    fn next_row(&mut self) -> (r: Option<DataRow>)
        ensures
            json_step(
                rows_view(old(self).data@),
                old(self).strategy,
                old(self).cursor as nat,
                final(self).cursor as nat,
                match r {
                    Some(m) => Some(m@),
                    None => None,
                },
            ),
            final(self).data@ == old(self).data@,
            final(self).strategy == old(self).strategy,
            final(self).headers@ == old(self).headers@,
    {
        let n = self.data.len();
        let chosen = if self.strategy == FeederStrategy::Random && n > 0 {
            Some(random_index(n))
        } else {
            None
        };
        let (row, next) = json_pick(&self.data, self.strategy, self.cursor, chosen);
        self.cursor = next;
        row
    }

    fn get_headers(&self) -> (r: Vec<String>)
        ensures
            r@ == self.headers@,
    {
        self.headers.clone()
    }

    fn reset(&mut self)
        ensures
            final(self).cursor == 0,
            final(self).data@ == old(self).data@,
            final(self).strategy == old(self).strategy,
            final(self).headers@ == old(self).headers@,
    {
        self.cursor = 0;
    }
}

proof fn lemma_json_cursor(
    data: Seq<Map<Seq<char>, Seq<char>>>,
    strategy: FeederStrategy,
    cursors: Seq<nat>,
    rows: Seq<Option<Map<Seq<char>, Seq<char>>>>,
    k: int,
)
    requires
        data.len() > 0,
        strategy != FeederStrategy::Random,
        cursors.len() == rows.len() + 1,
        rows.len() <= usize::MAX,
        cursors[0] == 0,
        forall|j: int|
            0 <= j < rows.len() ==> json_step(
                data,
                strategy,
                #[trigger] cursors[j],
                cursors[j + 1],
                rows[j],
            ),
        0 <= k <= rows.len(),
    ensures
        cursors[k] == k,
    decreases k,
{
    if k > 0 {
        lemma_json_cursor(data, strategy, cursors, rows, k - 1);
        assert(json_step(data, strategy, cursors[k - 1], cursors[k], rows[k - 1]));
        vstd::arithmetic::div_mod::lemma_small_mod(k as nat, (usize::MAX + 1) as nat);
    }
}

/// A cyclic JSON feeder hands out its rows in order and starts over after
/// the last: over consecutive calls from a reset, call `k` (from 0) gives
/// row `k mod n` (for as many calls as the cursor can count).
pub proof fn law_json_cyclic_wraps_around(
    data: Seq<Map<Seq<char>, Seq<char>>>,
    cursors: Seq<nat>,
    rows: Seq<Option<Map<Seq<char>, Seq<char>>>>,
)
    requires
        data.len() > 0,
        cursors.len() == rows.len() + 1,
        rows.len() <= usize::MAX,
        cursors[0] == 0,
        forall|k: int|
            0 <= k < rows.len() ==> json_step(
                data,
                FeederStrategy::Cyclic,
                #[trigger] cursors[k],
                cursors[k + 1],
                rows[k],
            ),
    ensures
        forall|k: int| 0 <= k < rows.len() ==> #[trigger] rows[k] == Some(data[k % (data.len() as int)]),
{
    assert forall|k: int| 0 <= k < rows.len() implies #[trigger] rows[k] == Some(
        data[k % (data.len() as int)],
    ) by {
        lemma_json_cursor(data, FeederStrategy::Cyclic, cursors, rows, k);
        assert(json_step(data, FeederStrategy::Cyclic, cursors[k], cursors[k + 1], rows[k]));
    }
}

/// A sequential JSON feeder hands out each row once, in order, then
/// nothing: call `k` (from 0, after a reset) gives row `k` while there is
/// one, and `None` after.
pub proof fn law_json_sequential_in_order(
    data: Seq<Map<Seq<char>, Seq<char>>>,
    cursors: Seq<nat>,
    rows: Seq<Option<Map<Seq<char>, Seq<char>>>>,
)
    requires
        data.len() > 0,
        cursors.len() == rows.len() + 1,
        rows.len() <= usize::MAX,
        cursors[0] == 0,
        forall|k: int|
            0 <= k < rows.len() ==> json_step(
                data,
                FeederStrategy::Sequential,
                #[trigger] cursors[k],
                cursors[k + 1],
                rows[k],
            ),
    ensures
        forall|k: int|
            0 <= k < rows.len() ==> #[trigger] rows[k] == if k < data.len() {
                Some(data[k])
            } else {
                None
            },
{
    assert forall|k: int| 0 <= k < rows.len() implies #[trigger] rows[k] == if k < data.len() {
        Some(data[k])
    } else {
        None
    } by {
        lemma_json_cursor(data, FeederStrategy::Sequential, cursors, rows, k);
        assert(json_step(data, FeederStrategy::Sequential, cursors[k], cursors[k + 1], rows[k]));
    }
}

} // verus!
