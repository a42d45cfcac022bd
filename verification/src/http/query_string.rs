//! The query component of a request target: `a=1&b=2&c&d=&e===&d=7&d=abc`.
//!
//! The text is split on `&`; each piece is split on its first `=` into a key
//! and a value. A key that occurs once maps to a single value, a key that
//! occurs more often to the list of its values in the order of the text.

use super::text::{
    cut, cut_str, free_of, join, lemma_cut, lemma_cut_joined, lemma_split_join, split,
};
use vstd::hash_map::StringHashMap;
use vstd::prelude::*;
use vstd::std_specs::convert::FromSpecImpl;
use vstd::string::*;

verus! {

/// What a key of a query string maps to.
#[derive(Debug, PartialEq, Eq)]
pub enum Value<'buf> {
    Single(&'buf str),
    Multiple(Vec<&'buf str>),
}

/// The text held by a `Value`.
pub enum ValueText {
    Single(Seq<char>),
    Multiple(Seq<Seq<char>>),
}

/// The texts of a list of string slices.
pub open spec fn texts_of(values: Seq<&str>) -> Seq<Seq<char>> {
    values.map_values(|s: &str| s@)
}

impl<'buf> View for Value<'buf> {
    type V = ValueText;

    open spec fn view(&self) -> ValueText {
        match self {
            Value::Single(value) => ValueText::Single(value@),
            Value::Multiple(values) => ValueText::Multiple(texts_of(values@)),
        }
    }
}

/// The key of a piece: the text before its first `=`, or all of it.
pub open spec fn piece_key(piece: Seq<char>) -> Seq<char> {
    match cut(piece, '=', '=') {
        Some((key, _)) => key,
        None => piece,
    }
}

/// The value of a piece: the text after its first `=`, or the empty text.
pub open spec fn piece_value(piece: Seq<char>) -> Seq<char> {
    match cut(piece, '=', '=') {
        Some((_, value)) => value,
        None => Seq::empty(),
    }
}

/// The pieces whose key is `key`.
pub open spec fn has_key(key: Seq<char>) -> spec_fn(Seq<char>) -> bool {
    |piece: Seq<char>| piece_key(piece) == key
}

/// The values that the pieces give to `key`, in the order of the pieces.
pub open spec fn values_of(pieces: Seq<Seq<char>>, key: Seq<char>) -> Seq<Seq<char>> {
    pieces.filter(has_key(key)).map_values(|piece: Seq<char>| piece_value(piece))
}

/// The values of one key as a `Value`: one value stands alone, several
/// form a list.
pub open spec fn value_of(values: Seq<Seq<char>>) -> ValueText {
    if values.len() == 1 {
        ValueText::Single(values[0])
    } else {
        ValueText::Multiple(values)
    }
}

/// The mapping that a sequence of pieces stands for: the keys are those of
/// the pieces, and each key maps to all the values it was given.
pub open spec fn tally(pieces: Seq<Seq<char>>) -> Map<Seq<char>, ValueText> {
    Map::new(
        |key: Seq<char>| values_of(pieces, key).len() > 0,
        |key: Seq<char>| value_of(values_of(pieces, key)),
    )
}

/// The mapping that a query string stands for.
pub open spec fn query_map(s: Seq<char>) -> Map<Seq<char>, ValueText> {
    tally(split(s, '&'))
}

/// The mapping after one more occurrence of `key` with `value`: a new key
/// gets a single value, a single value becomes a list of two, and a list
/// grows at its end.
pub open spec fn record(map: Map<Seq<char>, ValueText>, key: Seq<char>, value: Seq<char>) -> Map<
    Seq<char>,
    ValueText,
> {
    if !map.contains_key(key) {
        map.insert(key, ValueText::Single(value))
    } else {
        match map[key] {
            ValueText::Single(first) => map.insert(key, ValueText::Multiple(seq![first, value])),
            ValueText::Multiple(values) => map.insert(key, ValueText::Multiple(values.push(value))),
        }
    }
}

/// One more piece adds its value to those of its key and to no other key's.
pub proof fn lemma_values_of_push(pieces: Seq<Seq<char>>, piece: Seq<char>, key: Seq<char>)
    ensures
        values_of(pieces.push(piece), key) == if piece_key(piece) == key {
            values_of(pieces, key).push(piece_value(piece))
        } else {
            values_of(pieces, key)
        },
{
    pieces.lemma_filter_push(piece, has_key(key));
    if piece_key(piece) == key {
        pieces.filter(has_key(key)).lemma_push_map_commute(
            |piece: Seq<char>| piece_value(piece),
            piece,
        );
    }
}

/// Reading the pieces one by one, each recorded into the mapping of those
/// before it, gives the mapping of them all.
pub proof fn lemma_tally_push(pieces: Seq<Seq<char>>, piece: Seq<char>)
    ensures
        tally(pieces.push(piece)) == record(tally(pieces), piece_key(piece), piece_value(piece)),
{
    let key = piece_key(piece);
    let value = piece_value(piece);
    let before = tally(pieces);
    let after = tally(pieces.push(piece));
    let expected = record(before, key, value);
    assert forall|k: Seq<char>| after.contains_key(k) == expected.contains_key(k) by {
        lemma_values_of_push(pieces, piece, k);
    }
    assert forall|k: Seq<char>| after.contains_key(k) implies after[k] == expected[k] by {
        lemma_values_of_push(pieces, piece, k);
        if k == key {
            let old_values = values_of(pieces, key);
            if old_values.len() == 1 {
                assert(old_values.push(value) =~= seq![old_values[0], value]);
            }
        }
    }
    assert(after =~= expected);
}

/// No pieces give the empty mapping.
pub proof fn lemma_tally_empty()
    ensures
        tally(Seq::empty()) == Map::<Seq<char>, ValueText>::empty(),
{
    reveal(Seq::filter);
    assert(tally(Seq::empty()) =~= Map::<Seq<char>, ValueText>::empty());
}

/// The decoded query component of a request target.
pub struct QueryString<'buf> {
    data: StringHashMap<Value<'buf>>,
}

/// The mapping held by the entries of a query string, as text.
pub open spec fn texts<'buf>(data: Map<Seq<char>, Value<'buf>>) -> Map<Seq<char>, ValueText> {
    Map::new(|key: Seq<char>| data.contains_key(key), |key: Seq<char>| data[key]@)
}

impl<'buf> View for QueryString<'buf> {
    type V = Map<Seq<char>, ValueText>;

    closed spec fn view(&self) -> Map<Seq<char>, ValueText> {
        texts(self.data@)
    }
}

impl<'buf> QueryString<'buf> {
    /// A key never maps to a list of fewer than two values.
    #[verifier::type_invariant]
    spec fn well_formed(self) -> bool {
        forall|key: Seq<char>| #[trigger]
            self.data@.contains_key(key) ==> listed_twice(self.data@[key]@)
    }

    /// The value of `key`; `None` where the query string does not hold the
    /// key, which differs from a key with an empty value.
    pub fn get(&self, key: &str) -> (r: Option<&Value<'buf>>)
        ensures
            match r {
                Some(value) => self@.contains_key(key@) && value@ == self@[key@],
                None => !self@.contains_key(key@),
            },
            r matches Some(value) ==> listed_twice(value@),
    {
        proof {
            use_type_invariant(self);
        }
        self.data.get(key)
    }
}

/// Whether a value that is a list holds at least two values.
pub open spec fn listed_twice(value: ValueText) -> bool {
    value matches ValueText::Multiple(values) ==> values.len() >= 2
}

/// The values of a list, copied.
fn copy_of<'buf>(values: &Vec<&'buf str>) -> (r: Vec<&'buf str>)
    ensures
        r@ == values@,
{
    let mut r: Vec<&'buf str> = Vec::new();
    let mut i: usize = 0;
    while i < values.len()
        invariant
            i <= values.len(),
            r@ == values@.take(i as int),
        decreases values.len() - i,
    {
        r.push(values[i]);
        assert(values@.take(i + 1) =~= values@.take(i as int).push(values@[i as int]));
        i += 1;
    }
    assert(values@.take(values.len() as int) =~= values@);
    r
}

/// Records one piece of a query string in the entries read so far.
fn record_piece<'buf>(data: &mut StringHashMap<Value<'buf>>, piece: &'buf str)
    ensures
        texts(final(data)@) == record(texts(old(data)@), piece_key(piece@), piece_value(piece@)),
{
    let (key, value): (&'buf str, &'buf str) = match cut_str(piece, '=', '=') {
        Some((key, value)) => (key, value),
        None => {
            proof {
                reveal_strlit("");
            }
            assert(""@ =~= Seq::<char>::empty());
            (piece, "")
        },
    };
    let entry = match data.get(key) {
        None => Value::Single(value),
        Some(Value::Single(first)) => {
            let mut values: Vec<&'buf str> = Vec::new();
            values.push(*first);
            values.push(value);
            assert(texts_of(values@) =~= seq![first@, value@]);
            Value::Multiple(values)
        },
        Some(Value::Multiple(earlier)) => {
            let mut values = copy_of(earlier);
            values.push(value);
            assert(texts_of(values@) =~= texts_of(earlier@).push(value@));
            Value::Multiple(values)
        },
    };
    data.insert(key.to_owned(), entry);
    assert(texts(data@) =~= record(texts(old(data)@), piece_key(piece@), piece_value(piece@)));
}

impl<'buf> From<&'buf str> for QueryString<'buf> {
    /// Decodes a query string. Every text is one: a piece without `=` is a
    /// key with an empty value, and the empty text holds the one empty key.
    fn from(s: &'buf str) -> (r: Self)
        ensures
            r@ == query_map(s@),
    {
        let mut data: StringHashMap<Value<'buf>> = StringHashMap::new();
        let mut rest: &'buf str = s;
        let ghost mut done: Seq<Seq<char>> = Seq::empty();
        proof {
            lemma_tally_empty();
            assert(texts(data@) =~= tally(done));
            assert(done + split(rest@, '&') =~= split(s@, '&'));
        }
        loop
            invariant_except_break
                split(s@, '&') == done + split(rest@, '&'),
                texts(data@) == tally(done),
            ensures
                texts(data@) == query_map(s@),
            decreases rest@.len(),
        {
            proof {
                lemma_cut(rest@, '&', '&');
            }
            match cut_str(rest, '&', '&') {
                Some((piece, tail)) => {
                    record_piece(&mut data, piece);
                    proof {
                        lemma_tally_push(done, piece@);
                        assert(done.push(piece@) + split(tail@, '&') =~= done + split(
                            rest@,
                            '&',
                        ));
                        done = done.push(piece@);
                    }
                    rest = tail;
                },
                None => {
                    record_piece(&mut data, rest);
                    proof {
                        lemma_tally_push(done, rest@);
                        assert(done.push(rest@) =~= done + split(rest@, '&'));
                    }
                    break ;
                },
            }
        }
        proof {
            lemma_query_map_well_formed(s@);
            assert forall|key: Seq<char>| #[trigger] data@.contains_key(key) implies listed_twice(
                data@[key]@,
            ) by {
                assert(texts(data@).contains_key(key));
                assert(texts(data@)[key] == data@[key]@);
            }
        }
        QueryString { data }
    }
}

/// What `from` gives is stated by its own `ensures`, over the view;
/// `from_spec` says nothing of it.
impl<'buf> FromSpecImpl<&'buf str> for QueryString<'buf> {
    open spec fn obeys_from_spec() -> bool {
        false
    }

    open spec fn from_spec(s: &'buf str) -> Self {
        arbitrary()
    }
}

/// In the mapping of a query string no key maps to a list of fewer than two
/// values: a key with one value maps to it alone.
pub proof fn lemma_query_map_well_formed(s: Seq<char>)
    ensures
        forall|key: Seq<char>| #[trigger]
            query_map(s).contains_key(key) ==> listed_twice(query_map(s)[key]),
{
}

/// The piece `key=value`.
pub open spec fn piece_of(pair: (Seq<char>, Seq<char>)) -> Seq<char> {
    pair.0.push('=') + pair.1
}

/// The query string `k1=v1&k2=v2&...` of a sequence of keys with values.
pub open spec fn query_of(pairs: Seq<(Seq<char>, Seq<char>)>) -> Seq<char> {
    join(pairs.map_values(|pair: (Seq<char>, Seq<char>)| piece_of(pair)), '&')
}

/// The pairs whose key is `key`.
pub open spec fn keyed(key: Seq<char>) -> spec_fn((Seq<char>, Seq<char>)) -> bool {
    |pair: (Seq<char>, Seq<char>)| pair.0 == key
}

/// The values that go with `key` in a sequence of pairs, in their order.
pub open spec fn given(pairs: Seq<(Seq<char>, Seq<char>)>, key: Seq<char>) -> Seq<Seq<char>> {
    pairs.filter(keyed(key)).map_values(|pair: (Seq<char>, Seq<char>)| pair.1)
}

/// Pairs that a query string can hold: no key holds `=` or `&`, no value
/// holds `&`. A value may hold `=`.
pub open spec fn writable(pairs: Seq<(Seq<char>, Seq<char>)>) -> bool {
    forall|i: int|
        0 <= i < pairs.len() ==> {
            &&& free_of((#[trigger] pairs[i]).0, '=')
            &&& free_of(pairs[i].0, '&')
            &&& free_of(pairs[i].1, '&')
        }
}

/// A piece `key=value` is read as that key with that value, whatever `=`
/// the value holds: only the first `=` of a piece parts key and value.
pub proof fn lemma_piece_of(key: Seq<char>, value: Seq<char>)
    requires
        free_of(key, '='),
    ensures
        piece_key(piece_of((key, value))) == key,
        piece_value(piece_of((key, value))) == value,
{
    lemma_cut_joined(key, '=', value, '=', '=');
}

/// The values that the pieces of some pairs give to a key are those that go
/// with the key in the pairs.
pub proof fn lemma_values_of_pieces(pairs: Seq<(Seq<char>, Seq<char>)>, key: Seq<char>)
    requires
        writable(pairs),
    ensures
        values_of(pairs.map_values(|pair: (Seq<char>, Seq<char>)| piece_of(pair)), key) == given(
            pairs,
            key,
        ),
    decreases pairs.len(),
{
    let to_piece = |pair: (Seq<char>, Seq<char>)| piece_of(pair);
    let to_value = |pair: (Seq<char>, Seq<char>)| pair.1;
    if pairs.len() == 0 {
        reveal(Seq::filter);
        assert(pairs.map_values(to_piece) =~= Seq::<Seq<char>>::empty());
        assert(values_of(Seq::<Seq<char>>::empty(), key) =~= Seq::<Seq<char>>::empty());
        assert(given(pairs, key) =~= Seq::<Seq<char>>::empty());
    } else {
        let init = pairs.drop_last();
        let last = pairs.last();
        assert(pairs =~= init.push(last));
        assert(writable(init)) by {
            assert forall|i: int| 0 <= i < init.len() implies {
                &&& free_of((#[trigger] init[i]).0, '=')
                &&& free_of(init[i].0, '&')
                &&& free_of(init[i].1, '&')
            } by {
                assert(init[i] == pairs[i]);
            }
        }
        lemma_values_of_pieces(init, key);
        init.lemma_push_map_commute(to_piece, last);
        lemma_values_of_push(init.map_values(to_piece), piece_of(last), key);
        lemma_piece_of(last.0, last.1);
        init.lemma_filter_push(last, keyed(key));
        if last.0 == key {
            init.filter(keyed(key)).lemma_push_map_commute(to_value, last);
        }
    }
}

/// Decoding the query string written from some pairs finds the keys of the
/// pairs and no others, each with the values that go with it in the pairs:
/// one value alone, several as a list in the order of the pairs.
pub proof fn lemma_query_of_pairs(pairs: Seq<(Seq<char>, Seq<char>)>, key: Seq<char>)
    requires
        pairs.len() > 0,
        writable(pairs),
    ensures
        query_map(query_of(pairs)).contains_key(key) <==> given(pairs, key).len() > 0,
        given(pairs, key).len() > 0 ==> query_map(query_of(pairs))[key] == value_of(
            given(pairs, key),
        ),
{
    let pieces = pairs.map_values(|pair: (Seq<char>, Seq<char>)| piece_of(pair));
    assert forall|i: int| 0 <= i < pieces.len() implies free_of(#[trigger] pieces[i], '&') by {
        let piece = pieces[i];
        let (k, v) = pairs[i];
        assert forall|j: int| 0 <= j < piece.len() implies piece[j] != '&' by {
            if j < k.len() {
                assert(piece[j] == k[j]);
            } else if j > k.len() {
                assert(piece[j] == v[j - k.len() - 1]);
            }
        }
    }
    lemma_split_join(pieces, '&');
    lemma_values_of_pieces(pairs, key);
}

/// A key that no pair holds goes with no value.
pub proof fn lemma_given_absent(pairs: Seq<(Seq<char>, Seq<char>)>, key: Seq<char>)
    requires
        forall|i: int| 0 <= i < pairs.len() ==> (#[trigger] pairs[i]).0 != key,
    ensures
        given(pairs, key).len() == 0,
    decreases pairs.len(),
{
    reveal(Seq::filter);
    if pairs.len() > 0 {
        let init = pairs.drop_last();
        assert forall|i: int| 0 <= i < init.len() implies (#[trigger] init[i]).0 != key by {
            assert(init[i] == pairs[i]);
        }
        lemma_given_absent(init, key);
    }
}

/// A key that exactly one pair holds goes with that pair's value.
pub proof fn lemma_given_once(pairs: Seq<(Seq<char>, Seq<char>)>, i: int)
    requires
        0 <= i < pairs.len(),
        forall|j: int| 0 <= j < pairs.len() && j != i ==> (#[trigger] pairs[j]).0 != pairs[i].0,
    ensures
        given(pairs, pairs[i].0) == seq![pairs[i].1],
    decreases pairs.len(),
{
    let key = pairs[i].0;
    let init = pairs.drop_last();
    let last = pairs.last();
    assert(pairs =~= init.push(last));
    init.lemma_filter_push(last, keyed(key));
    if i == pairs.len() - 1 {
        assert forall|j: int| 0 <= j < init.len() implies (#[trigger] init[j]).0 != key by {
            assert(init[j] == pairs[j]);
        }
        lemma_given_absent(init, key);
        assert(init.filter(keyed(key)) =~= Seq::<(Seq<char>, Seq<char>)>::empty());
        assert(given(pairs, key) =~= seq![pairs[i].1]);
    } else {
        assert(init[i] == pairs[i]);
        assert forall|j: int| 0 <= j < init.len() && j != i implies (#[trigger] init[j]).0
            != init[i].0 by {
            assert(init[j] == pairs[j]);
        }
        lemma_given_once(init, i);
    }
}

/// Looking up, in a decoded `k1=v1&k2=v2&...`, a key that the text holds
/// once gives its value, alone.
pub proof fn lemma_lookup_once(pairs: Seq<(Seq<char>, Seq<char>)>, i: int)
    requires
        writable(pairs),
        0 <= i < pairs.len(),
        forall|j: int| 0 <= j < pairs.len() && j != i ==> (#[trigger] pairs[j]).0 != pairs[i].0,
    ensures
        query_map(query_of(pairs)).contains_key(pairs[i].0),
        query_map(query_of(pairs))[pairs[i].0] == ValueText::Single(pairs[i].1),
{
    lemma_given_once(pairs, i);
    lemma_query_of_pairs(pairs, pairs[i].0);
}

/// Looking up, in a decoded `k1=v1&k2=v2&...`, a key that the text does not
/// hold finds nothing.
pub proof fn lemma_lookup_absent(pairs: Seq<(Seq<char>, Seq<char>)>, key: Seq<char>)
    requires
        pairs.len() > 0,
        writable(pairs),
        forall|i: int| 0 <= i < pairs.len() ==> (#[trigger] pairs[i]).0 != key,
    ensures
        !query_map(query_of(pairs)).contains_key(key),
{
    lemma_given_absent(pairs, key);
    lemma_query_of_pairs(pairs, key);
}

/// Looking up, in a decoded `k1=v1&k2=v2&...`, a key that the text holds
/// more than once gives the list of its values, in the order of the text.
pub proof fn lemma_lookup_repeated(pairs: Seq<(Seq<char>, Seq<char>)>, key: Seq<char>)
    requires
        writable(pairs),
        given(pairs, key).len() >= 2,
    ensures
        query_map(query_of(pairs)).contains_key(key),
        query_map(query_of(pairs))[key] == ValueText::Multiple(given(pairs, key)),
{
    if pairs.len() == 0 {
        reveal(Seq::filter);
    } else {
        lemma_query_of_pairs(pairs, key);
    }
}

} // verus!
