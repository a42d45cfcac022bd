//! Scanning and slicing of text, stated over sequences of characters.

use vstd::prelude::*;
use vstd::string::*;
use vstd::utf8::*;

verus! {

/// The index of the first character of `s` that equals `a` or `b`, if any.
pub open spec fn first_of(s: Seq<char>, a: char, b: char) -> Option<int>
    decreases s.len(),
{
    if s.len() == 0 {
        None
    } else if s[0] == a || s[0] == b {
        Some(0)
    } else {
        match first_of(s.drop_first(), a, b) {
            Some(i) => Some(i + 1),
            None => None,
        }
    }
}

/// `first_of` finds an index exactly when `a` or `b` occurs, and then the
/// smallest such index.
pub proof fn lemma_first_of(s: Seq<char>, a: char, b: char)
    ensures
        match first_of(s, a, b) {
            Some(i) => {
                &&& 0 <= i < s.len()
                &&& (s[i] == a || s[i] == b)
                &&& forall|j: int| 0 <= j < i ==> s[j] != a && s[j] != b
            },
            None => forall|j: int| 0 <= j < s.len() ==> s[j] != a && s[j] != b,
        },
    decreases s.len(),
{
    if s.len() != 0 && !(s[0] == a || s[0] == b) {
        let t = s.drop_first();
        lemma_first_of(t, a, b);
        match first_of(t, a, b) {
            Some(i) => {
                assert forall|j: int| 0 <= j < i + 1 implies s[j] != a && s[j] != b by {
                    if j > 0 {
                        assert(s[j] == t[j - 1]);
                    }
                }
            },
            None => {
                assert forall|j: int| 0 <= j < s.len() implies s[j] != a && s[j] != b by {
                    if j > 0 {
                        assert(s[j] == t[j - 1]);
                    }
                }
            },
        }
    }
}

/// An index that holds `a` or `b`, with neither of them before it, is the one
/// that `first_of` finds.
pub proof fn lemma_first_of_is(s: Seq<char>, a: char, b: char, i: int)
    requires
        0 <= i < s.len(),
        s[i] == a || s[i] == b,
        forall|j: int| 0 <= j < i ==> s[j] != a && s[j] != b,
    ensures
        first_of(s, a, b) == Some(i),
{
    lemma_first_of(s, a, b);
}

/// A text that holds neither `a` nor `b` has no first occurrence of them.
pub proof fn lemma_first_of_absent(s: Seq<char>, a: char, b: char)
    requires
        forall|j: int| 0 <= j < s.len() ==> s[j] != a && s[j] != b,
    ensures
        first_of(s, a, b) is None,
{
    lemma_first_of(s, a, b);
}

/// The text before the first `a` or `b` in `s`, and the text after that
/// character; `None` where `s` holds neither.
pub open spec fn cut(s: Seq<char>, a: char, b: char) -> Option<(Seq<char>, Seq<char>)> {
    match first_of(s, a, b) {
        Some(i) => Some((s.take(i), s.skip(i + 1))),
        None => None,
    }
}

/// The two parts of a cut, with the character between them, make up the text
/// again; the first part holds neither `a` nor `b`.
pub proof fn lemma_cut(s: Seq<char>, a: char, b: char)
    ensures
        match cut(s, a, b) {
            Some((head, tail)) => {
                &&& head.len() + 1 + tail.len() == s.len()
                &&& (s[head.len() as int] == a || s[head.len() as int] == b)
                &&& s == head.push(s[head.len() as int]) + tail
                &&& forall|j: int| 0 <= j < head.len() ==> head[j] != a && head[j] != b
            },
            None => forall|j: int| 0 <= j < s.len() ==> s[j] != a && s[j] != b,
        },
{
    lemma_first_of(s, a, b);
    match cut(s, a, b) {
        Some((head, tail)) => {
            assert(s =~= head.push(s[head.len() as int]) + tail);
        },
        None => {},
    }
}

/// Whether `c` occurs nowhere in `s`.
pub open spec fn free_of(s: Seq<char>, c: char) -> bool {
    forall|j: int| 0 <= j < s.len() ==> s[j] != c
}

/// A text that begins with a part free of `a` and `b`, followed by one of
/// the two, is cut into that part and what follows the character.
pub proof fn lemma_cut_joined(head: Seq<char>, c: char, tail: Seq<char>, a: char, b: char)
    requires
        c == a || c == b,
        free_of(head, a),
        free_of(head, b),
    ensures
        cut(head.push(c) + tail, a, b) == Some((head, tail)),
{
    let s = head.push(c) + tail;
    let i = head.len() as int;
    assert(s[i] == c);
    assert forall|j: int| 0 <= j < i implies s[j] != a && s[j] != b by {
        assert(s[j] == head[j]);
    }
    lemma_first_of_is(s, a, b, i);
    assert(s.take(i) =~= head);
    assert(s.skip(i + 1) =~= tail);
}

/// How many characters of `s` equal `a` or `b`.
pub open spec fn count_of(s: Seq<char>, a: char, b: char) -> nat
    decreases s.len(),
{
    if s.len() == 0 {
        0
    } else if s.last() == a || s.last() == b {
        count_of(s.drop_last(), a, b) + 1
    } else {
        count_of(s.drop_last(), a, b)
    }
}

/// The count of a text made of two parts is the sum of their counts.
pub proof fn lemma_count_of_parts(x: Seq<char>, y: Seq<char>, a: char, b: char)
    ensures
        count_of(x + y, a, b) == count_of(x, a, b) + count_of(y, a, b),
    decreases y.len(),
{
    if y.len() == 0 {
        assert(x + y =~= x);
    } else {
        assert((x + y).drop_last() =~= x + y.drop_last());
        lemma_count_of_parts(x, y.drop_last(), a, b);
    }
}

/// A text counts no `a` or `b` exactly if it holds neither.
pub proof fn lemma_count_of_none(s: Seq<char>, a: char, b: char)
    ensures
        count_of(s, a, b) == 0 <==> free_of(s, a) && free_of(s, b),
    decreases s.len(),
{
    if s.len() > 0 {
        let init = s.drop_last();
        lemma_count_of_none(init, a, b);
        if free_of(s, a) && free_of(s, b) {
            assert forall|j: int| 0 <= j < init.len() implies init[j] != a && init[j] != b by {
                assert(init[j] == s[j]);
            }
        }
        if count_of(s, a, b) == 0 {
            assert forall|j: int| 0 <= j < s.len() implies s[j] != a && s[j] != b by {
                if j < init.len() {
                    assert(init[j] == s[j]);
                }
            }
        }
    }
}

/// A text can be cut exactly if it counts an `a` or `b`, and what follows
/// the cut counts one less.
pub proof fn lemma_count_of_cut(s: Seq<char>, a: char, b: char)
    ensures
        match cut(s, a, b) {
            Some((_, tail)) => count_of(s, a, b) == 1 + count_of(tail, a, b),
            None => count_of(s, a, b) == 0,
        },
{
    lemma_cut(s, a, b);
    lemma_count_of_none(s, a, b);
    match cut(s, a, b) {
        Some((head, tail)) => {
            let c = s[head.len() as int];
            lemma_count_of_parts(head.push(c), tail, a, b);
            lemma_count_of_none(head, a, b);
            assert(head.push(c).drop_last() =~= head);
        },
        None => {},
    }
}

/// The pieces of `s` between the occurrences of `sep`, in order. A text
/// without `sep` is one piece, also where it is empty.
pub open spec fn split(s: Seq<char>, sep: char) -> Seq<Seq<char>>
    decreases s.len(),
    via split_decreases
{
    match cut(s, sep, sep) {
        Some((head, tail)) => seq![head] + split(tail, sep),
        None => seq![s],
    }
}

#[via_fn]
proof fn split_decreases(s: Seq<char>, sep: char) {
    lemma_cut(s, sep, sep);
}

/// The pieces in one text, with `sep` between each two of them.
pub open spec fn join(pieces: Seq<Seq<char>>, sep: char) -> Seq<char>
    decreases pieces.len(),
{
    if pieces.len() == 0 {
        Seq::empty()
    } else if pieces.len() == 1 {
        pieces[0]
    } else {
        pieces[0].push(sep) + join(pieces.drop_first(), sep)
    }
}

/// Splitting undoes joining: pieces that hold no separator, joined and
/// split again, are the same pieces.
pub proof fn lemma_split_join(pieces: Seq<Seq<char>>, sep: char)
    requires
        pieces.len() > 0,
        forall|i: int| 0 <= i < pieces.len() ==> free_of(#[trigger] pieces[i], sep),
    ensures
        split(join(pieces, sep), sep) == pieces,
    decreases pieces.len(),
{
    if pieces.len() == 1 {
        lemma_first_of_absent(pieces[0], sep, sep);
        assert(seq![pieces[0]] =~= pieces);
    } else {
        let rest = pieces.drop_first();
        assert forall|i: int| 0 <= i < rest.len() implies free_of(#[trigger] rest[i], sep) by {
            assert(rest[i] == pieces[i + 1]);
        }
        lemma_split_join(rest, sep);
        lemma_cut_joined(pieces[0], sep, join(rest, sep), sep, sep);
        assert(seq![pieces[0]] + rest =~= pieces);
    }
}

/// Joining undoes splitting: the pieces of a text, joined, are the text. The
/// pieces are never none, and none of them holds the separator.
pub proof fn lemma_join_split(s: Seq<char>, sep: char)
    ensures
        join(split(s, sep), sep) == s,
        split(s, sep).len() > 0,
        forall|i: int| 0 <= i < split(s, sep).len() ==> free_of(#[trigger] split(s, sep)[i], sep),
    decreases s.len(),
{
    lemma_cut(s, sep, sep);
    match cut(s, sep, sep) {
        Some((head, tail)) => {
            lemma_join_split(tail, sep);
            let pieces = seq![head] + split(tail, sep);
            assert(pieces.drop_first() =~= split(tail, sep));
            assert(pieces[0] == head);
            assert forall|i: int| 0 <= i < pieces.len() implies free_of(
                #[trigger] pieces[i],
                sep,
            ) by {
                if i > 0 {
                    assert(pieces[i] == split(tail, sep)[i - 1]);
                }
            }
        },
        None => {},
    }
}

/// Cuts `s` at its first character that equals `a` or `b`.
pub fn cut_str<'a>(s: &'a str, a: char, b: char) -> (r: Option<(&'a str, &'a str)>)
    ensures
        match r {
            Some((head, tail)) => cut(s@, a, b) == Some((head@, tail@)),
            None => cut(s@, a, b) is None,
        },
{
    let n: usize = s.unicode_len();
    let mut i: usize = 0;
    for c in it: s.chars()
        invariant
            n == s@.len(),
            it.seq() == s@,
            i == it.index(),
            forall|j: int| 0 <= j < i ==> s@[j] != a && s@[j] != b,
    {
        if c == a || c == b {
            proof {
                lemma_first_of_is(s@, a, b, i as int);
            }
            let head = s.substring_char(0, i);
            let tail = s.substring_char(i + 1, n);
            return Some((head, tail));
        }
        i += 1;
    }
    proof {
        lemma_first_of_absent(s@, a, b);
    }
    None
}

/// Whether `s` begins with `prefix`.
pub fn starts_with(s: &str, prefix: &str) -> (r: bool)
    ensures
        r == prefix@.is_prefix_of(s@),
{
    let n: usize = prefix.unicode_len();
    if n > s.unicode_len() {
        return false;
    }
    same_text(s.substring_char(0, n), prefix)
}

/// The character that stands for a decimal digit.
pub open spec fn digit(d: nat) -> char
    recommends
        d < 10,
{
    if d == 0 {
        '0'
    } else if d == 1 {
        '1'
    } else if d == 2 {
        '2'
    } else if d == 3 {
        '3'
    } else if d == 4 {
        '4'
    } else if d == 5 {
        '5'
    } else if d == 6 {
        '6'
    } else if d == 7 {
        '7'
    } else if d == 8 {
        '8'
    } else {
        '9'
    }
}

/// A number in decimal notation, without leading zeros.
pub open spec fn decimal(n: nat) -> Seq<char>
    decreases n,
{
    if n < 10 {
        seq![digit(n)]
    } else {
        decimal(n / 10).push(digit(n % 10))
    }
}

/// The text of one decimal digit.
fn digit_str(d: u16) -> (r: &'static str)
    requires
        d < 10,
    ensures
        r@ == seq![digit(d as nat)],
{
    proof {
        reveal_strlit("0");
        reveal_strlit("1");
        reveal_strlit("2");
        reveal_strlit("3");
        reveal_strlit("4");
        reveal_strlit("5");
        reveal_strlit("6");
        reveal_strlit("7");
        reveal_strlit("8");
        reveal_strlit("9");
    }
    let r = if d == 0 {
        "0"
    } else if d == 1 {
        "1"
    } else if d == 2 {
        "2"
    } else if d == 3 {
        "3"
    } else if d == 4 {
        "4"
    } else if d == 5 {
        "5"
    } else if d == 6 {
        "6"
    } else if d == 7 {
        "7"
    } else if d == 8 {
        "8"
    } else {
        "9"
    };
    assert(r@ =~= seq![digit(d as nat)]);
    r
}

/// Writes a number in decimal notation.
pub fn decimal_string(n: u16) -> (r: String)
    ensures
        r@ == decimal(n as nat),
    decreases n,
{
    if n < 10 {
        String::from_str(digit_str(n))
    } else {
        let mut r = decimal_string(n / 10);
        r.append(digit_str(n % 10));
        assert(r@ =~= decimal(n as nat / 10).push(digit(n as nat % 10)));
        r
    }
}

/// Whether two texts hold the same characters.
pub fn same_text(a: &str, b: &str) -> (r: bool)
    ensures
        r == (a@ == b@),
{
    let x = a.as_bytes();
    let y = b.as_bytes();
    if x.len() != y.len() {
        return false;
    }
    let mut i: usize = 0;
    while i < x.len()
        invariant
            x@ == a.spec_bytes(),
            y@ == b.spec_bytes(),
            x@.len() == y@.len(),
            i <= x@.len(),
            forall|j: int| 0 <= j < i ==> x@[j] == y@[j],
        decreases x@.len() - i,
    {
        if x[i] != y[i] {
            return false;
        }
        i += 1;
    }
    proof {
        assert(x@ =~= y@);
        encode_utf8_decode_utf8(a@);
        encode_utf8_decode_utf8(b@);
    }
    true
}

} // verus!
