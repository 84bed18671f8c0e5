//! Query strings: `key=value` pairs joined by `&`, and typed values read from
//! them with a default for what is absent or malformed.

use crate::text::{chars_of, same_chars};
use vstd::prelude::*;

verus! {

/// Index of the first `c` in `s`, or the length of `s` where it has none.
pub open spec fn find_char(s: Seq<char>, c: char) -> int
    decreases s.len(),
{
    if s.len() == 0 || s[0] == c {
        0
    } else {
        1 + find_char(s.skip(1), c)
    }
}

/// The pair that one segment of a query string gives: the text before its
/// first `=` as key, the text between that and the next `=` (or the end) as
/// value. A segment without `=` gives none.
pub open spec fn pair_of(segment: Seq<char>) -> Option<(Seq<char>, Seq<char>)> {
    let eq = find_char(segment, '=');
    if eq == segment.len() {
        None
    } else {
        let rest = segment.skip(eq + 1);
        Some((segment.take(eq), rest.take(find_char(rest, '='))))
    }
}

/// The pairs of a query string: those of its segments between `&`, in order.
pub open spec fn pairs_of(query: Seq<char>) -> Seq<(Seq<char>, Seq<char>)>
    decreases query.len(),
{
    let amp = find_char(query, '&');
    let first = match pair_of(query.take(amp)) {
        Some(pair) => seq![pair],
        None => seq![],
    };
    if 0 <= amp < query.len() {
        first + pairs_of(query.skip(amp + 1))
    } else {
        first
    }
}

/// The value that a list of pairs gives to a key: that of the last pair with
/// the key, as in a map that the pairs were inserted into one by one.
pub open spec fn lookup(pairs: Seq<(Seq<char>, Seq<char>)>, key: Seq<char>) -> Option<Seq<char>>
    decreases pairs.len(),
{
    if pairs.len() == 0 {
        None
    } else if pairs.last().0 == key {
        Some(pairs.last().1)
    } else {
        lookup(pairs.drop_last(), key)
    }
}

/// `find_char` finds the first occurrence, and stays inside the sequence.
pub proof fn lemma_find_char(s: Seq<char>, c: char)
    ensures
        0 <= find_char(s, c) <= s.len(),
        find_char(s, c) < s.len() ==> s[find_char(s, c)] == c,
        forall|j: int| 0 <= j < find_char(s, c) ==> s[j] != c,
    decreases s.len(),
{
    if s.len() == 0 || s[0] == c {
    } else {
        lemma_find_char(s.skip(1), c);
        assert forall|j: int| 0 <= j < find_char(s, c) implies s[j] != c by {
            if j > 0 {
                assert(s.skip(1)[j - 1] == s[j]);
            }
        }
    }
}

/// An index with `c` at it, and no `c` before it, is what `find_char` gives.
pub proof fn lemma_find_char_unique(s: Seq<char>, c: char, i: int)
    requires
        0 <= i <= s.len(),
        i < s.len() ==> s[i] == c,
        forall|j: int| 0 <= j < i ==> s[j] != c,
    ensures
        find_char(s, c) == i,
{
    lemma_find_char(s, c);
    let f = find_char(s, c);
    if f < i {
        assert(s[f] == c);
    } else if i < f {
        assert(s[i] == c);
    }
}

/// Finds the first `c` in `s[from..to]`.
fn find_in(s: &[char], from: usize, to: usize, c: char) -> (at: usize)
    requires
        from <= to <= s@.len(),
    ensures
        from <= at <= to,
        at == from + find_char(s@.subrange(from as int, to as int), c),
{
    let ghost part = s@.subrange(from as int, to as int);
    let mut at: usize = from;
    while at < to && s[at] != c
        invariant
            from <= at <= to <= s@.len(),
            part == s@.subrange(from as int, to as int),
            forall|j: int| 0 <= j < at - from ==> part[j] != c,
        decreases to - at,
    {
        at = at + 1;
    }
    proof {
        lemma_find_char_unique(part, c, at - from);
    }
    at
}

/// Copies `s[from..to]`.
fn copy_of(s: &[char], from: usize, to: usize) -> (v: Vec<char>)
    requires
        from <= to <= s@.len(),
    ensures
        v@ == s@.subrange(from as int, to as int),
{
    let mut v: Vec<char> = Vec::new();
    let mut i: usize = from;
    while i < to
        invariant
            from <= i <= to <= s@.len(),
            v@ == s@.subrange(from as int, i as int),
        decreases to - i,
    {
        v.push(s[i]);
        assert(v@ =~= s@.subrange(from as int, i + 1));
        i = i + 1;
    }
    v
}

/// The parameters of a request: its `key=value` pairs in the order in which
/// the query string gave them.
pub struct QueryParams {
    pairs: Vec<(Vec<char>, Vec<char>)>,
}

/// A list of pairs with each text as its sequence of characters.
pub open spec fn texts_of(pairs: Seq<(Vec<char>, Vec<char>)>) -> Seq<(Seq<char>, Seq<char>)> {
    Seq::new(pairs.len(), |i: int| (pairs[i].0@, pairs[i].1@))
}

impl View for QueryParams {
    type V = Seq<(Seq<char>, Seq<char>)>;

    closed spec fn view(&self) -> Seq<(Seq<char>, Seq<char>)> {
        texts_of(self.pairs@)
    }
}

impl QueryParams {
    /// No parameters at all: what a request without a query string has.
    pub fn empty() -> (q: QueryParams)
        ensures
            q@ == Seq::<(Seq<char>, Seq<char>)>::empty(),
    {
        let q = QueryParams { pairs: Vec::new() };
        assert(q@ =~= Seq::<(Seq<char>, Seq<char>)>::empty());
        q
    }

    /// Reads the pairs of a query string.
    pub fn parse(query: &str) -> (q: QueryParams)
        ensures
            q@ == pairs_of(query@),
    {
        let chars = chars_of(query);
        let len = chars.len();
        let mut pairs: Vec<(Vec<char>, Vec<char>)> = Vec::new();
        let mut start: usize = 0;
        let mut done: bool = false;
        proof {
            assert(query@.skip(0) =~= query@);
            assert(texts_of(pairs@) + pairs_of(query@) =~= pairs_of(query@));
        }
        while !done
            invariant
                chars@ == query@,
                len == chars@.len(),
                start <= len,
                !done ==> pairs_of(query@) == texts_of(pairs@) + pairs_of(
                    query@.skip(start as int),
                ),
                done ==> pairs_of(query@) == texts_of(pairs@),
            decreases len - start + (if done { 0int } else { 1int }),
        {
            let ghost tail = query@.skip(start as int);
            let ghost before = texts_of(pairs@);
            assert(tail =~= chars@.subrange(start as int, len as int));
            let end = find_in(chars.as_slice(), start, len, '&');
            let ghost segment = tail.take(end - start);
            assert(segment =~= chars@.subrange(start as int, end as int));
            let eq = find_in(chars.as_slice(), start, end, '=');
            if eq < end {
                let ghost rest = segment.skip(eq - start + 1);
                assert(rest =~= chars@.subrange(eq + 1, end as int));
                let stop = find_in(chars.as_slice(), eq + 1, end, '=');
                let key = copy_of(chars.as_slice(), start, eq);
                let value = copy_of(chars.as_slice(), eq + 1, stop);
                assert(key@ =~= segment.take(eq - start));
                assert(value@ =~= rest.take(stop - eq - 1));
                assert(pair_of(segment) == Some((key@, value@)));
                pairs.push((key, value));
                assert(texts_of(pairs@) =~= before + seq![(key@, value@)]);
            } else {
                assert(pair_of(segment) is None);
                assert(before + Seq::<(Seq<char>, Seq<char>)>::empty() =~= before);
            }
            if end < len {
                assert(tail.skip(end - start + 1) =~= query@.skip(end + 1));
                start = end + 1;
            } else {
                done = true;
            }
        }
        QueryParams { pairs }
    }

    /// The text that the parameters give to `key`, if any.
    pub fn get(&self, key: &[char]) -> (r: Option<&Vec<char>>)
        ensures
            match r {
                Some(text) => lookup(self@, key@) == Some(text@),
                None => lookup(self@, key@) is None,
            },
    {
        let mut i: usize = self.pairs.len();
        assert(self@.take(i as int) =~= self@);
        while i > 0
            invariant
                i <= self.pairs@.len(),
                lookup(self@, key@) == lookup(self@.take(i as int), key@),
            decreases i,
        {
            let ghost part = self@.take(i as int);
            assert(part.last() == self@[i - 1]);
            assert(part.drop_last() =~= self@.take(i - 1));
            i = i - 1;
            if same_chars(self.pairs[i].0.as_slice(), key) {
                return Some(&self.pairs[i].1);
            }
        }
        None
    }
}

/// A type of value that a query parameter can hold.
pub trait QueryValue: Sized {
    /// The value that a text stands for, if it stands for one.
    spec fn parsed(text: Seq<char>) -> Option<Self>;

    /// Reads a value from its text.
    fn parse(text: &[char]) -> (r: Option<Self>)
        ensures
            r == Self::parsed(text@),
    ;
}

/// Whether `c` is one of the ten decimal digits.
pub open spec fn is_digit(c: char) -> bool {
    48 <= c as u32 <= 57
}

/// The number that a decimal digit stands for; zero for any other character.
pub open spec fn digit_value(c: char) -> nat {
    if is_digit(c) {
        (c as u32 - 48) as nat
    } else {
        0
    }
}

/// The number that a run of decimal digits stands for.
pub open spec fn decimal(digits: Seq<char>) -> nat
    decreases digits.len(),
{
    if digits.len() == 0 {
        0
    } else {
        10 * decimal(digits.drop_last()) + digit_value(digits.last())
    }
}

/// A text without the `+` that may lead it.
pub open spec fn unsigned_part(text: Seq<char>) -> Seq<char> {
    if text.len() > 0 && text[0] == '+' {
        text.skip(1)
    } else {
        text
    }
}

/// The `u32` that a text stands for: one or more decimal digits, after an
/// optional `+`, whose number is no more than `u32::MAX`.
pub open spec fn parsed_u32(text: Seq<char>) -> Option<u32> {
    let digits = unsigned_part(text);
    if digits.len() > 0 && (forall|i: int| 0 <= i < digits.len() ==> is_digit(#[trigger] digits[i]))
        && decimal(digits) <= u32::MAX {
        Some(decimal(digits) as u32)
    } else {
        None
    }
}

/// The `bool` that a text stands for: `true` or `false`, spelled so.
pub open spec fn parsed_bool(text: Seq<char>) -> Option<bool> {
    if text == "true"@ {
        Some(true)
    } else if text == "false"@ {
        Some(false)
    } else {
        None
    }
}

/// A run of digits stands for no less than any of its prefixes does.
proof fn lemma_decimal_grows(digits: Seq<char>, n: int)
    requires
        0 <= n <= digits.len(),
    ensures
        decimal(digits.take(n)) <= decimal(digits),
    decreases digits.len() - n,
{
    if n == digits.len() {
        assert(digits.take(n) =~= digits);
    } else {
        lemma_decimal_grows(digits, n + 1);
        let longer = digits.take(n + 1);
        assert(longer.drop_last() =~= digits.take(n));
    }
}

impl QueryValue for u32 {
    open spec fn parsed(text: Seq<char>) -> Option<u32> {
        parsed_u32(text)
    }

    fn parse(text: &[char]) -> (r: Option<u32>) {
        let start: usize = if text.len() > 0 && text[0] == '+' {
            1
        } else {
            0
        };
        let ghost digits = unsigned_part(text@);
        assert(digits =~= text@.subrange(start as int, text@.len() as int));
        if start == text.len() {
            return None;
        }
        let mut value: u64 = 0;
        let mut i: usize = start;
        while i < text.len()
            invariant
                start <= i <= text@.len(),
                digits == unsigned_part(text@),
                digits == text@.subrange(start as int, text@.len() as int),
                forall|j: int| 0 <= j < i - start ==> is_digit(#[trigger] digits[j]),
                value == decimal(digits.take(i - start)),
                value <= u32::MAX,
            decreases text@.len() - i,
        {
            let code: u32 = text[i] as u32;
            if code < 48 || code > 57 {
                assert(!is_digit(digits[i - start]));
                return None;
            }
            let ghost longer = digits.take(i - start + 1);
            assert(longer.drop_last() =~= digits.take(i - start));
            assert(longer.last() == text@[i as int]);
            value = 10 * value + (code - 48) as u64;
            if value > 0xffff_ffff {
                proof {
                    lemma_decimal_grows(digits, i - start + 1);
                }
                return None;
            }
            i = i + 1;
        }
        assert(digits.take(i - start) =~= digits);
        Some(value as u32)
    }
}

impl QueryValue for bool {
    open spec fn parsed(text: Seq<char>) -> Option<bool> {
        parsed_bool(text)
    }

    fn parse(text: &[char]) -> (r: Option<bool>) {
        if same_chars(text, chars_of("true").as_slice()) {
            Some(true)
        } else if same_chars(text, chars_of("false").as_slice()) {
            Some(false)
        } else {
            None
        }
    }
}

/// What a parameter gives: the value that its text stands for, or the default
/// where the key is absent or its text stands for no value.
pub open spec fn param_or<T: QueryValue>(
    pairs: Seq<(Seq<char>, Seq<char>)>,
    key: Seq<char>,
    default: T,
) -> T {
    match lookup(pairs, key) {
        Some(text) => match T::parsed(text) {
            Some(value) => value,
            None => default,
        },
        None => default,
    }
}

/// Reads the parameter `key` as a `T`. A key that is absent and a text that
/// is no `T` both give `default`.
pub fn parse_query_param_or<T: QueryValue>(query: &QueryParams, key: &str, default: T) -> (r: T)
    ensures
        r == param_or(query@, key@, default),
{
    let key_chars = chars_of(key);
    match query.get(key_chars.as_slice()) {
        Some(text) => match T::parse(text.as_slice()) {
            Some(value) => value,
            None => default,
        },
        None => default,
    }
}

} // verus!
