//! Reading `key=value` pairs out of an url-encoded form body, and reading the
//! voltage fields that the web page posts.
use vstd::prelude::*;

verus! {

/// The first index `j` in `from..to` with `s[j] == c`, or `to` where there is none.
pub open spec fn next_in(s: Seq<char>, c: char, from: int, to: int) -> int
    decreases to - from,
{
    if from >= to {
        to
    } else if s[from] == c {
        from
    } else {
        next_in(s, c, from + 1, to)
    }
}

/// `next_in` stays in its window and skips only characters other than `c`.
pub proof fn lemma_next_in(s: Seq<char>, c: char, from: int, to: int)
    requires
        from <= to,
    ensures
        from <= next_in(s, c, from, to) <= to,
        forall|k: int| from <= k < next_in(s, c, from, to) ==> s[k] != c,
        next_in(s, c, from, to) < to ==> s[next_in(s, c, from, to)] == c,
    decreases to - from,
{
    if from < to && s[from] != c {
        lemma_next_in(s, c, from + 1, to);
    }
}

/// The value of the first pair, among the `&`-separated pairs of `s` that start at
/// or after `start`, that holds an `=` and whose text before its first `=` is `key`.
/// The value is the text after that first `=`, up to the next `=` or the end of the pair.
pub open spec fn lookup_from(s: Seq<char>, key: Seq<char>, start: int) -> Option<Seq<char>>
    decreases s.len() - start,
{
    if start < 0 || start > s.len() {
        None
    } else {
        let end = next_in(s, '&', start, s.len() as int);
        let eq = next_in(s, '=', start, end);
        proof {
            lemma_next_in(s, '&', start, s.len() as int);
        }
        if eq < end && s.subrange(start, eq) == key {
            Some(s.subrange(eq + 1, next_in(s, '=', eq + 1, end)))
        } else if end >= s.len() {
            None
        } else {
            lookup_from(s, key, end + 1)
        }
    }
}

/// The value that `key` has in the url-encoded body `request`, if any.
pub open spec fn lookup(request: Seq<char>, key: Seq<char>) -> Option<Seq<char>> {
    lookup_from(request, key, 0)
}

/// `s` with every `.` taken out.
pub open spec fn without_dots(s: Seq<char>) -> Seq<char>
    decreases s.len(),
{
    if s.len() == 0 {
        s
    } else if s.last() == '.' {
        without_dots(s.drop_last())
    } else {
        without_dots(s.drop_last()).push(s.last())
    }
}

pub open spec fn is_decimal_digit(c: char) -> bool {
    '0' as u32 <= c as u32 && c as u32 <= '9' as u32
}

/// The number that a string of decimal digits writes, most significant first.
pub open spec fn decimal_value(d: Seq<char>) -> nat
    decreases d.len(),
{
    if d.len() == 0 {
        0
    } else {
        decimal_value(d.drop_last()) * 10 + (d.last() as u32 - '0' as u32) as nat
    }
}

/// The digits of an unsigned integer: the text after one optional leading `+`.
pub open spec fn unsigned_digits(s: Seq<char>) -> Seq<char> {
    if s.len() > 0 && s[0] == '+' {
        s.drop_first()
    } else {
        s
    }
}

/// The value of `s` read as an unsigned decimal integer no greater than `max`:
/// an optional `+`, then one or more digits `0`-`9` and nothing else.
pub open spec fn parse_unsigned(s: Seq<char>, max: nat) -> Option<nat> {
    let d = unsigned_digits(s);
    if d.len() > 0 && (forall|i: int| 0 <= i < d.len() ==> is_decimal_digit(#[trigger] d[i]))
        && decimal_value(d) <= max {
        Some(decimal_value(d))
    } else {
        None
    }
}

#[verifier::external_type_specification]
#[verifier::external_body]
pub struct ExParseIntError(core::num::ParseIntError);

/// Calls `<u16 as FromStr>::from_str` (`str::parse::<u16>`). Its documentation states
/// that the text must be an optional `+` followed by decimal digits only, and that
/// the value must fit; the contract says that it succeeds exactly then, with that value.
/// Which `ParseIntError` comes back on a failure is left unsaid.
#[verifier::external_body]
fn parse_u16(s: &str) -> (r: Result<u16, core::num::ParseIntError>)
    ensures
        match r {
            Ok(v) => parse_unsigned(s@, 0xffff) == Some(v as nat),
            Err(_) => parse_unsigned(s@, 0xffff) is None,
        },
{
    s.parse::<u16>()
}

/// Calls `<u8 as FromStr>::from_str` (`str::parse::<u8>`), with the same claim as
/// `parse_u16` for the range of `u8`. Which error comes back is left unsaid.
#[verifier::external_body]
pub(crate) fn parse_u8(s: &str) -> (r: Result<u8, core::num::ParseIntError>)
    ensures
        match r {
            Ok(v) => parse_unsigned(s@, 0xff) == Some(v as nat),
            Err(_) => parse_unsigned(s@, 0xff) is None,
        },
{
    s.parse::<u8>()
}

/// The first index in `from..to` where `s` holds `c`, or `to`.
fn find_char(s: &str, c: char, from: usize, to: usize) -> (j: usize)
    requires
        from <= to <= s@.len(),
    ensures
        j == next_in(s@, c, from as int, to as int),
{
    let mut j = from;
    while j < to
        invariant
            from <= j <= to <= s@.len(),
            next_in(s@, c, from as int, to as int) == next_in(s@, c, j as int, to as int),
        decreases to - j,
    {
        if s.get_char(j) == c {
            return j;
        }
        j = j + 1;
    }
    j
}

/// Whether the characters `from..to` of `s` are exactly `key`.
fn segment_equals(s: &str, from: usize, to: usize, key: &str) -> (b: bool)
    requires
        from <= to <= s@.len(),
    ensures
        b == (s@.subrange(from as int, to as int) == key@),
{
    let n = key.unicode_len();
    if to - from != n {
        return false;
    }
    let mut i: usize = 0;
    while i < n
        invariant
            n == key@.len(),
            to - from == n,
            from <= to <= s@.len(),
            i <= n,
            forall|k: int| 0 <= k < i ==> s@[from + k] == key@[k],
        decreases n - i,
    {
        if s.get_char(from + i) != key.get_char(i) {
            assert(s@.subrange(from as int, to as int)[i as int] != key@[i as int]);
            return false;
        }
        i = i + 1;
    }
    assert(s@.subrange(from as int, to as int) =~= key@);
    true
}

/// Looks `key` up in the url-encoded form body `request` (`a=1&b=2`): the body is
/// split at every `&`, each piece at its `=`, and the value of the first piece whose
/// name is `key` comes back. A piece without `=` has no value and is passed over.
pub fn read_request(request: &str, key: &str) -> (r: Result<String, &'static str>)
    ensures
        match r {
            Ok(v) => lookup(request@, key@) == Some(v@),
            Err(e) => lookup(request@, key@) is None && e@ == "did not find key"@,
        },
{
    let n = request.unicode_len();
    let mut start: usize = 0;
    loop
        invariant
            n == request@.len(),
            start <= n,
            lookup(request@, key@) == lookup_from(request@, key@, start as int),
        decreases n - start,
    {
        proof {
            lemma_next_in(request@, '&', start as int, n as int);
        }
        let end = find_char(request, '&', start, n);
        proof {
            lemma_next_in(request@, '=', start as int, end as int);
        }
        let eq = find_char(request, '=', start, end);
        if eq < end && segment_equals(request, start, eq, key) {
            proof {
                lemma_next_in(request@, '=', eq + 1, end as int);
            }
            let stop = find_char(request, '=', eq + 1, end);
            let value = request.substring_char(eq + 1, stop);
            return Ok(value.to_owned());
        }
        if end >= n {
            return Err("did not find key");
        }
        start = end + 1;
    }
}

/// `s` with every `.` taken out.
fn remove_dots(s: &str) -> (r: String)
    ensures
        r@ == without_dots(s@),
{
    let n = s.unicode_len();
    let mut out = String::new();
    let mut i: usize = 0;
    assert(s@.take(0) =~= Seq::<char>::empty());
    while i < n
        invariant
            n == s@.len(),
            i <= n,
            out@ == without_dots(s@.take(i as int)),
        decreases n - i,
    {
        let c = s.get_char(i);
        assert(s@.take(i + 1).drop_last() =~= s@.take(i as int));
        if c != '.' {
            let piece = s.substring_char(i, i + 1);
            assert(piece@ =~= seq![c]);
            out.append(piece);
        }
        i = i + 1;
    }
    assert(s@.take(n as int) =~= s@);
    out
}

/// Reads a voltage typed as a decimal such as `3.7`: the dots are dropped and the
/// digits that remain are read as a `u16` (`3.7` gives 37).
pub fn parse_v(v_str: &str) -> (r: Result<u16, core::num::ParseIntError>)
    ensures
        match r {
            Ok(v) => parse_unsigned(without_dots(v_str@), 0xffff) == Some(v as nat),
            Err(_) => parse_unsigned(without_dots(v_str@), 0xffff) is None,
        },
{
    let removed = remove_dots(v_str);
    parse_u16(removed.as_str())
}


/// `next_in` on `a + b`, in a window inside `b`, is `next_in` on `b`, shifted by `a`'s length.
proof fn lemma_next_in_shift(a: Seq<char>, b: Seq<char>, c: char, from: int, to: int)
    requires
        0 <= from <= to <= b.len(),
    ensures
        next_in(a + b, c, a.len() + from, a.len() + to) == a.len() + next_in(b, c, from, to),
    decreases to - from,
{
    if from < to {
        assert((a + b)[a.len() + from] == b[from]);
        lemma_next_in_shift(a, b, c, from + 1, to);
    }
}

/// `lookup_from` on `a + b`, from a start inside `b`, is `lookup_from` on `b`.
proof fn lemma_lookup_shift(a: Seq<char>, b: Seq<char>, key: Seq<char>, start: int)
    requires
        0 <= start <= b.len(),
    ensures
        lookup_from(a + b, key, a.len() + start) == lookup_from(b, key, start),
    decreases b.len() - start,
{
    let s = a + b;
    let n = a.len();
    lemma_next_in_shift(a, b, '&', start, b.len() as int);
    lemma_next_in(b, '&', start, b.len() as int);
    let end = next_in(b, '&', start, b.len() as int);
    lemma_next_in_shift(a, b, '=', start, end);
    lemma_next_in(b, '=', start, end);
    let eq = next_in(b, '=', start, end);
    assert(s.subrange(n + start, n + eq) =~= b.subrange(start, eq));
    if eq < end {
        lemma_next_in_shift(a, b, '=', eq + 1, end);
        lemma_next_in(b, '=', eq + 1, end);
        let stop = next_in(b, '=', eq + 1, end);
        assert(s.subrange(n + eq + 1, n + stop) =~= b.subrange(eq + 1, stop));
    }
    if !(eq < end && b.subrange(start, eq) == key) && end < b.len() {
        lemma_lookup_shift(a, b, key, end + 1);
    }
}

/// A body that is the single pair `key=value`, where neither side holds `&` or `=`,
/// gives back `value` for `key`.
pub proof fn law_single_pair_read_back(key: Seq<char>, value: Seq<char>)
    requires
        !key.contains('&'),
        !key.contains('='),
        !value.contains('&'),
        !value.contains('='),
    ensures
        lookup(key + seq!['='] + value, key) == Some(value),
{
    let s = key + seq!['='] + value;
    let n = s.len() as int;
    let k = key.len() as int;
    assert forall|i: int| 0 <= i < n implies s[i] != '&' by {
        if i < k {
            assert(s[i] == key[i]);
        } else if i > k {
            assert(s[i] == value[i - k - 1]);
        }
    }
    lemma_no_char(s, '&', 0, n);
    assert forall|i: int| 0 <= i < k implies s[i] != '=' by {
        assert(s[i] == key[i]);
    }
    lemma_next_in(s, '=', 0, n);
    lemma_first_char_at(s, '=', 0, k, n);
    assert forall|i: int| k + 1 <= i < n implies s[i] != '=' by {
        assert(s[i] == value[i - k - 1]);
    }
    lemma_no_char(s, '=', k + 1, n);
    assert(s.subrange(0, k) =~= key);
    assert(s.subrange(k + 1, n) =~= value);
}

/// Where no character in `from..to` is `c`, `next_in` runs to `to`.
proof fn lemma_no_char(s: Seq<char>, c: char, from: int, to: int)
    requires
        from <= to,
        forall|i: int| from <= i < to ==> s[i] != c,
    ensures
        next_in(s, c, from, to) == to,
    decreases to - from,
{
    if from < to {
        lemma_no_char(s, c, from + 1, to);
    }
}

/// Where `at` is the first place in `from..to` that holds `c`, `next_in` finds it.
proof fn lemma_first_char_at(s: Seq<char>, c: char, from: int, at: int, to: int)
    requires
        from <= at < to,
        s[at] == c,
        forall|i: int| from <= i < at ==> s[i] != c,
    ensures
        next_in(s, c, from, to) == at,
    decreases at - from,
{
    if from < at {
        lemma_first_char_at(s, c, from + 1, at, to);
    }
}

/// A pair that holds no `&` and does not name `key` is passed over: looking `key`
/// up in `pair&rest` gives what looking it up in `rest` gives.
pub proof fn law_other_pair_passed_over(pair: Seq<char>, rest: Seq<char>, key: Seq<char>)
    requires
        !pair.contains('&'),
        !(pair.contains('=') && pair.subrange(0, next_in(pair, '=', 0, pair.len() as int)) == key),
    ensures
        lookup(pair + seq!['&'] + rest, key) == lookup(rest, key),
{
    let head = pair + seq!['&'];
    let s = head + rest;
    let p = pair.len() as int;
    assert(s =~= pair + seq!['&'] + rest);
    assert forall|i: int| 0 <= i < p implies s[i] != '&' by {
        assert(s[i] == pair[i]);
        assert(pair.contains(pair[i]));
    }
    lemma_first_char_at(s, '&', 0, p, s.len() as int);
    assert(pair =~= s.subrange(0, p));
    lemma_next_in_prefix(s, pair, '=', 0, p);
    lemma_next_in(pair, '=', 0, p);
    let eq = next_in(pair, '=', 0, p);
    if eq < p {
        assert(pair.contains('='));
        assert(s.subrange(0, eq) =~= pair.subrange(0, eq));
    }
    lemma_lookup_shift(head, rest, key, 0);
}

/// Inside a window that lies in a prefix, `next_in` on the whole is `next_in` on the prefix.
proof fn lemma_next_in_prefix(s: Seq<char>, prefix: Seq<char>, c: char, from: int, to: int)
    requires
        0 <= from <= to <= prefix.len() <= s.len(),
        prefix == s.subrange(0, prefix.len() as int),
    ensures
        next_in(s, c, from, to) == next_in(prefix, c, from, to),
    decreases to - from,
{
    if from < to {
        assert(prefix[from] == s[from]);
        lemma_next_in_prefix(s, prefix, c, from + 1, to);
    }
}

/// The first pair that names `key` decides: what follows it is not read.
pub proof fn law_first_pair_wins(pair: Seq<char>, rest: Seq<char>, key: Seq<char>)
    requires
        !pair.contains('&'),
        pair.contains('='),
        pair.subrange(0, next_in(pair, '=', 0, pair.len() as int)) == key,
    ensures
        lookup(pair + seq!['&'] + rest, key) == lookup(pair, key),
{
    let s = pair + seq!['&'] + rest;
    let p = pair.len() as int;
    assert forall|i: int| 0 <= i < p implies s[i] != '&' by {
        assert(s[i] == pair[i]);
        assert(pair.contains(pair[i]));
    }
    lemma_first_char_at(s, '&', 0, p, s.len() as int);
    assert forall|i: int| 0 <= i < p implies pair[i] != '&' by {
        assert(pair.contains(pair[i]));
    }
    lemma_no_char(pair, '&', 0, p);
    assert(pair =~= s.subrange(0, p));
    lemma_next_in_prefix(s, pair, '=', 0, p);
    lemma_next_in(pair, '=', 0, p);
    let eq = next_in(pair, '=', 0, p);
    if eq == p {
        let w = choose|i: int| 0 <= i < p && pair[i] == '=';
        assert(false);
    }
    lemma_next_in_prefix(s, pair, '=', eq + 1, p);
    assert(s.subrange(0, eq) =~= pair.subrange(0, eq));
    lemma_next_in(pair, '=', eq + 1, p);
    let stop = next_in(pair, '=', eq + 1, p);
    assert(s.subrange(eq + 1, stop) =~= pair.subrange(eq + 1, stop));
}

/// Taking the dots out of two pieces one after the other is taking them out of the whole.
pub proof fn lemma_without_dots_concat(a: Seq<char>, b: Seq<char>)
    ensures
        without_dots(a + b) == without_dots(a) + without_dots(b),
    decreases b.len(),
{
    if b.len() == 0 {
        assert(a + b =~= a);
        assert(without_dots(a) + without_dots(b) =~= without_dots(a));
    } else {
        assert((a + b).drop_last() =~= a + b.drop_last());
        lemma_without_dots_concat(a, b.drop_last());
        if b.last() != '.' {
            assert(without_dots(a) + without_dots(b.drop_last()).push(b.last()) =~= (without_dots(a)
                + without_dots(b.drop_last())).push(b.last()));
        }
    }
}

/// A dot anywhere in a voltage is ignored: `parse_v` reads `a.b` as it reads `ab`.
pub proof fn law_dot_is_ignored(a: Seq<char>, b: Seq<char>)
    ensures
        without_dots(a + seq!['.'] + b) == without_dots(a + b),
{
    lemma_without_dots_concat(a + seq!['.'], b);
    lemma_without_dots_concat(a, seq!['.']);
    lemma_without_dots_concat(a, b);
    assert(seq!['.'].drop_last() =~= Seq::<char>::empty());
    assert(seq!['.'].last() == '.');
    assert(without_dots(Seq::<char>::empty()) =~= Seq::<char>::empty());
    assert(without_dots(seq!['.']) =~= Seq::<char>::empty());
    assert(without_dots(a) + Seq::<char>::empty() =~= without_dots(a));
}

/// Taking the dots out keeps every other character: a single character other than
/// `.` stays, and a single `.` goes.
pub proof fn law_only_dots_go(c: char)
    ensures
        c != '.' ==> without_dots(seq![c]) == seq![c],
        without_dots(seq!['.']) == Seq::<char>::empty(),
{
    assert(seq![c].drop_last() =~= Seq::<char>::empty());
    assert(seq!['.'].drop_last() =~= Seq::<char>::empty());
    assert(seq![c].last() == c);
    assert(seq!['.'].last() == '.');
    assert(without_dots(Seq::<char>::empty()).push(c) =~= seq![c]);
}

/// Appending a digit to a number multiplies it by ten and adds the digit, as long
/// as the result stays in range; a leading `+` changes nothing, and nothing
/// without a digit reads.
pub proof fn law_digits_read_in_decimal(d: Seq<char>, c: char, max: nat)
    requires
        d.len() > 0,
        d[0] != '+',
        parse_unsigned(d, max) is Some,
        '0' as u32 <= c as u32 <= '9' as u32,
        parse_unsigned(d, max)->0 * 10 + (c as u32 - '0' as u32) <= max,
    ensures
        parse_unsigned(d.push(c), max) == Some(parse_unsigned(d, max)->0 * 10 + (c as u32 - '0' as u32) as nat),
        parse_unsigned(seq!['+'] + d, max) == parse_unsigned(d, max),
        parse_unsigned(Seq::<char>::empty(), max) is None,
{
    let e = d.push(c);
    assert(e[0] == d[0]);
    assert(unsigned_digits(e) == e);
    assert(e.drop_last() =~= d);
    assert forall|i: int| 0 <= i < e.len() implies is_decimal_digit(#[trigger] e[i]) by {
        if i < d.len() {
            assert(e[i] == d[i]);
            assert(is_decimal_digit(d[i]));
        }
    }
    assert((seq!['+'] + d).drop_first() =~= d);
}

} // verus!
