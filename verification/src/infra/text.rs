//! Text helpers: characters of a string, string equality, decimal numbers,
//! and the two UTF-8 decodings std provides.

use vstd::prelude::*;
use vstd::string::StrSliceExecFns;
use vstd::string::StringExecFns;

verus! {

/// The characters of `s`, in order.
pub fn chars_of(s: &str) -> (r: Vec<char>)
    ensures
        r@ == s@,
{
    let n = s.unicode_len();
    let mut r: Vec<char> = Vec::new();
    let mut i: usize = 0;
    while i < n
        invariant
            n == s@.len(),
            i <= n,
            r@ =~= s@.take(i as int),
        decreases n - i,
    {
        r.push(s.get_char(i));
        i = i + 1;
    }
    assert(s@.take(n as int) =~= s@);
    r
}

/// `a` and `b` hold the same characters.
pub fn str_eq(a: &str, b: &str) -> (r: bool)
    ensures
        r == (a@ == b@),
{
    let ca = chars_of(a);
    let cb = chars_of(b);
    if ca.len() != cb.len() {
        return false;
    }
    let mut i: usize = 0;
    while i < ca.len()
        invariant
            ca@ == a@,
            cb@ == b@,
            ca@.len() == cb@.len(),
            i <= ca@.len(),
            forall|j: int| 0 <= j < i ==> ca@[j] == cb@[j],
        decreases ca@.len() - i,
    {
        if ca[i] != cb[i] {
            return false;
        }
        i = i + 1;
    }
    assert(ca@ =~= cb@);
    true
}

/// The ASCII lower-case form of a byte, as `u8::to_ascii_lowercase` gives it.
pub open spec fn lower_byte(b: u8) -> u8 {
    if 0x41 <= b <= 0x5A { (b + 32) as u8 } else { b }
}

/// The ASCII lower-case form of a character, as `char::to_ascii_lowercase` gives it.
pub open spec fn lower_char(c: char) -> char {
    if 'A' <= c <= 'Z' { ((c as u32) + 32) as char } else { c }
}

/// ASCII lower-casing of one byte.
pub fn to_lower_byte(b: u8) -> (r: u8)
    ensures
        r == lower_byte(b),
{
    if 0x41 <= b && b <= 0x5A { b + 32 } else { b }
}

/// ASCII lower-casing of one character.
pub fn to_lower_char(c: char) -> (r: char)
    ensures
        r == lower_char(c),
{
    if 'A' <= c && c <= 'Z' {
        ((c as u8) + 32) as char
    } else {
        c
    }
}

/// The ASCII lower-case form of every character of `s`.
pub open spec fn lower_chars(s: Seq<char>) -> Seq<char> {
    s.map_values(|c: char| lower_char(c))
}

/// `s` starts with `p`.
pub open spec fn starts_with_chars(s: Seq<char>, p: Seq<char>) -> bool {
    s.len() >= p.len() && s.subrange(0, p.len() as int) == p
}

/// `s` ends with `p`.
pub open spec fn ends_with_chars(s: Seq<char>, p: Seq<char>) -> bool {
    s.len() >= p.len() && s.subrange(s.len() - p.len(), s.len() as int) == p
}

/// The first index at or after `i` where `p` occurs in `s`.
pub open spec fn find_chars_from(s: Seq<char>, p: Seq<char>, i: int) -> Option<int>
    decreases s.len() + 1 - i,
{
    if i < 0 || i + p.len() > s.len() {
        None
    } else if s.subrange(i, i + p.len()) == p {
        Some(i)
    } else {
        find_chars_from(s, p, i + 1)
    }
}

/// A found occurrence lies inside `s`, at or after `i`.
pub proof fn lemma_find_chars_bounds(s: Seq<char>, p: Seq<char>, i: int)
    ensures
        find_chars_from(s, p, i) matches Some(k) ==> i <= k && k + p.len() <= s.len(),
    decreases s.len() + 1 - i,
{
    if !(i < 0 || i + p.len() > s.len()) && s.subrange(i, i + p.len()) != p {
        lemma_find_chars_bounds(s, p, i + 1);
    }
}

/// The ASCII lower-case form of every character of `s`, as `str::to_ascii_lowercase` gives it.
pub fn ascii_lowercase(s: &str) -> (r: Vec<char>)
    ensures
        r@ == lower_chars(s@),
{
    let cs = chars_of(s);
    let mut r: Vec<char> = Vec::new();
    let mut i: usize = 0;
    while i < cs.len()
        invariant
            cs@ == s@,
            i <= cs@.len(),
            r@ =~= lower_chars(s@).take(i as int),
        decreases cs@.len() - i,
    {
        r.push(to_lower_char(cs[i]));
        i = i + 1;
    }
    assert(lower_chars(s@).take(i as int) =~= lower_chars(s@));
    r
}

/// `s[at..at + p.len()] == p`.
fn chars_match_at(s: &Vec<char>, at: usize, p: &Vec<char>) -> (r: bool)
    requires
        at + p@.len() <= s@.len(),
    ensures
        r == (s@.subrange(at as int, at + p@.len()) == p@),
{
    let mut k: usize = 0;
    while k < p.len()
        invariant
            at + p@.len() <= s@.len(),
            s@.len() == s.len(),
            p@.len() == p.len(),
            k <= p@.len(),
            forall|j: int| 0 <= j < k ==> s@[at + j] == p@[j],
        decreases p@.len() - k,
    {
        if s[at + k] != p[k] {
            assert(s@.subrange(at as int, at + p@.len())[k as int] != p@[k as int]);
            return false;
        }
        k = k + 1;
    }
    assert(s@.subrange(at as int, at + p@.len()) =~= p@);
    true
}

/// `s` starts with `p`.
pub fn starts_with(s: &Vec<char>, p: &Vec<char>) -> (r: bool)
    ensures
        r == starts_with_chars(s@, p@),
{
    if s.len() < p.len() {
        return false;
    }
    chars_match_at(s, 0, p)
}

/// `s` ends with `p`.
pub fn ends_with(s: &Vec<char>, p: &Vec<char>) -> (r: bool)
    ensures
        r == ends_with_chars(s@, p@),
{
    if s.len() < p.len() {
        return false;
    }
    chars_match_at(s, s.len() - p.len(), p)
}

/// The first index where `p` occurs in `s`.
pub fn find_chars(s: &Vec<char>, p: &Vec<char>) -> (r: Option<usize>)
    ensures
        match r {
            Some(i) => find_chars_from(s@, p@, 0) == Some(i as int),
            None => find_chars_from(s@, p@, 0) is None,
        },
{
    if p.len() > s.len() {
        return None;
    }
    let last = s.len() - p.len();
    let mut i: usize = 0;
    while i <= last
        invariant
            last + p@.len() == s@.len(),
            find_chars_from(s@, p@, 0) == find_chars_from(s@, p@, i as int),
        decreases last + 1 - i,
    {
        if chars_match_at(s, i, p) {
            return Some(i);
        }
        if i == last {
            assert(find_chars_from(s@, p@, i + 1) is None);
            return None;
        }
        i = i + 1;
    }
    None
}

/// `p` occurs in `s`.
pub open spec fn contains_chars(s: Seq<char>, p: Seq<char>) -> bool {
    find_chars_from(s, p, 0) is Some
}

/// `p` occurs in `s`, as `str::contains` answers.
pub fn str_contains(s: &str, p: &str) -> (r: bool)
    ensures
        r == contains_chars(s@, p@),
{
    let cs = chars_of(s);
    let cp = chars_of(p);
    find_chars(&cs, &cp).is_some()
}

/// The concatenation of `a` and `b`.
pub fn concat2(a: &str, b: &str) -> (r: String)
    ensures
        r@ == a@ + b@,
{
    let mut s = String::from_str(a);
    s.append(b);
    s
}

/// The concatenation of `a`, `b` and `c`.
pub fn concat3(a: &str, b: &str, c: &str) -> (r: String)
    ensures
        r@ == a@ + b@ + c@,
{
    let mut s = String::from_str(a);
    s.append(b);
    s.append(c);
    s
}

/// The decimal digit character for `d < 10`.
pub open spec fn digit_char(d: int) -> char {
    (('0' as u32) + d) as char
}

/// The decimal representation of `n`, without leading zeros.
pub open spec fn spec_decimal(n: nat) -> Seq<char>
    decreases n,
{
    if n < 10 { seq![digit_char(n as int)] } else { spec_decimal(n / 10) + seq![digit_char((n % 10) as int)] }
}

/// The one-character string of decimal digit `d`.
fn digit_str(d: u32) -> (r: &'static str)
    requires
        d < 10,
    ensures
        r@ == seq![digit_char(d as int)],
{
    proof {
        reveal_strlit("0");
        reveal_strlit("1");
        reveal_strlit("2");
        reveal_strlit("3");
        reveal_strlit("4");
        reveal_strlit("5");
        reveal_strlit("6");
        reveal_strlit("7");
        reveal_strlit("8");
        reveal_strlit("9");
    }
    let r = if d == 0 {
        "0"
    } else if d == 1 {
        "1"
    } else if d == 2 {
        "2"
    } else if d == 3 {
        "3"
    } else if d == 4 {
        "4"
    } else if d == 5 {
        "5"
    } else if d == 6 {
        "6"
    } else if d == 7 {
        "7"
    } else if d == 8 {
        "8"
    } else {
        "9"
    };
    assert(r@ =~= seq![digit_char(d as int)]);
    r
}

/// Appends the decimal representation of `n` to `s`.
pub fn push_decimal(s: &mut String, n: u64)
    ensures
        final(s)@ == old(s)@ + spec_decimal(n as nat),
    decreases n,
{
    if n >= 10 {
        push_decimal(s, n / 10);
    }
    let d = digit_str((n % 10) as u32);
    s.append(d);
    assert(spec_decimal(n as nat) == if n < 10 { seq![digit_char(n as int)] } else {
        spec_decimal((n / 10) as nat) + seq![digit_char((n % 10) as int)]
    });
}

/// What `String::from_utf8_lossy` gives for `bytes`: invalid sequences
/// replaced by U+FFFD.
pub uninterp spec fn utf8_lossy(bytes: Seq<u8>) -> Seq<char>;

/// `bytes` is well-formed UTF-8.
pub uninterp spec fn is_utf8(bytes: Seq<u8>) -> bool;

/// The uppercase hexadecimal digit `d` (0 to 15).
pub open spec fn hex_char(d: int) -> char {
    if d < 10 { digit_char(d) } else { (('A' as u32) + (d - 10)) as char }
}

/// The uppercase hexadecimal representation of `n`, without leading zeros.
pub open spec fn spec_hex(n: nat) -> Seq<char>
    decreases n,
{
    if n < 16 { seq![hex_char(n as int)] } else { spec_hex(n / 16) + seq![hex_char((n % 16) as int)] }
}

fn hex_digit_str(d: u64) -> (r: &'static str)
    requires
        d < 16,
    ensures
        r@ == seq![hex_char(d as int)],
{
    if d < 10 {
        return digit_str(d as u32);
    }
    proof {
        reveal_strlit("A");
        reveal_strlit("B");
        reveal_strlit("C");
        reveal_strlit("D");
        reveal_strlit("E");
        reveal_strlit("F");
    }
    let r = if d == 10 {
        "A"
    } else if d == 11 {
        "B"
    } else if d == 12 {
        "C"
    } else if d == 13 {
        "D"
    } else if d == 14 {
        "E"
    } else {
        "F"
    };
    assert(r@ =~= seq![hex_char(d as int)]);
    r
}

/// Appends the uppercase hexadecimal representation of `n`.
pub fn push_hex(s: &mut String, n: u64)
    ensures
        final(s)@ == old(s)@ + spec_hex(n as nat),
    decreases n,
{
    if n >= 16 {
        push_hex(s, n / 16);
    }
    s.append(hex_digit_str(n % 16));
}

/// Calls `char::to_string`.
///
/// Trusted: the string holds just that character, as std documents.
#[verifier::external_body]
pub(crate) fn char_string(c: char) -> (r: String)
    ensures
        r@ == seq![c],
{
    c.to_string()
}

/// Calls `String::from_utf8_lossy` and takes the result as an owned string.
///
/// Trusted: the result is what std's lossy decoding gives for these bytes,
/// which is named here and not stated further.
#[verifier::external_body]
pub(crate) fn lossy_utf8(bytes: &[u8]) -> (r: String)
    ensures
        r@ == utf8_lossy(bytes@),
{
    String::from_utf8_lossy(bytes).into_owned()
}

/// Calls `std::str::from_utf8` and reports whether it succeeded.
///
/// Trusted: the answer is std's UTF-8 validation of these bytes, named here.
#[verifier::external_body]
pub(crate) fn utf8_valid(bytes: &[u8]) -> (r: bool)
    ensures
        r == is_utf8(bytes@),
{
    std::str::from_utf8(bytes).is_ok()
}

/// An ASCII decimal digit.
pub open spec fn is_digit(c: char) -> bool {
    '0' <= c && c <= '9'
}

/// The value of a string of decimal digits.
pub open spec fn digits_value(d: Seq<char>) -> nat
    decreases d.len(),
{
    if d.len() == 0 {
        0
    } else {
        digits_value(d.drop_last()) * 10 + ((d.last() as u32) - ('0' as u32)) as nat
    }
}

/// The value of `d` when it is a non-empty string of decimal digits that fits in `u64`.
pub open spec fn spec_parse_digits(d: Seq<char>) -> Option<u64> {
    if d.len() == 0 || !(forall|i: int| 0 <= i < d.len() ==> is_digit(#[trigger] d[i])) {
        None
    } else if digits_value(d) > u64::MAX {
        None
    } else {
        Some(digits_value(d) as u64)
    }
}

/// `p` without one leading `+`.
pub open spec fn unsigned_part(p: Seq<char>) -> Seq<char> {
    if p.len() > 0 && p[0] == '+' { p.drop_first() } else { p }
}

/// What `u64::from_str` accepts: an optional `+` and at least one decimal
/// digit, of a value that fits in `u64`.
pub open spec fn spec_parse_u64(p: Seq<char>) -> Option<u64> {
    spec_parse_digits(unsigned_part(p))
}

/// A string of digits is worth at least any of its prefixes.
proof fn lemma_digits_value_mono(s: Seq<char>, k: int)
    requires
        0 <= k <= s.len(),
        forall|i: int| 0 <= i < s.len() ==> is_digit(#[trigger] s[i]),
    ensures
        digits_value(s) >= digits_value(s.take(k)),
    decreases s.len(),
{
    if k < s.len() {
        lemma_digits_value_mono(s.drop_last(), k);
        assert(s.drop_last().take(k) =~= s.take(k));
    } else {
        assert(s.take(k) =~= s);
    }
}

/// Parses one piece as `u64::from_str` does.
pub fn parse_u64_chars(p: &Vec<char>) -> (r: Option<u64>)
    ensures
        r == spec_parse_u64(p@),
{
    let start: usize = if p.len() > 0 && p[0] == '+' { 1 } else { 0 };
    let ghost d = unsigned_part(p@);
    assert(d =~= p@.subrange(start as int, p@.len() as int));
    if start >= p.len() {
        return None;
    }
    let mut v: u64 = 0;
    let mut i = start;
    while i < p.len()
        invariant
            start <= i <= p@.len(),
            d == unsigned_part(p@),
            d =~= p@.subrange(start as int, p@.len() as int),
            forall|j: int| start <= j < i ==> is_digit(#[trigger] p@[j]),
            v as nat == digits_value(p@.subrange(start as int, i as int)),
        decreases p@.len() - i,
    {
        let c = p[i];
        if !('0' <= c && c <= '9') {
            assert(d[i - start] == c);
            assert(!is_digit(d[i - start]));
            assert(!(forall|j: int| 0 <= j < d.len() ==> is_digit(#[trigger] d[j])));
            assert(spec_parse_digits(d) is None);
            return None;
        }
        let digit = (c as u32 - '0' as u32) as u64;
        assert(p@.subrange(start as int, i + 1).drop_last() =~= p@.subrange(start as int, i as int));
        if v > (u64::MAX - digit) / 10 {
            proof {
                assert(digits_value(p@.subrange(start as int, i + 1)) == v * 10 + digit);
                assert(v * 10 + digit > u64::MAX) by (nonlinear_arith)
                    requires
                        v > (u64::MAX - digit) / 10,
                        digit <= 9,
                ;
                if forall|j: int| 0 <= j < d.len() ==> is_digit(#[trigger] d[j]) {
                    lemma_digits_value_mono(d, i + 1 - start);
                    assert(d.take(i + 1 - start) =~= p@.subrange(start as int, i + 1));
                    assert(digits_value(d) > u64::MAX);
                }
                assert(spec_parse_digits(d) is None);
            }
            return None;
        }
        assert(v * 10 + digit <= u64::MAX) by (nonlinear_arith)
            requires
                v <= (u64::MAX - digit) / 10,
                digit <= 9,
        ;
        v = v * 10 + digit;
        i = i + 1;
    }
    assert(p@.subrange(start as int, i as int) =~= d);
    Some(v)
}

/// `s` cut at every `c`: the pieces between the separators, always at least one.
pub open spec fn split_on(s: Seq<char>, c: char) -> Seq<Seq<char>>
    decreases s.len(),
{
    if s.len() == 0 {
        seq![Seq::empty()]
    } else {
        let rest = split_on(s.drop_last(), c);
        if s.last() == c {
            rest.push(Seq::empty())
        } else {
            rest.update(rest.len() - 1, rest.last().push(s.last()))
        }
    }
}

/// There is always at least one piece.
pub proof fn lemma_split_nonempty(s: Seq<char>, c: char)
    ensures
        split_on(s, c).len() >= 1,
    decreases s.len(),
{
    if s.len() > 0 {
        lemma_split_nonempty(s.drop_last(), c);
    }
}

/// The pieces as character sequences.
pub open spec fn pieces_view(v: Seq<Vec<char>>) -> Seq<Seq<char>> {
    v.map_values(|p: Vec<char>| p@)
}

/// Cuts `s` at every `c`, as `str::split` with a character does.
pub fn split_chars(s: &Vec<char>, c: char) -> (r: Vec<Vec<char>>)
    ensures
        pieces_view(r@) == split_on(s@, c),
{
    let mut pieces: Vec<Vec<char>> = Vec::new();
    let mut cur: Vec<char> = Vec::new();
    let mut i: usize = 0;
    assert(s@.take(0) =~= Seq::<char>::empty());
    while i < s.len()
        invariant
            i <= s@.len(),
            pieces_view(pieces@).push(cur@) == split_on(s@.take(i as int), c),
        decreases s@.len() - i,
    {
        let ghost before = pieces_view(pieces@).push(cur@);
        proof {
            lemma_split_nonempty(s@.take(i as int), c);
            assert(s@.take(i + 1).drop_last() =~= s@.take(i as int));
        }
        if s[i] == c {
            let done = cur;
            pieces.push(done);
            cur = Vec::new();
            assert(pieces_view(pieces@).push(cur@) =~= before.push(Seq::empty()));
        } else {
            cur.push(s[i]);
            assert(pieces_view(pieces@).push(cur@) =~= before.update(before.len() - 1, before.last().push(s@[i as int])));
        }
        i = i + 1;
    }
    assert(s@.take(i as int) =~= s@);
    pieces.push(cur);
    assert(pieces_view(pieces@) =~= split_on(s@, c));
    pieces
}

/// A line without the `\r` of a `\r\n` ending.
pub open spec fn strip_cr(l: Seq<char>) -> Seq<char> {
    if l.len() > 0 && l.last() == '\r' { l.drop_last() } else { l }
}

/// The lines of `s`, as `str::lines` yields them: cut at `\n`, with the `\r`
/// before a `\n` dropped, and no final empty line after a trailing `\n`.
pub open spec fn spec_lines(s: Seq<char>) -> Seq<Seq<char>> {
    let parts = split_on(s, '\n');
    let body = parts.take(parts.len() - 1).map_values(|l: Seq<char>| strip_cr(l));
    if parts.last().len() == 0 { body } else { body.push(parts.last()) }
}

/// The lines of `s`.
pub fn lines_of(s: &str) -> (r: Vec<Vec<char>>)
    ensures
        pieces_view(r@) == spec_lines(s@),
{
    let cs = chars_of(s);
    let parts = split_chars(&cs, '\n');
    proof {
        lemma_split_nonempty(s@, '\n');
    }
    let ghost pv = pieces_view(parts@);
    let n = parts.len();
    let mut out: Vec<Vec<char>> = Vec::new();
    let mut i: usize = 0;
    while i + 1 < n
        invariant
            n == parts@.len(),
            n >= 1,
            pv == pieces_view(parts@),
            pv == split_on(s@, '\n'),
            i < n,
            pieces_view(out@) =~= pv.take(i as int).map_values(|l: Seq<char>| strip_cr(l)),
        decreases n - i,
    {
        let p = &parts[i];
        assert(pv[i as int] == p@);
        let mut line: Vec<char> = Vec::new();
        let keep = if p.len() > 0 && p[p.len() - 1] == '\r' { p.len() - 1 } else { p.len() };
        let mut k: usize = 0;
        while k < keep
            invariant
                keep <= p@.len(),
                k <= keep,
                line@ =~= p@.take(k as int),
            decreases keep - k,
        {
            line.push(p[k]);
            k = k + 1;
        }
        assert(line@ =~= strip_cr(p@));
        let ghost lv = line@;
        let ghost before = pieces_view(out@);
        out.push(line);
        assert(pieces_view(out@) =~= before.push(lv));
        assert(pv.take(i + 1).map_values(|l: Seq<char>| strip_cr(l))
            =~= pv.take(i as int).map_values(|l: Seq<char>| strip_cr(l)).push(strip_cr(pv[i as int])));
        i = i + 1;
    }
    let last = &parts[n - 1];
    assert(pv[n - 1] == last@);
    if last.len() > 0 {
        let mut copy: Vec<char> = Vec::new();
        let mut k: usize = 0;
        while k < last.len()
            invariant
                k <= last@.len(),
                copy@ =~= last@.take(k as int),
            decreases last@.len() - k,
        {
            copy.push(last[k]);
            k = k + 1;
        }
        assert(copy@ =~= last@);
        out.push(copy);
    }
    out
}

// ---------------------------------------------------------------- facts about decimals and splitting

/// The decimal form of `n` is made of digits: non-empty, without a leading
/// zero unless `n` is 0, worth `n`, and at most three long below 1000.
pub proof fn lemma_decimal(n: nat)
    ensures
        spec_decimal(n).len() >= 1,
        forall|i: int| 0 <= i < spec_decimal(n).len() ==> is_digit(#[trigger] spec_decimal(n)[i]),
        digits_value(spec_decimal(n)) == n,
        n > 0 ==> spec_decimal(n)[0] != '0',
        n < 1000 ==> spec_decimal(n).len() <= 3,
        n < 10 ==> spec_decimal(n).len() == 1,
    decreases n,
{
    let d = spec_decimal(n);
    if n < 10 {
        assert(d == seq![digit_char(n as int)]);
        assert(d.drop_last() =~= Seq::<char>::empty());
        assert((digit_char(n as int) as u32) == 48 + n);
        assert(digits_value(d) == digits_value(d.drop_last()) * 10 + ((d.last() as u32) - ('0' as u32)) as nat);
    } else {
        lemma_decimal(n / 10);
        let h = spec_decimal(n / 10);
        let last = digit_char((n % 10) as int);
        assert(d == h + seq![last]);
        assert(d.drop_last() =~= h);
        assert(d.last() == last);
        assert((last as u32) == 48 + n % 10);
        assert(digits_value(d) == digits_value(h) * 10 + ((d.last() as u32) - ('0' as u32)) as nat);
        assert forall|i: int| 0 <= i < d.len() implies is_digit(#[trigger] d[i]) by {
            if i < h.len() {
                assert(d[i] == h[i]);
            }
        }
        assert(d[0] == h[0]);
        assert(n == (n / 10) * 10 + n % 10);
        assert(d.len() == h.len() + 1);
        if n < 1000 {
            assert(n / 10 < 100);
            if n / 10 < 10 {
                assert(h.len() == 1);
            } else {
                lemma_decimal(n / 100);
                assert(n / 10 / 10 < 10);
                assert(h.len() == spec_decimal(n / 10 / 10).len() + 1);
            }
        }
    }
}

/// `y` holds no `c`.
pub open spec fn free_of(y: Seq<char>, c: char) -> bool {
    forall|i: int| 0 <= i < y.len() ==> y[i] != c
}

/// Appending a piece without separators extends the last piece.
pub proof fn lemma_split_append_free(x: Seq<char>, y: Seq<char>, c: char)
    requires
        free_of(y, c),
    ensures
        split_on(x + y, c) == split_on(x, c).update(split_on(x, c).len() - 1, split_on(x, c).last() + y),
    decreases y.len(),
{
    lemma_split_nonempty(x, c);
    let sx = split_on(x, c);
    if y.len() == 0 {
        assert(x + y =~= x);
        assert(sx.update(sx.len() - 1, sx.last() + y) =~= sx);
    } else {
        let y0 = y.drop_last();
        assert(free_of(y0, c));
        lemma_split_append_free(x, y0, c);
        assert((x + y).drop_last() =~= x + y0);
        assert((x + y).last() == y.last());
        lemma_split_nonempty(x + y0, c);
        let r = split_on(x + y0, c);
        assert(r.last() == sx.last() + y0);
        assert(r.last().push(y.last()) =~= sx.last() + y);
        assert(split_on(x + y, c) =~= sx.update(sx.len() - 1, sx.last() + y));
    }
}

/// A separator followed by a piece without separators adds that piece.
pub proof fn lemma_split_sep(x: Seq<char>, c: char, y: Seq<char>)
    requires
        free_of(y, c),
    ensures
        split_on(x + seq![c] + y, c) == split_on(x, c).push(y),
{
    let xc = x + seq![c];
    assert(xc.drop_last() =~= x);
    assert(split_on(xc, c) == split_on(x, c).push(Seq::empty()));
    lemma_split_append_free(xc, y, c);
    lemma_split_nonempty(xc, c);
    assert(Seq::<char>::empty() + y =~= y);
    assert(split_on(xc, c).update(split_on(xc, c).len() - 1, split_on(xc, c).last() + y) =~= split_on(x, c).push(y));
}

/// A piece without separators is a single piece.
pub proof fn lemma_split_single(y: Seq<char>, c: char)
    requires
        free_of(y, c),
    ensures
        split_on(y, c) == seq![y],
{
    lemma_split_append_free(Seq::empty(), y, c);
    assert(Seq::<char>::empty() + y =~= y);
    assert(Seq::<char>::empty() + y =~= y);
    assert(seq![Seq::<char>::empty()].update(0, Seq::<char>::empty() + y) =~= seq![y]);
}

/// A decimal is a valid `u64` text worth its number.
pub proof fn lemma_parse_decimal(n: u64)
    ensures
        spec_parse_u64(spec_decimal(n as nat)) == Some(n),
{
    lemma_decimal(n as nat);
    let d = spec_decimal(n as nat);
    assert(is_digit(d[0]));
    assert(unsigned_part(d) == d);
}

} // verus!
