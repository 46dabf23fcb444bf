//! Text building blocks shared by every tool: decimal rendering, zero
//! padding, Unicode whitespace trimming and lexicographic comparison.

use vstd::prelude::*;
use vstd::string::*;

verus! {

/// The ASCII digit for a value below ten.
pub open spec fn digit_char(d: nat) -> char {
    if d == 0 { '0' } else if d == 1 { '1' } else if d == 2 { '2' } else if d == 3 { '3' }
    else if d == 4 { '4' } else if d == 5 { '5' } else if d == 6 { '6' } else if d == 7 { '7' }
    else if d == 8 { '8' } else { '9' }
}

/// Decimal rendering of a natural number without leading zeros.
pub open spec fn decimal(n: nat) -> Seq<char>
    decreases n,
{
    if n < 10 {
        seq![digit_char(n)]
    } else {
        decimal(n / 10).push(digit_char(n % 10))
    }
}

/// Appends one character to a string (`String::push`).
#[verifier::external_body]
pub(crate) fn push_char(s: &mut String, c: char)
    ensures
        final(s)@ == old(s)@.push(c),
{
    s.push(c);
}

pub fn digit_to_char(d: u64) -> (c: char)
    requires
        d < 10,
    ensures
        c == digit_char(d as nat),
{
    if d == 0 { '0' } else if d == 1 { '1' } else if d == 2 { '2' } else if d == 3 { '3' }
    else if d == 4 { '4' } else if d == 5 { '5' } else if d == 6 { '6' } else if d == 7 { '7' }
    else if d == 8 { '8' } else { '9' }
}

/// Renders `n` in decimal.
pub fn u64_to_decimal(n: u64) -> (s: String)
    ensures
        s@ == decimal(n as nat),
    decreases n,
{
    if n < 10 {
        let mut s = String::new();
        push_char(&mut s, digit_to_char(n));
        s
    } else {
        let mut s = u64_to_decimal(n / 10);
        push_char(&mut s, digit_to_char(n % 10));
        s
    }
}


/// `count` copies of `c`.
pub open spec fn repeat_char(c: char, count: nat) -> Seq<char> {
    Seq::new(count, |_i: int| c)
}

/// `s` left-padded with zeros to at least `width` characters.
pub open spec fn zero_pad(s: Seq<char>, width: nat) -> Seq<char> {
    if s.len() < width {
        repeat_char('0', (width - s.len()) as nat) + s
    } else {
        s
    }
}

/// Renders `n` in decimal, left-padded with zeros to `width` characters.
pub fn u64_to_padded_decimal(n: u64, width: usize) -> (s: String)
    ensures
        s@ == zero_pad(decimal(n as nat), width as nat),
{
    let digits = u64_to_decimal(n);
    let len = digits.as_str().unicode_len();
    let mut out = String::new();
    if len < width {
        let mut i: usize = 0;
        while i < width - len
            invariant
                len < width,
                i <= width - len,
                out@ == repeat_char('0', i as nat),
            decreases width - len - i,
        {
            push_char(&mut out, '0');
            i = i + 1;
            assert(out@ =~= repeat_char('0', i as nat));
        }
    }
    out.append(digits.as_str());
    assert(out@ =~= zero_pad(decimal(n as nat), width as nat));
    out
}

/// Whitespace as `char::is_whitespace` defines it (the Unicode
/// `White_Space` property).
pub open spec fn is_ws(c: char) -> bool {
    let v = c as u32;
    ||| 0x09 <= v <= 0x0d
    ||| v == 0x20
    ||| v == 0x85
    ||| v == 0xa0
    ||| v == 0x1680
    ||| 0x2000 <= v <= 0x200a
    ||| v == 0x2028
    ||| v == 0x2029
    ||| v == 0x202f
    ||| v == 0x205f
    ||| v == 0x3000
}

pub fn is_whitespace_char(c: char) -> (b: bool)
    ensures
        b == is_ws(c),
{
    let v = c as u32;
    (0x09 <= v && v <= 0x0d) || v == 0x20 || v == 0x85 || v == 0xa0 || v == 0x1680
        || (0x2000 <= v && v <= 0x200a) || v == 0x2028 || v == 0x2029 || v == 0x202f
        || v == 0x205f || v == 0x3000
}

/// `s` without leading and trailing whitespace (`str::trim`).
pub open spec fn trimmed(s: Seq<char>) -> Seq<char>
    decreases s.len(),
{
    if s.len() == 0 {
        s
    } else if is_ws(s[0]) {
        trimmed(s.drop_first())
    } else if is_ws(s.last()) {
        trimmed(s.drop_last())
    } else {
        s
    }
}

proof fn lemma_trimmed_ends(s: Seq<char>)
    requires
        s.len() == 0 || (!is_ws(s[0]) && !is_ws(s.last())),
    ensures
        trimmed(s) == s,
{
}

/// Removes leading and trailing whitespace.
pub fn trim(s: &str) -> (r: String)
    ensures
        r@ == trimmed(s@),
{
    let len = s.unicode_len();
    let mut start: usize = 0;
    assert(s@.subrange(0, len as int) =~= s@);
    while start < len && is_whitespace_char(s.get_char(start))
        invariant
            len == s@.len(),
            start <= len,
            trimmed(s@) == trimmed(s@.subrange(start as int, len as int)),
        decreases len - start,
    {
        let ghost sub = s@.subrange(start as int, len as int);
        assert(sub.drop_first() =~= s@.subrange(start + 1, len as int));
        start = start + 1;
    }
    let mut end: usize = len;
    while end > start && is_whitespace_char(s.get_char(end - 1))
        invariant
            len == s@.len(),
            start <= end <= len,
            start < len ==> !is_ws(s@[start as int]),
            trimmed(s@) == trimmed(s@.subrange(start as int, end as int)),
        decreases end,
    {
        let ghost sub = s@.subrange(start as int, end as int);
        assert(sub.drop_last() =~= s@.subrange(start as int, end - 1));
        if end - 1 == start {
            assert(sub.drop_first() =~= sub.drop_last());
        }
        end = end - 1;
    }
    let r = s.substring_char(start, end);
    let r = r.to_owned();
    proof {
        let sub = s@.subrange(start as int, end as int);
        assert(sub.len() > 0 ==> sub[0] == s@[start as int]);
        lemma_trimmed_ends(sub);
    }
    r
}

/// Lexicographic order of character sequences, which is also the byte order
/// of their UTF-8 encodings (`str`'s `Ord`).
pub open spec fn lex_lt(a: Seq<char>, b: Seq<char>) -> bool
    decreases a.len(),
{
    if a.len() == 0 {
        b.len() > 0
    } else if b.len() == 0 {
        false
    } else if (a[0] as u32) < (b[0] as u32) {
        true
    } else if a[0] == b[0] {
        lex_lt(a.drop_first(), b.drop_first())
    } else {
        false
    }
}

/// Nothing sorts strictly before itself.
pub proof fn lemma_lex_irreflexive(a: Seq<char>)
    ensures
        !lex_lt(a, a),
    decreases a.len(),
{
    if a.len() > 0 {
        lemma_lex_irreflexive(a.drop_first());
    }
}

/// `parts` joined with `sep` between neighbours.
pub open spec fn joined(parts: Seq<Seq<char>>, sep: Seq<char>) -> Seq<char>
    decreases parts.len(),
{
    if parts.len() == 0 {
        Seq::empty()
    } else if parts.len() == 1 {
        parts[0]
    } else {
        joined(parts.drop_last(), sep) + sep + parts.last()
    }
}

pub proof fn lemma_joined_push(parts: Seq<Seq<char>>, sep: Seq<char>, next: Seq<char>)
    ensures
        joined(parts.push(next), sep) == if parts.len() == 0 { next } else { joined(parts, sep) + sep + next },
{
    assert(parts.push(next).drop_last() =~= parts);
}

/// Sorting before is transitive.
pub proof fn lemma_lex_transitive(a: Seq<char>, b: Seq<char>, c: Seq<char>)
    requires
        lex_lt(a, b),
        lex_lt(b, c),
    ensures
        lex_lt(a, c),
    decreases a.len(),
{
    if a.len() > 0 && b.len() > 0 && c.len() > 0 && a[0] == b[0] && b[0] == c[0] {
        lemma_lex_transitive(a.drop_first(), b.drop_first(), c.drop_first());
    }
}

/// Comparing two texts that start with equally long prefixes compares the
/// prefixes first and the rests only on a tie.
pub proof fn lemma_lex_concat(p1: Seq<char>, p2: Seq<char>, s1: Seq<char>, s2: Seq<char>)
    requires
        p1.len() == p2.len(),
    ensures
        lex_lt(p1 + s1, p2 + s2) == (lex_lt(p1, p2) || (p1 == p2 && lex_lt(s1, s2))),
    decreases p1.len(),
{
    if p1.len() == 0 {
        assert(p1 + s1 =~= s1);
        assert(p2 + s2 =~= s2);
        assert(p1 =~= p2);
    } else {
        assert((p1 + s1)[0] == p1[0]);
        assert((p2 + s2)[0] == p2[0]);
        assert((p1 + s1).drop_first() =~= p1.drop_first() + s1);
        assert((p2 + s2).drop_first() =~= p2.drop_first() + s2);
        lemma_lex_concat(p1.drop_first(), p2.drop_first(), s1, s2);
        if p1[0] == p2[0] {
            assert(p1 == p2 <==> p1.drop_first() == p2.drop_first()) by {
                if p1.drop_first() == p2.drop_first() {
                    assert(p1 =~= seq![p1[0]] + p1.drop_first());
                    assert(p2 =~= seq![p2[0]] + p2.drop_first());
                }
            }
        }
    }
}

/// Whether `a` sorts strictly before `b`.
pub fn str_lt(a: &str, b: &str) -> (r: bool)
    ensures
        r == lex_lt(a@, b@),
{
    let alen = a.unicode_len();
    let blen = b.unicode_len();
    let mut i: usize = 0;
    assert(a@.subrange(0, alen as int) =~= a@);
    assert(b@.subrange(0, blen as int) =~= b@);
    while i < alen && i < blen
        invariant
            alen == a@.len(),
            blen == b@.len(),
            i <= alen,
            i <= blen,
            lex_lt(a@, b@) == lex_lt(a@.subrange(i as int, alen as int), b@.subrange(i as int, blen as int)),
        decreases alen - i,
    {
        let ca = a.get_char(i);
        let cb = b.get_char(i);
        let ghost sa = a@.subrange(i as int, alen as int);
        let ghost sb = b@.subrange(i as int, blen as int);
        assert(sa[0] == ca && sb[0] == cb);
        if (ca as u32) < (cb as u32) {
            return true;
        }
        if ca != cb {
            return false;
        }
        assert(sa.drop_first() =~= a@.subrange(i + 1, alen as int));
        assert(sb.drop_first() =~= b@.subrange(i + 1, blen as int));
        i = i + 1;
    }
    proof {
        let sa = a@.subrange(i as int, alen as int);
        let sb = b@.subrange(i as int, blen as int);
        assert(sa.len() == 0 || sb.len() == 0);
    }
    i == alen && i < blen
}

/// Whether `c` is an ASCII decimal digit.
pub open spec fn is_digit(c: char) -> bool {
    '0' <= c && c <= '9'
}

/// The value of a digit character.
pub open spec fn digit_value(c: char) -> int {
    (c as u32) - ('0' as u32)
}

pub open spec fn all_digits(s: Seq<char>) -> bool {
    forall|i: int| 0 <= i < s.len() ==> is_digit(#[trigger] s[i])
}

/// The number a run of decimal digits denotes.
pub open spec fn digits_value(s: Seq<char>) -> int
    decreases s.len(),
{
    if s.len() == 0 {
        0
    } else {
        digits_value(s.drop_last()) * 10 + digit_value(s.last())
    }
}

/// What `str::parse` accepts for an unsigned integer type whose largest
/// value is `max`: an optional `+`, then one or more ASCII digits whose value
/// does not exceed `max`.
pub open spec fn parse_unsigned(s: Seq<char>, max: int) -> Option<int> {
    let body = if s.len() > 0 && s[0] == '+' { s.drop_first() } else { s };
    if body.len() > 0 && all_digits(body) && digits_value(body) <= max {
        Some(digits_value(body))
    } else {
        None
    }
}

/// What `str::parse` accepts for a signed integer type ranging over
/// `-(max + 1) ..= max`: an optional `+` or `-`, then one or more ASCII
/// digits.
pub open spec fn parse_signed(s: Seq<char>, max: int) -> Option<int> {
    if s.len() > 0 && s[0] == '-' {
        let body = s.drop_first();
        if body.len() > 0 && all_digits(body) && digits_value(body) <= max + 1 {
            Some(-digits_value(body))
        } else {
            None
        }
    } else {
        parse_unsigned(s, max)
    }
}

proof fn lemma_digits_value_nonneg(s: Seq<char>)
    requires
        all_digits(s),
    ensures
        digits_value(s) >= 0,
    decreases s.len(),
{
    if s.len() > 0 {
        assert(all_digits(s.drop_last()));
        lemma_digits_value_nonneg(s.drop_last());
    }
}

proof fn lemma_digits_value_prefix(s: Seq<char>, k: int)
    requires
        all_digits(s),
        0 <= k <= s.len(),
    ensures
        digits_value(s.subrange(0, k)) <= digits_value(s),
    decreases s.len(),
{
    if k < s.len() {
        assert(all_digits(s.drop_last()));
        lemma_digits_value_prefix(s.drop_last(), k);
        assert(s.drop_last().subrange(0, k) =~= s.subrange(0, k));
        lemma_digits_value_nonneg(s.drop_last());
    } else {
        assert(s.subrange(0, k) =~= s);
    }
}

/// Reads the run of digits `s[start..]` as a number no larger than `max`.
fn parse_digits(s: &str, start: usize, max: u128) -> (r: Option<u128>)
    requires
        start <= s@.len(),
        max <= u64::MAX,
    ensures
        r matches Some(v) ==> ({
            let body = s@.subrange(start as int, s@.len() as int);
            body.len() > 0 && all_digits(body) && v == digits_value(body) && v <= max
        }),
        r is None ==> ({
            let body = s@.subrange(start as int, s@.len() as int);
            !(body.len() > 0 && all_digits(body) && digits_value(body) <= max)
        }),
{
    let len = s.unicode_len();
    let ghost body = s@.subrange(start as int, len as int);
    if start == len {
        return None;
    }
    let mut value: u128 = 0;
    let mut i: usize = start;
    while i < len
        invariant
            len == s@.len(),
            start <= i <= len,
            body == s@.subrange(start as int, len as int),
            all_digits(body.subrange(0, i - start)),
            value as int == digits_value(body.subrange(0, i - start)),
            value <= max,
            max <= u64::MAX,
        decreases len - i,
    {
        let c = s.get_char(i);
        assert(body[i - start] == c);
        if !('0' <= c && c <= '9') {
            assert(!all_digits(body));
            return None;
        }
        let d = (c as u32 - '0' as u32) as u128;
        let next = value * 10 + d;
        let ghost pre = body.subrange(0, i - start);
        let ghost post = body.subrange(0, i + 1 - start);
        assert(post.drop_last() =~= pre);
        assert(all_digits(post));
        if next > max {
            proof {
                if all_digits(body) {
                    lemma_digits_value_prefix(body, i + 1 - start);
                }
            }
            return None;
        }
        value = next;
        i = i + 1;
    }
    assert(body.subrange(0, len - start) =~= body);
    Some(value)
}

/// `str::parse::<u64>`.
pub fn parse_u64(s: &str) -> (r: Option<u64>)
    ensures
        r matches Some(v) ==> parse_unsigned(s@, u64::MAX as int) == Some(v as int),
        r is None ==> parse_unsigned(s@, u64::MAX as int) is None,
{
    let len = s.unicode_len();
    let start: usize = if len > 0 && s.get_char(0) == '+' { 1 } else { 0 };
    assert(start == 1 ==> s@.drop_first() =~= s@.subrange(1, len as int));
    assert(start == 0 ==> s@ =~= s@.subrange(0, len as int));
    match parse_digits(s, start, u64::MAX as u128) {
        Some(v) => Some(v as u64),
        None => None,
    }
}

/// `str::parse::<usize>`.
pub fn parse_usize(s: &str) -> (r: Option<usize>)
    ensures
        r matches Some(v) ==> parse_unsigned(s@, usize::MAX as int) == Some(v as int),
        r is None ==> parse_unsigned(s@, usize::MAX as int) is None,
{
    let len = s.unicode_len();
    let start: usize = if len > 0 && s.get_char(0) == '+' { 1 } else { 0 };
    assert(start == 1 ==> s@.drop_first() =~= s@.subrange(1, len as int));
    assert(start == 0 ==> s@ =~= s@.subrange(0, len as int));
    match parse_digits(s, start, usize::MAX as u128) {
        Some(v) => Some(v as usize),
        None => None,
    }
}

/// `str::parse::<i32>`.
pub fn parse_i32(s: &str) -> (r: Option<i32>)
    ensures
        r matches Some(v) ==> parse_signed(s@, i32::MAX as int) == Some(v as int),
        r is None ==> parse_signed(s@, i32::MAX as int) is None,
{
    let len = s.unicode_len();
    if len > 0 && s.get_char(0) == '-' {
        assert(s@.drop_first() =~= s@.subrange(1, len as int));
        match parse_digits(s, 1, 0x8000_0000u128) {
            Some(v) => {
                let w = v as i64;
                Some((0 - w) as i32)
            },
            None => None,
        }
    } else {
        let start: usize = if len > 0 && s.get_char(0) == '+' { 1 } else { 0 };
        assert(start == 1 ==> s@.drop_first() =~= s@.subrange(1, len as int));
        assert(start == 0 ==> s@ =~= s@.subrange(0, len as int));
        match parse_digits(s, start, i32::MAX as u128) {
            Some(v) => Some(v as i32),
            None => None,
        }
    }
}

/// Character-wise string equality.
pub fn str_eq(a: &str, b: &str) -> (r: bool)
    ensures
        r == (a@ == b@),
{
    let alen = a.unicode_len();
    let blen = b.unicode_len();
    if alen != blen {
        return false;
    }
    let mut i: usize = 0;
    while i < alen
        invariant
            alen == a@.len(),
            blen == b@.len(),
            alen == blen,
            i <= alen,
            a@.subrange(0, i as int) == b@.subrange(0, i as int),
        decreases alen - i,
    {
        if a.get_char(i) != b.get_char(i) {
            return false;
        }
        assert(a@.subrange(0, i + 1) =~= a@.subrange(0, i as int).push(a@[i as int]));
        assert(b@.subrange(0, i + 1) =~= b@.subrange(0, i as int).push(b@[i as int]));
        i = i + 1;
    }
    assert(a@ =~= a@.subrange(0, alen as int));
    assert(b@ =~= b@.subrange(0, blen as int));
    true
}

} // verus!
