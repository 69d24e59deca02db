//! Text helpers: concatenation, comparison, splitting and number rendering,
//! all specified over the sequence of characters of a string.
use vstd::prelude::*;

verus! {

/// `String::push` appends one character to the end of the string.
pub assume_specification[ String::push ](s: &mut String, ch: char)
    ensures
        final(s)@ == old(s)@.push(ch),
;

/// Two strings hold the same characters.
pub fn str_eq(a: &str, b: &str) -> (r: bool)
    ensures
        r == (a@ == b@),
{
    a.to_owned().eq(&b.to_owned())
}

/// The text that `{:?}` gives of a string.
pub uninterp spec fn debug_text_of(s: Seq<char>) -> Seq<char>;

/// `<str as std::fmt::Debug>::fmt`: the string quoted and escaped, which depends
/// on the string alone.
#[verifier::external_body]
pub(crate) fn debug_text(s: &str) -> (r: String)
    ensures
        r@ == debug_text_of(s@),
{
    format!("{s:?}")
}

/// Two parts, one after the other.
pub fn cat2(a: &str, b: &str) -> (r: String)
    ensures
        r@ == a@ + b@,
{
    let mut s = a.to_owned();
    s.append(b);
    s
}

/// Three parts, one after the other.
pub fn cat3(a: &str, b: &str, c: &str) -> (r: String)
    ensures
        r@ == a@ + b@ + c@,
{
    let mut s = a.to_owned();
    s.append(b);
    s.append(c);
    s
}

/// Four parts, one after the other.
pub fn cat4(a: &str, b: &str, c: &str, d: &str) -> (r: String)
    ensures
        r@ == a@ + b@ + c@ + d@,
{
    let mut s = cat3(a, b, c);
    s.append(d);
    s
}

/// Five parts, one after the other.
pub fn cat5(a: &str, b: &str, c: &str, d: &str, e: &str) -> (r: String)
    ensures
        r@ == a@ + b@ + c@ + d@ + e@,
{
    let mut s = cat4(a, b, c, d);
    s.append(e);
    s
}

/// Six parts, one after the other.
pub fn cat6(a: &str, b: &str, c: &str, d: &str, e: &str, f: &str) -> (r: String)
    ensures
        r@ == a@ + b@ + c@ + d@ + e@ + f@,
{
    let mut s = cat5(a, b, c, d, e);
    s.append(f);
    s
}

/// Seven parts, one after the other.
pub fn cat7(a: &str, b: &str, c: &str, d: &str, e: &str, f: &str, g: &str) -> (r: String)
    ensures
        r@ == a@ + b@ + c@ + d@ + e@ + f@ + g@,
{
    let mut s = cat6(a, b, c, d, e, f);
    s.append(g);
    s
}

/// Nine parts, one after the other.
pub fn cat9(
    a: &str,
    b: &str,
    c: &str,
    d: &str,
    e: &str,
    f: &str,
    g: &str,
    h: &str,
    i: &str,
) -> (r: String)
    ensures
        r@ == a@ + b@ + c@ + d@ + e@ + f@ + g@ + h@ + i@,
{
    let mut s = cat7(a, b, c, d, e, f, g);
    s.append(h);
    s.append(i);
    s
}

/// The decimal digit of value `d`.
pub open spec fn digit_char(d: nat) -> char {
    (d + 48) as char
}

/// A natural number in decimal, without leading zeros.
pub open spec fn nat_text(n: nat) -> Seq<char>
    decreases n,
{
    if n < 10 {
        seq![digit_char(n)]
    } else {
        nat_text(n / 10).push(digit_char(n % 10))
    }
}

/// An integer in decimal, with a minus sign where it is negative.
pub open spec fn int_text(i: int) -> Seq<char> {
    if i < 0 {
        seq!['-'] + nat_text((-i) as nat)
    } else {
        nat_text(i as nat)
    }
}

fn push_u64(s: &mut String, n: u64)
    ensures
        final(s)@ == old(s)@ + nat_text(n as nat),
    decreases n,
{
    if n >= 10 {
        push_u64(s, n / 10);
    }
    let d: u8 = (n % 10) as u8;
    let ghost before = s@;
    s.push((48u8 + d) as char);
    proof {
        assert(s@ =~= old(s)@ + nat_text(n as nat));
    }
}

/// A `u64` in decimal.
pub fn u64_text(n: u64) -> (r: String)
    ensures
        r@ == nat_text(n as nat),
{
    let mut s = String::new();
    push_u64(&mut s, n);
    proof {
        assert(s@ =~= nat_text(n as nat));
    }
    s
}

fn push_u128(s: &mut String, n: u128)
    ensures
        final(s)@ == old(s)@ + nat_text(n as nat),
    decreases n,
{
    if n >= 10 {
        push_u128(s, n / 10);
    }
    let ghost before = s@;
    s.push((48u8 + (n % 10) as u8) as char);
    proof {
        if n >= 10 {
            assert(s@ =~= old(s)@ + nat_text((n / 10) as nat).push(digit_char((n % 10) as nat)));
        } else {
            assert(s@ =~= old(s)@ + nat_text(n as nat));
        }
    }
}

/// A `u128` in decimal.
pub fn u128_text(n: u128) -> (r: String)
    ensures
        r@ == nat_text(n as nat),
{
    let mut s = String::new();
    push_u128(&mut s, n);
    proof {
        assert(s@ =~= nat_text(n as nat));
    }
    s
}

/// An `i64` in decimal.
pub fn i64_text(i: i64) -> (r: String)
    ensures
        r@ == int_text(i as int),
{
    let mut s = String::new();
    if i < 0 {
        s.push('-');
        let n: u64 = if i == i64::MIN {
            9_223_372_036_854_775_808u64
        } else {
            (-i) as u64
        };
        push_u64(&mut s, n);
    } else {
        push_u64(&mut s, i as u64);
    }
    proof {
        assert(s@ =~= int_text(i as int));
    }
    s
}

/// The lower-case hexadecimal digit of value `d`.
pub open spec fn hex_char(d: nat) -> char {
    if d < 10 {
        (d + 48) as char
    } else {
        (d + 87) as char
    }
}

/// A 32-bit number as eight lower-case hexadecimal digits.
pub open spec fn hex8_text(n: nat) -> Seq<char> {
    seq![
        hex_char(n / 0x1000_0000 % 16),
        hex_char(n / 0x100_0000 % 16),
        hex_char(n / 0x10_0000 % 16),
        hex_char(n / 0x1_0000 % 16),
        hex_char(n / 0x1000 % 16),
        hex_char(n / 0x100 % 16),
        hex_char(n / 0x10 % 16),
        hex_char(n % 16),
    ]
}

fn push_hex(s: &mut String, d: u32)
    requires
        d < 16,
    ensures
        final(s)@ == old(s)@.push(hex_char(d as nat)),
{
    let b: u8 = if d < 10 {
        48u8 + d as u8
    } else {
        87u8 + d as u8
    };
    s.push(b as char);
}

/// A `u32` as eight lower-case hexadecimal digits.
pub fn hex8(n: u32) -> (r: String)
    ensures
        r@ == hex8_text(n as nat),
{
    let mut s = String::new();
    push_hex(&mut s, n / 0x1000_0000 % 16);
    push_hex(&mut s, n / 0x100_0000 % 16);
    push_hex(&mut s, n / 0x10_0000 % 16);
    push_hex(&mut s, n / 0x1_0000 % 16);
    push_hex(&mut s, n / 0x1000 % 16);
    push_hex(&mut s, n / 0x100 % 16);
    push_hex(&mut s, n / 0x10 % 16);
    push_hex(&mut s, n % 16);
    proof {
        assert(s@ =~= hex8_text(n as nat));
    }
    s
}

/// The characters of a string, as a vector.
pub fn chars_of(s: &str) -> (r: Vec<char>)
    ensures
        r@ == s@,
{
    let mut v: Vec<char> = Vec::new();
    for c in it: s.chars()
        invariant
            it.seq() == s@,
            v@ == s@.take(it.index() as int),
    {
        v.push(c);
        proof {
            assert(s@.take(it.index() + 1) =~= s@.take(it.index() as int).push(c));
        }
    }
    proof {
        assert(s@.take(s@.len() as int) =~= s@);
    }
    v
}

/// The characters `from..to` of `v`, as a string.
pub fn string_of(v: &Vec<char>, from: usize, to: usize) -> (r: String)
    requires
        from <= to <= v@.len(),
    ensures
        r@ == v@.subrange(from as int, to as int),
{
    let mut s = String::new();
    let mut i: usize = from;
    while i < to
        invariant
            from <= i <= to <= v@.len(),
            s@ == v@.subrange(from as int, i as int),
        decreases to - i,
    {
        s.push(v[i]);
        i = i + 1;
        proof {
            assert(v@.subrange(from as int, i as int) =~= v@.subrange(
                from as int,
                i - 1,
            ).push(v@[i - 1]));
        }
    }
    s
}

/// `s` with every `from` replaced by `to`.
pub open spec fn replaced(s: Seq<char>, from: char, to: char) -> Seq<char> {
    s.map_values(|c: char| if c == from { to } else { c })
}

/// Replace every occurrence of one character by another.
pub fn replace_char(s: &str, from: char, to: char) -> (r: String)
    ensures
        r@ == replaced(s@, from, to),
{
    let v = chars_of(s);
    let mut out = String::new();
    let mut i: usize = 0;
    while i < v.len()
        invariant
            i <= v@.len(),
            v@ == s@,
            out@ == replaced(v@.take(i as int), from, to),
        decreases v@.len() - i,
    {
        let c = v[i];
        if c == from {
            out.push(to);
        } else {
            out.push(c);
        }
        i = i + 1;
        proof {
            assert(out@ =~= replaced(v@.take(i as int), from, to));
        }
    }
    proof {
        assert(v@.take(i as int) =~= s@);
    }
    out
}

/// The code points of the Unicode `White_Space` property.
pub open spec fn is_space(c: char) -> bool {
    let n = c as int;
    ||| 0x09 <= n <= 0x0d
    ||| n == 0x20
    ||| n == 0x85
    ||| n == 0xa0
    ||| n == 0x1680
    ||| 0x2000 <= n <= 0x200a
    ||| n == 0x2028
    ||| n == 0x2029
    ||| n == 0x202f
    ||| n == 0x205f
    ||| n == 0x3000
}

fn char_is_space(c: char) -> (r: bool)
    ensures
        r == is_space(c),
{
    let n: u32 = c as u32;
    (0x09 <= n && n <= 0x0d) || n == 0x20 || n == 0x85 || n == 0xa0 || n == 0x1680 || (0x2000 <= n
        && n <= 0x200a) || n == 0x2028 || n == 0x2029 || n == 0x202f || n == 0x205f || n == 0x3000
}

/// `s` without the white space at its end.
pub open spec fn trim_end(s: Seq<char>) -> Seq<char>
    decreases s.len(),
{
    if s.len() > 0 && is_space(s.last()) {
        trim_end(s.drop_last())
    } else {
        s
    }
}

/// `s` without the white space at its start.
pub open spec fn trim_start(s: Seq<char>) -> Seq<char>
    decreases s.len(),
{
    if s.len() > 0 && is_space(s.first()) {
        trim_start(s.drop_first())
    } else {
        s
    }
}

/// `s` without the white space at its start and at its end.
pub open spec fn trimmed(s: Seq<char>) -> Seq<char> {
    trim_end(trim_start(s))
}

/// The part `from..to` of `v`, trimmed.
pub fn trim_part(v: &Vec<char>, from: usize, to: usize) -> (r: String)
    requires
        from <= to <= v@.len(),
    ensures
        r@ == trimmed(v@.subrange(from as int, to as int)),
{
    let mut i: usize = from;
    while i < to && char_is_space(v[i])
        invariant
            from <= i <= to <= v@.len(),
            trim_start(v@.subrange(from as int, to as int)) == trim_start(
                v@.subrange(i as int, to as int),
            ),
        decreases to - i,
    {
        proof {
            assert(v@.subrange(i as int, to as int).drop_first() =~= v@.subrange(
                i + 1,
                to as int,
            ));
        }
        i = i + 1;
    }
    let ghost s = v@.subrange(i as int, to as int);
    assert(trim_start(s) == s);
    let mut j: usize = to;
    while i < j && char_is_space(v[j - 1])
        invariant
            i <= j <= to <= v@.len(),
            s == v@.subrange(i as int, to as int),
            trim_end(s) == trim_end(v@.subrange(i as int, j as int)),
        decreases j - i,
    {
        proof {
            assert(v@.subrange(i as int, j as int).drop_last() =~= v@.subrange(i as int, j - 1));
        }
        j = j - 1;
    }
    assert(trim_end(v@.subrange(i as int, j as int)) == v@.subrange(i as int, j as int));
    string_of(v, i, j)
}

/// The position of the first `c` in `s` at or after `from`, or `s.len()`.
pub open spec fn find_from(s: Seq<char>, c: char, from: nat) -> nat
    decreases s.len() - from,
{
    if from >= s.len() {
        s.len()
    } else if s[from as int] == c {
        from
    } else {
        find_from(s, c, from + 1)
    }
}

/// Find the first `c` at or after `from`.
pub fn find_char(v: &Vec<char>, c: char, from: usize) -> (r: usize)
    requires
        from <= v@.len(),
    ensures
        from <= r <= v@.len(),
        r == find_from(v@, c, from as nat),
        r < v@.len() ==> v@[r as int] == c,
        forall|k: int| from <= k < r ==> v@[k] != c,
{
    let mut i: usize = from;
    while i < v.len()
        invariant
            from <= i <= v@.len(),
            forall|k: int| from <= k < i ==> v@[k] != c,
            find_from(v@, c, from as nat) == find_from(v@, c, i as nat),
        decreases v@.len() - i,
    {
        if v[i] == c {
            return i;
        }
        i = i + 1;
    }
    i
}

/// The parts joined by a separator.
pub open spec fn joined(parts: Seq<Seq<char>>, sep: Seq<char>) -> Seq<char>
    decreases parts.len(),
{
    if parts.len() == 0 {
        Seq::empty()
    } else if parts.len() == 1 {
        parts[0]
    } else {
        joined(parts.drop_last(), sep) + sep + parts.last()
    }
}

/// The views of a sequence of strings.
pub open spec fn views(v: Seq<String>) -> Seq<Seq<char>> {
    v.map_values(|s: String| s@)
}

/// Join strings with a separator.
pub fn join(parts: &Vec<String>, sep: &str) -> (r: String)
    ensures
        r@ == joined(views(parts@), sep@),
{
    let mut out = String::new();
    let mut i: usize = 0;
    while i < parts.len()
        invariant
            i <= parts@.len(),
            out@ == joined(views(parts@.take(i as int)), sep@),
        decreases parts@.len() - i,
    {
        if i > 0 {
            out.append(sep);
        }
        out.append(parts[i].as_str());
        i = i + 1;
        proof {
            let now = views(parts@.take(i as int));
            assert(now.drop_last() =~= views(parts@.take(i - 1)));
            assert(now.last() == parts@[i - 1]@);
            assert(out@ =~= joined(now, sep@));
        }
    }
    proof {
        assert(parts@.take(i as int) =~= parts@);
    }
    out
}

/// Append a string to a list.
pub fn push_text(v: &mut Vec<String>, s: String)
    ensures
        views(final(v)@) == views(old(v)@).push(s@),
{
    v.push(s);
    proof {
        assert(views(v@) =~= views(old(v)@).push(s@));
    }
}

/// A list of `n` placeholders.
pub open spec fn placeholders(n: nat) -> Seq<char> {
    joined(Seq::new(n, |i: int| "?"@), ", "@)
}

/// `n` placeholders, separated by commas.
pub fn placeholder_list(n: usize) -> (r: String)
    ensures
        r@ == placeholders(n as nat),
{
    let mut marks: Vec<String> = Vec::new();
    let mut i: usize = 0;
    proof {
        assert(views(marks@) =~= Seq::new(0, |k: int| "?"@));
    }
    while i < n
        invariant
            i <= n,
            views(marks@) == Seq::new(i as nat, |k: int| "?"@),
        decreases n - i,
    {
        push_text(&mut marks, "?".to_owned());
        i = i + 1;
        proof {
            assert(views(marks@) =~= Seq::new(i as nat, |k: int| "?"@));
        }
    }
    proof {
        assert(views(marks@) =~= Seq::new(n as nat, |k: int| "?"@));
    }
    join(&marks, ", ")
}

/// A copy of a list of strings.
pub fn clone_strings(v: &Vec<String>) -> (r: Vec<String>)
    ensures
        r@ == v@,
{
    let mut out: Vec<String> = Vec::new();
    let mut i: usize = 0;
    while i < v.len()
        invariant
            i <= v@.len(),
            out@ == v@.take(i as int),
        decreases v@.len() - i,
    {
        out.push(v[i].clone());
        i = i + 1;
        proof {
            assert(out@ =~= v@.take(i as int));
        }
    }
    proof {
        assert(v@.take(i as int) =~= v@);
    }
    out
}

/// A copy of a list of bytes.
pub fn clone_bytes(v: &Vec<u8>) -> (r: Vec<u8>)
    ensures
        r@ == v@,
{
    let mut out: Vec<u8> = Vec::new();
    let mut i: usize = 0;
    while i < v.len()
        invariant
            i <= v@.len(),
            out@ == v@.take(i as int),
        decreases v@.len() - i,
    {
        out.push(v[i]);
        i = i + 1;
        proof {
            assert(out@ =~= v@.take(i as int));
        }
    }
    proof {
        assert(v@.take(i as int) =~= v@);
    }
    out
}

/// The value of a decimal digit, where `c` is one.
pub open spec fn digit_value(c: char) -> Option<nat> {
    if 48 <= c as int <= 57 {
        Some((c as int - 48) as nat)
    } else {
        None
    }
}

/// The number that a run of decimal digits stands for; `None` where another
/// character occurs.
pub open spec fn digits_value(s: Seq<char>) -> Option<nat>
    decreases s.len(),
{
    if s.len() == 0 {
        Some(0)
    } else {
        match (digits_value(s.drop_last()), digit_value(s.last())) {
            (Some(n), Some(d)) => Some(10 * n + d),
            _ => None,
        }
    }
}

/// The number that a signed decimal text stands for: an optional sign and at
/// least one digit.
pub open spec fn parsed_int(s: Seq<char>) -> Option<int> {
    if s.len() == 0 {
        None
    } else if s[0] == '-' || s[0] == '+' {
        let rest = s.drop_first();
        if rest.len() == 0 {
            None
        } else {
            match digits_value(rest) {
                Some(n) => Some(
                    if s[0] == '-' {
                        -(n as int)
                    } else {
                        n as int
                    },
                ),
                None => None,
            }
        }
    } else {
        match digits_value(s) {
            Some(n) => Some(n as int),
            None => None,
        }
    }
}

/// A signed decimal text that fits an `i64`.
pub open spec fn parsed_i64(s: Seq<char>) -> Option<i64> {
    match parsed_int(s) {
        Some(i) => if i64::MIN <= i <= i64::MAX {
            Some(i as i64)
        } else {
            None
        },
        None => None,
    }
}

proof fn lemma_digits_prefix(s: Seq<char>, k: int)
    requires
        0 <= k <= s.len(),
        digits_value(s) is Some,
    ensures
        digits_value(s.take(k)) is Some,
        digits_value(s.take(k))->0 <= digits_value(s)->0,
    decreases s.len() - k,
{
    if k < s.len() {
        lemma_digits_prefix(s, k + 1);
        assert(s.take(k + 1).drop_last() =~= s.take(k));
    } else {
        assert(s.take(k) =~= s);
    }
}

fn char_digit(c: char) -> (r: Option<u64>)
    ensures
        match r {
            Some(d) => digit_value(c) == Some(d as nat) && d < 10,
            None => digit_value(c) is None,
        },
{
    let n: u32 = c as u32;
    if n < 48 || n > 57 {
        None
    } else {
        Some((n - 48) as u64)
    }
}

/// Parse a run of digits that starts at `from`, up to the magnitude of
/// `i64::MIN`.
fn parse_digits(v: &Vec<char>, from: usize) -> (r: Option<u64>)
    requires
        from <= v@.len(),
    ensures
        match r {
            Some(n) => digits_value(v@.skip(from as int)) == Some(n as nat) && n
                <= 9_223_372_036_854_775_808u64,
            None => match digits_value(v@.skip(from as int)) {
                Some(n) => n > 9_223_372_036_854_775_808u64,
                None => true,
            },
        },
{
    let ghost rest = v@.skip(from as int);
    let mut n: u64 = 0;
    let mut i: usize = from;
    while i < v.len()
        invariant
            from <= i <= v@.len(),
            rest == v@.skip(from as int),
            digits_value(rest.take(i - from)) == Some(n as nat),
            n <= 9_223_372_036_854_775_808u64,
        decreases v@.len() - i,
    {
        let ch: char = v[i];
        proof {
            assert(rest.take(i - from + 1).drop_last() =~= rest.take(i - from));
            assert(rest.take(i - from + 1).last() == ch);
            if digits_value(rest) is Some {
                lemma_digits_prefix(rest, i - from + 1);
            }
        }
        let d: u64 = match char_digit(ch) {
            Some(d) => d,
            None => {
                return None;
            },
        };
        if n > 922_337_203_685_477_580u64 || (n == 922_337_203_685_477_580u64 && d > 8) {
            return None;
        }
        proof {
            assert(digits_value(rest.take(i - from + 1)) == Some((10 * n + d) as nat));
        }
        n = n * 10 + d;
        i = i + 1;
    }
    proof {
        assert(rest.take(i - from) =~= rest);
    }
    Some(n)
}

/// Parse a signed 64-bit decimal number.
pub fn parse_i64(s: &str) -> (r: Option<i64>)
    ensures
        r == parsed_i64(s@),
{
    let v = chars_of(s);
    if v.len() == 0 {
        return None;
    }
    let c = v[0];
    if c == '-' || c == '+' {
        proof {
            assert(v@.skip(1) =~= s@.drop_first());
        }
        if v.len() == 1 {
            return None;
        }
        match parse_digits(&v, 1) {
            None => None,
            Some(n) => {
                if c == '-' {
                    if n == 9_223_372_036_854_775_808u64 {
                        Some(i64::MIN)
                    } else {
                        Some(-(n as i64))
                    }
                } else if n == 9_223_372_036_854_775_808u64 {
                    None
                } else {
                    Some(n as i64)
                }
            },
        }
    } else {
        proof {
            assert(v@.skip(0) =~= s@);
        }
        match parse_digits(&v, 0) {
            None => None,
            Some(n) => if n == 9_223_372_036_854_775_808u64 {
                None
            } else {
                Some(n as i64)
            },
        }
    }
}

/// `part` stands in `s` at position `k`.
pub open spec fn stands_at(s: Seq<char>, part: Seq<char>, k: int) -> bool {
    0 <= k <= s.len() - part.len() && s.subrange(k, k + part.len()) == part
}

fn stands_here(v: &Vec<char>, part: &Vec<char>, k: usize) -> (r: bool)
    requires
        k + part@.len() <= v@.len(),
    ensures
        r == stands_at(v@, part@, k as int),
{
    let n = v.len();
    let mut i: usize = 0;
    while i < part.len()
        invariant
            i <= part@.len(),
            k + part@.len() <= n,
            n == v@.len(),
            forall|j: int| 0 <= j < i ==> v@[k + j] == part@[j],
        decreases part@.len() - i,
    {
        if v[k + i] != part[i] {
            proof {
                assert(v@.subrange(k as int, k + part@.len())[i as int] == v@[k + i]);
            }
            return false;
        }
        i = i + 1;
    }
    proof {
        assert(v@.subrange(k as int, k + part@.len()) =~= part@);
    }
    true
}

/// Whether a text stands somewhere in another.
pub fn contains_text(s: &str, part: &str) -> (r: bool)
    ensures
        r == exists|k: int| #[trigger] stands_at(s@, part@, k),
{
    let v = chars_of(s);
    let p = chars_of(part);
    if p.len() > v.len() {
        return false;
    }
    if p.len() == 0 {
        proof {
            assert(s@.subrange(0, 0) =~= part@);
            assert(stands_at(s@, part@, 0));
        }
        return true;
    }
    let n = v.len();
    let mut k: usize = 0;
    let last = n - p.len();
    while k <= last
        invariant
            v@ == s@,
            p@ == part@,
            n == v@.len(),
            last == n - p@.len(),
            last < n,
            k <= last + 1,
            forall|j: int| 0 <= j < k ==> !#[trigger] stands_at(s@, part@, j),
        decreases last + 1 - k,
    {
        if stands_here(&v, &p, k) {
            return true;
        }
        k = k + 1;
    }
    false
}

/// Whether a character occurs in a text.
pub fn has_char(s: &str, c: char) -> (r: bool)
    ensures
        r == s@.contains(c),
{
    let v = chars_of(s);
    let k = find_char(&v, c, 0);
    k < v.len()
}

/// Whether all characters of a text are ASCII.
pub fn all_ascii(s: &str) -> (r: bool)
    ensures
        r == (forall|i: int| 0 <= i < s@.len() ==> (#[trigger] s@[i]) as int <= 127),
{
    let v = chars_of(s);
    let mut i: usize = 0;
    while i < v.len()
        invariant
            i <= v@.len(),
            v@ == s@,
            forall|k: int| 0 <= k < i ==> (#[trigger] s@[k]) as int <= 127,
        decreases v@.len() - i,
    {
        if !char_is_ascii(v[i]) {
            assert(s@[i as int] as int > 127);
            return false;
        }
        i = i + 1;
    }
    true
}

fn char_is_ascii(c: char) -> (r: bool)
    ensures
        r == (c as int <= 127),
{
    let n: u32 = c as u32;
    n <= 127
}

/// The number that an unsigned decimal text stands for, where it does not exceed
/// `max`: an optional plus sign and at least one digit.
pub open spec fn parsed_unsigned(s: Seq<char>, max: nat) -> Option<nat> {
    if s.len() > 0 && s[0] == '-' {
        None
    } else {
        match parsed_int(s) {
            Some(i) => if 0 <= i <= max {
                Some(i as nat)
            } else {
                None
            },
            None => None,
        }
    }
}

fn parse_unsigned(s: &str, max: u32) -> (r: Option<u32>)
    ensures
        match r {
            Some(n) => parsed_unsigned(s@, max as nat) == Some(n as nat) && n <= max,
            None => parsed_unsigned(s@, max as nat) is None,
        },
{
    let v = chars_of(s);
    if v.len() > 0 && v[0] == '-' {
        return None;
    }
    match parse_i64(s) {
        Some(i) => if 0 <= i && i <= max as i64 {
            Some(i as u32)
        } else {
            None
        },
        None => None,
    }
}

/// Parse an unsigned 32-bit decimal number.
pub fn parse_u32(s: &str) -> (r: Option<u32>)
    ensures
        match r {
            Some(n) => parsed_unsigned(s@, u32::MAX as nat) == Some(n as nat),
            None => parsed_unsigned(s@, u32::MAX as nat) is None,
        },
{
    parse_unsigned(s, u32::MAX)
}

/// Parse an unsigned 16-bit decimal number.
pub fn parse_u16(s: &str) -> (r: Option<u16>)
    ensures
        match r {
            Some(n) => parsed_unsigned(s@, u16::MAX as nat) == Some(n as nat),
            None => parsed_unsigned(s@, u16::MAX as nat) is None,
        },
{
    match parse_unsigned(s, 65_535) {
        Some(n) => Some(n as u16),
        None => None,
    }
}

/// The pieces of `s` between the separators `c`.
pub open spec fn pieces(s: Seq<char>, c: char) -> Seq<Seq<char>>
    decreases s.len(),
{
    let k = find_from(s, c, 0);
    if k >= s.len() {
        seq![s]
    } else {
        seq![s.take(k as int)] + pieces(s.skip(k as int + 1), c)
    }
}

/// The first occurrence is where no earlier one is.
pub proof fn lemma_find_is(s: Seq<char>, c: char, from: nat, at: nat)
    requires
        from <= at <= s.len(),
        at < s.len() ==> s[at as int] == c,
        forall|k: int| from <= k < at ==> s[k] != c,
    ensures
        find_from(s, c, from) == at,
    decreases s.len() - from,
{
    if from < at {
        lemma_find_is(s, c, from + 1, at);
    }
}

/// Split a text at every separator.
pub fn split_char(s: &str, c: char) -> (r: Vec<String>)
    ensures
        views(r@) == pieces(s@, c),
        r@.len() > 0,
{
    let v = chars_of(s);
    let mut out: Vec<String> = Vec::new();
    let mut from: usize = 0;
    proof {
        assert(v@.skip(0) =~= v@);
        assert(views(out@) + pieces(v@, c) =~= pieces(v@, c));
    }
    loop
        invariant
            from <= v@.len(),
            v@ == s@,
            views(out@) + pieces(v@.skip(from as int), c) == pieces(v@, c),
        decreases v@.len() - from,
    {
        let k = find_char(&v, c, from);
        let ghost rest = v@.skip(from as int);
        let ghost before = views(out@);
        proof {
            lemma_find_is(rest, c, 0, (k - from) as nat);
            assert(rest.take(k - from) =~= v@.subrange(from as int, k as int));
        }
        push_text(&mut out, string_of(&v, from, k));
        if k == v.len() {
            proof {
                assert(rest =~= v@.subrange(from as int, k as int));
                assert(views(out@) =~= before + pieces(rest, c));
            }
            return out;
        }
        proof {
            let tail = rest.skip(k - from + 1);
            assert(tail =~= v@.skip(k + 1));
            assert(views(out@) + pieces(tail, c) =~= before + pieces(rest, c));
        }
        from = k + 1;
    }
}

/// Whether a text starts with another.
pub fn starts_with_text(s: &str, start: &str) -> (r: bool)
    ensures
        r == start@.is_prefix_of(s@),
{
    let v = chars_of(s);
    let p = chars_of(start);
    if p.len() > v.len() {
        return false;
    }
    let mut i: usize = 0;
    while i < p.len()
        invariant
            i <= p@.len() <= v@.len(),
            v@ == s@,
            p@ == start@,
            forall|k: int| 0 <= k < i ==> v@[k] == p@[k],
        decreases p@.len() - i,
    {
        if v[i] != p[i] {
            assert(s@.subrange(0, start@.len() as int)[i as int] == s@[i as int]);
            return false;
        }
        i = i + 1;
    }
    proof {
        assert(start@ =~= s@.subrange(0, start@.len() as int));
    }
    true
}

/// `s` without the endings `end`, as often as it has one.
pub open spec fn without_ends(s: Seq<char>, end: Seq<char>) -> Seq<char>
    decreases s.len(),
{
    if end.len() > 0 && end.is_suffix_of(s) {
        without_ends(s.take(s.len() - end.len()), end)
    } else {
        s
    }
}

fn ends_at(v: &Vec<char>, end: &Vec<char>, len: usize) -> (r: bool)
    requires
        len <= v@.len(),
    ensures
        r == end@.is_suffix_of(v@.take(len as int)),
{
    if end.len() > len {
        return false;
    }
    let at = len - end.len();
    let r = stands_here(v, end, at);
    proof {
        let head = v@.take(len as int);
        assert(head.subrange(at as int, len as int) =~= v@.subrange(at as int, len as int));
    }
    r
}

/// Remove an ending as often as it occurs.
pub fn trim_ends(s: &str, end: &str) -> (r: String)
    ensures
        r@ == without_ends(s@, end@),
{
    let v = chars_of(s);
    let e = chars_of(end);
    let mut len: usize = v.len();
    proof {
        assert(v@.take(len as int) =~= s@);
    }
    while e.len() > 0 && ends_at(&v, &e, len)
        invariant
            len <= v@.len(),
            e@ == end@,
            without_ends(v@.take(len as int), end@) == without_ends(s@, end@),
        decreases len,
    {
        let ghost head = v@.take(len as int);
        proof {
            assert(head.take(len - e@.len()) =~= v@.take(len - e@.len()));
        }
        len = len - e.len();
    }
    proof {
        assert(v@.subrange(0, len as int) =~= v@.take(len as int));
    }
    string_of(&v, 0, len)
}

} // verus!
