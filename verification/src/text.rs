//! Number formatting shared by the linker scripts, the emulator command
//! line and the kernel log.
use vstd::prelude::*;
use vstd::string::*;

verus! {

/// The upper-case hexadecimal digit of `d` (below 16).
pub open spec fn hex_char(d: nat) -> char {
    if d == 0 { '0' } else if d == 1 { '1' } else if d == 2 { '2' } else if d == 3 { '3' }
    else if d == 4 { '4' } else if d == 5 { '5' } else if d == 6 { '6' } else if d == 7 { '7' }
    else if d == 8 { '8' } else if d == 9 { '9' } else if d == 10 { 'A' } else if d == 11 { 'B' }
    else if d == 12 { 'C' } else if d == 13 { 'D' } else if d == 14 { 'E' } else { 'F' }
}

/// `v` in upper-case hexadecimal, without leading zeros ("0" for zero).
pub open spec fn hex_digits(v: nat) -> Seq<char>
    decreases v,
{
    if v < 16 { seq![hex_char(v)] } else { hex_digits(v / 16) + seq![hex_char(v % 16)] }
}

/// The one-character string of hexadecimal digit `d`.
fn hex_digit_str(d: u64) -> (r: &'static str)
    requires
        d < 16,
    ensures
        r@ == seq![hex_char(d as nat)],
{
    if d == 0 { proof { reveal_strlit("0"); } "0" }
    else if d == 1 { proof { reveal_strlit("1"); } "1" }
    else if d == 2 { proof { reveal_strlit("2"); } "2" }
    else if d == 3 { proof { reveal_strlit("3"); } "3" }
    else if d == 4 { proof { reveal_strlit("4"); } "4" }
    else if d == 5 { proof { reveal_strlit("5"); } "5" }
    else if d == 6 { proof { reveal_strlit("6"); } "6" }
    else if d == 7 { proof { reveal_strlit("7"); } "7" }
    else if d == 8 { proof { reveal_strlit("8"); } "8" }
    else if d == 9 { proof { reveal_strlit("9"); } "9" }
    else if d == 10 { proof { reveal_strlit("A"); } "A" }
    else if d == 11 { proof { reveal_strlit("B"); } "B" }
    else if d == 12 { proof { reveal_strlit("C"); } "C" }
    else if d == 13 { proof { reveal_strlit("D"); } "D" }
    else if d == 14 { proof { reveal_strlit("E"); } "E" }
    else { proof { reveal_strlit("F"); } "F" }
}

/// Append `v` in hexadecimal to `s`.
pub fn push_hex(s: &mut String, v: u64)
    ensures
        final(s)@ == old(s)@ + hex_digits(v as nat),
    decreases v,
{
    if v >= 16 {
        push_hex(s, v / 16);
    }
    s.append(hex_digit_str(v % 16));
    proof {
        if v >= 16 {
            assert(final(s)@ =~= old(s)@ + hex_digits(v as nat));
        } else {
            assert(final(s)@ =~= old(s)@ + hex_digits(v as nat));
        }
    }
}

/// The lower-case hexadecimal digit of `d` (below 16).
pub open spec fn lower_hex_char(d: nat) -> char {
    if d == 10 { 'a' } else if d == 11 { 'b' } else if d == 12 { 'c' } else if d == 13 { 'd' }
    else if d == 14 { 'e' } else if d == 15 { 'f' } else { hex_char(d) }
}

/// `v` in lower-case hexadecimal, without leading zeros ("0" for zero).
pub open spec fn lower_hex_digits(v: nat) -> Seq<char>
    decreases v,
{
    if v < 16 { seq![lower_hex_char(v)] } else { lower_hex_digits(v / 16) + seq![lower_hex_char(v % 16)] }
}

/// The one-character string of lower-case hexadecimal digit `d`.
fn lower_hex_digit_str(d: u64) -> (r: &'static str)
    requires
        d < 16,
    ensures
        r@ == seq![lower_hex_char(d as nat)],
{
    if d == 10 { proof { reveal_strlit("a"); } "a" }
    else if d == 11 { proof { reveal_strlit("b"); } "b" }
    else if d == 12 { proof { reveal_strlit("c"); } "c" }
    else if d == 13 { proof { reveal_strlit("d"); } "d" }
    else if d == 14 { proof { reveal_strlit("e"); } "e" }
    else if d == 15 { proof { reveal_strlit("f"); } "f" }
    else { hex_digit_str(d) }
}

/// Append `v` in lower-case hexadecimal to `s`.
pub fn push_lower_hex(s: &mut String, v: u64)
    ensures
        final(s)@ == old(s)@ + lower_hex_digits(v as nat),
    decreases v,
{
    if v >= 16 {
        push_lower_hex(s, v / 16);
    }
    s.append(lower_hex_digit_str(v % 16));
    proof {
        assert(final(s)@ =~= old(s)@ + lower_hex_digits(v as nat));
    }
}

/// `s` from position `i` on with each occurrence of `p` replaced by `r`,
/// occurrences taken from the left and not overlapping.
pub open spec fn replaced_from(s: Seq<char>, p: Seq<char>, r: Seq<char>, i: int) -> Seq<char>
    decreases s.len() - i,
{
    if i < 0 || i >= s.len() {
        Seq::empty()
    } else if p.len() > 0 && i + p.len() <= s.len() && s.subrange(i, i + p.len()) == p {
        r + replaced_from(s, p, r, i + p.len())
    } else {
        seq![s[i]] + replaced_from(s, p, r, i + 1)
    }
}

/// `s` with each occurrence of `p` replaced by `r`, as `str::replace` does
/// for a non-empty pattern.
pub open spec fn replaced(s: Seq<char>, p: Seq<char>, r: Seq<char>) -> Seq<char> {
    replaced_from(s, p, r, 0)
}

/// Whether `p` occurs in `s` at position `i`.
fn occurs_at(s: &str, p: &str, i: usize) -> (r: bool)
    requires
        i <= s@.len(),
    ensures
        r == (i + p@.len() <= s@.len() && s@.subrange(i as int, i + p@.len()) == p@),
{
    let n = s.unicode_len();
    let m = p.unicode_len();
    if m > n - i {
        return false;
    }
    let mut k: usize = 0;
    while k < m
        invariant
            n == s@.len(),
            m == p@.len(),
            i + m <= n,
            k <= m,
            forall|l: int| 0 <= l < k ==> s@[i + l] == p@[l],
        decreases m - k,
    {
        if s.get_char(i + k) != p.get_char(k) {
            assert(s@.subrange(i as int, i + m)[k as int] != p@[k as int]);
            return false;
        }
        k = k + 1;
    }
    assert(s@.subrange(i as int, i + m) =~= p@);
    true
}

/// `s` with each occurrence of the non-empty `p` replaced by `r`.
pub fn replace_text(s: &str, p: &str, r: &str) -> (out: String)
    requires
        p@.len() > 0,
    ensures
        out@ == replaced(s@, p@, r@),
{
    let n = s.unicode_len();
    let m = p.unicode_len();
    let mut out = String::new();
    let mut start: usize = 0;
    let mut i: usize = 0;
    while i < n
        invariant
            n == s@.len(),
            m == p@.len(),
            m > 0,
            start <= i <= n,
            out@ + s@.subrange(start as int, i as int) + replaced_from(s@, p@, r@, i as int) == replaced(s@, p@, r@),
        decreases n - i,
    {
        let ghost before = out@ + s@.subrange(start as int, i as int);
        if occurs_at(s, p, i) {
            out.append(s.substring_char(start, i));
            out.append(r);
            proof {
                assert(out@ + s@.subrange((i + m) as int, (i + m) as int) + replaced_from(s@, p@, r@, i + m)
                    =~= before + replaced_from(s@, p@, r@, i as int));
            }
            i = i + m;
            start = i;
        } else {
            proof {
                assert(out@ + s@.subrange(start as int, i + 1) + replaced_from(s@, p@, r@, i + 1)
                    =~= before + replaced_from(s@, p@, r@, i as int));
            }
            i = i + 1;
        }
    }
    out.append(s.substring_char(start, n));
    proof {
        assert(out@ =~= out@ + Seq::<char>::empty());
    }
    out
}

/// The decimal digit of `d` (below 10).
pub open spec fn dec_char(d: nat) -> char {
    if d == 0 { '0' } else if d == 1 { '1' } else if d == 2 { '2' } else if d == 3 { '3' }
    else if d == 4 { '4' } else if d == 5 { '5' } else if d == 6 { '6' } else if d == 7 { '7' }
    else if d == 8 { '8' } else { '9' }
}

/// `v` in decimal, without leading zeros ("0" for zero).
pub open spec fn decimal_digits(v: nat) -> Seq<char>
    decreases v,
{
    if v < 10 { seq![dec_char(v)] } else { decimal_digits(v / 10) + seq![dec_char(v % 10)] }
}

fn dec_digit_str(d: u64) -> (r: &'static str)
    requires
        d < 10,
    ensures
        r@ == seq![dec_char(d as nat)],
{
    if d == 0 { proof { reveal_strlit("0"); } "0" }
    else if d == 1 { proof { reveal_strlit("1"); } "1" }
    else if d == 2 { proof { reveal_strlit("2"); } "2" }
    else if d == 3 { proof { reveal_strlit("3"); } "3" }
    else if d == 4 { proof { reveal_strlit("4"); } "4" }
    else if d == 5 { proof { reveal_strlit("5"); } "5" }
    else if d == 6 { proof { reveal_strlit("6"); } "6" }
    else if d == 7 { proof { reveal_strlit("7"); } "7" }
    else if d == 8 { proof { reveal_strlit("8"); } "8" }
    else { proof { reveal_strlit("9"); } "9" }
}

/// Append `v` in decimal to `s`.
pub fn push_decimal(s: &mut String, v: u64)
    ensures
        final(s)@ == old(s)@ + decimal_digits(v as nat),
    decreases v,
{
    if v >= 10 {
        push_decimal(s, v / 10);
    }
    s.append(dec_digit_str(v % 10));
    proof {
        assert(final(s)@ =~= old(s)@ + decimal_digits(v as nat));
    }
}

/// `s` padded on the left with `fill` up to `width` characters.
pub open spec fn pad_left(s: Seq<char>, width: nat, fill: char) -> Seq<char> {
    if s.len() < width { Seq::new((width - s.len()) as nat, |i: int| fill) + s } else { s }
}

/// Append `v` in decimal to `s`, padded on the left with `fill` up to
/// `width` characters.
pub fn push_decimal_padded(s: &mut String, v: u64, width: usize, fill: &str)
    requires
        fill@.len() == 1,
    ensures
        final(s)@ == old(s)@ + pad_left(decimal_digits(v as nat), width as nat, fill@[0]),
{
    let mut d = String::new();
    push_decimal(&mut d, v);
    assert(d@ =~= decimal_digits(v as nat));
    let n = d.as_str().unicode_len();
    let ghost start = s@;
    if n < width {
        let mut k: usize = 0;
        while k < width - n
            invariant
                n < width,
                fill@.len() == 1,
                k <= width - n,
                s@ == start + Seq::new(k as nat, |i: int| fill@[0]),
            decreases width - n - k,
        {
            s.append(fill);
            assert(s@ =~= start + Seq::new((k + 1) as nat, |i: int| fill@[0]));
            k = k + 1;
        }
    }
    s.append(d.as_str());
    assert(s@ =~= start + pad_left(decimal_digits(v as nat), width as nat, fill@[0]));
}

/// Append `v` in lower-case hexadecimal to `s`, padded on the left with
/// zeros up to `width` digits.
pub fn push_lower_hex_padded(s: &mut String, v: u64, width: usize)
    ensures
        final(s)@ == old(s)@ + pad_left(lower_hex_digits(v as nat), width as nat, '0'),
{
    let mut d = String::new();
    push_lower_hex(&mut d, v);
    assert(d@ =~= lower_hex_digits(v as nat));
    let n = d.as_str().unicode_len();
    let ghost start = s@;
    proof { reveal_strlit("0"); }
    if n < width {
        let mut k: usize = 0;
        while k < width - n
            invariant
                n < width,
                k <= width - n,
                "0"@ == seq!['0'],
                s@ == start + Seq::new(k as nat, |i: int| '0'),
            decreases width - n - k,
        {
            s.append("0");
            assert(s@ =~= start + Seq::new((k + 1) as nat, |i: int| '0'));
            k = k + 1;
        }
    }
    s.append(d.as_str());
    assert(s@ =~= start + pad_left(lower_hex_digits(v as nat), width as nat, '0'));
}

/// Whether `c` is a decimal digit.
pub open spec fn is_digit(c: char) -> bool {
    '0' <= c && c <= '9'
}

/// The value of a decimal digit.
pub open spec fn digit_value(c: char) -> nat {
    (c as u32 - '0' as u32) as nat
}

/// The value of a string of decimal digits.
pub open spec fn digits_value(s: Seq<char>) -> nat
    decreases s.len(),
{
    if s.len() == 0 { 0 } else { digits_value(s.drop_last()) * 10 + digit_value(s.last()) }
}

/// `s` without one leading plus sign.
pub open spec fn unsigned_body(s: Seq<char>) -> Seq<char> {
    if s.len() > 0 && s[0] == '+' { s.drop_first() } else { s }
}

/// Whether `s` is an unsigned decimal number of at most `max`: an
/// optional plus sign, then one or more digits and nothing else.
pub open spec fn parses_unsigned(s: Seq<char>, max: nat) -> bool {
    let b = unsigned_body(s);
    &&& b.len() > 0
    &&& forall|i: int| 0 <= i < b.len() ==> is_digit(#[trigger] b[i])
    &&& digits_value(b) <= max
}

/// Appending digits never lowers the value.
pub proof fn lemma_digits_value_grows(s: Seq<char>, k: int)
    requires
        0 <= k <= s.len(),
    ensures
        digits_value(s.take(k)) <= digits_value(s),
    decreases s.len() - k,
{
    if k < s.len() {
        lemma_digits_value_grows(s, k + 1);
        assert(s.take(k + 1).drop_last() =~= s.take(k));
    } else {
        assert(s.take(k) =~= s);
    }
}

/// Parse an unsigned decimal number no larger than `max`, as the standard
/// library parses unsigned integers: an optional `+`, then digits only.
pub fn parse_unsigned(s: &str, max: u64) -> (r: Option<u64>)
    ensures
        parses_unsigned(s@, max as nat) ==> r == Some(digits_value(unsigned_body(s@)) as u64),
        !parses_unsigned(s@, max as nat) ==> r is None,
{
    let n = s.unicode_len();
    let mut start: usize = 0;
    if n > 0 && s.get_char(0) == '+' {
        start = 1;
    }
    let ghost b = unsigned_body(s@);
    assert(b =~= s@.subrange(start as int, n as int));
    if start >= n {
        return None;
    }
    let mut acc: u64 = 0;
    let mut i: usize = start;
    while i < n
        invariant
            n == s@.len(),
            start <= i <= n,
            b == s@.subrange(start as int, n as int),
            b == unsigned_body(s@),
            forall|j: int| 0 <= j < i - start ==> is_digit(#[trigger] b[j]),
            acc as nat == digits_value(b.take(i - start)),
            acc <= max,
        decreases n - i,
    {
        let c = s.get_char(i);
        assert(c == b[i - start]);
        if c < '0' || c > '9' {
            assert(!is_digit(b[i - start]));
            return None;
        }
        let d = (c as u32 - '0' as u32) as u64;
        assert(b.take(i - start + 1).drop_last() =~= b.take(i - start));
        let next = match acc.checked_mul(10) {
            Some(m) => m.checked_add(d),
            None => None,
        };
        match next {
            Some(v) if v <= max => {
                acc = v;
            },
            _ => {
                proof {
                    let k = i - start + 1;
                    lemma_digits_value_grows(b, k);
                    assert(b.take(k).last() == c);
                    assert(digits_value(b.take(k)) == digits_value(b.take(k).drop_last()) * 10 + digit_value(c));
                    assert(digits_value(b.take(k)) == acc * 10 + d);
                    assert(digits_value(b) > max);
                }
                return None;
            },
        }
        i = i + 1;
    }
    assert(b.take(i - start) =~= b);
    Some(acc)
}

/// Whether `c` is white space in the Unicode sense used by `str::trim`.
pub open spec fn is_white_space(c: char) -> bool {
    let v = c as u32;
    (0x09 <= v <= 0x0D) || v == 0x20 || v == 0x85 || v == 0xA0 || v == 0x1680 || (0x2000 <= v <= 0x200A)
        || v == 0x2028 || v == 0x2029 || v == 0x202F || v == 0x205F || v == 0x3000
}

/// Whether `c` is white space.
pub fn white_space(c: char) -> (r: bool)
    ensures
        r == is_white_space(c),
{
    let v = c as u32;
    (0x09 <= v && v <= 0x0D) || v == 0x20 || v == 0x85 || v == 0xA0 || v == 0x1680 || (0x2000 <= v && v <= 0x200A)
        || v == 0x2028 || v == 0x2029 || v == 0x202F || v == 0x205F || v == 0x3000
}

/// `s` without leading and trailing white space.
pub open spec fn trimmed(s: Seq<char>) -> Seq<char> {
    if forall|i: int| 0 <= i < s.len() ==> is_white_space(#[trigger] s[i]) {
        Seq::empty()
    } else {
        let a = choose|a: int| 0 <= a < s.len() && !is_white_space(s[a]) && forall|i: int| 0 <= i < a ==> is_white_space(#[trigger] s[i]);
        let b = choose|b: int| 0 <= b < s.len() && !is_white_space(s[b]) && forall|i: int| b < i < s.len() ==> is_white_space(#[trigger] s[i]);
        s.subrange(a, b + 1)
    }
}

/// `s` without leading and trailing white space.
pub fn trim_text(s: &str) -> (r: String)
    ensures
        r@ == trimmed(s@),
{
    let n = s.unicode_len();
    let mut a: usize = 0;
    while a < n && white_space(s.get_char(a))
        invariant
            n == s@.len(),
            a <= n,
            forall|i: int| 0 <= i < a ==> is_white_space(#[trigger] s@[i]),
        decreases n - a,
    {
        a = a + 1;
    }
    if a == n {
        return String::new();
    }
    let mut b: usize = n - 1;
    while b > a && white_space(s.get_char(b))
        invariant
            n == s@.len(),
            a < n,
            !is_white_space(s@[a as int]),
            a <= b < n,
            forall|i: int| b < i < n ==> is_white_space(#[trigger] s@[i]),
        decreases b,
    {
        b = b - 1;
    }
    proof {
        let aa = choose|x: int| 0 <= x < s@.len() && !is_white_space(s@[x]) && forall|i: int| 0 <= i < x ==> is_white_space(#[trigger] s@[i]);
        if aa < a { } else if aa > a { assert(is_white_space(s@[a as int])); }
        let bb = choose|x: int| 0 <= x < s@.len() && !is_white_space(s@[x]) && forall|i: int| x < i < s@.len() ==> is_white_space(#[trigger] s@[i]);
        if bb < b { assert(is_white_space(s@[b as int])); } else if bb > b { }
    }
    String::from_str(s.substring_char(a, b + 1))
}

} // verus!
