use vstd::prelude::*;

verus! {

/// The characters of a string, in order. Calls `str::chars` and collects them into a `Vec`;
/// a `Vec` never holds more than `isize::MAX` bytes, so neither more characters.
#[verifier::external_body]
pub(crate) fn chars_of(s: &str) -> (r: Vec<char>)
    ensures
        r@ == s@,
        r@.len() <= isize::MAX,
{
    s.chars().collect()
}

/// The string made of the given characters. Calls `String::from_iter` on them.
#[verifier::external_body]
pub(crate) fn string_from_chars(v: &Vec<char>) -> (r: String)
    ensures
        r@ == v@,
{
    v.iter().collect()
}

} // verus!

verus! {

/// The decimal digit character for `d < 10`.
pub open spec fn digit_char(d: nat) -> char {
    (d + 0x30) as char
}

/// The decimal representation of a natural number, without leading zeros.
pub open spec fn decimal(n: nat) -> Seq<char>
    decreases n,
{
    if n < 10 {
        seq![digit_char(n)]
    } else {
        decimal(n / 10).push(digit_char(n % 10))
    }
}

/// The decimal representation of an integer, with a leading `-` when it is negative.
pub open spec fn int_text(i: int) -> Seq<char> {
    if i < 0 {
        seq!['-'] + decimal((-i) as nat)
    } else {
        decimal(i as nat)
    }
}

/// The decimal representation of `n`, padded with zeros on the left to at least `width` digits.
pub open spec fn zero_padded(n: nat, width: nat) -> Seq<char> {
    let d = decimal(n);
    if d.len() < width {
        Seq::new((width - d.len()) as nat, |i: int| '0') + d
    } else {
        d
    }
}

fn digit(d: u64) -> (c: char)
    requires
        d < 10,
    ensures
        c == digit_char(d as nat),
{
    if d == 0 {
        '0'
    } else if d == 1 {
        '1'
    } else if d == 2 {
        '2'
    } else if d == 3 {
        '3'
    } else if d == 4 {
        '4'
    } else if d == 5 {
        '5'
    } else if d == 6 {
        '6'
    } else if d == 7 {
        '7'
    } else if d == 8 {
        '8'
    } else {
        '9'
    }
}

/// Appends the decimal representation of `n`.
pub fn push_decimal(out: &mut Vec<char>, n: u64)
    ensures
        final(out)@ == old(out)@ + decimal(n as nat),
    decreases n,
{
    if n >= 10 {
        push_decimal(out, n / 10);
    }
    out.push(digit(n % 10));
    assert(final(out)@ =~= old(out)@ + decimal(n as nat));
}

/// Appends the decimal representation of `i`, with a leading `-` when it is negative.
pub fn push_int(out: &mut Vec<char>, i: i64)
    ensures
        final(out)@ == old(out)@ + int_text(i as int),
{
    if i < 0 {
        out.push('-');
        let magnitude: u64 = if i == i64::MIN {
            9223372036854775808u64
        } else {
            (-i) as u64
        };
        push_decimal(out, magnitude);
        assert(final(out)@ =~= old(out)@ + int_text(i as int));
    } else {
        push_decimal(out, i as u64);
    }
}

proof fn lemma_decimal_len_small(n: nat)
    ensures
        n < 10 ==> decimal(n).len() == 1,
        10 <= n < 100 ==> decimal(n).len() == 2,
        100 <= n < 1000 ==> decimal(n).len() == 3,
        1000 <= n ==> decimal(n).len() >= 4,
    decreases n,
{
    if n >= 10 {
        lemma_decimal_len_small(n / 10);
    }
}

/// Appends the decimal representation of `n`, padded with zeros on the left to four digits.
pub fn push_padded4(out: &mut Vec<char>, n: u64)
    ensures
        final(out)@ == old(out)@ + zero_padded(n as nat, 4),
{
    proof {
        lemma_decimal_len_small(n as nat);
    }
    let ghost before = out@;
    if n < 10 {
        out.push('0');
        out.push('0');
        out.push('0');
    } else if n < 100 {
        out.push('0');
        out.push('0');
    } else if n < 1000 {
        out.push('0');
    }
    push_decimal(out, n);
    assert(final(out)@ =~= before + zero_padded(n as nat, 4));
}

/// Appends the characters of `s`.
pub fn push_str(out: &mut Vec<char>, s: &str)
    ensures
        final(out)@ == old(out)@ + s@,
{
    let cs = chars_of(s);
    let mut i: usize = 0;
    while i < cs.len()
        invariant
            i <= cs@.len(),
            cs@ == s@,
            out@ == old(out)@ + cs@.take(i as int),
        decreases cs@.len() - i,
    {
        out.push(cs[i]);
        assert(out@ =~= old(out)@ + cs@.take(i + 1));
        i = i + 1;
    }
    assert(cs@.take(cs@.len() as int) =~= cs@);
}

/// Appends the characters of `v`.
pub fn push_chars(out: &mut Vec<char>, v: &Vec<char>)
    ensures
        final(out)@ == old(out)@ + v@,
{
    let mut i: usize = 0;
    while i < v.len()
        invariant
            i <= v@.len(),
            out@ == old(out)@ + v@.take(i as int),
        decreases v@.len() - i,
    {
        out.push(v[i]);
        assert(out@ =~= old(out)@ + v@.take(i + 1));
        i = i + 1;
    }
    assert(v@.take(v@.len() as int) =~= v@);
}

} // verus!

verus! {

/// The bytes of `s` from index `start` on. Indexes the slice with the range `start..`.
#[verifier::external_body]
pub(crate) fn slice_from(s: &[u8], start: usize) -> (r: &[u8])
    requires
        start <= s@.len(),
    ensures
        r@ == s@.subrange(start as int, s@.len() as int),
{
    &s[start..]
}

} // verus!

verus! {

/// What `str::escape_debug` makes of a string: quotes, backslashes and control characters
/// escaped, as `Debug` shows string contents.
pub uninterp spec fn escape_debug_spec(s: Seq<char>) -> Seq<char>;

/// The characters of `str::escape_debug` applied to `s`; their sequence is the named
/// `escape_debug_spec` of the characters of `s`.
#[verifier::external_body]
pub(crate) fn escape_debug(s: &str) -> (r: Vec<char>)
    ensures
        r@ == escape_debug_spec(s@),
{
    s.escape_debug().collect()
}

} // verus!

verus! {

/// How `Debug` shows a string: quoted, with quotes, backslashes and control characters escaped.
pub uninterp spec fn debug_str_spec(s: Seq<char>) -> Seq<char>;

/// The characters of the `Debug` form of `s` (`format!("{:?}", s)`), which is the named
/// `debug_str_spec` of its characters.
#[verifier::external_body]
pub(crate) fn debug_str(s: &str) -> (r: Vec<char>)
    ensures
        r@ == debug_str_spec(s@),
{
    format!("{:?}", s).chars().collect()
}

/// How `Debug` shows a character: in single quotes, escaped.
pub uninterp spec fn debug_char_spec(c: char) -> Seq<char>;

/// The characters of the `Debug` form of `c` (`format!("{:?}", c)`), which is the named
/// `debug_char_spec` of `c`.
#[verifier::external_body]
pub(crate) fn debug_char(c: char) -> (r: Vec<char>)
    ensures
        r@ == debug_char_spec(c),
{
    format!("{:?}", c).chars().collect()
}

} // verus!
