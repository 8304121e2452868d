//! Verified string-building primitives: decimal rendering of integers,
//! character-level bridges between `String` and `Vec<char>`, joining with a
//! separator, zero padding, and a byte-length lemma used by the batch sizing
//! proofs.

use vstd::prelude::*;
use vstd::string::*;
use vstd::utf8::encode_utf8;

verus! {

/// The UTF-8 byte length of a character sequence, the measure the packet
/// budget is stated in.
pub open spec fn byte_len(s: Seq<char>) -> nat {
    encode_utf8(s).len()
}

/// UTF-8 encoding distributes over concatenation, so byte lengths add up.
pub proof fn lemma_byte_len_concat(a: Seq<char>, b: Seq<char>)
    ensures
        byte_len(a + b) == byte_len(a) + byte_len(b),
    decreases a.len(),
{
    if a.len() == 0 {
        assert(a + b =~= b);
    } else {
        assert((a + b).drop_first() =~= a.drop_first() + b);
        lemma_byte_len_concat(a.drop_first(), b);
    }
}

/// The empty text has no bytes.
pub proof fn lemma_byte_len_empty()
    ensures
        byte_len(Seq::<char>::empty()) == 0,
{
}

/// An ASCII character encodes as one byte.
pub proof fn lemma_byte_len_ascii_char(c: char)
    requires
        (c as u32) < 128,
    ensures
        byte_len(seq![c]) == 1,
{
    let s = seq![c];
    assert(s.len() == 1);
    assert(s[0] == c);
    assert(s.drop_first() =~= Seq::<char>::empty());
    assert(encode_utf8(s.drop_first()) =~= Seq::<u8>::empty());
    assert(vstd::utf8::has_width_1_encoding(c as u32));
    assert(vstd::utf8::encode_scalar(c as u32).len() == 1);
    assert(encode_utf8(s) =~= vstd::utf8::encode_scalar(c as u32) + encode_utf8(s.drop_first()));
}

/// The decimal digit character for `d` in `0..10`.
pub open spec fn dec_digit_char(d: int) -> char {
    if d == 0 { '0' }
    else if d == 1 { '1' }
    else if d == 2 { '2' }
    else if d == 3 { '3' }
    else if d == 4 { '4' }
    else if d == 5 { '5' }
    else if d == 6 { '6' }
    else if d == 7 { '7' }
    else if d == 8 { '8' }
    else { '9' }
}

/// The decimal digit string of `n`, without sign and without leading zeros
/// (a single `'0'` for zero).
pub open spec fn dec_str(n: nat) -> Seq<char>
    decreases n,
{
    if n < 10 {
        seq![dec_digit_char(n as int)]
    } else {
        dec_str(n / 10) + seq![dec_digit_char((n % 10) as int)]
    }
}

/// The decimal digit string of `n`, with a leading `'-'` when `n` is negative.
pub open spec fn dec_str_signed(n: int) -> Seq<char> {
    if n < 0 {
        seq!['-'] + dec_str((-n) as nat)
    } else {
        dec_str(n as nat)
    }
}

/// `s` left-padded with `'0'` up to width `w`.
pub open spec fn zero_pad_left(s: Seq<char>, w: nat) -> Seq<char> {
    if s.len() >= w {
        s
    } else {
        Seq::new((w - s.len()) as nat, |i: int| '0') + s
    }
}

/// `s` right-padded with `'0'` up to width `w`.
pub open spec fn zero_pad_right(s: Seq<char>, w: nat) -> Seq<char> {
    if s.len() >= w {
        s
    } else {
        s + Seq::new((w - s.len()) as nat, |i: int| '0')
    }
}

/// `parts` joined with the separator `sep` between consecutive elements.
pub open spec fn join_seqs(parts: Seq<Seq<char>>, sep: Seq<char>) -> Seq<char>
    decreases parts.len(),
{
    if parts.len() == 0 {
        Seq::empty()
    } else if parts.len() == 1 {
        parts[0]
    } else {
        parts[0] + sep + join_seqs(parts.drop_first(), sep)
    }
}

/// Relies on `String::push`: appends exactly the one character.
#[verifier::external_body]
pub(crate) fn push_char(s: &mut String, c: char)
    ensures
        final(s)@ == old(s)@.push(c),
{
    s.push(c);
}

/// The digit character of `d`.
pub fn digit_char(d: u8) -> (c: char)
    requires
        d < 10,
    ensures
        c == dec_digit_char(d as int),
{
    if d == 0 { '0' }
    else if d == 1 { '1' }
    else if d == 2 { '2' }
    else if d == 3 { '3' }
    else if d == 4 { '4' }
    else if d == 5 { '5' }
    else if d == 6 { '6' }
    else if d == 7 { '7' }
    else if d == 8 { '8' }
    else { '9' }
}

/// Appends the decimal digits of `n` to `s`.
pub fn push_dec_u128(s: &mut String, n: u128)
    ensures
        final(s)@ == old(s)@ + dec_str(n as nat),
    decreases n,
{
    if n >= 10 {
        push_dec_u128(s, n / 10);
        push_char(s, digit_char((n % 10) as u8));
        assert(s@ =~= old(s)@ + dec_str(n as nat));
    } else {
        push_char(s, digit_char(n as u8));
        assert(s@ =~= old(s)@ + dec_str(n as nat));
    }
}

/// Appends the decimal rendering of `n`, with a `'-'` sign when negative.
pub fn push_dec_i128(s: &mut String, n: i128)
    requires
        n > i128::MIN,
    ensures
        final(s)@ == old(s)@ + dec_str_signed(n as int),
{
    if n < 0 {
        push_char(s, '-');
        push_dec_u128(s, (-n) as u128);
        assert(s@ =~= old(s)@ + dec_str_signed(n as int));
    } else {
        push_dec_u128(s, n as u128);
    }
}

/// The decimal rendering of `n`.
pub fn u128_to_string(n: u128) -> (r: String)
    ensures
        r@ == dec_str(n as nat),
{
    let mut s = String::new();
    push_dec_u128(&mut s, n);
    assert(s@ =~= dec_str(n as nat));
    s
}

/// The decimal rendering of `n`.
pub fn u64_to_string(n: u64) -> (r: String)
    ensures
        r@ == dec_str(n as nat),
{
    u128_to_string(n as u128)
}

/// The decimal rendering of `n`, with sign.
pub fn i128_to_string(n: i128) -> (r: String)
    requires
        n > i128::MIN,
    ensures
        r@ == dec_str_signed(n as int),
{
    let mut s = String::new();
    push_dec_i128(&mut s, n);
    assert(s@ =~= dec_str_signed(n as int));
    s
}

/// The decimal rendering of `n`, with sign.
pub fn i64_to_string(n: i64) -> (r: String)
    ensures
        r@ == dec_str_signed(n as int),
{
    i128_to_string(n as i128)
}

/// Appends the decimal digits of `n` left-padded with zeros to width `w`.
pub fn push_dec_u64_padded(s: &mut String, n: u64, w: usize)
    ensures
        final(s)@ == old(s)@ + zero_pad_left(dec_str(n as nat), w as nat),
{
    let digits = u128_to_string(n as u128);
    let len = digits.as_str().unicode_len();
    let target: usize = if w > len { w - len } else { 0 };
    let mut pad: usize = 0;
    while pad < target
        invariant
            len == dec_str(n as nat).len(),
            target == (if w > len { w - len } else { 0 }),
            pad <= target,
            s@ == old(s)@ + Seq::new(pad as nat, |i: int| '0'),
        decreases target - pad,
    {
        push_char(s, '0');
        pad = pad + 1;
        assert(s@ =~= old(s)@ + Seq::new(pad as nat, |i: int| '0'));
    }
    s.append(digits.as_str());
    assert(s@ =~= old(s)@ + zero_pad_left(dec_str(n as nat), w as nat));
}

/// Appends the decimal digits of `n` right-padded with zeros to width `w`.
pub fn push_dec_u128_right_padded(s: &mut String, n: u128, w: usize)
    ensures
        final(s)@ == old(s)@ + zero_pad_right(dec_str(n as nat), w as nat),
{
    let digits = u128_to_string(n);
    let len = digits.as_str().unicode_len();
    s.append(digits.as_str());
    let target: usize = if w > len { w - len } else { 0 };
    let mut pad: usize = 0;
    proof {
        assert(s@ =~= old(s)@ + dec_str(n as nat) + Seq::new(0, |i: int| '0'));
    }
    while pad < target
        invariant
            len == dec_str(n as nat).len(),
            target == (if w > len { w - len } else { 0 }),
            pad <= target,
            s@ == old(s)@ + dec_str(n as nat) + Seq::new(pad as nat, |i: int| '0'),
        decreases target - pad,
    {
        push_char(s, '0');
        pad = pad + 1;
        assert(s@ =~= old(s)@ + dec_str(n as nat) + Seq::new(pad as nat, |i: int| '0'));
    }
    assert(s@ =~= old(s)@ + zero_pad_right(dec_str(n as nat), w as nat));
}

/// The characters of `s`, in order.
pub fn str_to_chars(s: &str) -> (r: Vec<char>)
    ensures
        r@ == s@,
{
    let n = s.unicode_len();
    let mut r: Vec<char> = Vec::new();
    let mut i: usize = 0;
    while i < n
        invariant
            n == s@.len(),
            i <= n,
            r@ == s@.take(i as int),
        decreases n - i,
    {
        r.push(s.get_char(i));
        i = i + 1;
        assert(r@ =~= s@.take(i as int));
    }
    assert(s@.take(n as int) =~= s@);
    r
}

/// A `String` holding exactly the characters of `v`.
pub fn chars_to_string(v: &Vec<char>) -> (r: String)
    ensures
        r@ == v@,
{
    let mut r = String::new();
    let mut i: usize = 0;
    while i < v.len()
        invariant
            i <= v@.len(),
            r@ == v@.take(i as int),
        decreases v@.len() - i,
    {
        push_char(&mut r, v[i]);
        i = i + 1;
        assert(r@ =~= v@.take(i as int));
    }
    assert(v@.take(v@.len() as int) =~= v@);
    r
}

/// Whether two string slices hold the same characters.
pub fn str_eq(a: &str, b: &str) -> (r: bool)
    ensures
        r == (a@ == b@),
{
    let na = a.unicode_len();
    let nb = b.unicode_len();
    if na != nb {
        return false;
    }
    let mut i: usize = 0;
    while i < na
        invariant
            na == a@.len(),
            na == b@.len(),
            i <= na,
            forall|j: int| 0 <= j < i ==> a@[j] == b@[j],
        decreases na - i,
    {
        if a.get_char(i) != b.get_char(i) {
            return false;
        }
        i = i + 1;
    }
    proof {
        assert(a@ =~= b@);
    }
    true
}

/// `parts` joined into one `String` with `sep` between elements.
pub fn join_strings(parts: &Vec<String>, sep: &str) -> (r: String)
    ensures
        r@ == join_seqs(parts@.map_values(|p: String| p@), sep@),
{
    let ghost views = parts@.map_values(|p: String| p@);
    let mut r = String::new();
    let mut i: usize = 0;
    while i < parts.len()
        invariant
            views == parts@.map_values(|p: String| p@),
            i <= parts@.len(),
            i == 0 ==> r@.len() == 0,
            i > 0 ==> r@ == join_seqs(views.take(i as int), sep@),
        decreases parts@.len() - i,
    {
        if i > 0 {
            r.append(sep);
        }
        r.append(parts[i].as_str());
        proof {
            lemma_join_take_step(views, sep@, i as int);
        }
        i = i + 1;
    }
    proof {
        if parts@.len() > 0 {
            assert(views.take(parts@.len() as int) =~= views);
        } else {
            assert(r@ =~= join_seqs(views, sep@));
        }
    }
    r
}

/// Appending one more part extends a join by the separator and that part.
proof fn lemma_join_take_step(parts: Seq<Seq<char>>, sep: Seq<char>, i: int)
    requires
        0 <= i < parts.len(),
    ensures
        i == 0 ==> join_seqs(parts.take(1), sep) == parts[0],
        i > 0 ==> join_seqs(parts.take(i + 1), sep) == join_seqs(parts.take(i), sep) + sep
            + parts[i],
    decreases i,
{
    if i == 0 {
        assert(parts.take(1).len() == 1);
        assert(join_seqs(parts.take(1), sep) == parts.take(1)[0]);
    } else {
        let a = parts.take(i + 1);
        assert(a.len() >= 2);
        assert(a.drop_first() =~= parts.drop_first().take(i));
        assert(parts.take(i).drop_first() =~= parts.drop_first().take(i - 1));
        lemma_join_take_step(parts.drop_first(), sep, i - 1);
        if i == 1 {
            assert(join_seqs(parts.take(2), sep) == parts[0] + sep + join_seqs(
                parts.drop_first().take(1),
                sep,
            ));
            assert(join_seqs(parts.take(1), sep) == parts.take(1)[0]);
            assert(parts.take(1)[0] == parts[0]);
        } else {
            assert(join_seqs(a, sep) == a[0] + sep + join_seqs(a.drop_first(), sep));
            assert(join_seqs(parts.take(i), sep) == parts[0] + sep + join_seqs(
                parts.take(i).drop_first(),
                sep,
            ));
        }
    }
}

} // verus!
