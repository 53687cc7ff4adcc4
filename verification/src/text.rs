//! Text decoding shared by the parsers: UTF-8 with replacement, and the
//! byte-wise XOR used to hide strings in IES files.

use vstd::prelude::*;
use std::string::FromUtf8Error;

verus! {

/// The characters that `String::from_utf8_lossy` decodes from `bytes`.
pub uninterp spec fn lossy_utf8(bytes: Seq<u8>) -> Seq<char>;

/// `String::from_utf8_lossy(bytes).into_owned()`. What the standard library
/// documents is stated: the result is the named decoding of `bytes`, and on
/// valid UTF-8 it is exactly the decoded text. How invalid sequences are
/// replaced is not stated.
#[verifier::external_body]
pub fn utf8_lossy(bytes: &[u8]) -> (s: String)
    ensures
        s@ == lossy_utf8(bytes@),
        vstd::utf8::valid_utf8(bytes@) ==> s@ == vstd::utf8::decode_utf8(bytes@),
{
    String::from_utf8_lossy(bytes).into_owned()
}

/// What decoding `bytes` with replacement gives, as far as it is stated:
/// the decoded text where `bytes` is valid UTF-8, else the named decoding.
pub open spec fn decoded_text(bytes: Seq<u8>) -> Seq<char> {
    if vstd::utf8::valid_utf8(bytes) {
        vstd::utf8::decode_utf8(bytes)
    } else {
        lossy_utf8(bytes)
    }
}

#[verifier::external_type_specification]
#[verifier::external_body]
pub struct ExFromUtf8Error(FromUtf8Error);

/// `String::from_utf8(bytes)`: succeeds exactly on valid UTF-8, with the
/// decoded text, as the standard library documents.
#[verifier::external_body]
pub fn utf8_strict(bytes: Vec<u8>) -> (res: Result<String, FromUtf8Error>)
    ensures
        res is Ok <==> vstd::utf8::valid_utf8(bytes@),
        res matches Ok(s) ==> s@ == vstd::utf8::decode_utf8(bytes@),
{
    String::from_utf8(bytes)
}

/// The text made of the characters of `chars`, in order
/// (`chars.iter().collect::<String>()`).
#[verifier::external_body]
pub fn string_from_chars(chars: &[char]) -> (s: String)
    ensures
        s@ == chars@,
{
    chars.iter().collect()
}

/// The characters of `s`, in order.
pub fn chars_of(s: &str) -> (r: Vec<char>)
    ensures
        r@ == s@,
{
    broadcast use vstd::string::group_string_axioms;
    let mut r: Vec<char> = Vec::new();
    for c in it: s.chars()
        invariant
            r@ == it.seq().take(it.index() as int),
    {
        r.push(c);
    }
    r
}


/// Whether `trim_unprintable_end` keeps `c` at the end of a text: ASCII
/// graphic characters and ASCII whitespace (space, tab, line feed, form
/// feed, carriage return).
pub open spec fn kept_at_end(c: char) -> bool {
    (0x21 <= (c as u32) <= 0x7E) || c as u32 == 0x20 || c as u32 == 0x09 || c as u32 == 0x0A
        || c as u32 == 0x0C || c as u32 == 0x0D
}

/// `s` without its trailing characters that are not `kept_at_end`.
pub open spec fn trim_unkept(s: Seq<char>) -> Seq<char>
    decreases s.len(),
{
    if s.len() > 0 && !kept_at_end(s.last()) {
        trim_unkept(s.drop_last())
    } else {
        s
    }
}

/// `s` without its trailing NUL characters.
pub open spec fn trim_nul(s: Seq<char>) -> Seq<char>
    decreases s.len(),
{
    if s.len() > 0 && s.last() == '\0' {
        trim_nul(s.drop_last())
    } else {
        s
    }
}

/// Every byte of `b` with its lowest bit flipped.
pub open spec fn xor1(b: Seq<u8>) -> Seq<u8> {
    b.map_values(|x: u8| x ^ 1u8)
}

fn keeps_at_end(c: char) -> (r: bool)
    ensures
        r == kept_at_end(c),
{
    let u = c as u32;
    (0x21 <= u && u <= 0x7E) || u == 0x20 || u == 0x09 || u == 0x0A || u == 0x0C || u == 0x0D
}

/// `s.trim_end_matches(|c| !c.is_ascii_graphic() && !c.is_ascii_whitespace())`.
pub fn trim_unprintable_end(s: &str) -> (r: String)
    ensures
        r@ == trim_unkept(s@),
{
    let mut chars = chars_of(s);
    let mut end = chars.len();
    assert(chars@.subrange(0, end as int) =~= s@);
    while end > 0 && !keeps_at_end(chars[end - 1])
        invariant
            end <= chars@.len(),
            chars@ == s@,
            trim_unkept(s@) == trim_unkept(chars@.subrange(0, end as int)),
        decreases end,
    {
        assert(chars@.subrange(0, end as int).drop_last() =~= chars@.subrange(0, end - 1));
        end = end - 1;
    }
    chars.truncate(end);
    string_from_chars(chars.as_slice())
}

/// `s.trim_end_matches('\0')`.
pub fn trim_nul_end(s: &str) -> (r: String)
    ensures
        r@ == trim_nul(s@),
{
    let mut chars = chars_of(s);
    let mut end = chars.len();
    assert(chars@.subrange(0, end as int) =~= s@);
    while end > 0 && chars[end - 1] == '\0'
        invariant
            end <= chars@.len(),
            chars@ == s@,
            trim_nul(s@) == trim_nul(chars@.subrange(0, end as int)),
        decreases end,
    {
        assert(chars@.subrange(0, end as int).drop_last() =~= chars@.subrange(0, end - 1));
        end = end - 1;
    }
    chars.truncate(end);
    string_from_chars(chars.as_slice())
}

/// The bytes of `b`, each with its lowest bit flipped.
pub fn xor_bytes(b: &[u8]) -> (r: Vec<u8>)
    ensures
        r@ == xor1(b@),
{
    let mut r: Vec<u8> = Vec::new();
    let mut i: usize = 0;
    while i < b.len()
        invariant
            i <= b@.len(),
            r@ == xor1(b@.take(i as int)),
        decreases b@.len() - i,
    {
        r.push(b[i] ^ 1u8);
        i = i + 1;
        assert(r@ =~= xor1(b@.take(i as int)));
    }
    assert(b@.take(i as int) =~= b@);
    r
}

/// Flipping the lowest bit twice restores every byte.
pub proof fn lemma_xor1_involution(b: Seq<u8>)
    ensures
        xor1(xor1(b)) == b,
{
    assert forall|i: int| 0 <= i < b.len() implies #[trigger] xor1(xor1(b))[i] == b[i] by {
        let x = b[i];
        assert((x ^ 1u8) ^ 1u8 == x) by (bit_vector);
    }
    assert(xor1(xor1(b)) =~= b);
}

/// The characters of `str::to_lowercase` applied to a text of the
/// characters `s`.
pub uninterp spec fn lowercase(s: Seq<char>) -> Seq<char>;

/// An ASCII character lowercased: `A`..`Z` become `a`..`z`.
pub open spec fn ascii_lower(c: char) -> char {
    if 'A' <= c <= 'Z' {
        ((c as u32) + 32) as char
    } else {
        c
    }
}

/// All characters of `s` are ASCII.
pub open spec fn all_ascii(s: Seq<char>) -> bool {
    forall|i: int| 0 <= i < s.len() ==> (s[i] as u32) < 128
}

/// `s.to_lowercase()`. The result is the named lowercase mapping of `s`;
/// on ASCII text it lowers exactly the letters `A`..`Z`, as the Unicode
/// mapping that the standard library documents does. The mapping of other
/// characters is not stated.
#[verifier::external_body]
pub fn to_lowercase(s: &str) -> (r: String)
    ensures
        r@ == lowercase(s@),
        all_ascii(s@) ==> r@ == s@.map_values(|c: char| ascii_lower(c)),
{
    s.to_lowercase()
}

/// `needle` occurs in `hay` as a run of consecutive characters.
pub open spec fn seq_contains(hay: Seq<char>, needle: Seq<char>) -> bool {
    exists|i: int| 0 <= i && i + needle.len() <= hay.len() && #[trigger] hay.subrange(i, i + needle.len()) == needle
}

/// Whether `hay[at..]` starts with `needle`.
pub(crate) fn matches_at(hay: &[char], needle: &[char], at: usize) -> (r: bool)
    requires
        at + needle@.len() <= hay@.len(),
    ensures
        r == (hay@.subrange(at as int, at + needle@.len()) == needle@),
{
    let mut j: usize = 0;
    while j < needle.len()
        invariant
            at + needle@.len() <= hay.len(),
            j <= needle@.len(),
            forall|k: int| 0 <= k < j ==> hay@[at + k] == needle@[k],
        decreases needle@.len() - j,
    {
        if hay[at + j] != needle[j] {
            assert(hay@.subrange(at as int, at + needle@.len())[j as int] != needle@[j as int]);
            return false;
        }
        j = j + 1;
    }
    assert(hay@.subrange(at as int, at + needle@.len()) =~= needle@);
    true
}

/// `hay.contains(needle)` on texts given by their characters.
pub fn contains_chars(hay: &[char], needle: &[char]) -> (r: bool)
    ensures
        r == seq_contains(hay@, needle@),
{
    if needle.len() > hay.len() {
        return false;
    }
    let last = hay.len() - needle.len();
    let mut i: usize = 0;
    loop
        invariant
            last + needle@.len() == hay@.len(),
            i <= last,
            forall|k: int| 0 <= k < i ==> #[trigger] hay@.subrange(k, k + needle@.len()) != needle@,
        decreases last - i,
    {
        if matches_at(hay, needle, i) {
            return true;
        }
        if i == last {
            return false;
        }
        i = i + 1;
    }
}

/// The decimal digit `d`.
pub open spec fn digit_char(d: int) -> char {
    if d == 0 { '0' } else if d == 1 { '1' } else if d == 2 { '2' } else if d == 3 { '3' } else if d == 4 { '4' }
    else if d == 5 { '5' } else if d == 6 { '6' } else if d == 7 { '7' } else if d == 8 { '8' } else { '9' }
}

/// The decimal digits of `n`.
pub open spec fn nat_digits(n: nat) -> Seq<char>
    decreases n,
{
    if n < 10 {
        seq![digit_char(n as int)]
    } else {
        nat_digits(n / 10).push(digit_char((n % 10) as int))
    }
}

/// `v` in decimal, with a leading minus sign when negative (`to_string`).
pub open spec fn decimal_text(v: int) -> Seq<char> {
    if v < 0 {
        seq!['-'] + nat_digits((-v) as nat)
    } else {
        nat_digits(v as nat)
    }
}

/// Appends the decimal digits of `n`.
pub(crate) fn push_digits(n: u64, out: &mut Vec<char>)
    ensures
        final(out)@ == old(out)@ + nat_digits(n as nat),
    decreases n,
{
    if n >= 10 {
        push_digits(n / 10, out);
    }
    let d = n % 10;
    let c = if d == 0 { '0' } else if d == 1 { '1' } else if d == 2 { '2' } else if d == 3 { '3' } else if d == 4 { '4' }
        else if d == 5 { '5' } else if d == 6 { '6' } else if d == 7 { '7' } else if d == 8 { '8' } else { '9' };
    out.push(c);
    proof {
        if n >= 10 {
            assert(nat_digits(n as nat) == nat_digits((n / 10) as nat).push(digit_char((n % 10) as int)));
        }
    }
}

/// `v` in decimal (`v.to_string()`).
pub fn decimal_string(v: i32) -> (r: String)
    ensures
        r@ == decimal_text(v as int),
{
    let mut out: Vec<char> = Vec::new();
    if v < 0 {
        out.push('-');
        let m: u64 = if v == i32::MIN { 2147483648u64 } else { (-v) as u64 };
        push_digits(m, &mut out);
    } else {
        push_digits(v as u64, &mut out);
    }
    string_from_chars(out.as_slice())
}

/// `v` in decimal (`v.to_string()`).
pub fn decimal_u64(v: u64) -> (r: String)
    ensures
        r@ == nat_digits(v as nat),
{
    let mut out: Vec<char> = Vec::new();
    push_digits(v, &mut out);
    proof {
        assert(Seq::<char>::empty() + nat_digits(v as nat) =~= nat_digits(v as nat));
    }
    string_from_chars(out.as_slice())
}


/// `s` ends with `e`.
pub open spec fn ends_with(s: Seq<char>, e: Seq<char>) -> bool {
    s.len() >= e.len() && s.subrange(s.len() - e.len(), s.len() as int) == e
}

/// `path`, lowercased, ends with `ext`: how a file's kind is told from its
/// name.
pub fn lower_ends_with(path: &str, ext: &str) -> (r: bool)
    ensures
        r == ends_with(lowercase(path@), ext@),
{
    let lower = to_lowercase(path);
    let c = chars_of(lower.as_str());
    let e = chars_of(ext);
    if c.len() < e.len() {
        return false;
    }
    let off = c.len() - e.len();
    let ghost tail = c@.subrange(off as int, c@.len() as int);
    let mut i: usize = 0;
    while i < e.len()
        invariant
            c@ == lowercase(path@),
            e@ == ext@,
            c@.len() <= usize::MAX,
            off + e@.len() == c@.len(),
            i <= e@.len(),
            tail == c@.subrange(off as int, c@.len() as int),
            forall|k: int| 0 <= k < i ==> tail[k] == e@[k],
        decreases e@.len() - i,
    {
        if c[off + i] != e[i] {
            proof {
                assert(tail[i as int] != e@[i as int]);
            }
            return false;
        }
        i = i + 1;
    }
    proof {
        assert(tail =~= e@);
    }
    true
}

} // verus!
