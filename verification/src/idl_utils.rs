//! Small text helpers that the IDL readers share: case conversion, decimal
//! numbers, and names written either as a string or as `{ "name": ... }`.
use vstd::prelude::*;

use crate::json::{
    entries_get_str,
    json_as_u64,
    lemma_object_view,
    object_get_str,
    string_push,
    JsonV,
    JsonValue,
};
use vstd::utf8::encode_utf8;

verus! {

pub open spec fn is_ascii_upper(c: char) -> bool {
    'A' <= c <= 'Z'
}

pub open spec fn ascii_lower(c: char) -> char {
    ((c as u32) + 32) as char
}

/// What one character of a camelCase name becomes in snake_case, given its
/// position: an upper-case letter is lowered, and, unless it comes first,
/// preceded by an underscore.
pub open spec fn snake_case_piece(c: char, position: int) -> Seq<char> {
    if is_ascii_upper(c) {
        if position > 0 {
            seq!['_', ascii_lower(c)]
        } else {
            seq![ascii_lower(c)]
        }
    } else {
        seq![c]
    }
}

/// The snake_case spelling of a camelCase name.
pub open spec fn snake_case(name: Seq<char>) -> Seq<char>
    decreases name.len(),
{
    if name.len() == 0 {
        Seq::empty()
    } else {
        snake_case(name.drop_last()) + snake_case_piece(name.last(), name.len() - 1)
    }
}

/// Whether a name holds no upper-case ASCII letter.
pub open spec fn no_ascii_upper(name: Seq<char>) -> bool {
    forall|i: int| 0 <= i < name.len() ==> !is_ascii_upper(#[trigger] name[i])
}

/// A snake_case spelling holds no upper-case letter.
pub proof fn lemma_snake_case_lower(name: Seq<char>)
    ensures
        no_ascii_upper(snake_case(name)),
    decreases name.len(),
{
    if name.len() > 0 {
        lemma_snake_case_lower(name.drop_last());
        let prev = snake_case(name.drop_last());
        let piece = snake_case_piece(name.last(), name.len() - 1);
        assert forall|i: int| 0 <= i < piece.len() implies !is_ascii_upper(#[trigger] piece[i]) by {}
        assert forall|i: int| 0 <= i < prev.len() + piece.len() implies !is_ascii_upper(
            #[trigger] (prev + piece)[i],
        ) by {
            if i >= prev.len() {
                assert((prev + piece)[i] == piece[i - prev.len()]);
            }
        }
    }
}

/// A name without upper-case letters is its own snake_case spelling.
pub proof fn lemma_snake_case_of_lower(name: Seq<char>)
    requires
        no_ascii_upper(name),
    ensures
        snake_case(name) == name,
    decreases name.len(),
{
    if name.len() > 0 {
        lemma_snake_case_of_lower(name.drop_last());
        assert(!is_ascii_upper(name[name.len() - 1]));
        assert(name.drop_last() + seq![name.last()] =~= name);
    }
}

/// Law: converting a name to snake_case twice gives what converting it once
/// gives.
pub proof fn law_snake_case_idempotent(name: Seq<char>)
    ensures
        snake_case(snake_case(name)) == snake_case(name),
{
    lemma_snake_case_lower(name);
    lemma_snake_case_of_lower(snake_case(name));
}

/// Converts a camelCase name to snake_case.
pub fn idl_convert_to_snake_case(name: &str) -> (r: String)
    ensures
        r@ == snake_case(name@),
{
    let n = name.unicode_len();
    let mut out = String::new();
    let mut i: usize = 0;
    while i < n
        invariant
            n == name@.len(),
            i <= n,
            out@ == snake_case(name@.take(i as int)),
        decreases n - i,
    {
        let c = name.get_char(i);
        proof {
            assert(name@.take(i + 1).drop_last() =~= name@.take(i as int));
        }
        if 'A' <= c && c <= 'Z' {
            if i > 0 {
                string_push(&mut out, '_');
            }
            let lower = ((c as u8) + 32) as char;
            string_push(&mut out, lower);
        } else {
            string_push(&mut out, c);
        }
        i = i + 1;
    }
    proof {
        assert(name@.take(n as int) =~= name@);
    }
    out
}

pub open spec fn digit_char(d: nat) -> char {
    ((d + 48) as u32) as char
}

/// The decimal spelling of a natural number.
pub open spec fn decimal(n: nat) -> Seq<char>
    decreases n,
{
    if n < 10 {
        seq![digit_char(n)]
    } else {
        decimal(n / 10).push(digit_char(n % 10))
    }
}

/// A digit's character has the digit's code.
pub proof fn lemma_digit_char(d: nat)
    requires
        d < 10,
    ensures
        digit_char(d) as u32 == d + 48,
        is_digit(digit_char(d)),
{
}

/// A decimal spelling is made of digits, is not empty, and spells the number.
pub proof fn lemma_decimal(n: nat)
    ensures
        decimal(n).len() > 0,
        all_digits(decimal(n)),
        digits_value(decimal(n)) == n,
        decimal(n)[0] != '+',
    decreases n,
{
    if n < 10 {
        lemma_digit_char(n);
        assert(decimal(n).drop_last() =~= Seq::<char>::empty());
        assert(digits_value(Seq::<char>::empty()) == 0);
        assert(digits_value(decimal(n)) == ((decimal(n).last() as u32) - 48) as nat);
    } else {
        lemma_digit_char(n % 10);
        lemma_decimal(n / 10);
        let d = decimal(n);
        assert(d.drop_last() =~= decimal(n / 10));
        assert forall|i: int| 0 <= i < d.len() implies #[trigger] is_digit(d[i]) by {
            if i < d.len() - 1 {
                assert(d[i] == decimal(n / 10)[i]);
            }
        }
        assert(d[0] == decimal(n / 10)[0]);
        assert(digits_value(d) == digits_value(decimal(n / 10)) * 10 + (n % 10));
        assert((n / 10) * 10 + n % 10 == n);
    }
}

/// The literal that a decimal spelling denotes is the number.
pub proof fn lemma_decimal_literal(n: u64)
    ensures
        u64_literal(decimal(n as nat)) == Some(n),
{
    lemma_decimal(n as nat);
}

/// Spells a number in decimal.
pub fn decimal_string(n: u64) -> (r: String)
    ensures
        r@ == decimal(n as nat),
    decreases n,
{
    if n < 10 {
        let mut s = String::new();
        string_push(&mut s, ((n as u8) + 48) as char);
        s
    } else {
        let mut s = decimal_string(n / 10);
        string_push(&mut s, (((n % 10) as u8) + 48) as char);
        s
    }
}

pub open spec fn is_digit(c: char) -> bool {
    '0' <= c <= '9'
}

pub open spec fn all_digits(s: Seq<char>) -> bool {
    forall|i: int| 0 <= i < s.len() ==> #[trigger] is_digit(s[i])
}

/// The number that a string of decimal digits spells.
pub open spec fn digits_value(s: Seq<char>) -> nat
    decreases s.len(),
{
    if s.len() == 0 {
        0
    } else {
        digits_value(s.drop_last()) * 10 + ((s.last() as u32) - 48) as nat
    }
}

/// The digits of an unsigned literal: the text after an optional leading `+`.
pub open spec fn literal_digits(s: Seq<char>) -> Seq<char> {
    if s.len() > 0 && s[0] == '+' {
        s.drop_first()
    } else {
        s
    }
}

/// The value of an unsigned 64-bit literal as the standard library reads one:
/// an optional `+`, then at least one decimal digit, and a value that fits.
pub open spec fn u64_literal(s: Seq<char>) -> Option<u64> {
    let digits = literal_digits(s);
    if digits.len() > 0 && all_digits(digits) && digits_value(digits) <= u64::MAX {
        Some(digits_value(digits) as u64)
    } else {
        None
    }
}

proof fn lemma_digits_value_prefix_le(s: Seq<char>, j: int)
    requires
        0 <= j <= s.len(),
        all_digits(s),
    ensures
        digits_value(s.take(j)) <= digits_value(s),
    decreases s.len() - j,
{
    if j < s.len() {
        lemma_digits_value_prefix_le(s, j + 1);
        assert(s.take(j + 1).drop_last() =~= s.take(j));
        assert(is_digit(s[j]));
    } else {
        assert(s.take(j) =~= s);
    }
}

/// Reads an unsigned 64-bit decimal literal.
pub fn parse_u64_literal(text: &str) -> (r: Option<u64>)
    ensures
        r == u64_literal(text@),
{
    let n = text.unicode_len();
    let mut start: usize = 0;
    if n > 0 && text.get_char(0) == '+' {
        start = 1;
    }
    let ghost digits = literal_digits(text@);
    proof {
        assert(digits =~= text@.skip(start as int));
    }
    if start >= n {
        return None;
    }
    let mut value: u64 = 0;
    let mut i: usize = start;
    while i < n
        invariant
            n == text@.len(),
            start <= i <= n,
            digits =~= text@.skip(start as int),
            digits == literal_digits(text@),
            all_digits(digits.take(i - start)),
            value as nat == digits_value(digits.take(i - start)),
        decreases n - i,
    {
        let c = text.get_char(i);
        proof {
            assert(digits.take(i - start + 1).drop_last() =~= digits.take(i - start));
            assert(digits.take(i - start + 1).last() == c);
        }
        if !('0' <= c && c <= '9') {
            proof {
                assert(digits[i - start] == c);
                assert(!is_digit(digits[i - start]));
            }
            return None;
        }
        let d = ((c as u32) - 48) as u64;
        if value > (u64::MAX - d) / 10 {
            proof {
                assert(digits[i - start] == c);
                assert(value * 10 + d > u64::MAX) by (nonlinear_arith)
                    requires
                        value > (u64::MAX - d) / 10,
                        d <= 9,
                ;
                assert(digits_value(digits.take(i - start + 1)) == value * 10 + d);
                assert(all_digits(digits.take(i - start + 1)));
                if all_digits(digits) {
                    lemma_digits_value_prefix_le(digits, i - start + 1);
                }
            }
            return None;
        }
        value = value * 10 + d;
        i = i + 1;
    }
    proof {
        assert(digits.take(i - start) =~= digits);
    }
    Some(value)
}

/// The name that an IDL item gives either as a string or as an object's
/// `"name"` string.
pub open spec fn name_of(v: JsonV) -> Option<Seq<char>> {
    match v {
        JsonV::Str(s) => Some(s),
        JsonV::Object(entries) => entries_get_str(entries, "name"@),
        _ => None,
    }
}

/// Reads a name written either as a string or as an object with a `"name"`.
pub fn idl_value_as_str_or_object_with_name_as_str(value: &JsonValue) -> (r: Option<&str>)
    ensures
        match r {
            Some(s) => name_of(value@) == Some(s@),
            None => name_of(value@) is None,
        },
{
    match value {
        JsonValue::Str(s) => Some(s.as_str()),
        JsonValue::Object(entries) => {
            proof {
                lemma_object_view(*entries);
            }
            object_get_str(entries, "name")
        },
        _ => None,
    }
}

/// The SHA-256 digest of some bytes.
pub uninterp spec fn sha256(bytes: Seq<u8>) -> Seq<u8>;

/// Hashes bytes with solana-sdk's `hash::hash` (SHA-256). Claimed: the
/// digest is a function of the bytes alone (named `sha256`); its 32-byte
/// length is the type's.
#[verifier::external_body]
fn sha256_hash(bytes: &[u8]) -> (r: [u8; 32])
    ensures
        r@ == sha256(bytes@),
{
    solana_sdk::hash::hash(bytes).to_bytes()
}

/// The discriminator of a named item: the first 8 bytes of the SHA-256 of
/// `prefix` followed by `name`, both in UTF-8 (`"global:"` for instructions,
/// `"account:"` for accounts).
pub open spec fn spec_hash_discriminator(prefix: Seq<char>, name: Seq<char>) -> Seq<u8> {
    sha256(encode_utf8(prefix) + encode_utf8(name)).take(8)
}

/// Computes the discriminator of a named item.
pub fn idl_hash_discriminator_from_string(prefix: &str, name: &str) -> (r: Vec<u8>)
    ensures
        r@ == spec_hash_discriminator(prefix@, name@),
{
    let p = prefix.as_bytes();
    let n = name.as_bytes();
    let mut bytes: Vec<u8> = Vec::new();
    let mut i: usize = 0;
    while i < p.len()
        invariant
            i <= p@.len(),
            bytes@ == p@.take(i as int),
        decreases p@.len() - i,
    {
        bytes.push(p[i]);
        proof {
            assert(p@.take(i + 1) =~= p@.take(i as int).push(p@[i as int]));
        }
        i = i + 1;
    }
    let mut j: usize = 0;
    while j < n.len()
        invariant
            j <= n@.len(),
            i == p@.len(),
            bytes@ == p@ + n@.take(j as int),
        decreases n@.len() - j,
    {
        bytes.push(n[j]);
        proof {
            assert(n@.take(j + 1) =~= n@.take(j as int).push(n@[j as int]));
            assert(p@ + n@.take(j + 1) =~= (p@ + n@.take(j as int)).push(n@[j as int]));
        }
        j = j + 1;
    }
    proof {
        assert(p@.take(p@.len() as int) =~= p@);
        assert(n@.take(n@.len() as int) =~= n@);
    }
    let digest = sha256_hash(bytes.as_slice());
    let mut out: Vec<u8> = Vec::new();
    let mut k: usize = 0;
    while k < 8
        invariant
            k <= 8,
            digest@.len() == 32,
            out@ == digest@.take(k as int),
        decreases 8 - k,
    {
        out.push(digest[k]);
        proof {
            assert(digest@.take(k + 1) =~= digest@.take(k as int).push(digest@[k as int]));
        }
        k = k + 1;
    }
    out
}

/// The bytes that the first `n` values of a JSON list denote, if each is an
/// unsigned number below 256.
pub open spec fn spec_bytes_of(items: Seq<JsonV>, n: nat) -> Option<Seq<u8>>
    decreases n,
{
    if n == 0 || n > items.len() {
        Some(Seq::empty())
    } else {
        match spec_bytes_of(items, (n - 1) as nat) {
            None => None,
            Some(prev) => match json_as_u64(items[n - 1]) {
                Some(b) => if b <= 255 {
                    Some(prev.push(b as u8))
                } else {
                    None
                },
                None => None,
            },
        }
    }
}

/// Once reading bytes fails, reading a longer prefix fails too.
pub proof fn lemma_bytes_of_none_stable(items: Seq<JsonV>, i: nat, n: nat)
    requires
        i <= n <= items.len(),
        spec_bytes_of(items, i) is None,
    ensures
        spec_bytes_of(items, n) is None,
    decreases n - i,
{
    if i < n {
        lemma_bytes_of_none_stable(items, i, (n - 1) as nat);
    }
}

/// Reads a list of bytes written as a JSON array of numbers.
pub fn idl_as_bytes(items: &Vec<JsonValue>) -> (r: Option<Vec<u8>>)
    ensures
        match r {
            Some(bytes) => spec_bytes_of(crate::json::json_seq_view(items@), items@.len()) == Some(
                bytes@,
            ),
            None => spec_bytes_of(crate::json::json_seq_view(items@), items@.len()) is None,
        },
{
    let ghost xs = crate::json::json_seq_view(items@);
    let mut bytes: Vec<u8> = Vec::new();
    let mut i: usize = 0;
    while i < items.len()
        invariant
            i <= items.len(),
            xs == crate::json::json_seq_view(items@),
            xs.len() == items@.len(),
            spec_bytes_of(xs, i as nat) == Some(bytes@),
        decreases items.len() - i,
    {
        match items[i].as_u64() {
            Some(b) => {
                if b > 255 {
                    proof {
                        lemma_bytes_of_none_stable(xs, (i + 1) as nat, xs.len());
                    }
                    return None;
                }
                bytes.push(b as u8);
            },
            None => {
                proof {
                    lemma_bytes_of_none_stable(xs, (i + 1) as nat, xs.len());
                }
                return None;
            },
        }
        i = i + 1;
    }
    Some(bytes)
}

} // verus!
