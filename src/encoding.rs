use vstd::prelude::*;

verus! {

pub open spec fn is_hex_digit(c: char) -> bool {
    ('0' <= c && c <= '9') || ('a' <= c && c <= 'f') || ('A' <= c && c <= 'F')
}

pub open spec fn hex_value(c: char) -> int {
    if '0' <= c && c <= '9' {
        c as int - '0' as int
    } else if 'a' <= c && c <= 'f' {
        c as int - 'a' as int + 10
    } else {
        c as int - 'A' as int + 10
    }
}

pub open spec fn has_hex_prefix(s: Seq<char>) -> bool {
    s.len() >= 2 && s[0] == '0' && (s[1] == 'x' || s[1] == 'X')
}

/// The digits of a hex string once an optional `0x`/`0X` prefix is dropped.
pub open spec fn hex_body(s: Seq<char>) -> Seq<char> {
    if has_hex_prefix(s) {
        s.skip(2)
    } else {
        s
    }
}

/// Hex decoding: an optional `0x`/`0X` prefix, then an even number of hex
/// digits of either case, high nibble first.
pub open spec fn hex_decoded(s: Seq<char>) -> Option<Seq<u8>> {
    let b = hex_body(s);
    if b.len() % 2 == 0 && forall|i: int| 0 <= i < b.len() ==> is_hex_digit(#[trigger] b[i]) {
        Some(
            Seq::new(
                (b.len() / 2) as nat,
                |i: int| (hex_value(b[2 * i]) * 16 + hex_value(b[2 * i + 1])) as u8,
            ),
        )
    } else {
        None
    }
}

/// The address that signed `message` (with the EIP-191 prefix) if `signature`
/// is a well-formed 65-byte recoverable secp256k1 signature.
pub uninterp spec fn signer_of(signature: Seq<u8>, message: Seq<u8>) -> Option<Seq<u8>>;

/// Relies on `alloy::hex::decode` (const-hex): an optional `0x`/`0X` prefix,
/// then an even number of hex digits of either case; anything else is refused.
#[verifier::external_body]
pub(crate) fn decode_hex(s: &str) -> (r: Option<Vec<u8>>)
    ensures
        match r {
            Some(v) => hex_decoded(s@) == Some(v@),
            None => hex_decoded(s@) is None,
        },
{
    alloy::hex::decode(s).ok()
}

/// Relies on `FromStr` for `alloy::primitives::Address`, which decodes the text
/// with `const_hex::decode_to_array` and so accepts exactly 20 hex-encoded bytes.
#[verifier::external_body]
pub(crate) fn parse_address(s: &str) -> (r: Option<[u8; 20]>)
    ensures
        match r {
            Some(a) => hex_decoded(s@) == Some(a@),
            None => !(hex_decoded(s@) is Some && hex_decoded(s@)->0.len() == 20),
        },
{
    s.parse::<alloy::primitives::Address>().ok().map(|a| a.0.0)
}

/// Relies on `alloy::primitives::Signature::from_raw` (65 bytes: r, s, v) and
/// `Signature::recover_address_from_msg` (EIP-191 hash, secp256k1 recovery):
/// the recovered address depends on the two byte strings alone.
#[verifier::external_body]
pub(crate) fn recover_signer(signature: &[u8], message: &[u8]) -> (r: Option<[u8; 20]>)
    ensures
        match r {
            Some(a) => signer_of(signature@, message@) == Some(a@),
            None => signer_of(signature@, message@) is None,
        },
{
    match alloy::primitives::Signature::from_raw(signature) {
        Ok(sig) => sig.recover_address_from_msg(message).ok().map(|a| a.0.0),
        Err(_) => None,
    }
}

/// Drops the leading `0x` of a hex string.
pub fn remove_0x_prefix(hex_string: String) -> (r: String)
    requires
        hex_string@.len() >= 2,
        hex_string@[0] == '0',
        hex_string@[1] == 'x',
    ensures
        r@ == hex_string@.skip(2),
{
    let n = hex_string.as_str().unicode_len();
    let rest = hex_string.as_str().substring_char(2, n);
    rest.to_owned()
}

/// `s` starts with a lower-case `0x`.
pub fn starts_with_0x(s: &str) -> (r: bool)
    ensures
        r == (s@.len() >= 2 && s@[0] == '0' && s@[1] == 'x'),
{
    let n = s.unicode_len();
    n >= 2 && s.get_char(0) == '0' && s.get_char(1) == 'x'
}

/// Removes `prefix` from the front of `s`; `None` when `s` does not start with it.
pub fn strip_prefix(s: &str, prefix: &str) -> (r: Option<String>)
    ensures
        match r {
            Some(t) => prefix@.is_prefix_of(s@) && t@ == s@.skip(prefix@.len() as int),
            None => !prefix@.is_prefix_of(s@),
        },
{
    let n = s.unicode_len();
    let m = prefix.unicode_len();
    if m > n {
        return None;
    }
    let mut i: usize = 0;
    while i < m
        invariant
            m <= n,
            n == s@.len(),
            m == prefix@.len(),
            i <= m,
            forall|j: int| 0 <= j < i ==> s@[j] == prefix@[j],
        decreases m - i,
    {
        if s.get_char(i) != prefix.get_char(i) {
            return None;
        }
        i = i + 1;
    }
    assert(prefix@ =~= s@.subrange(0, m as int));
    Some(s.substring_char(m, n).to_owned())
}

pub open spec fn digit_char(d: nat) -> char {
    if d == 0 {
        '0'
    } else if d == 1 {
        '1'
    } else if d == 2 {
        '2'
    } else if d == 3 {
        '3'
    } else if d == 4 {
        '4'
    } else if d == 5 {
        '5'
    } else if d == 6 {
        '6'
    } else if d == 7 {
        '7'
    } else if d == 8 {
        '8'
    } else {
        '9'
    }
}

/// The decimal digits of `n`, most significant first, without leading zeros.
pub open spec fn decimal_digits(n: nat) -> Seq<char>
    decreases n,
{
    if n < 10 {
        seq![digit_char(n)]
    } else {
        decimal_digits(n / 10).push(digit_char(n % 10))
    }
}

pub open spec fn is_dec_digit(c: char) -> bool {
    '0' <= c && c <= '9'
}

/// The value of a string of decimal digits.
pub open spec fn digits_value(s: Seq<char>) -> int
    decreases s.len(),
{
    if s.len() == 0 {
        0
    } else {
        digits_value(s.drop_last()) * 10 + (s.last() as int - '0' as int)
    }
}

pub open spec fn all_dec_digits(s: Seq<char>) -> bool {
    forall|i: int| 0 <= i < s.len() ==> is_dec_digit(#[trigger] s[i])
}

/// Signed decimal parsing as `str::parse::<i64>` does it: an optional `+` or
/// `-`, then at least one digit, and a value within `i64`.
pub open spec fn parsed_i64(s: Seq<char>) -> Option<i64> {
    let neg = s.len() > 0 && s[0] == '-';
    let body = if s.len() > 0 && (s[0] == '-' || s[0] == '+') {
        s.skip(1)
    } else {
        s
    };
    if body.len() == 0 || !all_dec_digits(body) {
        None
    } else if neg {
        if digits_value(body) <= 0x8000_0000_0000_0000 {
            Some((-digits_value(body)) as i64)
        } else {
            None
        }
    } else if digits_value(body) <= 0x7fff_ffff_ffff_ffff {
        Some(digits_value(body) as i64)
    } else {
        None
    }
}

fn digit_str(d: u64) -> (r: &'static str)
    requires
        d < 10,
    ensures
        r@ == seq![digit_char(d as nat)],
{
    proof {
        reveal_strlit("0");
        reveal_strlit("1");
        reveal_strlit("2");
        reveal_strlit("3");
        reveal_strlit("4");
        reveal_strlit("5");
        reveal_strlit("6");
        reveal_strlit("7");
        reveal_strlit("8");
        reveal_strlit("9");
    }
    if d == 0 {
        "0"
    } else if d == 1 {
        "1"
    } else if d == 2 {
        "2"
    } else if d == 3 {
        "3"
    } else if d == 4 {
        "4"
    } else if d == 5 {
        "5"
    } else if d == 6 {
        "6"
    } else if d == 7 {
        "7"
    } else if d == 8 {
        "8"
    } else {
        "9"
    }
}

/// Appends the decimal digits of `n` to `out`.
pub fn push_decimal(out: &mut String, n: u64)
    ensures
        final(out)@ == old(out)@ + decimal_digits(n as nat),
    decreases n,
{
    if n >= 10 {
        push_decimal(out, n / 10);
    }
    out.append(digit_str(n % 10));
    proof {
        if n >= 10 {
            assert(decimal_digits(n as nat) == decimal_digits((n / 10) as nat).push(
                digit_char((n % 10) as nat),
            ));
        }
    }
}

/// Parses a signed decimal integer; `None` where `str::parse::<i64>` fails.
pub fn parse_i64(s: &str) -> (r: Option<i64>)
    ensures
        r == parsed_i64(s@),
{
    let n = s.unicode_len();
    if n == 0 {
        return None;
    }
    let first = s.get_char(0);
    let neg = first == '-';
    let start: usize = if first == '-' || first == '+' {
        1
    } else {
        0
    };
    let ghost body = if first == '-' || first == '+' {
        s@.skip(1)
    } else {
        s@
    };
    if start == n {
        return None;
    }
    let limit: u128 = if neg {
        0x8000_0000_0000_0000
    } else {
        0x7fff_ffff_ffff_ffff
    };
    let mut value: u128 = 0;
    let mut i: usize = start;
    while i < n
        invariant
            start <= i <= n,
            n == s@.len(),
            start == 0 || start == 1,
            body == s@.subrange(start as int, n as int),
            body == if s@[0] == '-' || s@[0] == '+' {
                s@.skip(1)
            } else {
                s@
            },
            neg == (s@[0] == '-'),
            limit == if neg {
                0x8000_0000_0000_0000u128
            } else {
                0x7fff_ffff_ffff_ffffu128
            },
            limit <= 0x8000_0000_0000_0000,
            all_dec_digits(s@.subrange(start as int, i as int)),
            value == if digits_value(s@.subrange(start as int, i as int)) <= limit {
                digits_value(s@.subrange(start as int, i as int))
            } else {
                limit + 1
            },
        decreases n - i,
    {
        let c = s.get_char(i);
        if !('0' <= c && c <= '9') {
            assert(body[i - start] == c);
            assert(!is_dec_digit(body[i - start]));
            assert(!all_dec_digits(body));
            return None;
        }
        let d = (c as u32 - '0' as u32) as u128;
        let ghost pre = s@.subrange(start as int, i as int);
        let ghost next = s@.subrange(start as int, i + 1);
        assert(next.drop_last() =~= pre);
        assert(next.last() == c);
        assert(digits_value(next) == digits_value(pre) * 10 + d);
        proof {
            lemma_digits_value_nonneg(pre);
        }
        let v = value * 10 + d;
        value = if v > limit {
            limit + 1
        } else {
            v
        };
        proof {
            if digits_value(pre) > limit {
                assert(digits_value(pre) * 10 + d > limit) by (nonlinear_arith)
                    requires
                        digits_value(pre) > limit,
                        d >= 0,
                ;
            }
        }
        i = i + 1;
    }
    assert(s@.subrange(start as int, n as int) =~= body);
    if value > limit {
        None
    } else if neg {
        Some((0 - (value as i128)) as i64)
    } else {
        Some(value as i64)
    }
}

proof fn lemma_digits_value_nonneg(s: Seq<char>)
    requires
        all_dec_digits(s),
    ensures
        digits_value(s) >= 0,
    decreases s.len(),
{
    if s.len() > 0 {
        assert(all_dec_digits(s.drop_last()));
        lemma_digits_value_nonneg(s.drop_last());
        assert(is_dec_digit(s[s.len() - 1]));
    }
}

proof fn lemma_digit_char(d: nat)
    requires
        d < 10,
    ensures
        is_dec_digit(digit_char(d)),
        digit_char(d) as int - '0' as int == d,
{
}

/// Decimal digits parse back to the number they were written from.
pub proof fn lemma_decimal_round_trip(n: nat)
    ensures
        all_dec_digits(decimal_digits(n)),
        decimal_digits(n).len() > 0,
        digits_value(decimal_digits(n)) == n,
    decreases n,
{
    if n < 10 {
        lemma_digit_char(n);
        let s = decimal_digits(n);
        assert(s.drop_last() =~= Seq::<char>::empty());
        assert(digits_value(s.drop_last()) == 0);
        assert(s.last() == digit_char(n));
        assert(digits_value(s) == digits_value(s.drop_last()) * 10 + (s.last() as int - '0' as int));
    } else {
        lemma_decimal_round_trip(n / 10);
        lemma_digit_char(n % 10);
        let s = decimal_digits(n);
        assert(s.drop_last() =~= decimal_digits(n / 10));
        assert(s.last() == digit_char(n % 10));
        assert(digits_value(s) == digits_value(s.drop_last()) * 10 + (s.last() as int - '0' as int));
        assert(n == (n / 10) * 10 + n % 10);
        assert(all_dec_digits(s)) by {
            assert forall|i: int| 0 <= i < s.len() implies is_dec_digit(#[trigger] s[i]) by {
                if i < s.len() - 1 {
                    assert(s[i] == decimal_digits(n / 10)[i]);
                }
            }
        }
    }
}

} // verus!
