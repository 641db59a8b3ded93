use sha2::Digest;
use vstd::prelude::*;
use vstd::string::StrSliceExecFns;
use vstd::utf8::encode_utf8;

use crate::resolver::push_char;

verus! {

/// The digest that SHA-256 computes over a byte sequence.
pub uninterp spec fn sha256_of(data: Seq<u8>) -> Seq<u8>;

/// Relies on `sha2::Sha256::digest`: a 32-byte digest that depends on the input bytes alone.
#[verifier::external_body]
fn sha256_digest(data: &[u8]) -> (r: Vec<u8>)
    ensures
        r@ == sha256_of(data@),
        r@.len() == 32,
{
    sha2::Sha256::digest(data).to_vec()
}

/// The character for one base62 digit: `0-9`, then `A-Z`, then `a-z`.
pub open spec fn base62_digit(d: nat) -> char {
    if d < 10 {
        (d + 48) as u8 as char
    } else if d < 36 {
        (d + 55) as u8 as char
    } else {
        (d + 61) as u8 as char
    }
}

/// Base62 text of `n`, most significant digit first, with no leading zeros.
pub open spec fn base62_text(n: nat) -> Seq<char>
    decreases n,
{
    if n < 62 {
        seq![base62_digit(n)]
    } else {
        base62_text(n / 62).push(base62_digit(n % 62))
    }
}

/// Relies on `base62::encode`: the standard base62 digits of `n`, most significant first.
#[verifier::external_body]
fn encode_base62(n: u128) -> (r: String)
    ensures
        r@ == base62_text(n as nat),
{
    base62::encode(n)
}

/// Powers of 256.
pub open spec fn pow256(n: nat) -> nat
    decreases n,
{
    if n == 0 {
        1
    } else {
        256 * pow256((n - 1) as nat)
    }
}

/// The unsigned integer whose little-endian bytes are `b`.
pub open spec fn le_value(b: Seq<u8>) -> nat
    decreases b.len(),
{
    if b.len() == 0 {
        0
    } else {
        b[0] as nat + 256 * le_value(b.drop_first())
    }
}

proof fn lemma_le_value_bound(b: Seq<u8>)
    ensures
        le_value(b) < pow256(b.len()),
    decreases b.len(),
{
    if b.len() > 0 {
        lemma_le_value_bound(b.drop_first());
        let r = le_value(b.drop_first());
        let p = pow256(b.drop_first().len());
        assert(b[0] as nat + 256 * r < 256 * p) by (nonlinear_arith)
            requires
                r < p,
                b[0] < 256,
        ;
    }
}

/// Reads the first sixteen bytes of `b` as a little-endian unsigned integer.
fn read_u128_le(b: &[u8]) -> (r: u128)
    requires
        b@.len() >= 16,
    ensures
        r as nat == le_value(b@.subrange(0, 16)),
{
    let mut v: u128 = 0;
    let mut i: usize = 16;
    proof {
        reveal_with_fuel(pow256, 17);
    }
    assert(pow256(16) == 0x1_0000_0000_0000_0000_0000_0000_0000_0000);
    while i > 0
        invariant
            i <= 16,
            b@.len() >= 16,
            v as nat == le_value(b@.subrange(i as int, 16)),
            pow256((16 - i) as nat) <= pow256(16),
            pow256(16) == 0x1_0000_0000_0000_0000_0000_0000_0000_0000,
        decreases i,
    {
        let ghost tail = b@.subrange(i as int, 16);
        let ghost s = b@.subrange(i - 1, 16);
        assert(s.drop_first() =~= tail);
        proof {
            lemma_le_value_bound(tail);
            lemma_pow256_mono((17 - i) as nat, 16);
            let p = pow256((16 - i) as nat);
            assert(pow256((17 - i) as nat) == 256 * p);
            assert(b@[i - 1] as nat + 256 * (v as nat) < 256 * p) by (nonlinear_arith)
                requires
                    (v as nat) < p,
                    b@[i - 1] < 256,
            ;
        }
        v = v * 256 + b[i - 1] as u128;
        i = i - 1;
    }
    assert(b@.subrange(0, 16) =~= b@.subrange(i as int, 16));
    v
}

proof fn lemma_pow256_mono(a: nat, b: nat)
    requires
        a <= b,
    ensures
        pow256(a) <= pow256(b),
    decreases b - a,
{
    if a < b {
        lemma_pow256_mono(a, (b - 1) as nat);
    }
}

/// Length of a generated code: seven when none is asked for, else the requested
/// length clamped to the range from one to sixteen.
pub open spec fn effective_length(length: Option<usize>) -> nat {
    let l = match length {
        Some(l) => l as nat,
        None => 7,
    };
    if l > 16 {
        16
    } else if l < 1 {
        1
    } else {
        l
    }
}

/// Whether `c` is one of the 62 symbols of a code: a digit, or an upper or lower
/// case ASCII letter.
pub open spec fn is_base62_char(c: char) -> bool {
    ('0' <= c && c <= '9') || ('A' <= c && c <= 'Z') || ('a' <= c && c <= 'z')
}

/// Whether `code` has exactly `length` characters, all of them base62 symbols.
pub open spec fn is_code(code: Seq<char>, length: nat) -> bool {
    code.len() == length && forall|i: int| 0 <= i < code.len() ==> #[trigger] is_base62_char(code[i])
}

/// The hash preimage: the UTF-8 bytes of the target URL, followed by those of the
/// salt when one is given.
pub open spec fn preimage(url: Seq<char>, salt: Option<Seq<char>>) -> Seq<u8> {
    match salt {
        Some(s) => encode_utf8(url) + encode_utf8(s),
        None => encode_utf8(url),
    }
}

/// The characters of an optional salt.
pub open spec fn salt_view(salt: Option<&str>) -> Option<Seq<char>> {
    match salt {
        Some(s) => Some(s@),
        None => None,
    }
}

/// `n` zero digits.
pub open spec fn zeros(n: nat) -> Seq<char> {
    Seq::new(n, |i: int| '0')
}

/// The code that a digest gives: base62 text of its first sixteen bytes read
/// little-endian, cut to `length` characters, or filled up with `0` digits to that
/// length where the text is shorter.
pub open spec fn code_of_digest(digest: Seq<u8>, length: nat) -> Seq<char> {
    let text = base62_text(le_value(digest.subrange(0, 16)));
    if length <= text.len() {
        text.take(length as int)
    } else {
        text + zeros((length - text.len()) as nat)
    }
}

/// The code generated for a target URL, an optional salt and an optional length.
pub open spec fn shortlink_code(url: Seq<char>, salt: Option<Seq<char>>, length: Option<usize>) -> Seq<
    char,
> {
    code_of_digest(sha256_of(preimage(url, salt)), effective_length(length))
}

/// Turns a digest into a code of exactly `length` base62 characters.
pub fn shortlink_from_digest(digest: &[u8], length: usize) -> (r: String)
    requires
        digest@.len() >= 16,
    ensures
        r@ == code_of_digest(digest@, length as nat),
        is_code(r@, length as nat),
{
    let n = read_u128_le(digest);
    let text = encode_base62(n);
    proof {
        lemma_base62_text_chars(n as nat);
    }
    let len = text.as_str().unicode_len();
    if length <= len {
        let code = text.as_str().substring_char(0, length).to_owned();
        assert(is_code(code@, length as nat));
        return code;
    }
    let mut code = text.clone();
    let mut i: usize = len;
    while i < length
        invariant
            len <= i <= length,
            len == text@.len(),
            text@ == base62_text(n as nat),
            code@ == text@ + zeros((i - len) as nat),
            forall|j: int| 0 <= j < text@.len() ==> #[trigger] is_base62_char(text@[j]),
        decreases length - i,
    {
        push_char(&mut code, '0');
        i = i + 1;
        assert(code@ =~= text@ + zeros((i - len) as nat));
    }
    assert(is_code(code@, length as nat)) by {
        assert forall|j: int| 0 <= j < code@.len() implies #[trigger] is_base62_char(code@[j]) by {
            if j < len {
                assert(code@[j] == text@[j]);
            }
        }
    }
    code
}

/// Generates the code for `url`, salted with `identifier` when one is given, of
/// `length` characters (seven by default, clamped to the range from one to sixteen).
pub fn generate_shortlink(url: &str, identifier: Option<&str>, length: Option<usize>) -> (r: String)
    ensures
        r@ == shortlink_code(url@, salt_view(identifier), length),
        is_code(r@, effective_length(length)),
{
    let mut data = url.as_bytes_vec();
    match identifier {
        Some(id) => {
            data.extend_from_slice(id.as_bytes());
        },
        None => {},
    }
    let l = match length {
        Some(l) => l,
        None => 7,
    };
    let l = if l > 16 {
        16
    } else if l < 1 {
        1
    } else {
        l
    };
    assert(data@ =~= preimage(url@, salt_view(identifier)));
    assert(l as nat == effective_length(length));
    let digest = sha256_digest(data.as_slice());
    shortlink_from_digest(digest.as_slice(), l)
}

proof fn lemma_base62_digit(d: nat)
    requires
        d < 62,
    ensures
        is_base62_char(base62_digit(d)),
{
}

/// Every character of a base62 text is a base62 symbol.
proof fn lemma_base62_text_chars(n: nat)
    ensures
        forall|i: int| 0 <= i < base62_text(n).len() ==> #[trigger] is_base62_char(base62_text(n)[i]),
    decreases n,
{
    lemma_base62_digit(n % 62);
    if n >= 62 {
        lemma_base62_text_chars(n / 62);
        let prev = base62_text(n / 62);
        assert(base62_text(n) == prev.push(base62_digit(n % 62)));
        assert forall|i: int| 0 <= i < base62_text(n).len() implies #[trigger] is_base62_char(
            base62_text(n)[i],
        ) by {
            if i < prev.len() {
                assert(base62_text(n)[i] == prev[i]);
            }
        }
    } else {
        lemma_base62_digit(n);
        assert(base62_text(n) == seq![base62_digit(n)]);
    }
}

/// A code has exactly the requested length, for every length, and only base62
/// symbols, whatever the digest.
pub proof fn code_has_requested_length(digest: Seq<u8>, length: nat)
    requires
        digest.len() >= 16,
    ensures
        is_code(code_of_digest(digest, length), length),
{
    let n = le_value(digest.subrange(0, 16));
    let text = base62_text(n);
    lemma_base62_text_chars(n);
    let c = code_of_digest(digest, length);
    assert forall|i: int| 0 <= i < c.len() implies #[trigger] is_base62_char(c[i]) by {
        if i < text.len() {
            assert(c[i] == text[i]);
        }
    }
}

/// Generation without a salt is deterministic: equal target URLs and lengths always
/// give the same code, the one that the URL's digest alone decides.
pub proof fn generate_is_deterministic(a: Seq<char>, b: Seq<char>, length: Option<usize>)
    requires
        a == b,
    ensures
        shortlink_code(a, None, length) == shortlink_code(b, None, length),
        shortlink_code(a, None, length) == code_of_digest(
            sha256_of(encode_utf8(a)),
            effective_length(length),
        ),
{
}

} // verus!
