//! Content digests: the BLAKE3 digest of some bytes, its lowercase
//! hexadecimal rendering, and the 128-bit identifier read from its first
//! sixteen bytes.
use vstd::prelude::*;

verus! {

/// What `blake3::hash` gives for `data`: the 32 bytes of its digest.
pub uninterp spec fn blake3_of(data: Seq<u8>) -> Seq<u8>;

/// `blake3::hash(data)`, as its 32 bytes.
#[verifier::external_body]
pub(crate) fn blake3_digest(data: &[u8]) -> (r: Vec<u8>)
    ensures
        r@ == blake3_of(data@),
        r@.len() == 32,
{
    blake3::hash(data).as_bytes().to_vec()
}

/// The lowercase hexadecimal digit for a value below 16.
pub open spec fn hex_digit(v: u8) -> char {
    if v < 10 {
        (48 + v) as char
    } else {
        (87 + v) as char
    }
}

/// The lowercase hexadecimal rendering of `bytes`: two digits per byte, high
/// half first.
pub open spec fn hex_spec(bytes: Seq<u8>) -> Seq<char>
    decreases bytes.len(),
{
    if bytes.len() == 0 {
        seq![]
    } else {
        hex_spec(bytes.drop_last()) + seq![
            hex_digit(bytes.last() / 16),
            hex_digit(bytes.last() % 16),
        ]
    }
}

/// A lowercase hexadecimal digit.
pub open spec fn is_lower_hex(c: char) -> bool {
    ('0' <= c && c <= '9') || ('a' <= c && c <= 'f')
}

/// A value below 16 renders as a lowercase hexadecimal digit.
pub proof fn lemma_hex_digit_is_lower(v: u8)
    requires
        v < 16,
    ensures
        is_lower_hex(hex_digit(v)),
{
}

/// The hexadecimal rendering is two digits per byte, every one lowercase.
pub proof fn lemma_hex_form(bytes: Seq<u8>)
    ensures
        hex_spec(bytes).len() == 2 * bytes.len(),
        forall|i: int| 0 <= i < hex_spec(bytes).len() ==> is_lower_hex(#[trigger] hex_spec(bytes)[i]),
    decreases bytes.len(),
{
    if bytes.len() > 0 {
        let front = bytes.drop_last();
        lemma_hex_form(front);
        let hi = bytes.last() / 16;
        let lo = bytes.last() % 16;
        assert(is_lower_hex(hex_digit(hi)) && is_lower_hex(hex_digit(lo))) by {
            assert(hi < 16 && lo < 16);
        }
        let h = hex_spec(bytes);
        assert forall|i: int| 0 <= i < h.len() implies is_lower_hex(#[trigger] h[i]) by {
            if i < hex_spec(front).len() {
                assert(h[i] == hex_spec(front)[i]);
            }
        }
    }
}

/// The value of `bytes` read as a big-endian number.
pub open spec fn be_value(bytes: Seq<u8>) -> nat
    decreases bytes.len(),
{
    if bytes.len() == 0 {
        0
    } else {
        be_value(bytes.drop_last()) * 256 + bytes.last() as nat
    }
}

/// `256` to the power `k`.
pub open spec fn pow256(k: nat) -> nat
    decreases k,
{
    if k == 0 {
        1
    } else {
        256 * pow256((k - 1) as nat)
    }
}

fn hex_digit_exec(v: u8) -> (r: char)
    requires
        v < 16,
    ensures
        r == hex_digit(v),
{
    if v < 10 {
        (48u8 + v) as char
    } else {
        (87u8 + v) as char
    }
}

/// The lowercase hexadecimal rendering of `bytes`.
pub fn hex(bytes: &Vec<u8>) -> (r: String)
    ensures
        r@ == hex_spec(bytes@),
        r@.len() == 2 * bytes@.len(),
{
    let mut out = String::new();
    let mut k: usize = 0;
    while k < bytes.len()
        invariant
            0 <= k <= bytes.len(),
            out@ == hex_spec(bytes@.take(k as int)),
            out@.len() == 2 * k,
        decreases bytes.len() - k,
    {
        let b = bytes[k];
        assert(bytes@.take(k + 1).drop_last() =~= bytes@.take(k as int));
        crate::text::push_char(&mut out, hex_digit_exec(b / 16));
        crate::text::push_char(&mut out, hex_digit_exec(b % 16));
        k = k + 1;
    }
    assert(bytes@.take(bytes@.len() as int) =~= bytes@);
    out
}

proof fn lemma_be_value_bound(bytes: Seq<u8>)
    ensures
        be_value(bytes) < pow256(bytes.len()),
    decreases bytes.len(),
{
    if bytes.len() > 0 {
        lemma_be_value_bound(bytes.drop_last());
        assert(be_value(bytes.drop_last()) + 1 <= pow256((bytes.len() - 1) as nat));
        assert(be_value(bytes) < pow256(bytes.len())) by (nonlinear_arith)
            requires
                be_value(bytes) == be_value(bytes.drop_last()) * 256 + bytes.last(),
                bytes.last() < 256,
                be_value(bytes.drop_last()) + 1 <= pow256((bytes.len() - 1) as nat),
                pow256(bytes.len()) == 256 * pow256((bytes.len() - 1) as nat),
        ;
    }
}

/// The identifier held in the first sixteen bytes of `bytes`, big-endian, as
/// `uuid::Uuid::from_bytes` and `as_u128` read them.
pub fn leading_id(bytes: &Vec<u8>) -> (r: u128)
    requires
        bytes@.len() >= 16,
    ensures
        r as nat == be_value(bytes@.take(16)),
{
    let mut v: u128 = 0;
    let mut k: usize = 0;
    assert(pow256(16) == 0x1_0000_0000_0000_0000_0000_0000_0000_0000) by {
        reveal_with_fuel(pow256, 17);
    }
    while k < 16
        invariant
            0 <= k <= 16,
            bytes@.len() >= 16,
            v as nat == be_value(bytes@.take(k as int)),
            pow256(16) == 0x1_0000_0000_0000_0000_0000_0000_0000_0000,
        decreases 16 - k,
    {
        let b = bytes[k];
        let ghost next = bytes@.take(k + 1);
        assert(next.drop_last() =~= bytes@.take(k as int));
        proof {
            lemma_be_value_bound(next);
            lemma_pow256_monotone((k + 1) as nat, 16);
        }
        v = v * 256 + (b as u128);
        k = k + 1;
    }
    v
}

proof fn lemma_pow256_monotone(a: nat, b: nat)
    requires
        a <= b,
    ensures
        pow256(a) <= pow256(b),
    decreases b - a,
{
    if a < b {
        lemma_pow256_monotone(a, (b - 1) as nat);
        assert(pow256(b) == 256 * pow256((b - 1) as nat));
    }
}

} // verus!
