//! UUIDs held as 128-bit integers: the form in which they are displayed, and
//! reading one back from text.
use vstd::prelude::*;
use crate::digest::{hex, hex_spec};
use crate::text::{chars_of, string_of};

verus! {

/// The `n` bytes of `v` in big-endian order (its low `8 * n` bits).
pub open spec fn be_bytes(v: nat, n: nat) -> Seq<u8>
    decreases n,
{
    if n == 0 {
        seq![]
    } else {
        be_bytes(v / 256, (n - 1) as nat).push((v % 256) as u8)
    }
}

/// Whether a hyphen precedes hexadecimal digit `i` of a UUID.
pub open spec fn uuid_break(i: int) -> bool {
    i == 8 || i == 12 || i == 16 || i == 20
}

/// Hexadecimal digits grouped as a UUID: a hyphen before the 9th, 13th,
/// 17th and 21st digit.
pub open spec fn hyphenate(h: Seq<char>) -> Seq<char>
    decreases h.len(),
{
    if h.len() == 0 {
        seq![]
    } else if uuid_break(h.len() - 1) {
        hyphenate(h.drop_last()) + seq!['-', h.last()]
    } else {
        hyphenate(h.drop_last()).push(h.last())
    }
}

/// The hyphenated lowercase form in which a UUID is displayed.
pub open spec fn uuid_text_spec(id: u128) -> Seq<char> {
    hyphenate(hex_spec(be_bytes(id as nat, 16)))
}

/// The sixteen bytes of `id`, most significant first.
fn id_bytes(id: u128) -> (r: Vec<u8>)
    ensures
        r@ == be_bytes(id as nat, 16),
{
    let mut v: u128 = id;
    let mut tail: Vec<u8> = Vec::new();
    let mut k: usize = 0;
    while k < 16
        invariant
            0 <= k <= 16,
            be_bytes(id as nat, 16) == be_bytes(v as nat, (16 - k) as nat) + tail@,
        decreases 16 - k,
    {
        let b = (v % 256) as u8;
        let ghost old_tail = tail@;
        tail.insert(0, b);
        assert(be_bytes(v as nat, (16 - k) as nat) == be_bytes((v / 256) as nat, (16 - k - 1) as nat).push(b));
        assert(be_bytes((v / 256) as nat, (16 - k - 1) as nat).push(b) + old_tail =~= be_bytes(
            (v / 256) as nat,
            (16 - k - 1) as nat,
        ) + tail@);
        v = v / 256;
        k = k + 1;
    }
    assert(be_bytes(v as nat, 0) =~= Seq::<u8>::empty());
    assert(tail@ =~= be_bytes(id as nat, 16));
    tail
}

/// The displayed form of a UUID held as a 128-bit integer: lowercase
/// hexadecimal, hyphenated 8-4-4-4-12, as `uuid::Uuid` displays it.
pub fn uuid_text(id: u128) -> (r: String)
    ensures
        r@ == uuid_text_spec(id),
{
    let digits = chars_of(hex(&id_bytes(id)).as_str());
    let ghost h = digits@;
    let mut out: Vec<char> = Vec::new();
    let mut k: usize = 0;
    while k < digits.len()
        invariant
            0 <= k <= digits.len(),
            h == digits@,
            out@ == hyphenate(h.take(k as int)),
        decreases digits.len() - k,
    {
        assert(h.take(k + 1).drop_last() =~= h.take(k as int));
        if k == 8 || k == 12 || k == 16 || k == 20 {
            out.push('-');
        }
        out.push(digits[k]);
        assert(out@ =~= hyphenate(h.take(k + 1)));
        k = k + 1;
    }
    assert(h.take(h.len() as int) =~= h);
    string_of(&out)
}

/// What `uuid::Uuid::parse_str` gives for `text`: the UUID as a 128-bit
/// integer, or the error's message.
pub uninterp spec fn uuid_parse_of(text: Seq<char>) -> Result<u128, Seq<char>>;

/// The plain value of a parse outcome.
pub open spec fn id_result_view(r: Result<u128, String>) -> Result<u128, Seq<char>> {
    match r {
        Ok(id) => Ok(id),
        Err(m) => Err(m@),
    }
}

/// `uuid::Uuid::parse_str`, as a 128-bit integer, or the error's message. The
/// hyphenated form in which a UUID is displayed parses back to that UUID.
#[verifier::external_body]
pub(crate) fn parse_uuid(text: &str) -> (r: Result<u128, String>)
    ensures
        id_result_view(r) == uuid_parse_of(text@),
        forall|id: u128| #[trigger] uuid_text_spec(id) == text@ ==> r is Ok && r->Ok_0 == id,
{
    uuid::Uuid::parse_str(text).map(|u| u.as_u128()).map_err(|e| e.to_string())
}

} // verus!
