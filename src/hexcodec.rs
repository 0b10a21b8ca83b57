use vstd::prelude::*;

verus! {

/// The value of a hex digit, either case, or -1 for any other byte.
pub open spec fn hex_value(c: u8) -> int {
    if 48 <= c <= 57 {
        c - 48
    } else if 97 <= c <= 102 {
        c - 87
    } else if 65 <= c <= 70 {
        c - 55
    } else {
        -1
    }
}

/// Text of even length made of hex digits only.
pub open spec fn hex_valid(s: Seq<u8>) -> bool {
    s.len() % 2 == 0 && forall|i: int| 0 <= i < s.len() ==> hex_value(#[trigger] s[i]) >= 0
}

/// The bytes that hex text denotes, two digits per byte, high digit first.
pub open spec fn hex_bytes(s: Seq<u8>) -> Seq<u8> {
    Seq::new(s.len() / 2, |i: int| (16 * hex_value(s[2 * i]) + hex_value(s[2 * i + 1])) as u8)
}

/// The lower-case hex digit of a value below 16.
pub open spec fn hex_digit(d: u8) -> char {
    if d == 0 { '0' } else if d == 1 { '1' } else if d == 2 { '2' } else if d == 3 { '3' }
    else if d == 4 { '4' } else if d == 5 { '5' } else if d == 6 { '6' } else if d == 7 { '7' }
    else if d == 8 { '8' } else if d == 9 { '9' } else if d == 10 { 'a' } else if d == 11 { 'b' }
    else if d == 12 { 'c' } else if d == 13 { 'd' } else if d == 14 { 'e' } else { 'f' }
}

/// Bytes written as lower-case hex, two digits per byte, high digit first.
pub open spec fn hex_of(b: Seq<u8>) -> Seq<char> {
    Seq::new(2 * b.len(), |i: int| hex_digit(if i % 2 == 0 { b[i / 2] / 16 } else { b[i / 2] % 16 }))
}

/// Relies on hex::decode: it accepts text of even length made of hex
/// digits of either case, and reads two digits per byte.
#[verifier::external_body]
pub(crate) fn hex_decode(s: &[u8]) -> (r: Option<Vec<u8>>)
    ensures
        r is Some == hex_valid(s@),
        r matches Some(v) ==> v@ == hex_bytes(s@),
{
    hex::decode(s).ok()
}

/// Relies on hex::encode: two lower-case digits per byte.
#[verifier::external_body]
pub(crate) fn hex_encode(b: &[u8]) -> (r: String)
    ensures
        r@ == hex_of(b@),
{
    hex::encode(b)
}

/// The bytes of each hex text of a list.
pub open spec fn hex_list(v: Seq<Vec<u8>>) -> Seq<Seq<u8>> {
    Seq::new(v.len(), |i: int| hex_bytes(v[i]@))
}

/// Every text of the list is valid hex.
pub open spec fn hex_list_valid(v: Seq<Vec<u8>>) -> bool {
    forall|i: int| 0 <= i < v.len() ==> hex_valid(#[trigger] v[i]@)
}

/// Decodes each hex text of a list; `None` if any is not valid hex.
pub fn decode_hex_list(v: &Vec<Vec<u8>>) -> (r: Option<Vec<Vec<u8>>>)
    ensures
        r is Some == hex_list_valid(v@),
        r matches Some(d) ==> crate::bytes::views(d@) == hex_list(v@),
{
    let mut out: Vec<Vec<u8>> = Vec::new();
    let mut i: usize = 0;
    while i < v.len()
        invariant
            i <= v@.len(),
            crate::bytes::views(out@) == hex_list(v@).subrange(0, i as int),
            forall|j: int| 0 <= j < i ==> hex_valid(#[trigger] v@[j]@),
        decreases v@.len() - i,
    {
        let d = match hex_decode(v[i].as_slice()) {
            Some(d) => d,
            None => { return None; },
        };
        let ghost prev = out@;
        out.push(d);
        assert(crate::bytes::views(out@) =~= crate::bytes::views(prev).push(d@));
        i = i + 1;
        assert(crate::bytes::views(out@) =~= hex_list(v@).subrange(0, i as int));
    }
    assert(crate::bytes::views(out@) =~= hex_list(v@));
    Some(out)
}

/// Encodes each byte string of a list as hex.
pub fn encode_hex_list(v: &Vec<Vec<u8>>) -> (r: Vec<String>)
    ensures
        r@.len() == v@.len(),
        forall|i: int| 0 <= i < v@.len() ==> (#[trigger] r@[i])@ == hex_of(v@[i]@),
{
    let mut out: Vec<String> = Vec::new();
    let mut i: usize = 0;
    while i < v.len()
        invariant
            i <= v@.len(),
            out@.len() == i,
            forall|j: int| 0 <= j < i ==> (#[trigger] out@[j])@ == hex_of(v@[j]@),
        decreases v@.len() - i,
    {
        out.push(hex_encode(v[i].as_slice()));
        i = i + 1;
    }
    out
}

} // verus!
