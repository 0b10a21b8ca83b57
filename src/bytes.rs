use vstd::prelude::*;

verus! {

/// The eight-byte big-endian encoding of a length.
pub open spec fn len_prefix(n: nat) -> Seq<u8> {
    seq![
        ((n / 0x100000000000000) % 256) as u8,
        ((n / 0x1000000000000) % 256) as u8,
        ((n / 0x10000000000) % 256) as u8,
        ((n / 0x100000000) % 256) as u8,
        ((n / 0x1000000) % 256) as u8,
        ((n / 0x10000) % 256) as u8,
        ((n / 0x100) % 256) as u8,
        (n % 256) as u8,
    ]
}

/// One field preceded by its length.
pub open spec fn field(f: Seq<u8>) -> Seq<u8> {
    len_prefix(f.len()) + f
}

/// The concatenation of the length-prefixed fields, in order.
pub open spec fn frame(fields: Seq<Seq<u8>>) -> Seq<u8>
    decreases fields.len(),
{
    if fields.len() == 0 {
        Seq::empty()
    } else {
        frame(fields.drop_last()) + field(fields.last())
    }
}

/// Framing one more field appends that field.
pub proof fn lemma_frame_push(pre: Seq<Seq<u8>>, f: Seq<u8>)
    ensures
        frame(pre.push(f)) == frame(pre) + field(f),
{
    assert(pre.push(f).drop_last() =~= pre);
}

/// Appends the bytes of `src` to `out`.
pub fn push_bytes(out: &mut Vec<u8>, src: &[u8])
    ensures
        final(out)@ == old(out)@ + src@,
{
    let mut i: usize = 0;
    while i < src.len()
        invariant
            i <= src@.len(),
            out@ == old(out)@ + src@.subrange(0, i as int),
        decreases src@.len() - i,
    {
        out.push(src[i]);
        i = i + 1;
        assert(src@.subrange(0, i as int) =~= src@.subrange(0, i - 1 as int).push(src@[i - 1]));
    }
    assert(src@.subrange(0, i as int) =~= src@);
}

/// Appends the eight-byte big-endian encoding of `n` to `out`.
pub fn push_len(out: &mut Vec<u8>, n: u64)
    ensures
        final(out)@ == old(out)@ + len_prefix(n as nat),
{
    let mut prefix: Vec<u8> = Vec::new();
    prefix.push(((n / 0x100000000000000) % 256) as u8);
    prefix.push(((n / 0x1000000000000) % 256) as u8);
    prefix.push(((n / 0x10000000000) % 256) as u8);
    prefix.push(((n / 0x100000000) % 256) as u8);
    prefix.push(((n / 0x1000000) % 256) as u8);
    prefix.push(((n / 0x10000) % 256) as u8);
    prefix.push(((n / 0x100) % 256) as u8);
    prefix.push((n % 256) as u8);
    assert(prefix@ =~= len_prefix(n as nat));
    push_bytes(out, prefix.as_slice());
}

/// Appends the eight-byte big-endian length of `f`, then `f`, to `out`.
pub fn push_field(out: &mut Vec<u8>, f: &[u8])
    ensures
        final(out)@ == old(out)@ + field(f@),
{
    push_len(out, f.len() as u64);
    push_bytes(out, f);
    assert(final(out)@ =~= old(out)@ + field(f@));
}

/// Appends the length-prefixed fields to `out`, which holds the frame of `pre`.
pub(crate) fn push_fields(out: &mut Vec<u8>, fields: &Vec<Vec<u8>>, Ghost(pre): Ghost<Seq<Seq<u8>>>)
    requires
        old(out)@ == frame(pre),
    ensures
        final(out)@ == frame(pre + views(fields@)),
{
    let ghost vs = views(fields@);
    let mut i: usize = 0;
    while i < fields.len()
        invariant
            i <= fields@.len(),
            vs == views(fields@),
            out@ == frame(pre + vs.subrange(0, i as int)),
        decreases fields@.len() - i,
    {
        push_field(out, fields[i].as_slice());
        proof {
            lemma_frame_push(pre + vs.subrange(0, i as int), vs[i as int]);
            assert((pre + vs.subrange(0, i as int)).push(vs[i as int]) =~= pre + vs.subrange(0, i + 1 as int));
        }
        i = i + 1;
    }
    assert(vs.subrange(0, i as int) =~= vs);
}

/// The byte strings that a sequence of vectors holds.
pub open spec fn views(v: Seq<Vec<u8>>) -> Seq<Seq<u8>> {
    v.map_values(|e: Vec<u8>| e@)
}

} // verus!
