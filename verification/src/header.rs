use crate::object_type::ObjectType;
use vstd::prelude::*;
use vstd::slice::slice_index_get;

verus! {

/// The minimal decimal representation of `n`, as ASCII digit bytes:
/// no sign, no leading zeros (`0` itself is the single digit `0`).
pub open spec fn dec_bytes(n: nat) -> Seq<u8>
    decreases n,
{
    if n < 10 {
        seq![(n + 48) as u8]
    } else {
        dec_bytes(n / 10).push(((n % 10) + 48) as u8)
    }
}

/// The object header: `"<tag> <length>\0"` as ASCII bytes.
pub open spec fn header_bytes(t: ObjectType, len: nat) -> Seq<u8> {
    t.tag_byte_seq() + seq![32u8] + dec_bytes(len) + seq![0u8]
}

/// The framed bytes: header first, then the payload, unmodified.
pub open spec fn framed_bytes(t: ObjectType, payload: Seq<u8>) -> Seq<u8> {
    header_bytes(t, payload.len()) + payload
}

/// Append the minimal decimal digits of `n` to `out`.
fn push_decimal(n: usize, out: &mut Vec<u8>)
    ensures
        final(out)@ == old(out)@ + dec_bytes(n as nat),
    decreases n,
{
    if n < 10 {
        out.push((n as u8) + 48);
        proof {
            assert(out@ =~= old(out)@ + dec_bytes(n as nat));
        }
    } else {
        push_decimal(n / 10, out);
        out.push(((n % 10) as u8) + 48);
        proof {
            assert(out@ =~= old(out)@ + dec_bytes(n as nat));
        }
    }
}

/// Append every byte of `src` to `out`, in order.
fn push_slice(out: &mut Vec<u8>, src: &[u8])
    ensures
        final(out)@ == old(out)@ + src@,
{
    let mut i: usize = 0;
    while i < src.len()
        invariant
            i <= src@.len(),
            out@ == old(out)@ + src@.subrange(0, i as int),
        decreases src@.len() - i,
    {
        out.push(*slice_index_get(src, i));
        proof {
            assert(old(out)@ + src@.subrange(0, i + 1) =~= (old(out)@ + src@.subrange(
                0,
                i as int,
            )).push(src@[i as int]));
        }
        i += 1;
    }
    proof {
        assert(src@.subrange(0, src@.len() as int) =~= src@);
    }
}

/// Build the header `"<tag> <length>\0"` for a payload of `len` bytes.
pub fn build_header(t: ObjectType, len: usize) -> (v: Vec<u8>)
    ensures
        v@ == header_bytes(t, len as nat),
{
    let mut v = t.tag_bytes();
    v.push(32);
    push_decimal(len, &mut v);
    v.push(0);
    proof {
        assert(v@ =~= header_bytes(t, len as nat));
    }
    v
}

/// Frame a payload: the header for its length, then the payload itself.
pub fn frame(t: ObjectType, payload: &[u8]) -> (v: Vec<u8>)
    ensures
        v@ == framed_bytes(t, payload@),
{
    let mut v = build_header(t, payload.len());
    push_slice(&mut v, payload);
    v
}

/// A decimal representation is never empty.
pub proof fn lemma_dec_bytes_len_pos(n: nat)
    ensures
        dec_bytes(n).len() >= 1,
    decreases n,
{
    if n >= 10 {
        lemma_dec_bytes_len_pos(n / 10);
    }
}

/// A larger number never has a shorter decimal representation.
pub proof fn lemma_dec_bytes_len_mono(a: nat, b: nat)
    requires
        a <= b,
    ensures
        dec_bytes(a).len() <= dec_bytes(b).len(),
    decreases b,
{
    if b >= 10 {
        if a < 10 {
            lemma_dec_bytes_len_pos(b / 10);
        } else {
            lemma_dec_bytes_len_mono(a / 10, b / 10);
        }
    }
}

/// Length sensitivity: appending a non-empty suffix to the payload changes
/// the framed bytes (the header's length field can only grow, and the body
/// grows strictly).
pub proof fn lemma_length_sensitivity(t: ObjectType, payload: Seq<u8>, suffix: Seq<u8>)
    requires
        suffix.len() > 0,
    ensures
        framed_bytes(t, payload + suffix) != framed_bytes(t, payload),
{
    lemma_dec_bytes_len_mono(payload.len(), (payload + suffix).len());
    assert(framed_bytes(t, payload + suffix).len() > framed_bytes(t, payload).len());
}

/// Type sensitivity: two distinct tags frame the same payload differently
/// (the framed bytes differ within the first two bytes of the tag).
pub proof fn lemma_type_sensitivity(t1: ObjectType, t2: ObjectType, payload: Seq<u8>)
    requires
        t1 != t2,
    ensures
        framed_bytes(t1, payload) != framed_bytes(t2, payload),
{
    let f1 = framed_bytes(t1, payload);
    let f2 = framed_bytes(t2, payload);
    assert(f1[0] == t1.tag_byte_seq()[0]);
    assert(f1[1] == t1.tag_byte_seq()[1]);
    assert(f2[0] == t2.tag_byte_seq()[0]);
    assert(f2[1] == t2.tag_byte_seq()[1]);
    assert(t1.tag_byte_seq()[0] == t2.tag_byte_seq()[0] && t1.tag_byte_seq()[1]
        == t2.tag_byte_seq()[1] ==> t1 == t2);
    if f1 == f2 {
        assert(f1[0] == f2[0]);
        assert(f1[1] == f2[1]);
        assert(false);
    }
}

} // verus!
