//! The wire envelope: one tensor payload bundled with an ordered sequence
//! of integer control values (direction flags, position indices), framed
//! as bytes so a pipeline hop can cross a process boundary losslessly.
//!
//! Layout, all integers little-endian 64-bit: the control count, the
//! control values, one datatype tag byte, the rank, the dimensions, the
//! data length, and the raw element bytes. `unpack` accepts exactly the
//! images of `pack`, so the envelope round-trips bit for bit.
use vstd::prelude::*;

use crate::error::ProtocolError;
use crate::tensor::Dtype;
use crate::tensor::TensorData;

verus! {

/// A tensor payload with its ordered control values, the only object
/// that ever crosses an ownership boundary between nodes.
#[derive(Debug, Clone, PartialEq, Eq)]
pub struct Envelope {
    pub control: Vec<u64>,
    pub payload: TensorData,
}

/// The eight little-endian bytes of a 64-bit value.
pub open spec fn u64_le(x: u64) -> Seq<u8> {
    seq![
        (x & 0xff) as u8,
        ((x >> 8) & 0xff) as u8,
        ((x >> 16) & 0xff) as u8,
        ((x >> 24) & 0xff) as u8,
        ((x >> 32) & 0xff) as u8,
        ((x >> 40) & 0xff) as u8,
        ((x >> 48) & 0xff) as u8,
        ((x >> 56) & 0xff) as u8,
    ]
}

/// The 64-bit value read back from eight little-endian bytes.
pub open spec fn le_to_u64(
    b0: u8,
    b1: u8,
    b2: u8,
    b3: u8,
    b4: u8,
    b5: u8,
    b6: u8,
    b7: u8,
) -> u64 {
    (b0 as u64) | ((b1 as u64) << 8) | ((b2 as u64) << 16) | ((b3 as u64) << 24) | ((b4 as u64)
        << 32) | ((b5 as u64) << 40) | ((b6 as u64) << 48) | ((b7 as u64) << 56)
}

/// The 64-bit value at byte offset `pos` of a buffer.
pub open spec fn le_at(b: Seq<u8>, pos: int) -> u64 {
    le_to_u64(
        b[pos],
        b[pos + 1],
        b[pos + 2],
        b[pos + 3],
        b[pos + 4],
        b[pos + 5],
        b[pos + 6],
        b[pos + 7],
    )
}

/// A sequence of 64-bit values flattened to little-endian bytes.
pub open spec fn flat64(s: Seq<u64>) -> Seq<u8>
    decreases s.len(),
{
    if s.len() == 0 {
        Seq::empty()
    } else {
        flat64(s.drop_last()) + u64_le(s.last())
    }
}

/// The tag byte that names a datatype on the wire.
pub open spec fn dtype_tag(d: Dtype) -> u8 {
    match d {
        Dtype::U8 => 0,
        Dtype::I64 => 1,
        Dtype::F16 => 2,
        Dtype::F32 => 3,
    }
}

/// The datatype a tag byte names, if any.
pub open spec fn tag_to_dtype_spec(t: u8) -> Option<Dtype> {
    if t == 0 {
        Some(Dtype::U8)
    } else if t == 1 {
        Some(Dtype::I64)
    } else if t == 2 {
        Some(Dtype::F16)
    } else if t == 3 {
        Some(Dtype::F32)
    } else {
        None
    }
}

/// The exact byte image of an envelope.
pub open spec fn encode_env(control: Seq<u64>, dtype: Dtype, shape: Seq<u64>, data: Seq<u8>) -> Seq<
    u8,
> {
    u64_le(control.len() as u64) + flat64(control) + seq![dtype_tag(dtype)] + u64_le(
        shape.len() as u64,
    ) + flat64(shape) + u64_le(data.len() as u64) + data
}

/// The length of an envelope's byte image, from its three counts.
pub open spec fn env_len(cl: nat, sl: nat, dl: nat) -> nat {
    25 + 8 * cl + 8 * sl + dl
}

/// Reading back the eight bytes of a value yields the value.
proof fn lemma_le_of_u64(x: u64)
    ensures
        le_to_u64(
            (x & 0xff) as u8,
            ((x >> 8) & 0xff) as u8,
            ((x >> 16) & 0xff) as u8,
            ((x >> 24) & 0xff) as u8,
            ((x >> 32) & 0xff) as u8,
            ((x >> 40) & 0xff) as u8,
            ((x >> 48) & 0xff) as u8,
            ((x >> 56) & 0xff) as u8,
        ) == x,
{
    assert(le_to_u64(
        (x & 0xff) as u8,
        ((x >> 8) & 0xff) as u8,
        ((x >> 16) & 0xff) as u8,
        ((x >> 24) & 0xff) as u8,
        ((x >> 32) & 0xff) as u8,
        ((x >> 40) & 0xff) as u8,
        ((x >> 48) & 0xff) as u8,
        ((x >> 56) & 0xff) as u8,
    ) == x) by (bit_vector);
}

/// Writing back the value read from eight bytes yields those bytes.
proof fn lemma_u64_of_le(b0: u8, b1: u8, b2: u8, b3: u8, b4: u8, b5: u8, b6: u8, b7: u8)
    ensures
        u64_le(le_to_u64(b0, b1, b2, b3, b4, b5, b6, b7)) == seq![b0, b1, b2, b3, b4, b5, b6, b7],
{
    let x = le_to_u64(b0, b1, b2, b3, b4, b5, b6, b7);
    assert((x & 0xff) as u8 == b0 && ((x >> 8) & 0xff) as u8 == b1 && ((x >> 16) & 0xff) as u8 == b2
        && ((x >> 24) & 0xff) as u8 == b3 && ((x >> 32) & 0xff) as u8 == b4 && ((x >> 40)
        & 0xff) as u8 == b5 && ((x >> 48) & 0xff) as u8 == b6 && ((x >> 56) & 0xff) as u8 == b7)
        by (bit_vector)
        requires
            x == le_to_u64(b0, b1, b2, b3, b4, b5, b6, b7),
    ;
    assert(u64_le(x) =~= seq![b0, b1, b2, b3, b4, b5, b6, b7]);
}

proof fn lemma_flat64_len(s: Seq<u64>)
    ensures
        flat64(s).len() == 8 * s.len(),
    decreases s.len(),
{
    if s.len() > 0 {
        lemma_flat64_len(s.drop_last());
    }
}

/// The bytes of element `i` sit at offset `8 * i` of the flattened form.
proof fn lemma_flat64_index(s: Seq<u64>, i: int, k: int)
    requires
        0 <= i < s.len(),
        0 <= k < 8,
    ensures
        flat64(s)[8 * i + k] == u64_le(s[i])[k],
    decreases s.len(),
{
    lemma_flat64_len(s.drop_last());
    if i == s.len() - 1 {
    } else {
        lemma_flat64_index(s.drop_last(), i, k);
        assert(s.drop_last()[i] == s[i]);
    }
}

/// Every fact a parser needs about the byte image of an envelope: its
/// total length, the value of each framed integer, the tag byte, and
/// the data suffix.
proof fn lemma_parse_image(bytes: Seq<u8>, c: Seq<u64>, d: Dtype, sh: Seq<u64>, da: Seq<u8>)
    requires
        c.len() <= u64::MAX,
        sh.len() <= u64::MAX,
        da.len() <= u64::MAX,
        bytes == encode_env(c, d, sh, da),
    ensures
        bytes.len() == env_len(c.len(), sh.len(), da.len()),
        le_at(bytes, 0) == c.len() as u64,
        forall|i: int| 0 <= i < c.len() ==> le_at(bytes, 8 + 8 * i) == c[i],
        bytes[(8 + 8 * c.len()) as int] == dtype_tag(d),
        le_at(bytes, (9 + 8 * c.len()) as int) == sh.len() as u64,
        forall|i: int| 0 <= i < sh.len() ==> le_at(bytes, (17 + 8 * c.len()) as int + 8 * i) == sh[i],
        le_at(bytes, (17 + 8 * c.len() + 8 * sh.len()) as int) == da.len() as u64,
        bytes.subrange((25 + 8 * c.len() + 8 * sh.len()) as int, bytes.len() as int) == da,
{
    lemma_flat64_len(c);
    lemma_flat64_len(sh);
    lemma_le_of_u64(c.len() as u64);
    lemma_le_of_u64(sh.len() as u64);
    lemma_le_of_u64(da.len() as u64);
    assert forall|i: int| 0 <= i < c.len() implies le_at(bytes, 8 + 8 * i) == c[i] by {
        lemma_flat64_index(c, i, 0);
        lemma_flat64_index(c, i, 1);
        lemma_flat64_index(c, i, 2);
        lemma_flat64_index(c, i, 3);
        lemma_flat64_index(c, i, 4);
        lemma_flat64_index(c, i, 5);
        lemma_flat64_index(c, i, 6);
        lemma_flat64_index(c, i, 7);
        lemma_le_of_u64(c[i]);
    }
    assert forall|i: int| 0 <= i < sh.len() implies le_at(bytes, (17 + 8 * c.len()) as int + 8 * i) == sh[i] by {
        lemma_flat64_index(sh, i, 0);
        lemma_flat64_index(sh, i, 1);
        lemma_flat64_index(sh, i, 2);
        lemma_flat64_index(sh, i, 3);
        lemma_flat64_index(sh, i, 4);
        lemma_flat64_index(sh, i, 5);
        lemma_flat64_index(sh, i, 6);
        lemma_flat64_index(sh, i, 7);
        lemma_le_of_u64(sh[i]);
    }
    assert(bytes.subrange((25 + 8 * c.len() + 8 * sh.len()) as int, bytes.len() as int) =~= da);
}

/// `bytes` is the exact image of an envelope with these parts.
pub open spec fn is_image(bytes: Seq<u8>, c: Seq<u64>, d: Dtype, sh: Seq<u64>, da: Seq<u8>) -> bool {
    c.len() <= u64::MAX && sh.len() <= u64::MAX && da.len() <= u64::MAX && bytes == encode_env(
        c,
        d,
        sh,
        da,
    )
}

/// A tag byte names at most one datatype, and a datatype's own tag
/// names it back.
proof fn lemma_tag_round(d: Dtype)
    ensures
        tag_to_dtype_spec(dtype_tag(d)) == Some(d),
{
}

/// Two envelopes with the same byte image are the same envelope: the
/// framing loses nothing.
pub proof fn lemma_encode_injective(
    c1: Seq<u64>,
    d1: Dtype,
    sh1: Seq<u64>,
    da1: Seq<u8>,
    c2: Seq<u64>,
    d2: Dtype,
    sh2: Seq<u64>,
    da2: Seq<u8>,
)
    requires
        c1.len() <= u64::MAX,
        sh1.len() <= u64::MAX,
        da1.len() <= u64::MAX,
        c2.len() <= u64::MAX,
        sh2.len() <= u64::MAX,
        da2.len() <= u64::MAX,
        encode_env(c1, d1, sh1, da1) == encode_env(c2, d2, sh2, da2),
    ensures
        c1 == c2,
        d1 == d2,
        sh1 == sh2,
        da1 == da2,
{
    let bytes = encode_env(c1, d1, sh1, da1);
    lemma_parse_image(bytes, c1, d1, sh1, da1);
    lemma_parse_image(bytes, c2, d2, sh2, da2);
    assert(c1.len() as u64 == c2.len() as u64);
    assert(c1.len() == c2.len());
    assert(c1 =~= c2);
    assert(sh1.len() as u64 == sh2.len() as u64);
    assert(sh1 =~= sh2);
    lemma_tag_round(d1);
    lemma_tag_round(d2);
    assert(da1 == da2);
}

/// Parsing a sequence of values back out of a buffer rebuilds exactly
/// the flattened bytes it was read from.
proof fn lemma_bytes_to_flat64(b: Seq<u8>, off: int, s: Seq<u64>)
    requires
        0 <= off,
        off + 8 * s.len() <= b.len(),
        forall|i: int| 0 <= i < s.len() ==> s[i] == le_at(b, off + 8 * i),
    ensures
        flat64(s) == b.subrange(off, off + 8 * s.len()),
    decreases s.len(),
{
    lemma_flat64_len(s);
    if s.len() == 0 {
        assert(flat64(s) =~= b.subrange(off, off));
    } else {
        let dl = s.drop_last();
        assert forall|i: int| 0 <= i < dl.len() implies dl[i] == le_at(b, off + 8 * i) by {
            assert(dl[i] == s[i]);
        }
        lemma_bytes_to_flat64(b, off, dl);
        lemma_flat64_len(dl);
        let lo = off + 8 * (s.len() - 1);
        lemma_u64_of_le(b[lo], b[lo + 1], b[lo + 2], b[lo + 3], b[lo + 4], b[lo + 5], b[lo + 6], b[lo
            + 7]);
        assert(s.last() == le_at(b, lo));
        assert(flat64(s) =~= b.subrange(off, off + 8 * s.len()));
    }
}

/// Appends the eight little-endian bytes of `x`.
fn push_u64(out: &mut Vec<u8>, x: u64)
    ensures
        final(out)@ == old(out)@ + u64_le(x),
{
    out.push((x & 0xff) as u8);
    out.push(((x >> 8) & 0xff) as u8);
    out.push(((x >> 16) & 0xff) as u8);
    out.push(((x >> 24) & 0xff) as u8);
    out.push(((x >> 32) & 0xff) as u8);
    out.push(((x >> 40) & 0xff) as u8);
    out.push(((x >> 48) & 0xff) as u8);
    out.push(((x >> 56) & 0xff) as u8);
    assert(out@ =~= old(out)@ + u64_le(x));
}

/// Reads the 64-bit value at byte offset `pos`.
fn read_u64(b: &Vec<u8>, pos: usize) -> (r: u64)
    requires
        pos + 8 <= b@.len(),
    ensures
        r == le_at(b@, pos as int),
{
    let n = b.len();
    (b[pos] as u64) | ((b[pos + 1] as u64) << 8) | ((b[pos + 2] as u64) << 16) | ((b[pos
        + 3] as u64) << 24) | ((b[pos + 4] as u64) << 32) | ((b[pos + 5] as u64) << 40) | ((b[pos
        + 6] as u64) << 48) | ((b[pos + 7] as u64) << 56)
}

/// The tag byte a datatype is framed as.
fn dtype_tag_of(d: &Dtype) -> (t: u8)
    ensures
        t == dtype_tag(*d),
{
    match d {
        Dtype::U8 => 0,
        Dtype::I64 => 1,
        Dtype::F16 => 2,
        Dtype::F32 => 3,
    }
}

/// The datatype a tag byte names, if any.
fn tag_to_dtype(t: u8) -> (r: Option<Dtype>)
    ensures
        r == tag_to_dtype_spec(t),
{
    if t == 0 {
        Some(Dtype::U8)
    } else if t == 1 {
        Some(Dtype::I64)
    } else if t == 2 {
        Some(Dtype::F16)
    } else if t == 3 {
        Some(Dtype::F32)
    } else {
        None
    }
}

/// Frames an envelope as bytes: exactly its `encode_env` image.
pub fn pack(env: &Envelope) -> (out: Vec<u8>)
    ensures
        out@ == encode_env(env.control@, env.payload.dtype, env.payload.shape@, env.payload.data@),
{
    pack_parts(&env.control, &env.payload)
}

/// Frames control values and a payload as bytes without taking
/// ownership of either: exactly the `encode_env` image.
pub fn pack_parts(control: &Vec<u64>, payload: &TensorData) -> (out: Vec<u8>)
    ensures
        out@ == encode_env(control@, payload.dtype, payload.shape@, payload.data@),
{
    let mut out: Vec<u8> = Vec::new();
    push_u64(&mut out, control.len() as u64);
    let mut i: usize = 0;
    while i < control.len()
        invariant
            i <= control@.len(),
            out@ == u64_le(control@.len() as u64) + flat64(control@.take(i as int)),
        decreases control@.len() - i,
    {
        push_u64(&mut out, control[i]);
        proof {
            assert(control@.take(i + 1).drop_last() =~= control@.take(i as int));
            assert(control@.take(i + 1).last() == control@[i as int]);
            assert(out@ =~= u64_le(control@.len() as u64) + flat64(
                control@.take(i + 1),
            ));
        }
        i += 1;
    }
    proof {
        assert(control@.take(control@.len() as int) =~= control@);
    }
    out.push(dtype_tag_of(&payload.dtype));
    push_u64(&mut out, payload.shape.len() as u64);
    let ghost head: Seq<u8> = out@;
    let mut j: usize = 0;
    while j < payload.shape.len()
        invariant
            j <= payload.shape@.len(),
            out@ == head + flat64(payload.shape@.take(j as int)),
        decreases payload.shape@.len() - j,
    {
        push_u64(&mut out, payload.shape[j]);
        proof {
            assert(payload.shape@.take(j + 1).drop_last() =~= payload.shape@.take(
                j as int,
            ));
            assert(payload.shape@.take(j + 1).last() == payload.shape@[j as int]);
            assert(out@ =~= head + flat64(payload.shape@.take(j + 1)));
        }
        j += 1;
    }
    proof {
        assert(payload.shape@.take(payload.shape@.len() as int) =~= payload.shape@);
    }
    push_u64(&mut out, payload.data.len() as u64);
    let ghost head2: Seq<u8> = out@;
    let mut k: usize = 0;
    while k < payload.data.len()
        invariant
            k <= payload.data@.len(),
            out@ == head2 + payload.data@.take(k as int),
        decreases payload.data@.len() - k,
    {
        out.push(payload.data[k]);
        proof {
            assert(out@ =~= head2 + payload.data@.take(k + 1));
        }
        k += 1;
    }
    proof {
        assert(payload.data@.take(payload.data@.len() as int) =~= payload.data@);
        assert(out@ =~= encode_env(
            control@,
            payload.dtype,
            payload.shape@,
            payload.data@,
        ));
    }
    out
}

/// A tag byte names at most one datatype; reading the tag back out of
/// `Some` gives the byte it came from.
proof fn lemma_tag_inverse(t: u8, d: Dtype)
    requires
        tag_to_dtype_spec(t) == Some(d),
    ensures
        dtype_tag(d) == t,
{
}

/// Everything a parser learns from knowing that `bytes` is some
/// envelope's image: the framed counts, their bounds against the buffer
/// length, the tag byte, each framed value and the data suffix.
proof fn lemma_image_counts(bytes: Seq<u8>, c: Seq<u64>, d: Dtype, sh: Seq<u64>, da: Seq<u8>)
    requires
        is_image(bytes, c, d, sh, da),
    ensures
        bytes.len() == 25 + 8 * c.len() + 8 * sh.len() + da.len(),
        le_at(bytes, 0) == c.len() as u64,
        c.len() <= ((bytes.len() - 25) as int) / 8,
        bytes[(8 + 8 * c.len()) as int] == dtype_tag(d),
        tag_to_dtype_spec(bytes[(8 + 8 * c.len()) as int]) == Some(d),
        le_at(bytes, (9 + 8 * c.len()) as int) == sh.len() as u64,
        sh.len() <= ((bytes.len() - (9 + 8 * c.len()) - 16) as int) / 8,
        le_at(bytes, (17 + 8 * c.len() + 8 * sh.len()) as int) == da.len() as u64,
        da.len() == bytes.len() - (25 + 8 * c.len() + 8 * sh.len()),
        forall|i: int| 0 <= i < c.len() ==> le_at(bytes, 8 + 8 * i) == c[i],
        forall|i: int| 0 <= i < sh.len() ==> le_at(bytes, (17 + 8 * c.len()) as int + 8 * i) == sh[i],
        bytes.subrange((25 + 8 * c.len() + 8 * sh.len()) as int, bytes.len() as int) == da,
{
    lemma_parse_image(bytes, c, d, sh, da);
    lemma_tag_round(d);
    assert(c.len() <= ((bytes.len() - 25) as int) / 8) by (nonlinear_arith)
        requires
            (bytes.len() - 25) as int >= 8 * c.len(),
    ;
    assert(sh.len() <= ((bytes.len() - (9 + 8 * c.len()) - 16) as int) / 8) by (nonlinear_arith)
        requires
            (bytes.len() - (9 + 8 * c.len()) - 16) as int >= 8 * sh.len(),
    ;
}

/// A buffer whose framed counts, values, tag and suffix all line up is
/// exactly the image of the envelope they describe.
proof fn lemma_assemble(bytes: Seq<u8>, ctrl: Seq<u64>, dt: Dtype, shp: Seq<u64>, dat: Seq<u8>)
    requires
        bytes.len() == 25 + 8 * ctrl.len() + 8 * shp.len() + dat.len(),
        le_at(bytes, 0) == ctrl.len() as u64,
        forall|j: int| 0 <= j < ctrl.len() ==> ctrl[j] == le_at(bytes, 8 + 8 * j),
        tag_to_dtype_spec(bytes[(8 + 8 * ctrl.len()) as int]) == Some(dt),
        le_at(bytes, (9 + 8 * ctrl.len()) as int) == shp.len() as u64,
        forall|j: int|
            0 <= j < shp.len() ==> shp[j] == le_at(bytes, (17 + 8 * ctrl.len()) as int + 8 * j),
        le_at(bytes, (17 + 8 * ctrl.len() + 8 * shp.len()) as int) == dat.len() as u64,
        dat == bytes.subrange((25 + 8 * ctrl.len() + 8 * shp.len()) as int, bytes.len() as int),
    ensures
        bytes == encode_env(ctrl, dt, shp, dat),
{
    let cl: int = ctrl.len() as int;
    let sl: int = shp.len() as int;
    lemma_flat64_len(ctrl);
    lemma_flat64_len(shp);
    lemma_tag_inverse(bytes[8 + 8 * cl], dt);
    lemma_bytes_to_flat64(bytes, 8, ctrl);
    lemma_bytes_to_flat64(bytes, 17 + 8 * cl, shp);
    lemma_u64_of_le(
        bytes[0],
        bytes[1],
        bytes[2],
        bytes[3],
        bytes[4],
        bytes[5],
        bytes[6],
        bytes[7],
    );
    let rb: int = 9 + 8 * cl;
    lemma_u64_of_le(
        bytes[rb],
        bytes[rb + 1],
        bytes[rb + 2],
        bytes[rb + 3],
        bytes[rb + 4],
        bytes[rb + 5],
        bytes[rb + 6],
        bytes[rb + 7],
    );
    let db: int = 17 + 8 * cl + 8 * sl;
    lemma_u64_of_le(
        bytes[db],
        bytes[db + 1],
        bytes[db + 2],
        bytes[db + 3],
        bytes[db + 4],
        bytes[db + 5],
        bytes[db + 6],
        bytes[db + 7],
    );
    assert(u64_le(ctrl.len() as u64) =~= bytes.subrange(0, 8));
    assert(flat64(ctrl) == bytes.subrange(8, 8 + 8 * cl));
    assert(seq![dtype_tag(dt)] =~= bytes.subrange(8 + 8 * cl, 9 + 8 * cl));
    assert(u64_le(shp.len() as u64) =~= bytes.subrange(rb, rb + 8));
    assert(flat64(shp) == bytes.subrange(17 + 8 * cl, 17 + 8 * cl + 8 * sl));
    assert(u64_le(dat.len() as u64) =~= bytes.subrange(db, db + 8));
    assert(bytes =~= encode_env(ctrl, dt, shp, dat));
}

/// Parses an envelope back out of bytes. Succeeds on exactly the byte
/// images of `pack`, and then returns the packed envelope itself: the
/// control values, shape, datatype and data bytes all round-trip.
#[verifier::rlimit(60)]
pub fn unpack(bytes: &Vec<u8>) -> (r: Result<Envelope, ProtocolError>)
    ensures
        (r matches Ok(e) ==> bytes@ == encode_env(
            e.control@,
            e.payload.dtype,
            e.payload.shape@,
            e.payload.data@,
        )),
        forall|c: Seq<u64>, d: Dtype, sh: Seq<u64>, da: Seq<u8>|
            #[trigger] is_image(bytes@, c, d, sh, da) ==> (r matches Ok(e) && e.control@ == c
                && e.payload.dtype == d && e.payload.shape@ == sh && e.payload.data@ == da),
{
    let n = bytes.len();
    if n < 25 {
        proof {
            assert forall|c: Seq<u64>, d: Dtype, sh: Seq<u64>, da: Seq<u8>|
                #[trigger] is_image(bytes@, c, d, sh, da) implies false by {
                lemma_image_counts(bytes@, c, d, sh, da);
            }
        }
        return Err(ProtocolError::Truncated);
    }
    let cl64 = read_u64(bytes, 0);
    if cl64 > ((n - 25) / 8) as u64 {
        proof {
            assert forall|c: Seq<u64>, d: Dtype, sh: Seq<u64>, da: Seq<u8>|
                #[trigger] is_image(bytes@, c, d, sh, da) implies false by {
                lemma_image_counts(bytes@, c, d, sh, da);
            }
        }
        return Err(ProtocolError::Oversize);
    }
    let cl = cl64 as usize;
    proof {
        assert(8 * (cl as int) <= (n - 25) as int) by (nonlinear_arith)
            requires
                cl as int <= ((n - 25) as int) / 8,
                n >= 25,
        ;
    }
    let mut ctrl: Vec<u64> = Vec::new();
    let mut pos: usize = 8;
    let mut i: usize = 0;
    while i < cl
        invariant
            i <= cl,
            pos == 8 + 8 * i,
            8 * cl <= n - 25 <= n == bytes@.len(),
            ctrl@.len() == i,
            forall|j: int| 0 <= j < i ==> ctrl@[j] == le_at(bytes@, 8 + 8 * j),
        decreases cl - i,
    {
        ctrl.push(read_u64(bytes, pos));
        pos += 8;
        i += 1;
    }
    let tag = bytes[pos];
    pos += 1;
    let dt = match tag_to_dtype(tag) {
        Some(d) => d,
        None => {
            proof {
                assert forall|c: Seq<u64>, d: Dtype, sh: Seq<u64>, da: Seq<u8>|
                    #[trigger] is_image(bytes@, c, d, sh, da) implies false by {
                    lemma_image_counts(bytes@, c, d, sh, da);
                    assert(c.len() == cl);
                }
            }
            return Err(ProtocolError::BadDtype);
        },
    };
    let rank64 = read_u64(bytes, pos);
    if rank64 > ((n - pos - 16) / 8) as u64 {
        proof {
            assert forall|c: Seq<u64>, d: Dtype, sh: Seq<u64>, da: Seq<u8>|
                #[trigger] is_image(bytes@, c, d, sh, da) implies false by {
                lemma_image_counts(bytes@, c, d, sh, da);
                assert(c.len() == cl);
            }
        }
        return Err(ProtocolError::Oversize);
    }
    pos += 8;
    let rank = rank64 as usize;
    proof {
        assert(8 * (rank as int) <= ((n - pos) as int) - 8) by (nonlinear_arith)
            requires
                rank as int <= ((n - (pos - 8) - 16) as int) / 8,
                n >= pos + 8,
        ;
    }
    let ghost shape_base: int = pos as int;
    let mut shp: Vec<u64> = Vec::new();
    let mut j: usize = 0;
    while j < rank
        invariant
            j <= rank,
            pos == shape_base + 8 * j,
            shape_base + 8 * rank + 8 <= n == bytes@.len(),
            shp@.len() == j,
            forall|t: int| 0 <= t < j ==> shp@[t] == le_at(bytes@, shape_base + 8 * t),
        decreases rank - j,
    {
        shp.push(read_u64(bytes, pos));
        pos += 8;
        j += 1;
    }
    let dl64 = read_u64(bytes, pos);
    pos += 8;
    if dl64 != (n - pos) as u64 {
        proof {
            assert forall|c: Seq<u64>, d: Dtype, sh: Seq<u64>, da: Seq<u8>|
                #[trigger] is_image(bytes@, c, d, sh, da) implies false by {
                lemma_image_counts(bytes@, c, d, sh, da);
                assert(c.len() == cl);
                assert(sh.len() == rank);
            }
        }
        if dl64 > (n - pos) as u64 {
            return Err(ProtocolError::Truncated);
        } else {
            return Err(ProtocolError::TrailingBytes);
        }
    }
    let mut dat: Vec<u8> = Vec::new();
    let mut k: usize = 0;
    while k < n - pos
        invariant
            k <= n - pos,
            pos + 8 <= n + 8,
            n == bytes@.len(),
            dat@.len() == k,
            forall|t: int| 0 <= t < k ==> dat@[t] == bytes@[pos + t],
        decreases n - pos - k,
    {
        dat.push(bytes[pos + k]);
        k += 1;
    }
    let env = Envelope { control: ctrl, payload: TensorData { dtype: dt, shape: shp, data: dat } };
    proof {
        assert(env.payload.data@ =~= bytes@.subrange(pos as int, n as int));
        lemma_assemble(bytes@, env.control@, env.payload.dtype, env.payload.shape@,
        env.payload.data@);
        assert forall|c: Seq<u64>, d: Dtype, sh: Seq<u64>, da: Seq<u8>|
            #[trigger] is_image(bytes@, c, d, sh, da) implies (env.control@ == c
            && env.payload.dtype == d && env.payload.shape@ == sh && env.payload.data@ == da) by {
            lemma_encode_injective(
                env.control@,
                env.payload.dtype,
                env.payload.shape@,
                env.payload.data@,
                c,
                d,
                sh,
                da,
            );
        }
    }
    Ok(env)
}

} // verus!
