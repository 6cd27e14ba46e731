//! The queue snapshot codec.
//!
//! An export captures the session's tracks as durable references and lays
//! them out in a compact binary form — a CBOR array of single-entry maps
//! `{"yt": identifier}` — which is then text-encoded as one opaque token.
//! The binary layout is specified here byte for byte: `cbor_refs` builds it
//! and `parse_refs` reads it back, and the two are proved inverse.  Only the
//! text encoding of the binary form and the UTF-8 check of an identifier
//! rely on outside code.
use vstd::prelude::*;
use vstd::string::StrSliceExecFns;

use base64::Engine;
use base64::prelude::BASE64_STANDARD;

use crate::Error;
use crate::audio_link::UnloadedAudioLink;

verus! {

broadcast use vstd::utf8::group_utf8_lib;

/// 256 to the power `w`: the number of values `w` bytes can carry.
pub open spec fn pow256(w: nat) -> nat
    decreases w,
{
    if w == 0 {
        1
    } else {
        256 * pow256((w - 1) as nat)
    }
}

/// The big-endian bytes of `n`, exactly `w` bytes wide.
pub open spec fn be_bytes(n: nat, w: nat) -> Seq<u8>
    decreases w,
{
    if w == 0 {
        Seq::empty()
    } else {
        be_bytes(n / 256, (w - 1) as nat).push((n % 256) as u8)
    }
}

/// The value a big-endian byte string denotes.
pub open spec fn be_val(s: Seq<u8>) -> nat
    decreases s.len(),
{
    if s.len() == 0 {
        0
    } else {
        be_val(s.drop_last()) * 256 + s.last() as nat
    }
}

pub proof fn lemma_pow256_le(a: nat, b: nat)
    requires
        a <= b,
    ensures
        pow256(a) <= pow256(b),
    decreases b,
{
    if a < b {
        lemma_pow256_le(a, (b - 1) as nat);
    }
}

pub proof fn lemma_be_bytes_len(n: nat, w: nat)
    ensures
        be_bytes(n, w).len() == w,
    decreases w,
{
    if w > 0 {
        lemma_be_bytes_len(n / 256, (w - 1) as nat);
    }
}

pub proof fn lemma_be_val_be_bytes(n: nat, w: nat)
    requires
        n < pow256(w),
    ensures
        be_val(be_bytes(n, w)) == n,
    decreases w,
{
    if w > 0 {
        assert(n / 256 < pow256((w - 1) as nat)) by (nonlinear_arith)
            requires
                n < pow256(w),
                pow256(w) == 256 * pow256((w - 1) as nat),
        ;
        lemma_be_val_be_bytes(n / 256, (w - 1) as nat);
        lemma_be_bytes_len(n / 256, (w - 1) as nat);
        let b = be_bytes(n, w);
        assert(b.drop_last() =~= be_bytes(n / 256, (w - 1) as nat));
        assert(be_val(b) == (n / 256) * 256 + (n % 256) as u8);
        assert((n / 256) * 256 + n % 256 == n);
    }
}

/// The canonical CBOR header of major type `major` carrying count `n`.
pub open spec fn cbor_hdr(major: u8, n: nat) -> Seq<u8>
    recommends
        major < 8,
{
    if n < 24 {
        seq![(major * 32 + n) as u8]
    } else if n < 256 {
        seq![(major * 32 + 24) as u8] + be_bytes(n, 1)
    } else if n < 65536 {
        seq![(major * 32 + 25) as u8] + be_bytes(n, 2)
    } else if n < 4294967296 {
        seq![(major * 32 + 26) as u8] + be_bytes(n, 4)
    } else {
        seq![(major * 32 + 27) as u8] + be_bytes(n, 8)
    }
}

/// One exported reference as the codec lays it out: a single-entry map from
/// the source tag `yt` to the identifier's text bytes.
pub open spec fn cbor_item(id: Seq<u8>) -> Seq<u8> {
    seq![0xa1u8, 0x62u8, 0x79u8, 0x74u8] + cbor_hdr(3, id.len()) + id
}

/// The references laid out one after the other.
pub open spec fn cbor_items(ids: Seq<Seq<u8>>) -> Seq<u8>
    decreases ids.len(),
{
    if ids.len() == 0 {
        Seq::empty()
    } else {
        cbor_item(ids[0]) + cbor_items(ids.drop_first())
    }
}

/// A whole snapshot's binary form: an array of the references.
pub open spec fn cbor_refs(ids: Seq<Seq<u8>>) -> Seq<u8> {
    cbor_hdr(4, ids.len()) + cbor_items(ids)
}

/// The identifier byte strings of a reference list.
pub open spec fn ids_of(refs: Seq<UnloadedAudioLink>) -> Seq<Seq<u8>> {
    Seq::new(refs.len(), |i: int| vstd::utf8::encode_utf8(refs[i]@))
}

proof fn lemma_cbor_items_push(ids: Seq<Seq<u8>>, id: Seq<u8>)
    ensures
        cbor_items(ids.push(id)) == cbor_items(ids) + cbor_item(id),
    decreases ids.len(),
{
    if ids.len() == 0 {
        assert(ids.push(id).drop_first() =~= Seq::<Seq<u8>>::empty());
        assert(cbor_items(ids.push(id).drop_first()) =~= Seq::<u8>::empty());
        assert(ids.push(id)[0] == id);
        assert(cbor_items(ids) =~= Seq::<u8>::empty());
        assert(cbor_items(ids.push(id)) =~= cbor_items(ids) + cbor_item(id));
    } else {
        lemma_cbor_items_push(ids.drop_first(), id);
        assert(ids.push(id).drop_first() =~= ids.drop_first().push(id));
        assert(ids.push(id)[0] == ids[0]);
        assert(cbor_item(ids[0]) + (cbor_items(ids.drop_first()) + cbor_item(id)) =~= (cbor_item(
            ids[0],
        ) + cbor_items(ids.drop_first())) + cbor_item(id));
    }
}

/// The big-endian bytes of `m`, exactly `w` bytes wide.
fn be_vec(m: u64, w: usize) -> (r: Vec<u8>)
    ensures
        r@ == be_bytes(m as nat, w as nat),
    decreases w,
{
    if w == 0 {
        let r: Vec<u8> = Vec::new();
        proof {
            assert(r@ =~= be_bytes(m as nat, 0));
        }
        r
    } else {
        let mut r = be_vec(m / 256, w - 1);
        r.push((m % 256) as u8);
        r
    }
}

/// Appends the canonical CBOR header of `major` carrying count `n`.
fn push_hdr(out: &mut Vec<u8>, major: u8, n: usize)
    requires
        major < 8,
    ensures
        final(out)@ == old(out)@ + cbor_hdr(major, n as nat),
{
    let m = n as u64;
    if m < 24 {
        out.push(major * 32 + (m as u8));
        proof {
            assert(final(out)@ =~= old(out)@ + cbor_hdr(major, n as nat));
        }
    } else {
        let (info, w): (u8, usize) = if m < 256 {
            (24, 1)
        } else if m < 65536 {
            (25, 2)
        } else if m < 4294967296 {
            (26, 4)
        } else {
            (27, 8)
        };
        out.push(major * 32 + info);
        let mut tail = be_vec(m, w);
        out.append(&mut tail);
        proof {
            assert(final(out)@ =~= old(out)@ + cbor_hdr(major, n as nat));
        }
    }
}

/// Appends the layout of one reference.
fn push_item(out: &mut Vec<u8>, id_bytes: &Vec<u8>)
    ensures
        final(out)@ == old(out)@ + cbor_item(id_bytes@),
{
    out.push(0xa1);
    out.push(0x62);
    out.push(0x79);
    out.push(0x74);
    push_hdr(out, 3, id_bytes.len());
    let n = id_bytes.len();
    let mut i: usize = 0;
    while i < n
        invariant
            n == id_bytes@.len(),
            i <= n,
            out@ =~= old(out)@ + seq![0xa1u8, 0x62u8, 0x79u8, 0x74u8] + cbor_hdr(3, n as nat)
                + id_bytes@.take(i as int),
        decreases n - i,
    {
        out.push(id_bytes[i]);
        proof {
            assert(id_bytes@.take(i + 1) =~= id_bytes@.take(i as int).push(id_bytes@[i as int]));
        }
        i = i + 1;
    }
    proof {
        assert(id_bytes@.take(n as int) =~= id_bytes@);
        assert(final(out)@ =~= old(out)@ + cbor_item(id_bytes@));
    }
}

/// Serializes a reference list to the snapshot's binary form.
pub fn encode_refs(refs: &Vec<UnloadedAudioLink>) -> (r: Vec<u8>)
    ensures
        r@ == cbor_refs(ids_of(refs@)),
{
    let mut out: Vec<u8> = Vec::new();
    push_hdr(&mut out, 4, refs.len());
    let n = refs.len();
    let mut i: usize = 0;
    while i < n
        invariant
            n == refs@.len(),
            i <= n,
            out@ =~= cbor_hdr(4, n as nat) + cbor_items(ids_of(refs@).take(i as int)),
        decreases n - i,
    {
        let id_bytes = match &refs[i] {
            UnloadedAudioLink::Youtube(id) => id.as_str().as_bytes_vec(),
        };
        push_item(&mut out, &id_bytes);
        proof {
            let ids = ids_of(refs@);
            assert(id_bytes@ == ids[i as int]);
            assert(ids.take(i + 1) =~= ids.take(i as int).push(ids[i as int]));
            lemma_cbor_items_push(ids.take(i as int), ids[i as int]);
            assert(out@ =~= cbor_hdr(4, n as nat) + cbor_items(ids.take(i + 1)));
        }
        i = i + 1;
    }
    proof {
        assert(ids_of(refs@).take(n as int) =~= ids_of(refs@));
    }
    out
}


/// Parses one definite-length CBOR header at the front of `b`: the major
/// type, the count it carries, and the bytes it used.
pub open spec fn parse_hdr(b: Seq<u8>) -> Option<(u8, nat, int)> {
    if b.len() == 0 {
        Option::None
    } else {
        let major = b[0] / 32;
        let low = (b[0] % 32) as nat;
        if low < 24 {
            Option::Some((major, low, 1int))
        } else if low == 24 {
            if b.len() >= 2 {
                Option::Some((major, be_val(b.subrange(1, 2)), 2int))
            } else {
                Option::None
            }
        } else if low == 25 {
            if b.len() >= 3 {
                Option::Some((major, be_val(b.subrange(1, 3)), 3int))
            } else {
                Option::None
            }
        } else if low == 26 {
            if b.len() >= 5 {
                Option::Some((major, be_val(b.subrange(1, 5)), 5int))
            } else {
                Option::None
            }
        } else if low == 27 {
            if b.len() >= 9 {
                Option::Some((major, be_val(b.subrange(1, 9)), 9int))
            } else {
                Option::None
            }
        } else {
            Option::None
        }
    }
}

/// Parses one reference at the front of `b`: the identifier bytes and the
/// length consumed.
pub open spec fn parse_item(b: Seq<u8>) -> Option<(Seq<u8>, int)> {
    if b.len() >= 4 && b[0] == 0xa1 && b[1] == 0x62 && b[2] == 0x79 && b[3] == 0x74 {
        let rest = b.skip(4);
        match parse_hdr(rest) {
            Option::Some((major, n, used)) => {
                if major == 3 && rest.len() >= used + n {
                    Option::Some((rest.subrange(used, used + n), 4 + used + n))
                } else {
                    Option::None
                }
            },
            Option::None => Option::None,
        }
    } else {
        Option::None
    }
}

/// Parses exactly `k` references at the front of `b`.
pub open spec fn parse_items(b: Seq<u8>, k: nat) -> Option<(Seq<Seq<u8>>, int)>
    decreases k,
{
    if k == 0 {
        Option::Some((Seq::empty(), 0int))
    } else {
        match parse_item(b) {
            Option::Some((id, used)) => match parse_items(b.skip(used), (k - 1) as nat) {
                Option::Some((ids, used2)) => Option::Some((seq![id] + ids, used + used2)),
                Option::None => Option::None,
            },
            Option::None => Option::None,
        }
    }
}

/// Parses a whole snapshot: the array header, then exactly its count of
/// references, consuming all of the input.
pub open spec fn parse_refs(b: Seq<u8>) -> Option<Seq<Seq<u8>>> {
    match parse_hdr(b) {
        Option::Some((major, n, used)) => {
            if major == 4 {
                match parse_items(b.skip(used), n) {
                    Option::Some((ids, used2)) => if used + used2 == b.len() {
                        Option::Some(ids)
                    } else {
                        Option::None
                    },
                    Option::None => Option::None,
                }
            } else {
                Option::None
            }
        },
        Option::None => Option::None,
    }
}

proof fn lemma_parse_items_step(b: Seq<u8>, k: nat, id: Seq<u8>, used: int)
    requires
        k > 0,
        parse_item(b) == Option::Some((id, used)),
    ensures
        parse_items(b, k) == (match parse_items(b.skip(used), (k - 1) as nat) {
            Option::Some((ids, used2)) => Option::Some((seq![id] + ids, used + used2)),
            Option::None => Option::None::<(Seq<Seq<u8>>, int)>,
        }),
{
}

proof fn lemma_parse_items_fail(b: Seq<u8>, k: nat)
    requires
        k > 0,
        parse_item(b) is None,
    ensures
        parse_items(b, k) is None,
{
}

/// Reads `w` big-endian bytes starting at `pos`.
fn read_be(bytes: &Vec<u8>, pos: usize, w: usize) -> (n: u64)
    requires
        w <= 8,
        pos + w <= bytes@.len(),
    ensures
        n as nat == be_val(bytes@.subrange(pos as int, pos + w)),
{
    proof {
        reveal_with_fuel(pow256, 10);
    }
    let mut n: u64 = 0;
    let mut j: usize = 0;
    let total = bytes.len();
    proof {
        assert(bytes@.subrange(pos as int, pos as int) =~= Seq::<u8>::empty());
    }
    while j < w
        invariant
            w <= 8,
            j <= w,
            pos + w <= bytes@.len(),
            bytes@.len() == total,
            n as nat == be_val(bytes@.subrange(pos as int, pos + j)),
            (n as nat) < pow256(j as nat),
        decreases w - j,
    {
        proof {
            reveal_with_fuel(pow256, 10);
            lemma_pow256_le(j as nat, 7);
        }
        n = n * 256 + (bytes[pos + j] as u64);
        proof {
            let s1 = bytes@.subrange(pos as int, pos + j + 1);
            assert(s1.drop_last() =~= bytes@.subrange(pos as int, pos + j));
            assert(s1.last() == bytes@[pos + j]);
        }
        j = j + 1;
    }
    n
}

/// Reads one definite-length CBOR header starting at `pos`.
fn read_hdr(bytes: &Vec<u8>, pos: usize) -> (r: Option<(u8, u64, usize)>)
    requires
        pos <= bytes@.len(),
    ensures
        match r {
            Some(h) => parse_hdr(bytes@.skip(pos as int)) matches Some(h2) && h.0 == h2.0 && h.1
                as nat == h2.1 && h.2 == pos + h2.2 && h.2 <= bytes@.len(),
            None => parse_hdr(bytes@.skip(pos as int)) is None,
        },
{
    let ghost b = bytes@.skip(pos as int);
    if pos >= bytes.len() {
        return None;
    }
    let x = bytes[pos];
    let major = x / 32;
    let low = x % 32;
    proof {
        assert(b[0] == bytes@[pos as int]);
    }
    if low < 24 {
        Some((major, low as u64, pos + 1))
    } else if low <= 27 {
        let w: usize = if low == 24 {
            1
        } else if low == 25 {
            2
        } else if low == 26 {
            4
        } else {
            8
        };
        if bytes.len() - pos >= 1 + w {
            let n = read_be(bytes, pos + 1, w);
            proof {
                assert(b.subrange(1, 1 + w as int) =~= bytes@.subrange(pos + 1, pos + 1 + w));
            }
            Some((major, n, pos + 1 + w))
        } else {
            None
        }
    } else {
        None
    }
}

/// Reads one reference starting at `pos`: the identifier's raw bytes and
/// the position after the reference.
fn read_item(bytes: &Vec<u8>, pos: usize) -> (r: Option<(Vec<u8>, usize)>)
    requires
        pos <= bytes@.len(),
    ensures
        match r {
            Some(p) => parse_item(bytes@.skip(pos as int)) matches Some(p2) && p.0@ == p2.0 && p.1
                == pos + p2.1 && p.1 <= bytes@.len(),
            None => parse_item(bytes@.skip(pos as int)) is None,
        },
{
    let ghost b = bytes@.skip(pos as int);
    if bytes.len() - pos < 4 {
        return None;
    }
    proof {
        assert(b[0] == bytes@[pos as int]);
        assert(b[1] == bytes@[pos + 1]);
        assert(b[2] == bytes@[pos + 2]);
        assert(b[3] == bytes@[pos + 3]);
    }
    if !(bytes[pos] == 0xa1 && bytes[pos + 1] == 0x62 && bytes[pos + 2] == 0x79 && bytes[pos + 3]
        == 0x74) {
        return None;
    }
    proof {
        assert(b.skip(4) =~= bytes@.skip(pos + 4));
    }
    match read_hdr(bytes, pos + 4) {
        None => None,
        Some((major, n, p2)) => {
            if major != 3 {
                return None;
            }
            if ((bytes.len() - p2) as u64) < n {
                proof {
                    let rest = b.skip(4);
                    let h2 = parse_hdr(rest)->0;
                    assert(rest.len() < h2.2 + h2.1);
                }
                return None;
            }
            let len = n as usize;
            let mut id: Vec<u8> = Vec::new();
            let mut j: usize = 0;
            proof {
                assert(id@ =~= bytes@.subrange(p2 as int, p2 as int));
            }
            let total = bytes.len();
            while j < len
                invariant
                    p2 + len <= bytes@.len(),
                    bytes@.len() == total,
                    j <= len,
                    id@ =~= bytes@.subrange(p2 as int, p2 + j),
                decreases len - j,
            {
                id.push(bytes[p2 + j]);
                proof {
                    assert(bytes@.subrange(p2 as int, p2 + j + 1) =~= bytes@.subrange(
                        p2 as int,
                        p2 + j,
                    ).push(bytes@[p2 + j]));
                }
                j = j + 1;
            }
            proof {
                let rest = b.skip(4);
                let h2 = parse_hdr(rest)->0;
                assert(h2.2 == p2 - (pos + 4));
                assert(rest.len() == bytes@.len() - pos - 4);
                assert(rest.len() >= h2.2 + h2.1);
                assert(rest.subrange(h2.2, h2.2 + h2.1) =~= bytes@.subrange(p2 as int, p2 + len));
            }
            Some((id, p2 + len))
        },
    }
}


/// The text form of a byte string, as the outside text encoder produces it.
pub uninterp spec fn base64_encoding(bytes: Seq<u8>) -> Seq<char>;

/// Relies on the base64 crate's `STANDARD` engine `encode`: the result is a
/// function of the input bytes alone.
#[verifier::external_body]
fn b64_encode(bytes: &Vec<u8>) -> (r: String)
    ensures
        r@ == base64_encoding(bytes@),
{
    BASE64_STANDARD.encode(bytes.as_slice())
}

/// Relies on the base64 crate's `STANDARD` engine `decode`: the engine's
/// default config demands canonical padding and rejects set trailing bits,
/// so it accepts exactly the strings `encode` produces and returns the one
/// byte string each of them encodes.
#[verifier::external_body]
fn b64_decode(token: &str) -> (r: Option<Vec<u8>>)
    ensures
        match r {
            Some(v) => token@ == base64_encoding(v@) && forall|b: Seq<u8>|
                token@ == #[trigger] base64_encoding(b) ==> b == v@,
            None => forall|b: Seq<u8>| token@ != #[trigger] base64_encoding(b),
        },
{
    BASE64_STANDARD.decode(token.as_bytes()).ok()
}

/// Relies on `String::from_utf8`: returns the string whose UTF-8 encoding
/// is the input, and fails exactly when the bytes are not valid UTF-8.
#[verifier::external_body]
fn string_from_utf8(bytes: Vec<u8>) -> (r: Option<String>)
    ensures
        match r {
            Some(s) => vstd::utf8::encode_utf8(s@) == bytes@,
            None => !vstd::utf8::valid_utf8(bytes@),
        },
{
    String::from_utf8(bytes).ok()
}

/// Parses a snapshot's binary form back into its reference list: the result
/// is exactly what `parse_refs` says of the bytes, each identifier decoded
/// from its text bytes.
pub fn decode_refs(bytes: &Vec<u8>) -> (r: Result<Vec<UnloadedAudioLink>, Error>)
    ensures
        match r {
            Ok(refs) => parse_refs(bytes@) == Some(ids_of(refs@)),
            Err(e) => e == Error::ImportDecodeFailure && (match parse_refs(bytes@) {
                Some(ids) => exists|k: int|
                    0 <= k < ids.len() && !vstd::utf8::valid_utf8(#[trigger] ids[k]),
                None => true,
            }),
        },
{
    proof {
        assert(bytes@.skip(0) =~= bytes@);
    }
    let hdr = read_hdr(bytes, 0);
    let (major, count, pos0) = match hdr {
        Some(h) => h,
        None => {
            return Err(Error::ImportDecodeFailure);
        },
    };
    if major != 4 {
        return Err(Error::ImportDecodeFailure);
    }
    let mut refs: Vec<UnloadedAudioLink> = Vec::new();
    let mut pos: usize = pos0;
    let mut i: u64 = 0;
    proof {
        assert(ids_of(refs@) =~= Seq::<Seq<u8>>::empty());
        match parse_items(bytes@.skip(pos0 as int), count as nat) {
            Some((ids0, u0)) => {
                assert(ids_of(refs@) + ids0 =~= ids0);
            },
            None => {},
        }
    }
    while i < count
        invariant
            i <= count,
            pos0 <= pos <= bytes@.len(),
            parse_hdr(bytes@) == Some((4u8, count as nat, pos0 as int)),
            ids_of(refs@).len() == i as nat,
            (match parse_items(bytes@.skip(pos as int), (count - i) as nat) {
                Some(pr) => parse_items(bytes@.skip(pos0 as int), count as nat) matches Some(pr0)
                    && pr0.0 == ids_of(refs@) + pr.0 && pr0.1 == pos - pos0 + pr.1,
                None => parse_items(bytes@.skip(pos0 as int), count as nat) is None,
            }),
        decreases count - i,
    {
        let ghost oldpos = pos as int;
        let ghost k = (count - i) as nat;
        let ghost idsprev = ids_of(refs@);
        let item = match read_item(bytes, pos) {
            Some(p) => p,
            None => {
                proof {
                    lemma_parse_items_fail(bytes@.skip(pos as int), k);
                }
                return Err(Error::ImportDecodeFailure);
            },
        };
        let (idv, np) = item;
        let ghost idg = idv@;
        let ghost used = np - pos;
        proof {
            lemma_parse_items_step(bytes@.skip(pos as int), k, idg, used);
            assert(bytes@.skip(pos as int).skip(used) =~= bytes@.skip(np as int));
        }
        let s = match string_from_utf8(idv) {
            Some(s) => s,
            None => {
                proof {
                    match parse_items(bytes@.skip(np as int), (k - 1) as nat) {
                        Some((tids, tused)) => {
                            assert(parse_items(bytes@.skip(oldpos), k) == Some((
                                seq![idg] + tids,
                                used + tused,
                            )));
                            match parse_refs(bytes@) {
                                Some(ids) => {
                                    assert(ids == idsprev + (seq![idg] + tids));
                                    assert(ids[i as int] == idg);
                                    assert(0 <= i < ids.len()
                                        && !vstd::utf8::valid_utf8(ids[i as int]));
                                },
                                None => {},
                            }
                        },
                        None => {
                            assert(parse_items(bytes@.skip(oldpos), k) is None);
                        },
                    }
                }
                return Err(Error::ImportDecodeFailure);
            },
        };
        refs.push(UnloadedAudioLink::Youtube(s));
        pos = np;
        i = i + 1;
        proof {
            assert(ids_of(refs@) =~= idsprev.push(idg));
            match parse_items(bytes@.skip(pos as int), (k - 1) as nat) {
                Some((tids, tused)) => {
                    assert(parse_items(bytes@.skip(oldpos), k) == Some((
                        seq![idg] + tids,
                        used + tused,
                    )));
                    assert(idsprev + (seq![idg] + tids) =~= ids_of(refs@) + tids);
                },
                None => {
                    assert(parse_items(bytes@.skip(oldpos), k) is None);
                },
            }
        }
    }
    proof {
        assert(parse_items(bytes@.skip(pos as int), (count - i) as nat) == Some((
            Seq::<Seq<u8>>::empty(),
            0int,
        )));
        assert(ids_of(refs@) + Seq::<Seq<u8>>::empty() =~= ids_of(refs@));
    }
    if pos != bytes.len() {
        return Err(Error::ImportDecodeFailure);
    }
    Ok(refs)
}

/// An export token: the snapshot's binary form, text-encoded.
pub fn export_token(refs: &Vec<UnloadedAudioLink>) -> (r: String)
    ensures
        r@ == base64_encoding(cbor_refs(ids_of(refs@))),
{
    let bytes = encode_refs(refs);
    b64_encode(&bytes)
}

/// Decodes an export token: undoes the text encoding, then parses the
/// binary form.  It fails exactly on tokens no export can produce: text
/// that encodes no byte string, bytes that do not parse as a snapshot, or a
/// parsed identifier that is not text.
pub fn import_decode(token: &str) -> (r: Result<Vec<UnloadedAudioLink>, Error>)
    ensures
        match r {
            Ok(refs) => (exists|bs: Seq<u8>| token@ == #[trigger] base64_encoding(bs))
                && (forall|bs: Seq<u8>|
                token@ == #[trigger] base64_encoding(bs) ==> parse_refs(bs) == Some(
                    ids_of(refs@),
                )),
            Err(e) => e == Error::ImportDecodeFailure && (forall|bs: Seq<u8>|
                token@ == #[trigger] base64_encoding(bs) ==> (match parse_refs(bs) {
                    Some(ids) => exists|k: int|
                        0 <= k < ids.len() && !vstd::utf8::valid_utf8(#[trigger] ids[k]),
                    None => true,
                })),
        },
{
    let bytes = match b64_decode(token) {
        Some(v) => v,
        None => {
            return Err(Error::ImportDecodeFailure);
        },
    };
    match decode_refs(&bytes) {
        Ok(refs) => {
            proof {
                assert(token@ == base64_encoding(bytes@));
                assert forall|bs: Seq<u8>|
                    token@ == #[trigger] base64_encoding(bs) implies parse_refs(bs) == Some(
                    ids_of(refs@),
                ) by {
                    assert(bs == bytes@);
                }
            }
            Ok(refs)
        },
        Err(e) => {
            proof {
                assert forall|bs: Seq<u8>|
                    token@ == #[trigger] base64_encoding(bs) implies (match parse_refs(bs) {
                    Some(ids) => exists|k: int|
                        0 <= k < ids.len() && !vstd::utf8::valid_utf8(#[trigger] ids[k]),
                    None => true,
                }) by {
                    assert(bs == bytes@);
                }
            }
            Err(e)
        },
    }
}


/// A canonical wide header — one that spells its count out in full bytes —
/// parses back to what it carries, whatever follows it.
proof fn lemma_parse_hdr_wide(major: u8, info: u8, w: nat, n: nat, tail: Seq<u8>)
    requires
        major < 8,
        24 <= info <= 27,
        w == (if info == 24 {
            1nat
        } else if info == 25 {
            2nat
        } else if info == 26 {
            4nat
        } else {
            8nat
        }),
        n < pow256(w),
    ensures
        parse_hdr(seq![(major * 32 + info) as u8] + be_bytes(n, w) + tail) == Some(
            (major, n, 1 + w as int),
        ),
{
    let b = seq![(major * 32 + info) as u8] + be_bytes(n, w) + tail;
    lemma_be_bytes_len(n, w);
    assert(b.len() == 1 + w + tail.len());
    assert(major * 32 + info < 256);
    assert(b[0] == (major * 32 + info) as u8);
    assert(b[0] / 32 == major && b[0] % 32 == info) by (nonlinear_arith)
        requires
            b[0] == major * 32 + info,
            major < 8,
            24 <= info <= 27,
    ;
    assert(b.subrange(1, 1 + w as int) =~= be_bytes(n, w));
    lemma_be_val_be_bytes(n, w);
}

/// A canonical header parses back to what it carries, whatever follows it.
pub proof fn lemma_parse_hdr_cbor(major: u8, n: nat, tail: Seq<u8>)
    requires
        major < 8,
        n < pow256(8),
    ensures
        parse_hdr(cbor_hdr(major, n) + tail) == Some((major, n, cbor_hdr(major, n).len() as int)),
{
    reveal_with_fuel(pow256, 10);
    let h = cbor_hdr(major, n);
    let b = h + tail;
    if n < 24 {
        assert(major * 32 + n < 256);
        assert(b[0] == (major * 32 + n) as u8);
        assert(b[0] / 32 == major && b[0] % 32 == n) by (nonlinear_arith)
            requires
                b[0] == major * 32 + n,
                major < 8,
                n < 24,
        ;
        assert(h.len() == 1);
    } else {
        let info: u8 = if n < 256 {
            24
        } else if n < 65536 {
            25
        } else if n < 4294967296 {
            26
        } else {
            27
        };
        let w: nat = if n < 256 {
            1
        } else if n < 65536 {
            2
        } else if n < 4294967296 {
            4
        } else {
            8
        };
        assert(pow256(1) == 256);
        assert(pow256(2) == 65536);
        assert(pow256(4) == 4294967296);
        assert(n < pow256(w));
        assert(h == seq![(major * 32 + info) as u8] + be_bytes(n, w));
        assert(b =~= seq![(major * 32 + info) as u8] + be_bytes(n, w) + tail);
        lemma_parse_hdr_wide(major, info, w, n, tail);
        lemma_be_bytes_len(n, w);
        assert(h.len() == 1 + w);
    }
}

/// One laid-out reference parses back to its identifier, whatever follows.
pub proof fn lemma_parse_item_cbor(id: Seq<u8>, tail: Seq<u8>)
    requires
        id.len() < pow256(8),
    ensures
        parse_item(cbor_item(id) + tail) == Some((id, cbor_item(id).len() as int)),
{
    let h = cbor_hdr(3, id.len());
    let b = cbor_item(id) + tail;
    assert(b[0] == 0xa1 && b[1] == 0x62 && b[2] == 0x79 && b[3] == 0x74);
    assert(b.len() >= 4);
    let rest = b.skip(4);
    assert(rest =~= h + (id + tail));
    lemma_parse_hdr_cbor(3, id.len(), id + tail);
    assert(parse_hdr(rest) == Some((3u8, id.len(), h.len() as int)));
    assert(rest.len() >= h.len() + id.len());
    assert(rest.subrange(h.len() as int, h.len() as int + id.len() as int) =~= id);
    assert(4 + h.len() + id.len() == cbor_item(id).len());
}

/// Laid-out references parse back to themselves, whatever follows.
pub proof fn lemma_parse_items_cbor(ids: Seq<Seq<u8>>, tail: Seq<u8>)
    requires
        forall|i: int| 0 <= i < ids.len() ==> (#[trigger] ids[i]).len() < pow256(8),
    ensures
        parse_items(cbor_items(ids) + tail, ids.len()) == Some(
            (ids, cbor_items(ids).len() as int),
        ),
    decreases ids.len(),
{
    if ids.len() == 0 {
        assert(cbor_items(ids) =~= Seq::<u8>::empty());
        assert(ids =~= Seq::<Seq<u8>>::empty());
    } else {
        let first = ids[0];
        let rest = ids.drop_first();
        let b = cbor_items(ids) + tail;
        assert(cbor_items(ids) == cbor_item(first) + cbor_items(rest));
        assert(b =~= cbor_item(first) + (cbor_items(rest) + tail));
        lemma_parse_item_cbor(first, cbor_items(rest) + tail);
        assert(parse_item(b) == Some((first, cbor_item(first).len() as int)));
        assert(b.skip(cbor_item(first).len() as int) =~= cbor_items(rest) + tail);
        assert forall|i: int| 0 <= i < rest.len() implies (#[trigger] rest[i]).len() < pow256(
            8,
        ) by {
            assert(rest[i] == ids[i + 1]);
        }
        lemma_parse_items_cbor(rest, tail);
        lemma_parse_items_step(b, ids.len(), first, cbor_item(first).len() as int);
        assert(seq![first] + rest =~= ids);
        assert(cbor_item(first).len() + cbor_items(rest).len() == cbor_items(ids).len());
    }
}

/// The codec round trip: a snapshot's binary form parses back to exactly
/// the identifiers it was built from.
pub proof fn lemma_parse_refs_cbor(ids: Seq<Seq<u8>>)
    requires
        ids.len() < pow256(8),
        forall|i: int| 0 <= i < ids.len() ==> (#[trigger] ids[i]).len() < pow256(8),
    ensures
        parse_refs(cbor_refs(ids)) == Some(ids),
{
    let h = cbor_hdr(4, ids.len());
    let b = cbor_refs(ids);
    lemma_parse_hdr_cbor(4, ids.len(), cbor_items(ids));
    assert(parse_hdr(b) == Some((4u8, ids.len(), h.len() as int)));
    lemma_parse_items_cbor(ids, Seq::<u8>::empty());
    assert(cbor_items(ids) + Seq::<u8>::empty() =~= cbor_items(ids));
    assert(b.skip(h.len() as int) =~= cbor_items(ids));
    assert(h.len() + cbor_items(ids).len() == b.len());
}

/// The whole export/import round trip, over the terms the contracts use:
/// when a token is the text encoding of the snapshot built from `orig`, any
/// reference list that decoding accepts for that token carries exactly the
/// identifiers of `orig`.
pub proof fn lemma_token_round_trip(orig: Seq<UnloadedAudioLink>, out: Seq<UnloadedAudioLink>)
    requires
        orig.len() < pow256(8),
        forall|i: int|
            0 <= i < orig.len() ==> vstd::utf8::encode_utf8(#[trigger] orig[i]@).len() < pow256(8),
        parse_refs(cbor_refs(ids_of(orig))) == Some(ids_of(out)),
    ensures
        out.len() == orig.len(),
        forall|i: int| 0 <= i < out.len() ==> #[trigger] out[i]@ == orig[i]@,
{
    assert forall|i: int| 0 <= i < ids_of(orig).len() implies (#[trigger] ids_of(orig)[i]).len()
        < pow256(8) by {
        assert(ids_of(orig)[i] == vstd::utf8::encode_utf8(orig[i]@));
    }
    lemma_parse_refs_cbor(ids_of(orig));
    assert(ids_of(out) == ids_of(orig));
    assert(out.len() == orig.len());
    assert forall|i: int| 0 <= i < out.len() implies #[trigger] out[i]@ == orig[i]@ by {
        assert(ids_of(out)[i] == ids_of(orig)[i]);
        assert(vstd::utf8::encode_utf8(out[i]@) == vstd::utf8::encode_utf8(orig[i]@));
        assert(vstd::utf8::decode_utf8(vstd::utf8::encode_utf8(out[i]@)) == out[i]@);
        assert(vstd::utf8::decode_utf8(vstd::utf8::encode_utf8(orig[i]@)) == orig[i]@);
    }
}

} // verus!
