//! The record codec's primitives: little-endian integers, booleans,
//! length-prefixed byte strings and UTF-8 text, optional byte strings, and
//! counted lists of byte strings. Every primitive has a specification-level
//! encoder, a specification-level parser, a lemma that the parser inverts the
//! encoder, and executable functions proved against them.
use vstd::bytes::lemma_auto_spec_u32_to_from_le_bytes;
use vstd::bytes::lemma_auto_spec_u64_to_from_le_bytes;
use vstd::bytes::spec_u32_from_le_bytes;
use vstd::bytes::spec_u32_to_le_bytes;
use vstd::bytes::spec_u64_from_le_bytes;
use vstd::bytes::spec_u64_to_le_bytes;
use vstd::bytes::u32_from_le_bytes;
use vstd::bytes::u32_to_le_bytes;
use vstd::bytes::u64_from_le_bytes;
use vstd::bytes::u64_to_le_bytes;
use vstd::prelude::*;
use vstd::slice::slice_subrange;
use vstd::slice::slice_to_vec;
use vstd::utf8::decode_utf8;
use vstd::utf8::encode_utf8;
use vstd::utf8::encode_utf8_decode_utf8;
use vstd::utf8::encode_utf8_valid_utf8;
use vstd::utf8::valid_utf8;

verus! {

// ---------------------------------------------------------------------------
// Specification-level encoders.
// ---------------------------------------------------------------------------
pub open spec fn spec_enc_u32(x: u32) -> Seq<u8> {
    spec_u32_to_le_bytes(x)
}

pub open spec fn spec_enc_u64(x: u64) -> Seq<u8> {
    spec_u64_to_le_bytes(x)
}

pub open spec fn spec_enc_bool(x: bool) -> Seq<u8> {
    seq![if x { 1u8 } else { 0u8 }]
}

/// A byte string: its length as a 64-bit prefix, then the bytes themselves.
pub open spec fn spec_enc_bytes(data: Seq<u8>) -> Seq<u8>
    recommends
        data.len() <= u64::MAX,
{
    spec_enc_u64(data.len() as u64) + data
}

/// Text: the length-prefixed UTF-8 bytes of the character sequence.
pub open spec fn spec_enc_str(s: Seq<char>) -> Seq<u8> {
    spec_enc_bytes(encode_utf8(s))
}

/// An optional byte string: a tag byte, then the byte string when present.
pub open spec fn spec_enc_opt_bytes(o: Option<Seq<u8>>) -> Seq<u8> {
    match o {
        None => seq![0u8],
        Some(data) => seq![1u8] + spec_enc_bytes(data),
    }
}

/// The elements of a list of byte strings, one after the other.
pub open spec fn spec_enc_bytes_list(l: Seq<Seq<u8>>) -> Seq<u8>
    decreases l.len(),
{
    if l.len() == 0 {
        Seq::empty()
    } else {
        spec_enc_bytes(l[0]) + spec_enc_bytes_list(l.drop_first())
    }
}

// ---------------------------------------------------------------------------
// Specification-level parsers. Each takes the whole buffer and an offset and
// yields the parsed value and the offset just past it, or nothing when the
// bytes at the offset are not an encoding.
// ---------------------------------------------------------------------------
pub open spec fn sp_u32(b: Seq<u8>, i: int) -> Option<(u32, int)> {
    if 0 <= i && i + 4 <= b.len() {
        Some((spec_u32_from_le_bytes(b.subrange(i, i + 4)), i + 4))
    } else {
        None
    }
}

pub open spec fn sp_u64(b: Seq<u8>, i: int) -> Option<(u64, int)> {
    if 0 <= i && i + 8 <= b.len() {
        Some((spec_u64_from_le_bytes(b.subrange(i, i + 8)), i + 8))
    } else {
        None
    }
}

pub open spec fn sp_bool(b: Seq<u8>, i: int) -> Option<(bool, int)> {
    if 0 <= i && i + 1 <= b.len() {
        if b[i] == 1u8 {
            Some((true, i + 1))
        } else if b[i] == 0u8 {
            Some((false, i + 1))
        } else {
            None
        }
    } else {
        None
    }
}

pub open spec fn sp_bytes(b: Seq<u8>, i: int) -> Option<(Seq<u8>, int)> {
    match sp_u64(b, i) {
        None => None,
        Some((n, j)) => if j + n <= b.len() {
            Some((b.subrange(j, j + n), j + n))
        } else {
            None
        },
    }
}

pub open spec fn sp_str(b: Seq<u8>, i: int) -> Option<(Seq<char>, int)> {
    match sp_bytes(b, i) {
        None => None,
        Some((data, j)) => if valid_utf8(data) {
            Some((decode_utf8(data), j))
        } else {
            None
        },
    }
}

pub open spec fn sp_opt_bytes(b: Seq<u8>, i: int) -> Option<(Option<Seq<u8>>, int)> {
    if 0 <= i && i + 1 <= b.len() {
        if b[i] == 0u8 {
            Some((None, i + 1))
        } else if b[i] == 1u8 {
            match sp_bytes(b, i + 1) {
                None => None,
                Some((data, j)) => Some((Some(data), j)),
            }
        } else {
            None
        }
    } else {
        None
    }
}

pub open spec fn sp_bytes_list(b: Seq<u8>, i: int, n: nat) -> Option<(Seq<Seq<u8>>, int)>
    decreases n,
{
    if n == 0 {
        if 0 <= i <= b.len() {
            Some((Seq::empty(), i))
        } else {
            None
        }
    } else {
        match sp_bytes(b, i) {
            None => None,
            Some((x, j)) => match sp_bytes_list(b, j, (n - 1) as nat) {
                None => None,
                Some((rest, k)) => Some((seq![x] + rest, k)),
            },
        }
    }
}

// ---------------------------------------------------------------------------
// Inverse lemmas: wherever a buffer holds an encoding, the parser recovers
// exactly the encoded value and stops just past it.
// ---------------------------------------------------------------------------
pub proof fn lemma_sp_u32(b: Seq<u8>, i: int, x: u32)
    requires
        0 <= i,
        i + 4 <= b.len(),
        b.subrange(i, i + 4) == spec_enc_u32(x),
    ensures
        sp_u32(b, i) == Some((x, i + 4)),
{
    lemma_auto_spec_u32_to_from_le_bytes();
    assert(spec_u32_to_le_bytes(x).len() == 4);
    assert(spec_u32_from_le_bytes(spec_u32_to_le_bytes(x)) == x);
}

pub proof fn lemma_sp_u64(b: Seq<u8>, i: int, x: u64)
    requires
        0 <= i,
        i + 8 <= b.len(),
        b.subrange(i, i + 8) == spec_enc_u64(x),
    ensures
        sp_u64(b, i) == Some((x, i + 8)),
{
    lemma_auto_spec_u64_to_from_le_bytes();
}

pub proof fn lemma_sp_bool(b: Seq<u8>, i: int, x: bool)
    requires
        0 <= i,
        i + 1 <= b.len(),
        b.subrange(i, i + 1) == spec_enc_bool(x),
    ensures
        sp_bool(b, i) == Some((x, i + 1)),
{
    assert(b[i] == spec_enc_bool(x)[0]);
}

pub proof fn lemma_sp_bytes(b: Seq<u8>, i: int, data: Seq<u8>)
    requires
        0 <= i,
        data.len() <= u64::MAX,
        i + 8 + data.len() <= b.len(),
        b.subrange(i, i + 8 + data.len()) == spec_enc_bytes(data),
    ensures
        sp_bytes(b, i) == Some((data, i + 8 + data.len())),
{
    lemma_auto_spec_u64_to_from_le_bytes();
    let whole = b.subrange(i, i + 8 + data.len());
    let l = data.len() as int;
    assert forall|k: int| 0 <= k < 8 implies b[i + k] == #[trigger] spec_enc_u64(data.len() as u64)[k] by {
        assert(whole[k] == spec_enc_u64(data.len() as u64)[k]);
    }
    assert(b.subrange(i, i + 8) =~= spec_enc_u64(data.len() as u64));
    lemma_sp_u64(b, i, data.len() as u64);
    assert forall|k: int| 0 <= k < l implies b[i + 8 + k] == #[trigger] data[k] by {
        assert(whole[8 + k] == data[k]);
    }
    assert(b.subrange(i + 8, i + 8 + l) =~= data);
}

pub proof fn lemma_sp_str(b: Seq<u8>, i: int, s: Seq<char>)
    requires
        0 <= i,
        encode_utf8(s).len() <= u64::MAX,
        i + 8 + encode_utf8(s).len() <= b.len(),
        b.subrange(i, i + 8 + encode_utf8(s).len()) == spec_enc_str(s),
    ensures
        sp_str(b, i) == Some((s, i + 8 + encode_utf8(s).len())),
{
    lemma_sp_bytes(b, i, encode_utf8(s));
    encode_utf8_valid_utf8(s);
    encode_utf8_decode_utf8(s);
}

pub proof fn lemma_sp_opt_bytes(b: Seq<u8>, i: int, o: Option<Seq<u8>>)
    requires
        0 <= i,
        i + spec_enc_opt_bytes(o).len() <= b.len(),
        (o matches Some(data) ==> data.len() <= u64::MAX),
        b.subrange(i, i + spec_enc_opt_bytes(o).len()) == spec_enc_opt_bytes(o),
    ensures
        sp_opt_bytes(b, i) == Some((o, i + spec_enc_opt_bytes(o).len())),
{
    lemma_auto_spec_u64_to_from_le_bytes();
    match o {
        None => {
            assert(b[i] == spec_enc_opt_bytes(o)[0]);
        },
        Some(data) => {
            let whole = b.subrange(i, i + spec_enc_opt_bytes(o).len());
            assert(b[i] == whole[0]);
            assert(whole[0] == 1u8);
            let l = 8 + data.len() as int;
            assert forall|k: int| 0 <= k < l implies b[i + 1 + k] == #[trigger] spec_enc_bytes(data)[k] by {
                assert(whole[1 + k] == spec_enc_bytes(data)[k]);
            }
            assert(b.subrange(i + 1, i + 1 + l) =~= spec_enc_bytes(data));
            lemma_sp_bytes(b, i + 1, data);
        },
    }
}

pub proof fn lemma_sp_bytes_list(b: Seq<u8>, i: int, l: Seq<Seq<u8>>)
    requires
        0 <= i,
        forall|k: int| 0 <= k < l.len() ==> #[trigger] l[k].len() <= u64::MAX,
        i + spec_enc_bytes_list(l).len() <= b.len(),
        b.subrange(i, i + spec_enc_bytes_list(l).len()) == spec_enc_bytes_list(l),
    ensures
        sp_bytes_list(b, i, l.len()) == Some((l, i + spec_enc_bytes_list(l).len())),
    decreases l.len(),
{
    lemma_auto_spec_u64_to_from_le_bytes();
    if l.len() == 0 {
        assert(Seq::<Seq<u8>>::empty() =~= l);
    } else {
        let head = l[0];
        let rest = l.drop_first();
        let whole = b.subrange(i, i + spec_enc_bytes_list(l).len());
        assert(whole == spec_enc_bytes(head) + spec_enc_bytes_list(rest));
        let hlen = 8 + head.len() as int;
        assert(spec_enc_bytes(head).len() == hlen);
        assert forall|k: int| 0 <= k < hlen implies b[i + k] == #[trigger] spec_enc_bytes(head)[k] by {
            assert(whole[k] == spec_enc_bytes(head)[k]);
        }
        assert(b.subrange(i, i + hlen) =~= spec_enc_bytes(head));
        lemma_sp_bytes(b, i, head);
        let rlen = spec_enc_bytes_list(rest).len() as int;
        assert forall|k: int| 0 <= k < rlen implies b[i + hlen + k] == #[trigger] spec_enc_bytes_list(
            rest,
        )[k] by {
            assert(whole[hlen + k] == spec_enc_bytes_list(rest)[k]);
        }
        assert(b.subrange(i + hlen, i + hlen + rlen) =~= spec_enc_bytes_list(rest));
        lemma_sp_bytes_list(b, i + hlen, rest);
        assert(seq![head] + rest =~= l);
    }
}

// ---------------------------------------------------------------------------
// Executable encoders: each appends one encoded value to the output buffer.
// ---------------------------------------------------------------------------
pub fn enc_u32(out: &mut Vec<u8>, x: u32)
    ensures
        final(out)@ == old(out)@ + spec_enc_u32(x),
{
    let mut piece = u32_to_le_bytes(x);
    out.append(&mut piece);
}

pub fn enc_u64(out: &mut Vec<u8>, x: u64)
    ensures
        final(out)@ == old(out)@ + spec_enc_u64(x),
{
    let mut piece = u64_to_le_bytes(x);
    out.append(&mut piece);
}

pub fn enc_bool(out: &mut Vec<u8>, x: bool)
    ensures
        final(out)@ == old(out)@ + spec_enc_bool(x),
{
    out.push(if x { 1u8 } else { 0u8 });
    assert(out@ =~= old(out)@ + spec_enc_bool(x));
}

pub fn enc_bytes(out: &mut Vec<u8>, data: &[u8])
    ensures
        final(out)@ == old(out)@ + spec_enc_bytes(data@),
{
    let n = data.len();
    assert(n <= u64::MAX);
    enc_u64(out, n as u64);
    let mut piece = slice_to_vec(data);
    out.append(&mut piece);
    assert(out@ =~= old(out)@ + spec_enc_bytes(data@));
}

pub fn enc_str(out: &mut Vec<u8>, s: &str)
    ensures
        final(out)@ == old(out)@ + spec_enc_str(s@),
{
    let bytes = s.as_bytes();
    enc_bytes(out, bytes);
}


/// Maps a parsed list of byte strings to its mathematical view.
pub open spec fn bytes_list_view(l: Seq<Vec<u8>>) -> Seq<Seq<u8>> {
    Seq::new(l.len(), |k: int| l[k]@)
}

/// Appending one element to a list extends its encoding at the end.
pub proof fn lemma_enc_bytes_list_push(l: Seq<Seq<u8>>, x: Seq<u8>)
    ensures
        spec_enc_bytes_list(l.push(x)) == spec_enc_bytes_list(l) + spec_enc_bytes(x),
    decreases l.len(),
{
    lemma_auto_spec_u64_to_from_le_bytes();
    if l.len() == 0 {
        assert(l.push(x)[0] == x);
        assert(l.push(x).drop_first() =~= Seq::<Seq<u8>>::empty());
        assert(spec_enc_bytes_list(Seq::<Seq<u8>>::empty()) == Seq::<u8>::empty());
        assert(spec_enc_bytes_list(l) == Seq::<u8>::empty());
        assert(spec_enc_bytes_list(l.push(x)) == spec_enc_bytes(x) + Seq::<u8>::empty());
        assert(spec_enc_bytes_list(l.push(x)) =~= spec_enc_bytes_list(l) + spec_enc_bytes(x));
    } else {
        assert(l.push(x)[0] == l[0]);
        assert(l.push(x).drop_first() =~= l.drop_first().push(x));
        lemma_enc_bytes_list_push(l.drop_first(), x);
        assert(spec_enc_bytes_list(l.push(x)) =~= spec_enc_bytes_list(l) + spec_enc_bytes(x));
    }
}

// ---------------------------------------------------------------------------
// Executable parsers, each proved to mirror its specification-level parser.
// ---------------------------------------------------------------------------

/// Relies on `String::from_utf8`: succeeds exactly on valid UTF-8 input, and
/// the returned string's UTF-8 bytes are the input bytes.
#[verifier::external_body]
pub fn bytes_to_string(v: Vec<u8>) -> (r: Option<String>)
    ensures
        match r {
            Some(s) => encode_utf8(s@) == v@,
            None => !valid_utf8(v@),
        },
{
    String::from_utf8(v).ok()
}

pub fn p_u32(b: &Vec<u8>, i: usize) -> (r: Option<(u32, usize)>)
    ensures
        match r {
            Some(p) => sp_u32(b@, i as int) == Some((p.0, p.1 as int)),
            None => sp_u32(b@, i as int) is None,
        },
{
    if i <= b.len() && b.len() - i >= 4 {
        let s = slice_subrange(b.as_slice(), i, i + 4);
        let x = u32_from_le_bytes(s);
        Some((x, i + 4))
    } else {
        None
    }
}

pub fn p_u64(b: &Vec<u8>, i: usize) -> (r: Option<(u64, usize)>)
    ensures
        match r {
            Some(p) => sp_u64(b@, i as int) == Some((p.0, p.1 as int)),
            None => sp_u64(b@, i as int) is None,
        },
{
    if i <= b.len() && b.len() - i >= 8 {
        let s = slice_subrange(b.as_slice(), i, i + 8);
        let x = u64_from_le_bytes(s);
        Some((x, i + 8))
    } else {
        None
    }
}

pub fn p_bool(b: &Vec<u8>, i: usize) -> (r: Option<(bool, usize)>)
    ensures
        match r {
            Some(p) => sp_bool(b@, i as int) == Some((p.0, p.1 as int)),
            None => sp_bool(b@, i as int) is None,
        },
{
    if i < b.len() {
        let t = b[i];
        if t == 1 {
            Some((true, i + 1))
        } else if t == 0 {
            Some((false, i + 1))
        } else {
            None
        }
    } else {
        None
    }
}

pub fn p_bytes(b: &Vec<u8>, i: usize) -> (r: Option<(Vec<u8>, usize)>)
    ensures
        match r {
            Some(p) => sp_bytes(b@, i as int) == Some((p.0@, p.1 as int)),
            None => sp_bytes(b@, i as int) is None,
        },
{
    match p_u64(b, i) {
        None => None,
        Some((n, j)) => {
            if n <= (b.len() - j) as u64 {
                let m = n as usize;
                let s = slice_subrange(b.as_slice(), j, j + m);
                Some((slice_to_vec(s), j + m))
            } else {
                None
            }
        },
    }
}

pub fn p_str(b: &Vec<u8>, i: usize) -> (r: Option<(String, usize)>)
    ensures
        match r {
            Some(p) => sp_str(b@, i as int) == Some((p.0@, p.1 as int)) && encode_utf8(
                p.0@,
            ).len() <= u64::MAX,
            None => sp_str(b@, i as int) is None,
        },
{
    match p_bytes(b, i) {
        None => None,
        Some((data, j)) => {
            let n = data.len();
            assert(n <= u64::MAX);
            let ghost dv = data@;
            match bytes_to_string(data) {
                None => None,
                Some(s) => {
                    proof {
                        encode_utf8_valid_utf8(s@);
                        encode_utf8_decode_utf8(s@);
                    }
                    Some((s, j))
                },
            }
        },
    }
}

/// Maps an optional byte vector to its mathematical view.
pub open spec fn opt_bytes_view(o: Option<Vec<u8>>) -> Option<Seq<u8>> {
    match o {
        None => None,
        Some(v) => Some(v@),
    }
}

pub fn p_opt_bytes(b: &Vec<u8>, i: usize) -> (r: Option<(Option<Vec<u8>>, usize)>)
    ensures
        match r {
            Some(p) => sp_opt_bytes(b@, i as int) == Some((opt_bytes_view(p.0), p.1 as int)),
            None => sp_opt_bytes(b@, i as int) is None,
        },
{
    if i < b.len() {
        let t = b[i];
        if t == 0 {
            Some((None, i + 1))
        } else if t == 1 {
            match p_bytes(b, i + 1) {
                None => None,
                Some((data, j)) => Some((Some(data), j)),
            }
        } else {
            None
        }
    } else {
        None
    }
}

pub fn p_bytes_list(b: &Vec<u8>, i: usize, n: u64) -> (r: Option<(Vec<Vec<u8>>, usize)>)
    ensures
        match r {
            Some(p) => sp_bytes_list(b@, i as int, n as nat) == Some(
                (bytes_list_view(p.0@), p.1 as int),
            ),
            None => sp_bytes_list(b@, i as int, n as nat) is None,
        },
{
    if i > b.len() {
        return None;
    }
    let mut out: Vec<Vec<u8>> = Vec::new();
    let mut idx: usize = i;
    let mut c: u64 = 0;
    while c < n
        invariant
            c <= n,
            idx <= b@.len(),
            out@.len() == c as nat,
            match sp_bytes_list(b@, idx as int, (n - c) as nat) {
                Some(p) => sp_bytes_list(b@, i as int, n as nat) == Some(
                    (bytes_list_view(out@) + p.0, p.1),
                ),
                None => sp_bytes_list(b@, i as int, n as nat) is None,
            },
        decreases n - c,
    {
        match p_bytes(b, idx) {
            None => {
                return None;
            },
            Some((x, j)) => {
                let ghost old_out = out@;
                out.push(x);
                proof {
                    assert(bytes_list_view(out@) =~= bytes_list_view(old_out).push(x@));
                    match sp_bytes_list(b@, j as int, (n - c - 1) as nat) {
                        Some(p) => {
                            assert(bytes_list_view(old_out) + (seq![x@] + p.0) =~= bytes_list_view(
                                out@,
                            ) + p.0);
                        },
                        None => {},
                    }
                }
                idx = j;
                c = c + 1;
            },
        }
    }
    proof {
        assert(bytes_list_view(out@) + Seq::<Seq<u8>>::empty() =~= bytes_list_view(out@));
    }
    Some((out, idx))
}


/// Structural facts of a parsed list: it has exactly `n` elements, each a
/// piece of the buffer, and parsing stops inside the buffer.
pub proof fn lemma_sp_bytes_list_props(b: Seq<u8>, i: int, n: nat)
    ensures
        match sp_bytes_list(b, i, n) {
            Some(p) => p.0.len() == n && (forall|k: int|
                0 <= k < n ==> #[trigger] p.0[k].len() <= b.len()) && i <= p.1 <= b.len(),
            None => true,
        },
    decreases n,
{
    if n > 0 {
        match sp_bytes(b, i) {
            None => {},
            Some((x, j)) => {
                lemma_sp_bytes_list_props(b, j, (n - 1) as nat);
            },
        }
    }
}

} // verus!
