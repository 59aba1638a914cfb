//! Little-endian binary field codec shared by the wire protocol and the
//! on-disk user record.
//!
//! Every field writer has a specification-level counterpart producing a
//! `Seq<u8>`, and every reader has a specification-level counterpart that
//! consumes a prefix of a byte sequence at a position. The lemmas at the
//! bottom show that reading at the position where a field was written
//! recovers exactly the written value, no matter what bytes follow.

use vstd::prelude::*;
use vstd::bytes::*;
use vstd::slice::slice_subrange;

verus! {

// ---------------------------------------------------------------------------
// Specification-level writers
// ---------------------------------------------------------------------------

pub open spec fn spec_write_u8(x: u8) -> Seq<u8> {
    seq![x]
}

pub open spec fn spec_write_u32(x: u32) -> Seq<u8> {
    spec_u32_to_le_bytes(x)
}

pub open spec fn spec_write_u64(x: u64) -> Seq<u8> {
    spec_u64_to_le_bytes(x)
}

pub open spec fn spec_write_bool(x: bool) -> Seq<u8> {
    seq![if x { 1u8 } else { 0u8 }]
}

// ---------------------------------------------------------------------------
// Specification-level readers
//
// A reader takes the whole byte sequence and a position, and returns the
// decoded value together with the position just past it, or `None` when the
// bytes at the position do not form a valid field.
// ---------------------------------------------------------------------------

pub open spec fn spec_read_u8(b: Seq<u8>, pos: int) -> Option<(u8, int)> {
    if 0 <= pos && pos + 1 <= b.len() {
        Some((b[pos], pos + 1))
    } else {
        None
    }
}

pub open spec fn spec_read_u32(b: Seq<u8>, pos: int) -> Option<(u32, int)> {
    if 0 <= pos && pos + 4 <= b.len() {
        Some((spec_u32_from_le_bytes(b.subrange(pos, pos + 4)), pos + 4))
    } else {
        None
    }
}

pub open spec fn spec_read_u64(b: Seq<u8>, pos: int) -> Option<(u64, int)> {
    if 0 <= pos && pos + 8 <= b.len() {
        Some((spec_u64_from_le_bytes(b.subrange(pos, pos + 8)), pos + 8))
    } else {
        None
    }
}

/// Booleans are strict: only the bytes 0 and 1 decode.
pub open spec fn spec_read_bool(b: Seq<u8>, pos: int) -> Option<(bool, int)> {
    match spec_read_u8(b, pos) {
        Some((x, p)) => if x == 0 {
            Some((false, p))
        } else if x == 1 {
            Some((true, p))
        } else {
            None
        },
        None => None,
    }
}

// ---------------------------------------------------------------------------
// Executable writers
// ---------------------------------------------------------------------------

pub fn write_u8(out: &mut Vec<u8>, x: u8)
    ensures
        final(out)@ == old(out)@ + spec_write_u8(x),
{
    out.push(x);
    proof {
        assert(out@ =~= old(out)@ + spec_write_u8(x));
    }
}

pub fn write_u32(out: &mut Vec<u8>, x: u32)
    ensures
        final(out)@ == old(out)@ + spec_write_u32(x),
{
    let mut b = u32_to_le_bytes(x);
    out.append(&mut b);
}

pub fn write_u64(out: &mut Vec<u8>, x: u64)
    ensures
        final(out)@ == old(out)@ + spec_write_u64(x),
{
    let mut b = u64_to_le_bytes(x);
    out.append(&mut b);
}

pub fn write_bool(out: &mut Vec<u8>, x: bool)
    ensures
        final(out)@ == old(out)@ + spec_write_bool(x),
{
    out.push(if x { 1u8 } else { 0u8 });
    proof {
        assert(out@ =~= old(out)@ + spec_write_bool(x));
    }
}

// ---------------------------------------------------------------------------
// Executable readers
// ---------------------------------------------------------------------------

pub fn read_u8(b: &Vec<u8>, pos: usize) -> (r: Option<(u8, usize)>)
    ensures
        match r {
            Some((x, p)) => spec_read_u8(b@, pos as int) == Some((x, p as int)),
            None => spec_read_u8(b@, pos as int) is None,
        },
{
    if pos < b.len() {
        Some((b[pos], pos + 1))
    } else {
        None
    }
}

pub fn read_u32(b: &Vec<u8>, pos: usize) -> (r: Option<(u32, usize)>)
    ensures
        match r {
            Some((x, p)) => spec_read_u32(b@, pos as int) == Some((x, p as int)),
            None => spec_read_u32(b@, pos as int) is None,
        },
{
    if b.len() >= 4 && pos <= b.len() - 4 {
        let s = slice_subrange(b.as_slice(), pos, pos + 4);
        let x = u32_from_le_bytes(s);
        Some((x, pos + 4))
    } else {
        None
    }
}

pub fn read_u64(b: &Vec<u8>, pos: usize) -> (r: Option<(u64, usize)>)
    ensures
        match r {
            Some((x, p)) => spec_read_u64(b@, pos as int) == Some((x, p as int)),
            None => spec_read_u64(b@, pos as int) is None,
        },
{
    if b.len() >= 8 && pos <= b.len() - 8 {
        let s = slice_subrange(b.as_slice(), pos, pos + 8);
        let x = u64_from_le_bytes(s);
        Some((x, pos + 8))
    } else {
        None
    }
}

pub fn read_bool(b: &Vec<u8>, pos: usize) -> (r: Option<(bool, usize)>)
    ensures
        match r {
            Some((x, p)) => spec_read_bool(b@, pos as int) == Some((x, p as int)),
            None => spec_read_bool(b@, pos as int) is None,
        },
{
    match read_u8(b, pos) {
        Some((x, p)) => {
            if x == 0 {
                Some((false, p))
            } else if x == 1 {
                Some((true, p))
            } else {
                None
            }
        },
        None => None,
    }
}

// ---------------------------------------------------------------------------
// Round-trip lemmas: reading a written field at its position succeeds,
// whatever bytes stand before and after it.
// ---------------------------------------------------------------------------

pub proof fn lemma_read_u8_at(b: Seq<u8>, pos: int, x: u8)
    requires
        0 <= pos,
        pos + 1 <= b.len(),
        b.subrange(pos, pos + 1) == spec_write_u8(x),
    ensures
        spec_read_u8(b, pos) == Some((x, pos + 1)),
{
    assert(b[pos] == b.subrange(pos, pos + 1)[0]);
}

pub proof fn lemma_read_u32_at(b: Seq<u8>, pos: int, x: u32)
    requires
        0 <= pos,
        pos + 4 <= b.len(),
        b.subrange(pos, pos + 4) == spec_write_u32(x),
    ensures
        spec_read_u32(b, pos) == Some((x, pos + 4)),
{
    lemma_auto_spec_u32_to_from_le_bytes();
    assert(spec_u32_to_le_bytes(x).len() == 4);
    assert(spec_u32_from_le_bytes(spec_u32_to_le_bytes(x)) == x);
}

pub proof fn lemma_read_u64_at(b: Seq<u8>, pos: int, x: u64)
    requires
        0 <= pos,
        pos + 8 <= b.len(),
        b.subrange(pos, pos + 8) == spec_write_u64(x),
    ensures
        spec_read_u64(b, pos) == Some((x, pos + 8)),
{
    lemma_auto_spec_u64_to_from_le_bytes();
    assert(spec_u64_to_le_bytes(x).len() == 8);
    assert(spec_u64_from_le_bytes(spec_u64_to_le_bytes(x)) == x);
}

pub proof fn lemma_read_bool_at(b: Seq<u8>, pos: int, x: bool)
    requires
        0 <= pos,
        pos + 1 <= b.len(),
        b.subrange(pos, pos + 1) == spec_write_bool(x),
    ensures
        spec_read_bool(b, pos) == Some((x, pos + 1)),
{
    assert(b[pos] == b.subrange(pos, pos + 1)[0]);
}

/// The length fields written by this codec fit in `u64`.
pub proof fn lemma_write_u32_len(x: u32)
    ensures
        spec_write_u32(x).len() == 4,
{
    lemma_auto_spec_u32_to_from_le_bytes();
}

pub proof fn lemma_write_u64_len(x: u64)
    ensures
        spec_write_u64(x).len() == 8,
{
    lemma_auto_spec_u64_to_from_le_bytes();
}

// ---------------------------------------------------------------------------
// Length-prefixed byte strings
// ---------------------------------------------------------------------------

pub open spec fn spec_write_bytes(s: Seq<u8>) -> Seq<u8> {
    spec_write_u64(s.len() as u64) + s
}

pub open spec fn spec_read_bytes(b: Seq<u8>, pos: int) -> Option<(Seq<u8>, int)> {
    match spec_read_u64(b, pos) {
        Some((n, p)) => if p + n <= b.len() {
            Some((b.subrange(p, p + n), p + n))
        } else {
            None
        },
        None => None,
    }
}

pub fn write_bytes(out: &mut Vec<u8>, s: &Vec<u8>)
    ensures
        final(out)@ == old(out)@ + spec_write_bytes(s@),
{
    write_u64(out, s.len() as u64);
    let ghost mid = out@;
    let mut i: usize = 0;
    while i < s.len()
        invariant
            i <= s.len(),
            out@ == mid + s@.take(i as int),
        decreases s.len() - i,
    {
        out.push(s[i]);
        i = i + 1;
        proof {
            assert(out@ =~= mid + s@.take(i as int));
        }
    }
    proof {
        assert(s@.take(s@.len() as int) =~= s@);
        assert(out@ =~= old(out)@ + spec_write_bytes(s@));
    }
}

pub fn read_bytes(b: &Vec<u8>, pos: usize) -> (r: Option<(Vec<u8>, usize)>)
    ensures
        match r {
            Some((v, p)) => spec_read_bytes(b@, pos as int) == Some((v@, p as int)),
            None => spec_read_bytes(b@, pos as int) is None,
        },
{
    match read_u64(b, pos) {
        Some((n, p)) => {
            if n <= (b.len() - p) as u64 {
                let end = p + (n as usize);
                let s = slice_subrange(b.as_slice(), p, end);
                let v = vstd::slice::slice_to_vec(s);
                Some((v, end))
            } else {
                None
            }
        },
        None => None,
    }
}

pub proof fn lemma_read_bytes_at(b: Seq<u8>, pos: int, s: Seq<u8>)
    requires
        0 <= pos,
        s.len() <= u64::MAX,
        pos + spec_write_bytes(s).len() <= b.len(),
        b.subrange(pos, pos + spec_write_bytes(s).len()) == spec_write_bytes(s),
    ensures
        spec_read_bytes(b, pos) == Some((s, pos + spec_write_bytes(s).len())),
{
    let n = s.len() as u64;
    lemma_write_u64_len(n);
    let enc = spec_write_bytes(s);
    assert(enc.len() == 8 + s.len());
    assert(b.subrange(pos, pos + 8) =~= enc.subrange(0, 8));
    assert(enc.subrange(0, 8) =~= spec_write_u64(n));
    lemma_read_u64_at(b, pos, n);
    assert(b.subrange(pos + 8, pos + 8 + s.len() as int) =~= enc.subrange(8, enc.len() as int));
    assert(enc.subrange(8, enc.len() as int) =~= s);
}

// ---------------------------------------------------------------------------
// Strings: a u64 byte length followed by the UTF-8 encoding
// ---------------------------------------------------------------------------

pub open spec fn spec_write_string(s: Seq<char>) -> Seq<u8> {
    spec_write_bytes(vstd::utf8::encode_utf8(s))
}

pub open spec fn spec_read_string(b: Seq<u8>, pos: int) -> Option<(Seq<char>, int)> {
    match spec_read_bytes(b, pos) {
        Some((bs, p)) => if vstd::utf8::valid_utf8(bs) {
            Some((vstd::utf8::decode_utf8(bs), p))
        } else {
            None
        },
        None => None,
    }
}

pub fn write_string(out: &mut Vec<u8>, s: &String)
    ensures
        final(out)@ == old(out)@ + spec_write_string(s@),
{
    let bs = s.as_str().as_bytes_vec();
    write_bytes(out, &bs);
}

/// Relies on `String::from_utf8`: it succeeds exactly on valid UTF-8 input
/// and returns the string with those bytes as its UTF-8 encoding.
#[verifier::external_body]
fn bytes_to_string(v: Vec<u8>) -> (r: Option<String>)
    ensures
        r is Some ==> vstd::utf8::valid_utf8(v@) && vstd::utf8::encode_utf8(r->Some_0@) == v@,
        r is None ==> !vstd::utf8::valid_utf8(v@),
{
    match String::from_utf8(v) {
        Ok(s) => Some(s),
        Err(_) => None,
    }
}

pub fn read_string(b: &Vec<u8>, pos: usize) -> (r: Option<(String, usize)>)
    ensures
        match r {
            Some((v, p)) => spec_read_string(b@, pos as int) == Some((v@, p as int)),
            None => spec_read_string(b@, pos as int) is None,
        },
{
    match read_bytes(b, pos) {
        Some((bs, p)) => {
            let ghost bsv = bs@;
            match bytes_to_string(bs) {
                Some(s) => {
                    proof {
                        vstd::utf8::encode_utf8_decode_utf8(s@);
                        vstd::utf8::decode_utf8_encode_utf8(bsv);
                        assert(vstd::utf8::decode_utf8(bsv) == s@);
                    }
                    Some((s, p))
                },
                None => None,
            }
        },
        None => None,
    }
}

pub proof fn lemma_read_string_at(b: Seq<u8>, pos: int, s: Seq<char>)
    requires
        0 <= pos,
        vstd::utf8::encode_utf8(s).len() <= u64::MAX,
        pos + spec_write_string(s).len() <= b.len(),
        b.subrange(pos, pos + spec_write_string(s).len()) == spec_write_string(s),
    ensures
        spec_read_string(b, pos) == Some((s, pos + spec_write_string(s).len())),
{
    lemma_read_bytes_at(b, pos, vstd::utf8::encode_utf8(s));
    vstd::utf8::encode_utf8_valid_utf8(s);
    vstd::utf8::encode_utf8_decode_utf8(s);
}

// ---------------------------------------------------------------------------
// Sample components: each a 4-byte little-endian bit pattern
// ---------------------------------------------------------------------------

pub open spec fn spec_write_comps(s: Seq<u32>) -> Seq<u8>
    decreases s.len(),
{
    if s.len() == 0 {
        Seq::empty()
    } else {
        spec_write_u32(s[0]) + spec_write_comps(s.skip(1))
    }
}

pub open spec fn spec_read_comps(b: Seq<u8>, pos: int, n: nat) -> Option<(Seq<u32>, int)>
    decreases n,
{
    if n == 0 {
        Some((Seq::empty(), pos))
    } else {
        match spec_read_u32(b, pos) {
            Some((x, p)) => match spec_read_comps(b, p, (n - 1) as nat) {
                Some((s, q)) => Some((seq![x] + s, q)),
                None => None,
            },
            None => None,
        }
    }
}

pub proof fn lemma_write_comps_len(s: Seq<u32>)
    ensures
        spec_write_comps(s).len() == 4 * s.len(),
    decreases s.len(),
{
    if s.len() == 0 {
    } else {
        lemma_write_u32_len(s[0]);
        lemma_write_comps_len(s.skip(1));
    }
}

pub proof fn lemma_write_comps_push(s: Seq<u32>, x: u32)
    ensures
        spec_write_comps(s.push(x)) == spec_write_comps(s) + spec_write_u32(x),
    decreases s.len(),
{
    if s.len() == 0 {
        assert(s.push(x).skip(1) =~= Seq::<u32>::empty());
        assert(s.push(x)[0] == x);
        assert(spec_write_comps(s.push(x)) == spec_write_u32(x) + spec_write_comps(
            Seq::<u32>::empty(),
        ));
        assert(spec_write_u32(x) + Seq::<u8>::empty() =~= Seq::<u8>::empty() + spec_write_u32(x));
    } else {
        assert(s.push(x).skip(1) =~= s.skip(1).push(x));
        lemma_write_comps_push(s.skip(1), x);
        assert(s.push(x)[0] == s[0]);
        assert(spec_write_comps(s.push(x)) == spec_write_u32(s[0]) + (spec_write_comps(s.skip(1))
            + spec_write_u32(x)));
        assert(spec_write_u32(s[0]) + (spec_write_comps(s.skip(1)) + spec_write_u32(x)) =~= (
        spec_write_u32(s[0]) + spec_write_comps(s.skip(1))) + spec_write_u32(x));
    }
}

pub fn write_comps(out: &mut Vec<u8>, v: &Vec<u32>)
    ensures
        final(out)@ == old(out)@ + spec_write_comps(v@),
{
    let ghost start = out@;
    let mut i: usize = 0;
    proof {
        assert(v@.take(0) =~= Seq::<u32>::empty());
    }
    while i < v.len()
        invariant
            i <= v.len(),
            out@ == start + spec_write_comps(v@.take(i as int)),
        decreases v.len() - i,
    {
        write_u32(out, v[i]);
        proof {
            assert(v@.take(i + 1) =~= v@.take(i as int).push(v@[i as int]));
            lemma_write_comps_push(v@.take(i as int), v@[i as int]);
        }
        i = i + 1;
    }
    proof {
        assert(v@.take(v@.len() as int) =~= v@);
    }
}

pub fn read_comps(b: &Vec<u8>, pos: usize, n: u64) -> (r: Option<(Vec<u32>, usize)>)
    ensures
        match r {
            Some((v, p)) => spec_read_comps(b@, pos as int, n as nat) == Some((v@, p as int)),
            None => spec_read_comps(b@, pos as int, n as nat) is None,
        },
{
    let mut acc: Vec<u32> = Vec::new();
    let mut cur: usize = pos;
    let mut i: u64 = 0;
    while i < n
        invariant
            i <= n,
            acc@.len() == i,
            spec_read_comps(b@, pos as int, n as nat) == match spec_read_comps(
                b@,
                cur as int,
                (n - i) as nat,
            ) {
                Some((s, p)) => Some((acc@ + s, p)),
                None => None::<(Seq<u32>, int)>,
            },
        decreases n - i,
    {
        match read_u32(b, cur) {
            Some((x, p)) => {
                let ghost prev_acc = acc@;
                let ghost prev_cur = cur as int;
                acc.push(x);
                cur = p;
                i = i + 1;
                proof {
                    assert forall|s: Seq<u32>| prev_acc + (seq![x] + s) =~= acc@ + s by {}
                }
            },
            None => {
                return None;
            },
        }
    }
    proof {
        assert(acc@ + Seq::<u32>::empty() =~= acc@);
    }
    Some((acc, cur))
}

pub proof fn lemma_read_comps_at(b: Seq<u8>, pos: int, s: Seq<u32>)
    requires
        0 <= pos,
        pos + 4 * s.len() <= b.len(),
        b.subrange(pos, pos + 4 * s.len()) == spec_write_comps(s),
    ensures
        spec_read_comps(b, pos, s.len()) == Some((s, pos + 4 * s.len())),
    decreases s.len(),
{
    lemma_write_comps_len(s);
    if s.len() == 0 {
    } else {
        let enc = spec_write_comps(s);
        lemma_write_u32_len(s[0]);
        lemma_write_comps_len(s.skip(1));
        assert(b.subrange(pos, pos + 4) =~= enc.subrange(0, 4));
        assert(enc.subrange(0, 4) =~= spec_write_u32(s[0]));
        lemma_read_u32_at(b, pos, s[0]);
        assert(b.subrange(pos + 4, pos + 4 + 4 * s.skip(1).len()) =~= enc.subrange(
            4,
            enc.len() as int,
        ));
        assert(enc.subrange(4, enc.len() as int) =~= spec_write_comps(s.skip(1)));
        lemma_read_comps_at(b, pos + 4, s.skip(1));
        assert(seq![s[0]] + s.skip(1) =~= s);
    }
}

// ---------------------------------------------------------------------------
// Length-prefixed sample vectors and lists of sample vectors
// ---------------------------------------------------------------------------

pub open spec fn spec_write_vec32(s: Seq<u32>) -> Seq<u8> {
    spec_write_u64(s.len() as u64) + spec_write_comps(s)
}

pub open spec fn spec_read_vec32(b: Seq<u8>, pos: int) -> Option<(Seq<u32>, int)> {
    match spec_read_u64(b, pos) {
        Some((n, p)) => spec_read_comps(b, p, n as nat),
        None => None,
    }
}

pub fn write_vec32(out: &mut Vec<u8>, v: &Vec<u32>)
    ensures
        final(out)@ == old(out)@ + spec_write_vec32(v@),
{
    write_u64(out, v.len() as u64);
    write_comps(out, v);
}

pub fn read_vec32(b: &Vec<u8>, pos: usize) -> (r: Option<(Vec<u32>, usize)>)
    ensures
        match r {
            Some((v, p)) => spec_read_vec32(b@, pos as int) == Some((v@, p as int)),
            None => spec_read_vec32(b@, pos as int) is None,
        },
{
    match read_u64(b, pos) {
        Some((n, p)) => read_comps(b, p, n),
        None => None,
    }
}

pub proof fn lemma_read_vec32_at(b: Seq<u8>, pos: int, s: Seq<u32>)
    requires
        0 <= pos,
        s.len() <= u64::MAX,
        pos + spec_write_vec32(s).len() <= b.len(),
        b.subrange(pos, pos + spec_write_vec32(s).len()) == spec_write_vec32(s),
    ensures
        spec_read_vec32(b, pos) == Some((s, pos + spec_write_vec32(s).len())),
{
    let n = s.len() as u64;
    lemma_write_u64_len(n);
    lemma_write_comps_len(s);
    let enc = spec_write_vec32(s);
    assert(b.subrange(pos, pos + 8) =~= enc.subrange(0, 8));
    assert(enc.subrange(0, 8) =~= spec_write_u64(n));
    lemma_read_u64_at(b, pos, n);
    assert(b.subrange(pos + 8, pos + 8 + 4 * s.len()) =~= enc.subrange(8, enc.len() as int));
    assert(enc.subrange(8, enc.len() as int) =~= spec_write_comps(s));
    lemma_read_comps_at(b, pos + 8, s);
}

// ---------------------------------------------------------------------------
// Lists of sample vectors, prefixed by a u64 count
// ---------------------------------------------------------------------------

pub open spec fn spec_write_vec32_items(l: Seq<Seq<u32>>) -> Seq<u8>
    decreases l.len(),
{
    if l.len() == 0 {
        Seq::empty()
    } else {
        spec_write_vec32(l[0]) + spec_write_vec32_items(l.skip(1))
    }
}

pub open spec fn spec_write_vec32_list(l: Seq<Seq<u32>>) -> Seq<u8> {
    spec_write_u64(l.len() as u64) + spec_write_vec32_items(l)
}

pub open spec fn spec_read_vec32_items(b: Seq<u8>, pos: int, n: nat) -> Option<(Seq<Seq<u32>>, int)>
    decreases n,
{
    if n == 0 {
        Some((Seq::empty(), pos))
    } else {
        match spec_read_vec32(b, pos) {
            Some((v, p)) => match spec_read_vec32_items(b, p, (n - 1) as nat) {
                Some((l, q)) => Some((seq![v] + l, q)),
                None => None,
            },
            None => None,
        }
    }
}

pub open spec fn spec_read_vec32_list(b: Seq<u8>, pos: int) -> Option<(Seq<Seq<u32>>, int)> {
    match spec_read_u64(b, pos) {
        Some((n, p)) => spec_read_vec32_items(b, p, n as nat),
        None => None,
    }
}

pub proof fn lemma_write_vec32_items_push(l: Seq<Seq<u32>>, v: Seq<u32>)
    ensures
        spec_write_vec32_items(l.push(v)) == spec_write_vec32_items(l) + spec_write_vec32(v),
    decreases l.len(),
{
    if l.len() == 0 {
        assert(l.push(v).skip(1) =~= Seq::<Seq<u32>>::empty());
        assert(l.push(v)[0] == v);
        assert(spec_write_vec32_items(l.push(v)) == spec_write_vec32(v) + spec_write_vec32_items(
            Seq::<Seq<u32>>::empty(),
        ));
        assert(spec_write_vec32(v) + Seq::<u8>::empty() =~= Seq::<u8>::empty() + spec_write_vec32(
            v,
        ));
    } else {
        assert(l.push(v).skip(1) =~= l.skip(1).push(v));
        lemma_write_vec32_items_push(l.skip(1), v);
        assert(l.push(v)[0] == l[0]);
        assert(spec_write_vec32_items(l.push(v)) == spec_write_vec32(l[0]) + (
        spec_write_vec32_items(l.skip(1)) + spec_write_vec32(v)));
        assert(spec_write_vec32(l[0]) + (spec_write_vec32_items(l.skip(1)) + spec_write_vec32(v))
            =~= (spec_write_vec32(l[0]) + spec_write_vec32_items(l.skip(1))) + spec_write_vec32(
            v,
        ));
    }
}

pub fn write_vec32_list(out: &mut Vec<u8>, l: &Vec<Vec<u32>>)
    ensures
        final(out)@ == old(out)@ + spec_write_vec32_list(l.deep_view()),
{
    write_u64(out, l.len() as u64);
    let ghost mid = out@;
    let mut i: usize = 0;
    proof {
        assert(l.deep_view().take(0) =~= Seq::<Seq<u32>>::empty());
    }
    while i < l.len()
        invariant
            i <= l.len(),
            l.deep_view().len() == l@.len(),
            out@ == mid + spec_write_vec32_items(l.deep_view().take(i as int)),
        decreases l.len() - i,
    {
        write_vec32(out, &l[i]);
        proof {
            assert(l.deep_view()[i as int] == l@[i as int]@);
            assert(l.deep_view().take(i + 1) =~= l.deep_view().take(i as int).push(
                l.deep_view()[i as int],
            ));
            lemma_write_vec32_items_push(l.deep_view().take(i as int), l.deep_view()[i as int]);
        }
        i = i + 1;
    }
    proof {
        assert(l.deep_view().take(l@.len() as int) =~= l.deep_view());
    }
}

pub fn read_vec32_list(b: &Vec<u8>, pos: usize) -> (r: Option<(Vec<Vec<u32>>, usize)>)
    ensures
        match r {
            Some((l, p)) => spec_read_vec32_list(b@, pos as int) == Some((l.deep_view(), p as int)),
            None => spec_read_vec32_list(b@, pos as int) is None,
        },
{
    let n: u64 = match read_u64(b, pos) {
        Some((n, _)) => n,
        None => {
            return None;
        },
    };
    let mut cur: usize = match read_u64(b, pos) {
        Some((_, p)) => p,
        None => {
            return None;
        },
    };
    let mut acc: Vec<Vec<u32>> = Vec::new();
    let mut i: u64 = 0;
    while i < n
        invariant
            i <= n,
            acc.deep_view().len() == i,
            spec_read_vec32_list(b@, pos as int) == match spec_read_vec32_items(
                b@,
                cur as int,
                (n - i) as nat,
            ) {
                Some((l, p)) => Some((acc.deep_view() + l, p)),
                None => None::<(Seq<Seq<u32>>, int)>,
            },
        decreases n - i,
    {
        match read_vec32(b, cur) {
            Some((v, p)) => {
                let ghost prev_acc = acc.deep_view();
                let ghost vv = v@;
                acc.push(v);
                cur = p;
                i = i + 1;
                proof {
                    assert(acc.deep_view() =~~= prev_acc.push(vv));
                    assert forall|l: Seq<Seq<u32>>| prev_acc + (seq![vv] + l) =~= acc.deep_view()
                        + l by {}
                }
            },
            None => {
                return None;
            },
        }
    }
    proof {
        assert(acc.deep_view() + Seq::<Seq<u32>>::empty() =~= acc.deep_view());
    }
    Some((acc, cur))
}

pub proof fn lemma_read_vec32_items_at(b: Seq<u8>, pos: int, l: Seq<Seq<u32>>)
    requires
        0 <= pos,
        forall|i: int| 0 <= i < l.len() ==> #[trigger] l[i].len() <= u64::MAX,
        pos + spec_write_vec32_items(l).len() <= b.len(),
        b.subrange(pos, pos + spec_write_vec32_items(l).len()) == spec_write_vec32_items(l),
    ensures
        spec_read_vec32_items(b, pos, l.len()) == Some((l, pos + spec_write_vec32_items(l).len())),
    decreases l.len(),
{
    if l.len() == 0 {
    } else {
        let enc = spec_write_vec32_items(l);
        let w0 = spec_write_vec32(l[0]).len() as int;
        assert(enc == spec_write_vec32(l[0]) + spec_write_vec32_items(l.skip(1)));
        assert(b.subrange(pos, pos + w0) =~= enc.subrange(0, w0));
        assert(enc.subrange(0, w0) =~= spec_write_vec32(l[0]));
        lemma_read_vec32_at(b, pos, l[0]);
        assert(b.subrange(pos + w0, pos + enc.len()) =~= enc.subrange(w0, enc.len() as int));
        assert(enc.subrange(w0, enc.len() as int) =~= spec_write_vec32_items(l.skip(1)));
        lemma_read_vec32_items_at(b, pos + w0, l.skip(1));
        assert(seq![l[0]] + l.skip(1) =~= l);
    }
}

pub proof fn lemma_read_vec32_list_at(b: Seq<u8>, pos: int, l: Seq<Seq<u32>>)
    requires
        0 <= pos,
        l.len() <= u64::MAX,
        forall|i: int| 0 <= i < l.len() ==> #[trigger] l[i].len() <= u64::MAX,
        pos + spec_write_vec32_list(l).len() <= b.len(),
        b.subrange(pos, pos + spec_write_vec32_list(l).len()) == spec_write_vec32_list(l),
    ensures
        spec_read_vec32_list(b, pos) == Some((l, pos + spec_write_vec32_list(l).len())),
{
    let n = l.len() as u64;
    lemma_write_u64_len(n);
    let enc = spec_write_vec32_list(l);
    assert(b.subrange(pos, pos + 8) =~= enc.subrange(0, 8));
    assert(enc.subrange(0, 8) =~= spec_write_u64(n));
    lemma_read_u64_at(b, pos, n);
    assert(b.subrange(pos + 8, pos + enc.len()) =~= enc.subrange(8, enc.len() as int));
    assert(enc.subrange(8, enc.len() as int) =~= spec_write_vec32_items(l));
    lemma_read_vec32_items_at(b, pos + 8, l);
}

// ---------------------------------------------------------------------------
// Optional fields: a one-byte tag, 0 for absent and 1 for present
// ---------------------------------------------------------------------------

pub open spec fn spec_write_opt_vec32(o: Option<Seq<u32>>) -> Seq<u8> {
    match o {
        None => spec_write_u8(0),
        Some(s) => spec_write_u8(1) + spec_write_vec32(s),
    }
}

pub open spec fn spec_read_opt_vec32(b: Seq<u8>, pos: int) -> Option<(Option<Seq<u32>>, int)> {
    match spec_read_u8(b, pos) {
        Some((t, p)) => if t == 0 {
            Some((None, p))
        } else if t == 1 {
            match spec_read_vec32(b, p) {
                Some((s, q)) => Some((Some(s), q)),
                None => None,
            }
        } else {
            None
        },
        None => None,
    }
}

pub fn write_opt_vec32(out: &mut Vec<u8>, o: &Option<Vec<u32>>)
    ensures
        final(out)@ == old(out)@ + spec_write_opt_vec32(o.deep_view()),
{
    match o {
        None => {
            write_u8(out, 0);
            proof {
                assert(o.deep_view() is None);
            }
        },
        Some(v) => {
            write_u8(out, 1);
            write_vec32(out, v);
            proof {
                assert(v.deep_view() =~= v@);
                assert(o.deep_view() == Some(v@));
                assert(old(out)@ + spec_write_u8(1) + spec_write_vec32(v@) =~= old(out)@ + (
                spec_write_u8(1) + spec_write_vec32(v@)));
            }
        },
    }
}

pub fn read_opt_vec32(b: &Vec<u8>, pos: usize) -> (r: Option<(Option<Vec<u32>>, usize)>)
    ensures
        match r {
            Some((o, p)) => spec_read_opt_vec32(b@, pos as int) == Some((o.deep_view(), p as int)),
            None => spec_read_opt_vec32(b@, pos as int) is None,
        },
{
    match read_u8(b, pos) {
        Some((t, p)) => {
            if t == 0 {
                Some((None, p))
            } else if t == 1 {
                match read_vec32(b, p) {
                    Some((v, q)) => Some((Some(v), q)),
                    None => None,
                }
            } else {
                None
            }
        },
        None => None,
    }
}

pub proof fn lemma_read_opt_vec32_at(b: Seq<u8>, pos: int, o: Option<Seq<u32>>)
    requires
        0 <= pos,
        o is Some ==> o->Some_0.len() <= u64::MAX,
        pos + spec_write_opt_vec32(o).len() <= b.len(),
        b.subrange(pos, pos + spec_write_opt_vec32(o).len()) == spec_write_opt_vec32(o),
    ensures
        spec_read_opt_vec32(b, pos) == Some((o, pos + spec_write_opt_vec32(o).len())),
{
    let enc = spec_write_opt_vec32(o);
    match o {
        None => {
            assert(b.subrange(pos, pos + 1) =~= spec_write_u8(0));
            lemma_read_u8_at(b, pos, 0);
        },
        Some(s) => {
            assert(b.subrange(pos, pos + 1) =~= enc.subrange(0, 1));
            assert(enc.subrange(0, 1) =~= spec_write_u8(1));
            lemma_read_u8_at(b, pos, 1);
            assert(b.subrange(pos + 1, pos + enc.len()) =~= enc.subrange(1, enc.len() as int));
            assert(enc.subrange(1, enc.len() as int) =~= spec_write_vec32(s));
            lemma_read_vec32_at(b, pos + 1, s);
        },
    }
}

pub open spec fn spec_write_opt_u32(o: Option<u32>) -> Seq<u8> {
    match o {
        None => spec_write_u8(0),
        Some(x) => spec_write_u8(1) + spec_write_u32(x),
    }
}

pub open spec fn spec_read_opt_u32(b: Seq<u8>, pos: int) -> Option<(Option<u32>, int)> {
    match spec_read_u8(b, pos) {
        Some((t, p)) => if t == 0 {
            Some((None, p))
        } else if t == 1 {
            match spec_read_u32(b, p) {
                Some((x, q)) => Some((Some(x), q)),
                None => None,
            }
        } else {
            None
        },
        None => None,
    }
}

pub fn write_opt_u32(out: &mut Vec<u8>, o: &Option<u32>)
    ensures
        final(out)@ == old(out)@ + spec_write_opt_u32(*o),
{
    match o {
        None => {
            write_u8(out, 0);
        },
        Some(x) => {
            write_u8(out, 1);
            write_u32(out, *x);
        },
    }
}

pub fn read_opt_u32(b: &Vec<u8>, pos: usize) -> (r: Option<(Option<u32>, usize)>)
    ensures
        match r {
            Some((o, p)) => spec_read_opt_u32(b@, pos as int) == Some((o, p as int)),
            None => spec_read_opt_u32(b@, pos as int) is None,
        },
{
    match read_u8(b, pos) {
        Some((t, p)) => {
            if t == 0 {
                Some((None, p))
            } else if t == 1 {
                match read_u32(b, p) {
                    Some((x, q)) => Some((Some(x), q)),
                    None => None,
                }
            } else {
                None
            }
        },
        None => None,
    }
}

pub proof fn lemma_read_opt_u32_at(b: Seq<u8>, pos: int, o: Option<u32>)
    requires
        0 <= pos,
        pos + spec_write_opt_u32(o).len() <= b.len(),
        b.subrange(pos, pos + spec_write_opt_u32(o).len()) == spec_write_opt_u32(o),
    ensures
        spec_read_opt_u32(b, pos) == Some((o, pos + spec_write_opt_u32(o).len())),
{
    let enc = spec_write_opt_u32(o);
    match o {
        None => {
            assert(b.subrange(pos, pos + 1) =~= spec_write_u8(0));
            lemma_read_u8_at(b, pos, 0);
        },
        Some(x) => {
            lemma_write_u32_len(x);
            assert(b.subrange(pos, pos + 1) =~= enc.subrange(0, 1));
            assert(enc.subrange(0, 1) =~= spec_write_u8(1));
            lemma_read_u8_at(b, pos, 1);
            assert(b.subrange(pos + 1, pos + enc.len()) =~= enc.subrange(1, enc.len() as int));
            assert(enc.subrange(1, enc.len() as int) =~= spec_write_u32(x));
            lemma_read_u32_at(b, pos + 1, x);
        },
    }
}

} // verus!

