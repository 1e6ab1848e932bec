//! The record codec: a compact binary encoding of a todo that round-trips
//! every field exactly.
//!
//! Layout, in order: identifier (16 bytes, little endian); title (8-byte
//! little-endian byte length, then UTF-8 bytes); optional description (one
//! tag byte, then a string as above when present); optional due date (one
//! tag byte, then 8 bytes when present); priority (one byte); completed
//! (one byte); created-at (8 bytes); updated-at (8 bytes).

use vstd::prelude::*;
use vstd::arithmetic::div_mod::lemma_fundamental_div_mod;
use vstd::slice::{slice_subrange, slice_to_vec};
use vstd::string::StrSliceExecFns;
use vstd::utf8::{
    decode_utf8, encode_utf8, encode_utf8_decode_utf8, encode_utf8_valid_utf8, valid_utf8,
};

use crate::model::{Priority, Todo, TodoView};

verus! {

/// 256 raised to `n`: the number of values `n` bytes can hold.
pub open spec fn pow256(n: nat) -> nat
    decreases n,
{
    if n == 0 {
        1
    } else {
        256 * pow256((n - 1) as nat)
    }
}

/// The `n`-byte little-endian encoding of `v` (of `v` modulo `pow256(n)`
/// when `v` is larger).
pub open spec fn le_bytes(v: nat, n: nat) -> Seq<u8>
    decreases n,
{
    if n == 0 {
        Seq::empty()
    } else {
        seq![(v % 256) as u8] + le_bytes(v / 256, (n - 1) as nat)
    }
}

/// The value a little-endian byte string denotes.
pub open spec fn le_val(s: Seq<u8>) -> nat
    decreases s.len(),
{
    if s.len() == 0 {
        0
    } else {
        (s[0] + 256 * le_val(s.drop_first())) as nat
    }
}

/// A little-endian encoding is as many bytes as asked for.
pub proof fn lemma_le_bytes_len(v: nat, n: nat)
    ensures
        le_bytes(v, n).len() == n,
    decreases n,
{
    if n > 0 {
        lemma_le_bytes_len(v / 256, (n - 1) as nat);
    }
}

/// A byte string of length `n` denotes a value below `pow256(n)`.
pub proof fn lemma_le_val_bound(s: Seq<u8>)
    ensures
        le_val(s) < pow256(s.len()),
    decreases s.len(),
{
    if s.len() > 0 {
        lemma_le_val_bound(s.drop_first());
    }
}

/// Decoding the encoding of a value below `pow256(n)` gives the value back.
pub proof fn lemma_le_round_trip(v: nat, n: nat)
    requires
        v < pow256(n),
    ensures
        le_val(le_bytes(v, n)) == v,
    decreases n,
{
    if n > 0 {
        lemma_fundamental_div_mod(v as int, 256);
        assert(v / 256 < pow256((n - 1) as nat)) by (nonlinear_arith)
            requires
                v < 256 * pow256((n - 1) as nat),
        ;
        lemma_le_round_trip(v / 256, (n - 1) as nat);
        let s = le_bytes(v, n);
        assert(s.drop_first() =~= le_bytes(v / 256, (n - 1) as nat));
    }
}

/// `pow256` grows with its argument.
pub proof fn lemma_pow256_mono(a: nat, b: nat)
    requires
        a <= b,
    ensures
        pow256(a) <= pow256(b),
    decreases b,
{
    if a < b {
        lemma_pow256_mono(a, (b - 1) as nat);
        assert(pow256(b) == 256 * pow256((b - 1) as nat));
    }
}

/// Sixteen bytes hold exactly the 128-bit range.
pub proof fn lemma_pow256_16()
    ensures
        pow256(16) == 0x1_0000_0000_0000_0000_0000_0000_0000_0000,
        pow256(8) == 0x1_0000_0000_0000_0000,
{
    reveal_with_fuel(pow256, 17);
}

/// Appends the `n`-byte little-endian encoding of `v` to `out`.
pub(crate) fn push_le(out: &mut Vec<u8>, v: u128, n: usize)
    ensures
        final(out)@ == old(out)@ + le_bytes(v as nat, n as nat),
{
    let ghost old_len = out@.len();
    let mut x: u128 = v;
    let mut i: usize = 0;
    while i < n
        invariant
            0 <= i <= n,
            out@.len() == old_len + i,
            out@.take(old_len as int) =~= old(out)@,
            out@.skip(old_len as int) + le_bytes(x as nat, (n - i) as nat) =~= le_bytes(
                v as nat,
                n as nat,
            ),
        decreases n - i,
    {
        let b: u8 = (x % 256) as u8;
        proof {
            assert(le_bytes(x as nat, (n - i) as nat) =~= seq![b] + le_bytes(
                (x as nat) / 256,
                (n - i - 1) as nat,
            ));
            assert((out@.push(b)).skip(old_len as int) =~= out@.skip(old_len as int) + seq![b]);
            assert((out@.push(b)).take(old_len as int) =~= out@.take(old_len as int));
            assert((out@.skip(old_len as int) + seq![b]) + le_bytes(
                (x as nat) / 256,
                (n - i - 1) as nat,
            ) =~= out@.skip(old_len as int) + (seq![b] + le_bytes(
                (x as nat) / 256,
                (n - i - 1) as nat,
            )));
        }
        out.push(b);
        x = x / 256;
        i = i + 1;
    }
    proof {
        assert(out@.skip(old_len as int) + le_bytes(x as nat, 0) =~= out@.skip(old_len as int));
        assert(out@ =~= out@.take(old_len as int) + out@.skip(old_len as int));
    }
}

/// Reads the value of the `n` little-endian bytes at `pos`.
fn read_le(bytes: &Vec<u8>, pos: usize, n: usize) -> (r: u128)
    requires
        pos + n <= bytes@.len(),
        n <= 16,
    ensures
        r as nat == le_val(bytes@.subrange(pos as int, pos + n)),
        (r as nat) < pow256(n as nat),
{
    let len = bytes.len();
    let mut r: u128 = 0;
    let mut j: usize = n;
    while j > 0
        invariant
            0 <= j <= n <= 16,
            pos + n <= len,
            len == bytes@.len(),
            r as nat == le_val(bytes@.subrange(pos + j, pos + n)),
            (r as nat) < pow256((n - j) as nat),
        decreases j,
    {
        let b: u8 = bytes[pos + (j - 1)];
        proof {
            let s = bytes@.subrange(pos + j - 1, pos + n);
            assert(s.drop_first() =~= bytes@.subrange(pos + j, pos + n));
            assert(s[0] == b);
            lemma_le_val_bound(s);
            lemma_pow256_mono((n - j) as nat, 15);
            lemma_pow256_mono((n - j + 1) as nat, 16);
            lemma_pow256_16();
            assert(256 * (r as nat) <= 256 * (pow256(15) - 1)) by (nonlinear_arith)
                requires
                    (r as nat) <= pow256(15) - 1,
            ;
        }
        j = j - 1;
        r = r * 256 + (b as u128);
    }
    proof {
        assert(bytes@.subrange(pos as int, pos + n) =~= bytes@.subrange(pos + 0, pos + n));
        lemma_le_val_bound(bytes@.subrange(pos as int, pos + n));
    }
    r
}

/// A length-prefixed string: 8 bytes of UTF-8 byte length, then the bytes.
pub open spec fn enc_str(s: Seq<char>) -> Seq<u8> {
    le_bytes(encode_utf8(s).len(), 8) + encode_utf8(s)
}

/// An optional string: a tag byte, then the string when present.
pub open spec fn enc_opt_str(o: Option<Seq<char>>) -> Seq<u8> {
    match o {
        None => seq![0u8],
        Some(s) => seq![1u8] + enc_str(s),
    }
}

/// An optional timestamp: a tag byte, then 8 bytes when present.
pub open spec fn enc_opt_i64(o: Option<i64>) -> Seq<u8> {
    match o {
        None => seq![0u8],
        Some(v) => seq![1u8] + le_bytes((v as u64) as nat, 8),
    }
}

/// The byte a priority is stored as.
pub open spec fn priority_byte(p: Priority) -> u8 {
    match p {
        Priority::Low => 0,
        Priority::Medium => 1,
        Priority::High => 2,
    }
}

/// The byte a boolean is stored as.
pub open spec fn bool_byte(b: bool) -> u8 {
    if b {
        1
    } else {
        0
    }
}

/// The full record encoding of a todo.
pub open spec fn spec_encode(t: TodoView) -> Seq<u8> {
    le_bytes(t.id as nat, 16) + (enc_str(t.title) + (enc_opt_str(t.description) + (enc_opt_i64(
        t.due_date,
    ) + (seq![priority_byte(t.priority)] + (seq![bool_byte(t.completed)] + (le_bytes(
        (t.created_at as u64) as nat,
        8,
    ) + le_bytes((t.updated_at as u64) as nat, 8)))))))
}

/// Whether a todo's strings are short enough for their 8-byte length
/// prefixes; true of every todo an executable string can hold.
pub open spec fn encodable(t: TodoView) -> bool {
    &&& encode_utf8(t.title).len() < pow256(8)
    &&& match t.description {
        Some(d) => encode_utf8(d).len() < pow256(8),
        None => true,
    }
}

/// Parses `n` little-endian bytes off the front.
pub open spec fn p_le(s: Seq<u8>, n: nat) -> Option<(nat, Seq<u8>)> {
    if s.len() >= n {
        Some((le_val(s.take(n as int)), s.skip(n as int)))
    } else {
        None
    }
}

/// Parses a length-prefixed UTF-8 string off the front.
pub open spec fn p_str(s: Seq<u8>) -> Option<(Seq<char>, Seq<u8>)> {
    match p_le(s, 8) {
        None => None,
        Some((n, r)) => if r.len() >= n && valid_utf8(r.take(n as int)) {
            Some((decode_utf8(r.take(n as int)), r.skip(n as int)))
        } else {
            None
        },
    }
}

/// Parses a tagged optional string off the front.
pub open spec fn p_opt_str(s: Seq<u8>) -> Option<(Option<Seq<char>>, Seq<u8>)> {
    if s.len() < 1 {
        None
    } else if s[0] == 0 {
        Some((None, s.drop_first()))
    } else if s[0] == 1 {
        match p_str(s.drop_first()) {
            None => None,
            Some((v, r)) => Some((Some(v), r)),
        }
    } else {
        None
    }
}

/// Parses a signed 64-bit timestamp off the front.
pub open spec fn p_i64(s: Seq<u8>) -> Option<(i64, Seq<u8>)> {
    match p_le(s, 8) {
        None => None,
        Some((n, r)) => Some(((n as u64) as i64, r)),
    }
}

/// Parses a tagged optional timestamp off the front.
pub open spec fn p_opt_i64(s: Seq<u8>) -> Option<(Option<i64>, Seq<u8>)> {
    if s.len() < 1 {
        None
    } else if s[0] == 0 {
        Some((None, s.drop_first()))
    } else if s[0] == 1 {
        match p_i64(s.drop_first()) {
            None => None,
            Some((v, r)) => Some((Some(v), r)),
        }
    } else {
        None
    }
}

/// Parses a priority byte off the front.
pub open spec fn p_priority(s: Seq<u8>) -> Option<(Priority, Seq<u8>)> {
    if s.len() < 1 {
        None
    } else if s[0] == 0 {
        Some((Priority::Low, s.drop_first()))
    } else if s[0] == 1 {
        Some((Priority::Medium, s.drop_first()))
    } else if s[0] == 2 {
        Some((Priority::High, s.drop_first()))
    } else {
        None
    }
}

/// Parses a boolean byte off the front.
pub open spec fn p_bool(s: Seq<u8>) -> Option<(bool, Seq<u8>)> {
    if s.len() < 1 {
        None
    } else if s[0] == 0 {
        Some((false, s.drop_first()))
    } else if s[0] == 1 {
        Some((true, s.drop_first()))
    } else {
        None
    }
}

/// The record a byte string decodes to, when it is a well-formed record
/// with nothing left over.
pub open spec fn spec_decode(s: Seq<u8>) -> Option<TodoView> {
    match p_le(s, 16) {
        None => None,
        Some((id, s1)) => match p_str(s1) {
            None => None,
            Some((title, s2)) => match p_opt_str(s2) {
                None => None,
                Some((description, s3)) => match p_opt_i64(s3) {
                    None => None,
                    Some((due_date, s4)) => match p_priority(s4) {
                        None => None,
                        Some((priority, s5)) => match p_bool(s5) {
                            None => None,
                            Some((completed, s6)) => match p_i64(s6) {
                                None => None,
                                Some((created_at, s7)) => match p_i64(s7) {
                                    None => None,
                                    Some((updated_at, s8)) => if s8.len() == 0 {
                                        Some(TodoView {
                                            id: id as u128,
                                            title,
                                            description,
                                            due_date,
                                            priority,
                                            completed,
                                            created_at,
                                            updated_at,
                                        })
                                    } else {
                                        None
                                    },
                                },
                            },
                        },
                    },
                },
            },
        },
    }
}

proof fn lemma_p_le_enc(v: nat, n: nat, rest: Seq<u8>)
    requires
        v < pow256(n),
    ensures
        p_le(le_bytes(v, n) + rest, n) == Some((v, rest)),
{
    lemma_le_bytes_len(v, n);
    let s = le_bytes(v, n) + rest;
    assert(s.take(n as int) =~= le_bytes(v, n));
    assert(s.skip(n as int) =~= rest);
    lemma_le_round_trip(v, n);
}

proof fn lemma_p_str_enc(cs: Seq<char>, rest: Seq<u8>)
    requires
        encode_utf8(cs).len() < pow256(8),
    ensures
        p_str(enc_str(cs) + rest) == Some((cs, rest)),
{
    let bs = encode_utf8(cs);
    assert(enc_str(cs) + rest =~= le_bytes(bs.len(), 8) + (bs + rest));
    lemma_p_le_enc(bs.len(), 8, bs + rest);
    let r = bs + rest;
    assert(r.take(bs.len() as int) =~= bs);
    assert(r.skip(bs.len() as int) =~= rest);
    encode_utf8_valid_utf8(cs);
    encode_utf8_decode_utf8(cs);
}

proof fn lemma_p_opt_str_enc(o: Option<Seq<char>>, rest: Seq<u8>)
    requires
        match o {
            Some(s) => encode_utf8(s).len() < pow256(8),
            None => true,
        },
    ensures
        p_opt_str(enc_opt_str(o) + rest) == Some((o, rest)),
{
    match o {
        None => {
            let s = seq![0u8] + rest;
            assert(s[0] == 0);
            assert(s.drop_first() =~= rest);
        },
        Some(cs) => {
            let s = (seq![1u8] + enc_str(cs)) + rest;
            assert(s =~= seq![1u8] + (enc_str(cs) + rest));
            assert(s[0] == 1);
            assert(s.drop_first() =~= enc_str(cs) + rest);
            lemma_p_str_enc(cs, rest);
        },
    }
}

proof fn lemma_p_i64_enc(v: i64, rest: Seq<u8>)
    ensures
        p_i64(le_bytes((v as u64) as nat, 8) + rest) == Some((v, rest)),
{
    lemma_pow256_16();
    lemma_p_le_enc((v as u64) as nat, 8, rest);
    assert((v as u64) as i64 == v) by (bit_vector);
}

proof fn lemma_p_opt_i64_enc(o: Option<i64>, rest: Seq<u8>)
    ensures
        p_opt_i64(enc_opt_i64(o) + rest) == Some((o, rest)),
{
    match o {
        None => {
            let s = seq![0u8] + rest;
            assert(s[0] == 0);
            assert(s.drop_first() =~= rest);
        },
        Some(v) => {
            let s = (seq![1u8] + le_bytes((v as u64) as nat, 8)) + rest;
            assert(s =~= seq![1u8] + (le_bytes((v as u64) as nat, 8) + rest));
            assert(s[0] == 1);
            assert(s.drop_first() =~= le_bytes((v as u64) as nat, 8) + rest);
            lemma_p_i64_enc(v, rest);
        },
    }
}

proof fn lemma_p_priority_enc(p: Priority, rest: Seq<u8>)
    ensures
        p_priority(seq![priority_byte(p)] + rest) == Some((p, rest)),
{
    let s = seq![priority_byte(p)] + rest;
    assert(s[0] == priority_byte(p));
    assert(s.drop_first() =~= rest);
}

proof fn lemma_p_bool_enc(b: bool, rest: Seq<u8>)
    ensures
        p_bool(seq![bool_byte(b)] + rest) == Some((b, rest)),
{
    let s = seq![bool_byte(b)] + rest;
    assert(s[0] == bool_byte(b));
    assert(s.drop_first() =~= rest);
}

/// Decoding the encoding of any encodable record gives the record back:
/// the codec loses nothing.
pub proof fn lemma_decode_encode(t: TodoView)
    requires
        encodable(t),
    ensures
        spec_decode(spec_encode(t)) == Some(t),
{
    lemma_pow256_16();
    let e_upd = le_bytes((t.updated_at as u64) as nat, 8);
    let e_cre = le_bytes((t.created_at as u64) as nat, 8);
    let r7 = e_upd;
    let r6 = e_cre + e_upd;
    let r5 = seq![bool_byte(t.completed)] + r6;
    let r4 = seq![priority_byte(t.priority)] + r5;
    let r3 = enc_opt_i64(t.due_date) + r4;
    let r2 = enc_opt_str(t.description) + r3;
    let r1 = enc_str(t.title) + r2;
    assert(spec_encode(t) == le_bytes(t.id as nat, 16) + r1);
    lemma_p_le_enc(t.id as nat, 16, r1);
    lemma_p_str_enc(t.title, r2);
    lemma_p_opt_str_enc(t.description, r3);
    lemma_p_opt_i64_enc(t.due_date, r4);
    lemma_p_priority_enc(t.priority, r5);
    lemma_p_bool_enc(t.completed, r6);
    lemma_p_i64_enc(t.created_at, r7);
    assert(e_upd =~= e_upd + Seq::<u8>::empty());
    lemma_p_i64_enc(t.updated_at, Seq::<u8>::empty());
    assert((t.id as nat) as u128 == t.id);
}

/// Relies on std's `String::from_utf8`: it succeeds exactly on valid UTF-8
/// input and yields the characters those bytes encode.
#[verifier::external_body]
fn string_from_utf8(v: Vec<u8>) -> (r: Option<String>)
    ensures
        match r {
            Some(s) => valid_utf8(v@) && s@ == decode_utf8(v@),
            None => !valid_utf8(v@),
        },
{
    match String::from_utf8(v) {
        Ok(s) => Some(s),
        Err(_) => None,
    }
}

/// Appends a length-prefixed string to `out`.
fn push_string(out: &mut Vec<u8>, s: &String)
    ensures
        final(out)@ == old(out)@ + enc_str(s@),
        encode_utf8(s@).len() < pow256(8),
{
    let ghost prefix = out@;
    let mut bs = s.as_str().as_bytes_vec();
    let bl = bs.len();
    proof {
        lemma_pow256_16();
        assert(bl as nat <= usize::MAX as nat);
        assert(usize::MAX as nat <= u64::MAX as nat);
        assert(bs@.len() < pow256(8));
    }
    push_le(out, bl as u128, 8);
    out.append(&mut bs);
    proof {
        assert(out@ =~= prefix + enc_str(s@));
    }
}

/// Encodes a todo as its record bytes.
#[verifier::rlimit(60)]
pub fn encode_todo(todo: &Todo) -> (r: Vec<u8>)
    ensures
        r@ == spec_encode(todo@),
        encodable(todo@),
{
    let mut out: Vec<u8> = Vec::new();
    push_le(&mut out, todo.id, 16);
    push_string(&mut out, &todo.title);
    match &todo.description {
        Option::None => out.push(0u8),
        Option::Some(s) => {
            out.push(1u8);
            push_string(&mut out, s);
        },
    }
    match todo.due_date {
        Option::None => out.push(0u8),
        Option::Some(v) => {
            out.push(1u8);
            push_le(&mut out, (v as u64) as u128, 8);
        },
    }
    let pb: u8 = match todo.priority {
        Priority::Low => 0,
        Priority::Medium => 1,
        Priority::High => 2,
    };
    out.push(pb);
    out.push(if todo.completed { 1u8 } else { 0u8 });
    push_le(&mut out, (todo.created_at as u64) as u128, 8);
    push_le(&mut out, (todo.updated_at as u64) as u128, 8);
    proof {
        assert(out@ =~= spec_encode(todo@));
    }
    out
}

/// Reads a length-prefixed string at `pos`; `None` exactly where the spec
/// parser fails there.
fn read_string(bytes: &Vec<u8>, pos: usize) -> (r: Option<(String, usize)>)
    requires
        pos <= bytes@.len(),
    ensures
        match r {
            Some(sp) => pos <= sp.1 <= bytes@.len() && p_str(bytes@.skip(pos as int)) == Some(
                (sp.0@, bytes@.skip(sp.1 as int)),
            ),
            None => p_str(bytes@.skip(pos as int)) is None,
        },
{
    let ghost s = bytes@.skip(pos as int);
    let len = bytes.len();
    if len - pos < 8 {
        return None;
    }
    let n128 = read_le(bytes, pos, 8);
    proof {
        lemma_pow256_16();
        assert(s.take(8) =~= bytes@.subrange(pos as int, pos + 8));
        assert(s.skip(8) =~= bytes@.skip(pos + 8));
    }
    let rem = len - (pos + 8);
    if (rem as u128) < n128 {
        return None;
    }
    let n = n128 as usize;
    let start = pos + 8;
    let sl = slice_subrange(bytes.as_slice(), start, start + n);
    let sv = slice_to_vec(sl);
    proof {
        assert(sv@ =~= s.skip(8).take(n as int));
    }
    match string_from_utf8(sv) {
        Option::None => None,
        Option::Some(st) => {
            proof {
                assert(s.skip(8).skip(n as int) =~= bytes@.skip(start + n));
            }
            Some((st, start + n))
        },
    }
}

/// Reads 8 bytes at `pos` as a signed timestamp; `None` exactly where the
/// spec parser fails there.
fn read_i64(bytes: &Vec<u8>, pos: usize) -> (r: Option<(i64, usize)>)
    requires
        pos <= bytes@.len(),
    ensures
        match r {
            Some(vp) => vp.1 == pos + 8 && vp.1 <= bytes@.len() && p_i64(
                bytes@.skip(pos as int),
            ) == Some((vp.0, bytes@.skip(vp.1 as int))),
            None => p_i64(bytes@.skip(pos as int)) is None,
        },
{
    let ghost s = bytes@.skip(pos as int);
    let len = bytes.len();
    if len - pos < 8 {
        return None;
    }
    let n128 = read_le(bytes, pos, 8);
    proof {
        lemma_pow256_16();
        assert(s.take(8) =~= bytes@.subrange(pos as int, pos + 8));
        assert(s.skip(8) =~= bytes@.skip(pos + 8));
    }
    let v = (n128 as u64) as i64;
    Some((v, pos + 8))
}

/// Reads a tagged optional string at `pos`; `None` exactly where the
/// spec parser fails there.
fn read_opt_string(bytes: &Vec<u8>, pos: usize) -> (r: Option<(Option<String>, usize)>)
    requires
        pos <= bytes@.len(),
    ensures
        match r {
            Some(vp) => pos <= vp.1 <= bytes@.len() && p_opt_str(bytes@.skip(pos as int)) == Some(
                (vp.0.deep_view(), bytes@.skip(vp.1 as int)),
            ),
            None => p_opt_str(bytes@.skip(pos as int)) is None,
        },
{
    let len = bytes.len();
    if pos >= len {
        return None;
    }
    let tag = bytes[pos];
    proof {
        assert(bytes@.skip(pos as int)[0] == bytes@[pos as int]);
        assert(bytes@.skip(pos as int).drop_first() =~= bytes@.skip(pos + 1));
    }
    if tag == 0 {
        Some((None, pos + 1))
    } else if tag == 1 {
        match read_string(bytes, pos + 1) {
            None => None,
            Some(sp) => Some((Some(sp.0), sp.1)),
        }
    } else {
        None
    }
}

/// Reads a tagged optional timestamp at `pos`; `None` exactly where the
/// spec parser fails there.
fn read_opt_i64(bytes: &Vec<u8>, pos: usize) -> (r: Option<(Option<i64>, usize)>)
    requires
        pos <= bytes@.len(),
    ensures
        match r {
            Some(vp) => pos <= vp.1 <= bytes@.len() && p_opt_i64(bytes@.skip(pos as int)) == Some(
                (vp.0, bytes@.skip(vp.1 as int)),
            ),
            None => p_opt_i64(bytes@.skip(pos as int)) is None,
        },
{
    let len = bytes.len();
    if pos >= len {
        return None;
    }
    let tag = bytes[pos];
    proof {
        assert(bytes@.skip(pos as int)[0] == bytes@[pos as int]);
        assert(bytes@.skip(pos as int).drop_first() =~= bytes@.skip(pos + 1));
    }
    if tag == 0 {
        Some((None, pos + 1))
    } else if tag == 1 {
        match read_i64(bytes, pos + 1) {
            None => None,
            Some(vp) => Some((Some(vp.0), vp.1)),
        }
    } else {
        None
    }
}

/// Reads the priority byte at `pos`; `None` exactly where the spec parser
/// fails there.
fn read_priority(bytes: &Vec<u8>, pos: usize) -> (r: Option<(Priority, usize)>)
    requires
        pos <= bytes@.len(),
    ensures
        match r {
            Some(vp) => vp.1 == pos + 1 && vp.1 <= bytes@.len() && p_priority(
                bytes@.skip(pos as int),
            ) == Some((vp.0, bytes@.skip(vp.1 as int))),
            None => p_priority(bytes@.skip(pos as int)) is None,
        },
{
    let len = bytes.len();
    if pos >= len {
        return None;
    }
    let tag = bytes[pos];
    proof {
        assert(bytes@.skip(pos as int)[0] == bytes@[pos as int]);
        assert(bytes@.skip(pos as int).drop_first() =~= bytes@.skip(pos + 1));
    }
    if tag == 0 {
        Some((Priority::Low, pos + 1))
    } else if tag == 1 {
        Some((Priority::Medium, pos + 1))
    } else if tag == 2 {
        Some((Priority::High, pos + 1))
    } else {
        None
    }
}

/// Reads the completed byte at `pos`; `None` exactly where the spec
/// parser fails there.
fn read_bool(bytes: &Vec<u8>, pos: usize) -> (r: Option<(bool, usize)>)
    requires
        pos <= bytes@.len(),
    ensures
        match r {
            Some(vp) => vp.1 == pos + 1 && vp.1 <= bytes@.len() && p_bool(
                bytes@.skip(pos as int),
            ) == Some((vp.0, bytes@.skip(vp.1 as int))),
            None => p_bool(bytes@.skip(pos as int)) is None,
        },
{
    let len = bytes.len();
    if pos >= len {
        return None;
    }
    let tag = bytes[pos];
    proof {
        assert(bytes@.skip(pos as int)[0] == bytes@[pos as int]);
        assert(bytes@.skip(pos as int).drop_first() =~= bytes@.skip(pos + 1));
    }
    if tag == 0 {
        Some((false, pos + 1))
    } else if tag == 1 {
        Some((true, pos + 1))
    } else {
        None
    }
}

/// Decodes record bytes back into a todo; `None` exactly where the bytes
/// are not the encoding of any record.
#[verifier::rlimit(100)]
pub fn decode_todo(bytes: &Vec<u8>) -> (r: Option<Todo>)
    ensures
        match r {
            Some(t) => spec_decode(bytes@) == Some(t@),
            None => spec_decode(bytes@) is None,
        },
{
    let len = bytes.len();
    proof {
        assert(bytes@.skip(0) =~= bytes@);
    }
    if len < 16 {
        return None;
    }
    let id128 = read_le(bytes, 0, 16);
    proof {
        lemma_pow256_16();
        assert(bytes@.take(16) =~= bytes@.subrange(0, 16));
        assert((id128 as nat) as u128 == id128);
    }
    let title_r = match read_string(bytes, 16) {
        None => {
            return None;
        },
        Some(x) => x,
    };
    let (title, p2) = title_r;
    let desc_r = match read_opt_string(bytes, p2) {
        None => {
            return None;
        },
        Some(x) => x,
    };
    let (description, p3) = desc_r;
    let due_r = match read_opt_i64(bytes, p3) {
        None => {
            return None;
        },
        Some(x) => x,
    };
    let (due_date, p4) = due_r;
    let prio_r = match read_priority(bytes, p4) {
        None => {
            return None;
        },
        Some(x) => x,
    };
    let (priority, p5) = prio_r;
    let comp_r = match read_bool(bytes, p5) {
        None => {
            return None;
        },
        Some(x) => x,
    };
    let (completed, p6) = comp_r;
    let cre_r = match read_i64(bytes, p6) {
        None => {
            return None;
        },
        Some(x) => x,
    };
    let (created_at, p7) = cre_r;
    let upd_r = match read_i64(bytes, p7) {
        None => {
            return None;
        },
        Some(x) => x,
    };
    let (updated_at, p8) = upd_r;
    if p8 != len {
        return None;
    }
    Some(
        Todo {
            id: id128,
            title,
            description,
            due_date,
            priority,
            completed,
            created_at,
            updated_at,
        },
    )
}

} // verus!
