//! The propagation header codec:
//! `<version>-<trace id>-<span id>-<flags>`, every field lowercase hexadecimal
//! of 2, 32, 16 and 2 digits.
use crate::id::{hex_char, hex_encode, push_char, push_hex, Flags, Id};
use vstd::prelude::*;
use vstd::string::StrSliceExecFns;

verus! {

/// The header version that this codec writes.
pub const SUPPORTED_VERSION: u8 = 0;

/// The version value reserved as invalid.
pub const RESERVED_VERSION: u8 = 255;

/// Why a header could not be decoded.
#[derive(Debug, Clone, Copy, PartialEq, Eq, Structural)]
pub enum DecodeError {
    /// The header does not have exactly four hyphen-separated fields.
    FieldCount,
    /// A field has the wrong number of characters for its role.
    FieldWidth,
    /// A field holds a character that is not a lowercase hexadecimal digit.
    InvalidHex,
    /// The version is the reserved value.
    UnsupportedVersion,
}

/// A decoded header.
#[derive(Debug)]
pub struct Context {
    pub version: u8,
    pub trace_id: Id,
    pub parent_id: Id,
    pub flags: Flags,
}

impl View for Context {
    type V = (u8, Seq<u8>, Seq<u8>, u8);

    open spec fn view(&self) -> (u8, Seq<u8>, Seq<u8>, u8) {
        (self.version, self.trace_id@, self.parent_id@, self.flags.0)
    }
}

pub open spec fn is_hex_digit(c: char) -> bool {
    ('0' <= c && c <= '9') || ('a' <= c && c <= 'f')
}

/// The value of a lowercase hexadecimal digit.
pub open spec fn hex_value(c: char) -> int {
    if c <= '9' {
        c as int - 48
    } else {
        c as int - 87
    }
}

pub open spec fn all_hex(s: Seq<char>) -> bool {
    forall|i: int| 0 <= i < s.len() ==> is_hex_digit(#[trigger] s[i])
}

/// The bytes spelled by hexadecimal text, two digits per byte.
pub open spec fn hex_decode(s: Seq<char>) -> Seq<u8>
    decreases s.len(),
{
    if s.len() < 2 {
        Seq::empty()
    } else {
        hex_decode(s.take(s.len() - 2)).push(
            (16 * hex_value(s[s.len() - 2]) + hex_value(s[s.len() - 1])) as u8,
        )
    }
}

/// The hyphen-separated fields of a text; one empty field for empty text.
pub open spec fn split_fields(s: Seq<char>) -> Seq<Seq<char>>
    decreases s.len(),
{
    if s.len() == 0 {
        seq![Seq::empty()]
    } else {
        let init = split_fields(s.drop_last());
        if s.last() == '-' {
            init.push(Seq::empty())
        } else {
            init.update(init.len() - 1, init.last().push(s.last()))
        }
    }
}

/// What is wrong with a field that should hold `width` hexadecimal digits.
pub open spec fn field_error(f: Seq<char>, width: nat) -> Option<DecodeError> {
    if f.len() != width {
        Some(DecodeError::FieldWidth)
    } else if !all_hex(f) {
        Some(DecodeError::InvalidHex)
    } else {
        None
    }
}

/// The first faulty field among version, trace id, span id and flags.
pub open spec fn fields_error(f: Seq<Seq<char>>) -> Option<DecodeError> {
    if field_error(f[0], 2) is Some {
        field_error(f[0], 2)
    } else if field_error(f[1], 32) is Some {
        field_error(f[1], 32)
    } else if field_error(f[2], 16) is Some {
        field_error(f[2], 16)
    } else {
        field_error(f[3], 2)
    }
}

/// The meaning of a header: (version, trace id, parent span id, flags).
pub open spec fn decode_spec(s: Seq<char>) -> Result<(u8, Seq<u8>, Seq<u8>, u8), DecodeError> {
    let f = split_fields(s);
    if f.len() != 4 {
        Err(DecodeError::FieldCount)
    } else {
        match fields_error(f) {
            Some(e) => Err(e),
            None => {
                let version = hex_decode(f[0])[0];
                if version == RESERVED_VERSION {
                    Err(DecodeError::UnsupportedVersion)
                } else {
                    Ok((version, hex_decode(f[1]), hex_decode(f[2]), hex_decode(f[3])[0]))
                }
            },
        }
    }
}

/// The header text for a version, trace id, span id and flags.
pub open spec fn encode_spec(version: u8, trace_id: Seq<u8>, span_id: Seq<u8>, flags: u8) -> Seq<
    char,
> {
    hex_encode(seq![version]) + seq!['-'] + hex_encode(trace_id) + seq!['-'] + hex_encode(span_id)
        + seq!['-'] + hex_encode(seq![flags])
}

proof fn lemma_split_nonempty(s: Seq<char>)
    ensures
        split_fields(s).len() >= 1,
    decreases s.len(),
{
    if s.len() > 0 {
        lemma_split_nonempty(s.drop_last());
    }
}

proof fn lemma_split_no_hyphen(s: Seq<char>)
    requires
        forall|i: int| 0 <= i < s.len() ==> s[i] != '-',
    ensures
        split_fields(s) == seq![s],
    decreases s.len(),
{
    if s.len() == 0 {
        assert(s =~= Seq::<char>::empty());
    } else {
        assert(s[s.len() - 1] != '-');
        lemma_split_no_hyphen(s.drop_last());
        assert(s.drop_last().push(s.last()) =~= s);
        assert(split_fields(s) =~= seq![s]);
    }
}

proof fn lemma_split_concat(a: Seq<char>, b: Seq<char>)
    ensures
        split_fields(a + seq!['-'] + b) == split_fields(a) + split_fields(b),
    decreases b.len(),
{
    let s = a + seq!['-'] + b;
    lemma_split_nonempty(a);
    if b.len() == 0 {
        assert(s.drop_last() =~= a);
        assert(split_fields(s) =~= split_fields(a) + split_fields(b));
    } else {
        lemma_split_concat(a, b.drop_last());
        lemma_split_nonempty(b.drop_last());
        assert(s.drop_last() =~= a + seq!['-'] + b.drop_last());
        assert(split_fields(s) =~= split_fields(a) + split_fields(b));
    }
}

proof fn lemma_hex_char(n: u8)
    requires
        n < 16,
    ensures
        is_hex_digit(hex_char(n)),
        hex_value(hex_char(n)) == n,
        hex_char(n) != '-',
{
}

proof fn lemma_hex_encode(b: Seq<u8>)
    ensures
        hex_encode(b).len() == 2 * b.len(),
        all_hex(hex_encode(b)),
        hex_decode(hex_encode(b)) == b,
    decreases b.len(),
{
    if b.len() > 0 {
        let x = b.last();
        let prev = hex_encode(b.drop_last());
        lemma_hex_encode(b.drop_last());
        lemma_hex_char(x / 16);
        lemma_hex_char(x % 16);
        let e = hex_encode(b);
        assert(e.take(e.len() - 2) =~= prev);
        assert(16 * (x / 16) + x % 16 == x);
        assert(b.drop_last().push(x) =~= b);
        assert forall|i: int| 0 <= i < e.len() implies is_hex_digit(#[trigger] e[i]) by {
            if i < prev.len() {
                assert(e[i] == prev[i]);
            }
        }
    } else {
        assert(hex_decode(hex_encode(b)) =~= b);
    }
}

proof fn lemma_hex_no_hyphen(b: Seq<u8>)
    ensures
        forall|i: int| 0 <= i < hex_encode(b).len() ==> hex_encode(b)[i] != '-',
{
    lemma_hex_encode(b);
    assert forall|i: int| 0 <= i < hex_encode(b).len() implies hex_encode(b)[i] != '-' by {
        assert(is_hex_digit(hex_encode(b)[i]));
    }
}

/// Decoding the encoding of a version, a 16-byte trace id, an 8-byte span id
/// and flags gives back exactly those four values, for every version but the
/// reserved one.
pub proof fn lemma_round_trip(version: u8, trace_id: Seq<u8>, span_id: Seq<u8>, flags: u8)
    requires
        version != RESERVED_VERSION,
        trace_id.len() == 16,
        span_id.len() == 8,
    ensures
        decode_spec(encode_spec(version, trace_id, span_id, flags)) == Ok::<
            (u8, Seq<u8>, Seq<u8>, u8),
            DecodeError,
        >((version, trace_id, span_id, flags)),
{
    let hv = hex_encode(seq![version]);
    let ht = hex_encode(trace_id);
    let hs = hex_encode(span_id);
    let hf = hex_encode(seq![flags]);
    let d = seq!['-'];
    lemma_hex_encode(seq![version]);
    lemma_hex_encode(trace_id);
    lemma_hex_encode(span_id);
    lemma_hex_encode(seq![flags]);
    lemma_hex_no_hyphen(seq![version]);
    lemma_hex_no_hyphen(trace_id);
    lemma_hex_no_hyphen(span_id);
    lemma_hex_no_hyphen(seq![flags]);
    lemma_split_no_hyphen(hv);
    lemma_split_no_hyphen(ht);
    lemma_split_no_hyphen(hs);
    lemma_split_no_hyphen(hf);
    lemma_split_concat(hv, ht);
    lemma_split_concat(hv + d + ht, hs);
    lemma_split_concat(hv + d + ht + d + hs, hf);
    let f = split_fields(encode_spec(version, trace_id, span_id, flags));
    assert(f =~= seq![hv, ht, hs, hf]);
}

/// The value of a character that is a lowercase hexadecimal digit.
fn digit_value(c: char) -> (r: Option<u8>)
    ensures
        r is Some <==> is_hex_digit(c),
        r matches Some(v) ==> v < 16 && v == hex_value(c),
{
    if '0' <= c && c <= '9' {
        Some((c as u32 - 48) as u8)
    } else if 'a' <= c && c <= 'f' {
        Some((c as u32 - 87) as u8)
    } else {
        None
    }
}

/// Decodes one field that should hold `width` hexadecimal digits.
fn decode_field(f: &Vec<char>, width: usize) -> (r: Result<Vec<u8>, DecodeError>)
    requires
        width % 2 == 0,
    ensures
        match r {
            Ok(v) => field_error(f@, width as nat) is None && v@ == hex_decode(f@),
            Err(e) => field_error(f@, width as nat) == Some(e),
        },
{
    if f.len() != width {
        return Err(DecodeError::FieldWidth);
    }
    let mut out: Vec<u8> = Vec::new();
    let mut i: usize = 0;
    while i < width
        invariant
            f@.len() == width,
            width % 2 == 0,
            i % 2 == 0,
            i <= width,
            all_hex(f@.take(i as int)),
            out@ == hex_decode(f@.take(i as int)),
        decreases width - i,
    {
        let hi = digit_value(f[i]);
        let lo = digit_value(f[i + 1]);
        match (hi, lo) {
            (Some(h), Some(l)) => {
                let ghost t = f@.take(i + 2);
                assert(t.take(t.len() - 2) =~= f@.take(i as int));
                out.push(16 * h + l);
                assert forall|k: int| 0 <= k < t.len() implies is_hex_digit(#[trigger] t[k]) by {
                    if k < i {
                        assert(t[k] == f@.take(i as int)[k]);
                    }
                }
                i = i + 2;
            },
            _ => {
                assert(!all_hex(f@)) by {
                    if hi is None {
                        assert(!is_hex_digit(f@[i as int]));
                    } else {
                        assert(!is_hex_digit(f@[i + 1]));
                    }
                }
                return Err(DecodeError::InvalidHex);
            },
        }
    }
    assert(f@.take(i as int) =~= f@);
    Ok(out)
}

/// Decodes a propagation header.
pub fn decode(header: &str) -> (r: Result<Context, DecodeError>)
    ensures
        match r {
            Ok(c) => decode_spec(header@) == Ok::<(u8, Seq<u8>, Seq<u8>, u8), DecodeError>(c@),
            Err(e) => decode_spec(header@) == Err::<(u8, Seq<u8>, Seq<u8>, u8), DecodeError>(e),
        },
{
    let n = header.unicode_len();
    let mut fields: Vec<Vec<char>> = Vec::new();
    let mut cur: Vec<char> = Vec::new();
    let ghost mut parts: Seq<Seq<char>> = Seq::empty();
    let mut i: usize = 0;
    assert(header@.take(0) =~= Seq::<char>::empty());
    assert(parts.push(cur@) =~= split_fields(header@.take(0)));
    while i < n
        invariant
            i <= n,
            n == header@.len(),
            parts.len() == fields@.len(),
            forall|k: int| 0 <= k < parts.len() ==> (#[trigger] fields@[k])@ == parts[k],
            parts.push(cur@) == split_fields(header@.take(i as int)),
        decreases n - i,
    {
        let c = header.get_char(i);
        assert(header@.take(i + 1).drop_last() =~= header@.take(i as int));
        if c == '-' {
            proof {
                parts = parts.push(cur@);
            }
            fields.push(cur);
            cur = Vec::new();
            assert(parts.push(cur@) =~= split_fields(header@.take(i + 1)));
        } else {
            let ghost before = cur@;
            cur.push(c);
            assert(parts.push(cur@) =~= split_fields(header@.take(i + 1)));
        }
        i = i + 1;
    }
    assert(header@.take(n as int) =~= header@);
    let ghost f = split_fields(header@);
    if fields.len() != 3 {
        return Err(DecodeError::FieldCount);
    }
    assert(f[0] == fields@[0]@ && f[1] == fields@[1]@ && f[2] == fields@[2]@ && f[3] == cur@);
    let version = match decode_field(&fields[0], 2) {
        Ok(v) => v,
        Err(e) => return Err(e),
    };
    let trace_id = match decode_field(&fields[1], 32) {
        Ok(v) => v,
        Err(e) => return Err(e),
    };
    let parent_id = match decode_field(&fields[2], 16) {
        Ok(v) => v,
        Err(e) => return Err(e),
    };
    let flags = match decode_field(&cur, 2) {
        Ok(v) => v,
        Err(e) => return Err(e),
    };
    proof {
        lemma_hex_decode_len(f[0]);
        lemma_hex_decode_len(f[3]);
    }
    if version[0] == RESERVED_VERSION {
        return Err(DecodeError::UnsupportedVersion);
    }
    Ok(
        Context {
            version: version[0],
            trace_id: Id::from_vec(trace_id),
            parent_id: Id::from_vec(parent_id),
            flags: Flags(flags[0]),
        },
    )
}

/// A header that decodes holds a 16-byte trace id and an 8-byte parent id.
pub proof fn lemma_decode_lengths(s: Seq<char>)
    ensures
        decode_spec(s) matches Ok(c) ==> c.1.len() == 16 && c.2.len() == 8,
{
    let f = split_fields(s);
    if f.len() == 4 && fields_error(f) is None {
        lemma_hex_decode_len(f[1]);
        lemma_hex_decode_len(f[2]);
    }
}

proof fn lemma_hex_decode_len(s: Seq<char>)
    ensures
        hex_decode(s).len() == s.len() / 2,
    decreases s.len(),
{
    if s.len() >= 2 {
        lemma_hex_decode_len(s.take(s.len() - 2));
    }
}

/// Writes a propagation header.
pub fn encode(version: u8, trace_id: &Id, span_id: &Id, flags: Flags) -> (r: String)
    ensures
        r@ == encode_spec(version, trace_id@, span_id@, flags.0),
{
    let mut out = String::new();
    let v: Vec<u8> = vec![version];
    let fl: Vec<u8> = vec![flags.0];
    assert(v@ =~= seq![version]);
    assert(fl@ =~= seq![flags.0]);
    push_hex(&mut out, &v);
    push_char(&mut out, '-');
    push_hex(&mut out, trace_id.as_bytes());
    push_char(&mut out, '-');
    push_hex(&mut out, span_id.as_bytes());
    push_char(&mut out, '-');
    push_hex(&mut out, &fl);
    assert(out@ =~= encode_spec(version, trace_id@, span_id@, flags.0));
    out
}

} // verus!
