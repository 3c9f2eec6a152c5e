//! Trace and span identifiers, and trace flags.
use bytes::Bytes;
use vstd::prelude::*;

verus! {

/// Length in bytes of a span (or parent) identifier.
pub const SPAN_ID_LEN: usize = 8;

/// Length in bytes of a trace identifier.
pub const TRACE_ID_LEN: usize = 16;

#[verifier::external_type_specification]
#[verifier::external_body]
pub struct ExBytes(Bytes);

/// The bytes that a `Bytes` buffer holds.
pub uninterp spec fn bytes_content(b: Bytes) -> Seq<u8>;

/// Relies on `Bytes`'s deref to `[u8]` and `<[u8]>::to_vec`: a copy of the
/// buffer's bytes, in order.
#[verifier::external_body]
fn bytes_to_vec(b: &Bytes) -> (r: Vec<u8>)
    ensures
        r@ == bytes_content(*b),
{
    b.to_vec()
}

/// Relies on `rand::random`, which draws a value from the thread-local
/// generator; nothing is known of the value drawn.
pub assume_specification<T>[ rand::random::<T> ]() -> (r: T)
    where
        rand::distributions::Standard: rand::distributions::Distribution<T>,
;

/// The character of a hexadecimal digit, lowercase.
pub open spec fn hex_char(n: u8) -> char {
    if n < 10 {
        ((n + 48) as u8) as char
    } else {
        ((n + 87) as u8) as char
    }
}

/// Lowercase hexadecimal text of a byte string: two digits per byte,
/// most significant digit first.
pub open spec fn hex_encode(b: Seq<u8>) -> Seq<char>
    decreases b.len(),
{
    if b.len() == 0 {
        Seq::empty()
    } else {
        hex_encode(b.drop_last()) + seq![hex_char(b.last() / 16), hex_char(b.last() % 16)]
    }
}

/// The digit character of `n`, which must be below 16.
pub fn hex_digit(n: u8) -> (c: char)
    requires
        n < 16,
    ensures
        c == hex_char(n),
{
    if n < 10 {
        (n + 48) as char
    } else {
        (n + 87) as char
    }
}

/// Relies on `String::push`: appends one character.
#[verifier::external_body]
pub(crate) fn push_char(s: &mut String, c: char)
    ensures
        final(s)@ == old(s)@.push(c),
{
    s.push(c)
}

/// Appends the lowercase hexadecimal text of `b` to `out`.
pub fn push_hex(out: &mut String, b: &Vec<u8>)
    ensures
        final(out)@ == old(out)@ + hex_encode(b@),
{
    let mut i: usize = 0;
    while i < b.len()
        invariant
            i <= b.len(),
            out@ == old(out)@ + hex_encode(b@.take(i as int)),
        decreases b.len() - i,
    {
        let x = b[i];
        push_char(out, hex_digit(x / 16));
        push_char(out, hex_digit(x % 16));
        proof {
            assert(b@.take(i + 1).drop_last() =~= b@.take(i as int));
        }
        i = i + 1;
    }
    assert(b@.take(i as int) =~= b@);
}

/// An opaque identifier of a trace or a span, held as raw bytes.
#[derive(Debug)]
pub struct Id(Vec<u8>);

impl View for Id {
    type V = Seq<u8>;

    closed spec fn view(&self) -> Seq<u8> {
        self.0@
    }
}

impl Id {
    /// An identifier holding exactly the given bytes.
    pub fn from_vec(bytes: Vec<u8>) -> (r: Id)
        ensures
            r@ == bytes@,
    {
        Id(bytes)
    }

    /// An identifier holding the bytes of a buffer.
    pub fn from_bytes(buf: &Bytes) -> (r: Id)
        ensures
            r@ == bytes_content(*buf),
    {
        Id(bytes_to_vec(buf))
    }

    /// The empty identifier, used as the parent of a root span.
    pub fn empty() -> (r: Id)
        ensures
            r@ == Seq::<u8>::empty(),
    {
        Id(Vec::new())
    }

    /// A fresh identifier of `len` random bytes.
    pub fn random(len: usize) -> (r: Id)
        ensures
            r@.len() == len,
    {
        let mut bytes: Vec<u8> = Vec::new();
        let mut i: usize = 0;
        while i < len
            invariant
                i <= len,
                bytes@.len() == i,
            decreases len - i,
        {
            let b: u8 = rand::random::<u8>();
            bytes.push(b);
            i = i + 1;
        }
        Id(bytes)
    }

    /// A fresh random span identifier.
    pub fn new_span_id() -> (r: Id)
        ensures
            r@.len() == SPAN_ID_LEN,
    {
        Id::random(SPAN_ID_LEN)
    }

    /// A fresh random trace identifier.
    pub fn new_trace_id() -> (r: Id)
        ensures
            r@.len() == TRACE_ID_LEN,
    {
        Id::random(TRACE_ID_LEN)
    }

    /// The identifier's bytes.
    pub fn as_bytes(&self) -> (r: &Vec<u8>)
        ensures
            r@ == self@,
    {
        &self.0
    }

    /// Gives up the identifier for its bytes.
    pub fn into_vec(self) -> (r: Vec<u8>)
        ensures
            r@ == self@,
    {
        self.0
    }

    /// Number of bytes held.
    pub fn len(&self) -> (r: usize)
        ensures
            r == self@.len(),
    {
        self.0.len()
    }

    /// Lowercase hexadecimal text, two digits per byte, no separators.
    pub fn to_string(&self) -> (r: String)
        ensures
            r@ == hex_encode(self@),
    {
        let mut s = String::new();
        push_hex(&mut s, &self.0);
        s
    }
}

impl Default for Id {
    fn default() -> (r: Id)
        ensures
            r@ == Seq::<u8>::empty(),
    {
        Id::empty()
    }
}

/// Trace flags: bit 0 means "sampled"; the other bits are carried unchanged.
#[derive(Debug, Clone, Copy, PartialEq, Eq, Structural)]
pub struct Flags(pub u8);

/// The bit that marks a trace as sampled.
pub const SAMPLED: u8 = 1;

impl Flags {
    /// Whether bit 0 is set.
    pub fn is_sampled(&self) -> (r: bool)
        ensures
            r == (self.0 % 2 == 1),
    {
        let b = self.0;
        assert(b & 1 == b % 2) by (bit_vector);
        b & SAMPLED == SAMPLED
    }

    /// The flags held by the first byte of a buffer; `None` for an empty one.
    pub fn from_bytes(buf: &Bytes) -> (r: Option<Flags>)
        ensures
            bytes_content(*buf).len() == 0 ==> r is None,
            bytes_content(*buf).len() > 0 ==> r == Some(Flags(bytes_content(*buf)[0])),
    {
        let v = bytes_to_vec(buf);
        if v.len() == 0 {
            None
        } else {
            Some(Flags(v[0]))
        }
    }

    /// Two lowercase hexadecimal digits.
    pub fn to_string(&self) -> (r: String)
        ensures
            r@ == hex_encode(seq![self.0]),
    {
        let mut s = String::new();
        let v: Vec<u8> = vec![self.0];
        push_hex(&mut s, &v);
        assert(v@ =~= seq![self.0]);
        assert(s@ =~= hex_encode(v@));
        s
    }
}

impl Default for Flags {
    fn default() -> (r: Flags)
        ensures
            r == Flags(0),
    {
        Flags(0)
    }
}

} // verus!
