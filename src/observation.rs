use vstd::prelude::*;
use vstd::string::StringExecFns;

verus! {

/// Little-endian bytes of a 16-bit value.
pub open spec fn le_u16_bytes(v: u16) -> Seq<u8> {
    seq![(v & 0xff) as u8, (v >> 8u16) as u8]
}

/// The 16-bit value of two little-endian bytes.
pub open spec fn le_u16_value(lo: u8, hi: u8) -> u16 {
    (lo as u16) | ((hi as u16) << 8u16)
}

/// Little-endian bytes of a 64-bit value.
pub open spec fn le_u64_bytes(v: u64) -> Seq<u8> {
    seq![
        (v & 0xff) as u8,
        ((v >> 8u64) & 0xff) as u8,
        ((v >> 16u64) & 0xff) as u8,
        ((v >> 24u64) & 0xff) as u8,
        ((v >> 32u64) & 0xff) as u8,
        ((v >> 40u64) & 0xff) as u8,
        ((v >> 48u64) & 0xff) as u8,
        ((v >> 56u64) & 0xff) as u8,
    ]
}

/// The 64-bit value of the first eight bytes of `b`, little-endian.
pub open spec fn le_u64_value(b: Seq<u8>) -> u64 {
    (b[0] as u64) | ((b[1] as u64) << 8u64) | ((b[2] as u64) << 16u64) | ((b[3] as u64) << 24u64)
        | ((b[4] as u64) << 32u64) | ((b[5] as u64) << 40u64) | ((b[6] as u64) << 48u64)
        | ((b[7] as u64) << 56u64)
}

/// The values, two little-endian bytes each.
pub open spec fn u16s_bytes(values: Seq<u16>) -> Seq<u8>
    decreases values.len(),
{
    if values.len() == 0 {
        seq![]
    } else {
        u16s_bytes(values.drop_last()) + le_u16_bytes(values.last())
    }
}

/// A sequence of 16-bit values as bincode writes it by default: the number
/// of values as a little-endian u64, then each value little-endian.
pub open spec fn bincode_u16s(values: Seq<u16>) -> Seq<u8> {
    le_u64_bytes(values.len() as u64) + u16s_bytes(values)
}

/// What bincode reads by default as a sequence of 16-bit values from `b`:
/// the length prefix, then that many values; bytes beyond them are ignored.
pub open spec fn bincode_u16s_read(b: Seq<u8>) -> Option<Seq<u16>> {
    if b.len() >= 8 && b.len() - 8 >= 2 * le_u64_value(b) {
        Some(Seq::new(le_u64_value(b) as nat, |i: int| le_u16_value(b[8 + 2 * i], b[9 + 2 * i])))
    } else {
        None
    }
}

/// Relies on bincode::serialize with its default configuration: fixed-width
/// little-endian integers, the length of a sequence first as a u64. Writing
/// into a Vec with no size limit does not fail.
#[verifier::external_body]
fn bincode_serialize_u16s(values: &Vec<u16>) -> (r: Option<Vec<u8>>)
    ensures
        r.is_some(),
        r.unwrap()@ == bincode_u16s(values@),
{
    match bincode::serialize(values) {
        Ok(b) => Some(b),
        Err(_) => None,
    }
}

/// Relies on bincode::deserialize with its default configuration: a u64
/// length, then that many little-endian u16; it fails when the bytes run out
/// and ignores trailing bytes.
#[verifier::external_body]
fn bincode_deserialize_u16s(bytes: &[u8]) -> (r: Option<Vec<u16>>)
    ensures
        r.is_some() == bincode_u16s_read(bytes@).is_some(),
        r.is_some() ==> bincode_u16s_read(bytes@) == Some(r.unwrap()@),
{
    match bincode::deserialize::<Vec<u16>>(bytes) {
        Ok(v) => Some(v),
        Err(_) => None,
    }
}

/// Bytes padded with a zero byte to an even length.
pub open spec fn padded(b: Seq<u8>) -> Seq<u8> {
    if b.len() % 2 == 1 { b.push(0u8) } else { b }
}

/// Bytes packed pairwise, little-endian, into integers that BCF can carry:
/// each value stays below the maximum i32, which BCF reserves.
pub open spec fn packed(b: Seq<u8>) -> Seq<i32> {
    Seq::new(padded(b).len() / 2, |i: int| le_u16_value(padded(b)[2 * i], padded(b)[2 * i + 1]) as i32)
}

/// Integers as carried by BCF unpacked into bytes: the low 16 bits of each,
/// little-endian.
pub open spec fn unpacked(raw: Seq<i32>) -> Seq<u8> {
    Seq::new(2 * raw.len(), |k: int| if k % 2 == 0 {
        le_u16_bytes(raw[k / 2] as u16)[0]
    } else {
        le_u16_bytes(raw[k / 2] as u16)[1]
    })
}

/// Pack bytes into BCF integers: pad to even length, then read each pair of
/// bytes as a little-endian u16.
pub fn pack_bytes(bytes: Vec<u8>) -> (r: Vec<i32>)
    ensures
        r@ == packed(bytes@),
{
    let mut b = bytes;
    if b.len() % 2 > 0 {
        b.push(0u8);
    }
    assert(b@ == padded(bytes@));
    let mut r: Vec<i32> = Vec::new();
    let mut i: usize = 0;
    let blen = b.len();
    let n = blen / 2;
    while i < n
        invariant
            blen == b@.len(),
            n == b@.len() / 2,
            b@ == padded(bytes@),
            0 <= i <= n,
            r@.len() == i,
            forall|k: int| 0 <= k < i ==> r@[k] == packed(bytes@)[k],
        decreases n - i,
    {
        let lo = b[2 * i];
        let hi = b[2 * i + 1];
        let v: u16 = (lo as u16) | ((hi as u16) << 8u16);
        r.push(v as i32);
        i = i + 1;
    }
    assert(r@ =~= packed(bytes@));
    r
}

/// Unpack BCF integers into bytes: the low 16 bits of each, little-endian.
pub fn unpack_values(raw: &Vec<i32>) -> (r: Vec<u8>)
    ensures
        r@ == unpacked(raw@),
{
    let mut r: Vec<u8> = Vec::new();
    let mut i: usize = 0;
    while i < raw.len()
        invariant
            0 <= i <= raw@.len(),
            r@.len() == 2 * i,
            forall|k: int| 0 <= k < 2 * i ==> r@[k] == unpacked(raw@)[k],
        decreases raw@.len() - i,
    {
        #[verifier::truncate]
        let v: u16 = raw[i] as u16;
        r.push((v & 0xff) as u8);
        r.push((v >> 8u16) as u8);
        i = i + 1;
    }
    assert(r@ =~= unpacked(raw@));
    r
}

/// Error when observations cannot be read back.
#[derive(Clone, Copy, Debug, PartialEq, Eq, Structural)]
pub enum ObservationFormatError {
    /// The values are not in the observation format.
    InvalidObservationFormat,
}

/// Encode 16-bit values (quantized log probabilities) for a BCF INFO field.
pub fn encode_values(values: &Vec<u16>) -> (r: Vec<i32>)
    ensures
        r@ == packed(bincode_u16s(values@)),
{
    match bincode_serialize_u16s(values) {
        Some(bytes) => pack_bytes(bytes),
        None => Vec::new(),
    }
}

/// Decode 16-bit values from a BCF INFO field.
pub fn decode_values(raw: &Vec<i32>) -> (r: Result<Vec<u16>, ObservationFormatError>)
    ensures
        match r {
            Ok(v) => bincode_u16s_read(unpacked(raw@)) == Some(v@),
            Err(e) => bincode_u16s_read(unpacked(raw@)) is None
                && e == ObservationFormatError::InvalidObservationFormat,
        },
{
    let bytes = unpack_values(raw);
    match bincode_deserialize_u16s(bytes.as_slice()) {
        Some(v) => Ok(v),
        None => Err(ObservationFormatError::InvalidObservationFormat),
    }
}

proof fn lemma_le_u16_round_trip(v: u16)
    ensures
        le_u16_value(le_u16_bytes(v)[0], le_u16_bytes(v)[1]) == v,
{
    assert(((((v & 0xff) as u8) as u16) | ((((v >> 8u16) as u8) as u16) << 8u16)) == v) by (bit_vector);
}

proof fn lemma_le_u16_bytes_round_trip(lo: u8, hi: u8)
    ensures
        le_u16_bytes(le_u16_value(lo, hi)) == seq![lo, hi],
{
    let v = (lo as u16) | ((hi as u16) << 8u16);
    assert(((v & 0xff) as u8) == lo && ((v >> 8u16) as u8) == hi) by (bit_vector)
        requires v == (lo as u16) | ((hi as u16) << 8u16);
    assert(le_u16_bytes(le_u16_value(lo, hi)) =~= seq![lo, hi]);
}

proof fn lemma_le_u64_round_trip(x: u64)
    ensures
        le_u64_value(le_u64_bytes(x)) == x,
{
    assert(((((x & 0xff) as u8) as u64) | (((((x >> 8u64) & 0xff) as u8) as u64) << 8u64)
        | (((((x >> 16u64) & 0xff) as u8) as u64) << 16u64) | (((((x >> 24u64) & 0xff) as u8) as u64) << 24u64)
        | (((((x >> 32u64) & 0xff) as u8) as u64) << 32u64) | (((((x >> 40u64) & 0xff) as u8) as u64) << 40u64)
        | (((((x >> 48u64) & 0xff) as u8) as u64) << 48u64) | (((((x >> 56u64) & 0xff) as u8) as u64) << 56u64))
        == x) by (bit_vector);
}

proof fn lemma_u16s_bytes(values: Seq<u16>)
    ensures
        u16s_bytes(values).len() == 2 * values.len(),
        forall|i: int| 0 <= i < values.len() ==> {
            &&& #[trigger] u16s_bytes(values)[2 * i] == le_u16_bytes(values[i])[0]
            &&& u16s_bytes(values)[2 * i + 1] == le_u16_bytes(values[i])[1]
        },
    decreases values.len(),
{
    if values.len() > 0 {
        lemma_u16s_bytes(values.drop_last());
        let prev = u16s_bytes(values.drop_last());
        let last = le_u16_bytes(values.last());
        assert(u16s_bytes(values) == prev + last);
        assert forall|i: int| 0 <= i < values.len() implies {
            &&& #[trigger] u16s_bytes(values)[2 * i] == le_u16_bytes(values[i])[0]
            &&& u16s_bytes(values)[2 * i + 1] == le_u16_bytes(values[i])[1]
        } by {
            if i < values.len() - 1 {
                assert(values.drop_last()[i] == values[i]);
                assert((prev + last)[2 * i] == prev[2 * i]);
                assert((prev + last)[2 * i + 1] == prev[2 * i + 1]);
            } else {
                assert((prev + last)[2 * i] == last[0]);
                assert((prev + last)[2 * i + 1] == last[1]);
            }
        }
    }
}

proof fn lemma_unpack_pack(b: Seq<u8>)
    ensures
        unpacked(packed(b)) == padded(b),
{
    let p = padded(b);
    assert(p.len() % 2 == 0);
    assert forall|k: int| 0 <= k < p.len() implies #[trigger] unpacked(packed(b))[k] == p[k] by {
        let i = k / 2;
        lemma_le_u16_bytes_round_trip(p[2 * i], p[2 * i + 1]);
    }
    assert(unpacked(packed(b)) =~= p);
}

/// Encoding 16-bit values for a BCF INFO field and decoding them again gives
/// back the same values.
#[verifier::rlimit(40)]
pub proof fn lemma_values_round_trip(values: Seq<u16>)
    requires
        values.len() <= u64::MAX,
    ensures
        bincode_u16s_read(unpacked(packed(bincode_u16s(values)))) == Some(values),
{
    let b = bincode_u16s(values);
    lemma_u16s_bytes(values);
    lemma_unpack_pack(b);
    assert(b.len() == 8 + 2 * values.len());
    assert(padded(b) == b);
    lemma_le_u64_round_trip(values.len() as u64);
    assert(b.subrange(0, 8) == le_u64_bytes(values.len() as u64));
    assert(le_u64_value(b) == le_u64_value(le_u64_bytes(values.len() as u64)));
    let read = Seq::new(le_u64_value(b) as nat, |i: int| le_u16_value(b[8 + 2 * i], b[9 + 2 * i]));
    assert forall|i: int| 0 <= i < values.len() implies read[i] == values[i] by {
        assert(b[8 + 2 * i] == u16s_bytes(values)[2 * i]);
        assert(b[9 + 2 * i] == u16s_bytes(values)[2 * i + 1]);
        lemma_le_u16_round_trip(values[i]);
    }
    assert(read =~= values);
}

/// The decimal digits of a number.
pub open spec fn decimal_chars(n: nat) -> Seq<char>
    decreases n,
{
    if n < 10 {
        seq![(n + 48) as char]
    } else {
        decimal_chars(n / 10).push(((n % 10) + 48) as char)
    }
}

/// Relies on std's `Display` for `u32` through `format!`: the number in
/// decimal digits, after the given label.
#[verifier::external_body]
fn insert_size_label(insert_size: u32) -> (r: String)
    ensures
        r@ == "insert-size="@ + decimal_chars(insert_size as nat),
{
    format!("insert-size={}", insert_size)
}

/// Types of evidence that lead to an observation; the text is meant for
/// debugging output.
#[derive(Clone, Debug)]
pub enum Evidence {
    /// Insert size of a fragment.
    InsertSize(String),
    /// Alignment of a single read.
    Alignment(String),
}

impl Evidence {
    /// Alignment evidence with a fixed description, for tests and examples.
    pub fn dummy_alignment() -> (r: Evidence)
        ensures
            r matches Evidence::Alignment(s) && s@ == "Dummy-Alignment"@,
    {
        Evidence::Alignment(<String as StringExecFns>::from_str("Dummy-Alignment"))
    }

    /// Placeholder insert size evidence.
    pub fn dummy_insert_size(insert_size: u32) -> (r: Evidence)
        ensures
            r matches Evidence::InsertSize(s) && s@ == "insert-size="@ + decimal_chars(insert_size as nat),
    {
        Evidence::InsertSize(insert_size_label(insert_size))
    }

    /// Whether this is the evidence of a single read's alignment.
    pub fn is_alignment(&self) -> (r: bool)
        ensures
            r == (*self is Alignment),
    {
        matches!(self, Evidence::Alignment(_))
    }
}

} // verus!
