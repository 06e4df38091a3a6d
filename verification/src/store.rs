//! The binary format of the embedding vector store, and the content hash of
//! an embedded text.
//!
//! Layout: `GRVX` | version (u32 LE) | record count (u32 LE), then for each
//! record `id | kind | text | content_hash | vector length | vector`, where
//! a string is its byte length (u32 LE) and its UTF-8 bytes, and a vector
//! element is the bit pattern of an `f32`, little-endian. Vector elements are
//! held here as their bit patterns (`f32::to_bits`).
use vstd::prelude::*;
use vstd::bytes::{
    lemma_auto_spec_u32_to_from_le_bytes, spec_u32_from_le_bytes, spec_u32_to_le_bytes,
    u32_from_le_bytes, u32_to_le_bytes,
};
use vstd::string::StringSliceAdditionalSpecFns;
use vstd::utf8::{decode_utf8, encode_utf8, valid_utf8};

verus! {

broadcast use {vstd::utf8::encode_utf8_valid_utf8, vstd::utf8::encode_utf8_decode_utf8};

/// One embedding record.
#[derive(Debug, Clone)]
pub struct StoredRecord {
    /// Identifier of the embedded item.
    pub id: String,
    /// Semantic kind of the record.
    pub kind: String,
    /// The embedded text.
    pub text: String,
    /// The vector, as the bit patterns of its `f32` elements.
    pub vector_bits: Vec<u32>,
    /// SHA-256 hash of `text`.
    pub content_hash: String,
}

pub struct RecordView {
    pub id: Seq<char>,
    pub kind: Seq<char>,
    pub text: Seq<char>,
    pub vector: Seq<u32>,
    pub content_hash: Seq<char>,
}

impl View for StoredRecord {
    type V = RecordView;

    open spec fn view(&self) -> RecordView {
        RecordView {
            id: self.id@,
            kind: self.kind@,
            text: self.text@,
            vector: self.vector_bits@,
            content_hash: self.content_hash@,
        }
    }
}

pub open spec fn record_views(rs: Seq<StoredRecord>) -> Seq<RecordView> {
    rs.map_values(|r: StoredRecord| r@)
}

/// Why a store could not be written or read.
#[derive(Debug, Clone, Copy, PartialEq, Eq, Structural)]
pub enum StoreError {
    /// More records than the format can count.
    TooManyRecordsForFormat,
    /// A string longer than the format can measure.
    StringTooLong,
    /// A vector longer than the format can measure.
    VectorTooLarge,
    /// The data ends before the format says it should.
    Truncated,
    /// The data does not start with `GRVX`.
    BadMagic,
    /// A format version other than 1.
    UnsupportedVersion(u32),
    /// A record count above the reader's limit.
    TooManyRecords(u32),
    /// A vector length above the reader's limit.
    VectorTooLong(u32),
    /// A string field that is not UTF-8.
    InvalidUtf8,
}

/// The format version written and read.
pub const FORMAT_VERSION: u32 = 1;

/// The most records a store may hold when read.
pub const MAX_RECORDS: u32 = 10_000_000;

/// The longest vector a record may hold when read.
pub const MAX_VECTOR_LEN: u32 = 100_000;

pub open spec fn magic() -> Seq<u8> {
    seq![0x47u8, 0x52u8, 0x56u8, 0x58u8]
}

// ── Encoding ───────────────────────────────────────────────────────────

/// A string field: its byte length and its bytes.
pub open spec fn enc_string(s: Seq<char>) -> Seq<u8> {
    spec_u32_to_le_bytes(encode_utf8(s).len() as u32) + encode_utf8(s)
}

/// The elements of a vector, four bytes each.
pub open spec fn enc_vector(v: Seq<u32>) -> Seq<u8>
    decreases v.len(),
{
    if v.len() == 0 {
        Seq::empty()
    } else {
        enc_vector(v.drop_last()) + spec_u32_to_le_bytes(v.last())
    }
}

pub open spec fn enc_record(r: RecordView) -> Seq<u8> {
    enc_string(r.id) + enc_string(r.kind) + enc_string(r.text) + enc_string(r.content_hash)
        + spec_u32_to_le_bytes(r.vector.len() as u32) + enc_vector(r.vector)
}

pub open spec fn enc_records(rs: Seq<RecordView>) -> Seq<u8>
    decreases rs.len(),
{
    if rs.len() == 0 {
        Seq::empty()
    } else {
        enc_records(rs.drop_last()) + enc_record(rs.last())
    }
}

/// The bytes of a store.
pub open spec fn encode_store(rs: Seq<RecordView>) -> Seq<u8> {
    magic() + spec_u32_to_le_bytes(FORMAT_VERSION) + spec_u32_to_le_bytes(rs.len() as u32) + enc_records(rs)
}

pub open spec fn string_fits(s: Seq<char>) -> bool {
    encode_utf8(s).len() <= u32::MAX
}

/// The record's strings and vector can be measured by the format.
pub open spec fn record_fits(r: RecordView) -> bool {
    string_fits(r.id) && string_fits(r.kind) && string_fits(r.text) && string_fits(r.content_hash)
        && r.vector.len() <= u32::MAX
}

/// The first error that writing a record meets, checking its strings in
/// order and then its vector.
pub open spec fn record_error(r: RecordView) -> Option<StoreError> {
    if !string_fits(r.id) || !string_fits(r.kind) || !string_fits(r.text) || !string_fits(r.content_hash) {
        Some(StoreError::StringTooLong)
    } else if r.vector.len() > u32::MAX {
        Some(StoreError::VectorTooLarge)
    } else {
        None
    }
}

/// The first error that writing the records meets, if any.
pub open spec fn records_error(rs: Seq<RecordView>) -> Option<StoreError>
    decreases rs.len(),
{
    if rs.len() == 0 {
        None
    } else {
        match records_error(rs.drop_last()) {
            Some(e) => Some(e),
            None => record_error(rs.last()),
        }
    }
}

/// The first error that writing a store meets, if any.
pub open spec fn write_error(rs: Seq<RecordView>) -> Option<StoreError> {
    if rs.len() > u32::MAX {
        Some(StoreError::TooManyRecordsForFormat)
    } else {
        records_error(rs)
    }
}

fn push_bytes(buf: &mut Vec<u8>, bytes: &[u8])
    ensures
        final(buf)@ == old(buf)@ + bytes@,
{
    let mut i: usize = 0;
    while i < bytes.len()
        invariant
            i <= bytes.len(),
            buf@ == old(buf)@ + bytes@.take(i as int),
        decreases bytes.len() - i,
    {
        buf.push(bytes[i]);
        assert(bytes@.take(i + 1) =~= bytes@.take(i as int).push(bytes@[i as int]));
        assert(buf@ =~= old(buf)@ + bytes@.take(i + 1));
        i += 1;
    }
    assert(bytes@.take(bytes.len() as int) =~= bytes@);
}

fn push_u32(buf: &mut Vec<u8>, x: u32)
    ensures
        final(buf)@ == old(buf)@ + spec_u32_to_le_bytes(x),
{
    let b = u32_to_le_bytes(x);
    push_bytes(buf, b.as_slice());
}

/// Write a length-prefixed UTF-8 string.
fn write_string(buf: &mut Vec<u8>, s: &str) -> (r: Result<(), StoreError>)
    ensures
        match r {
            Ok(()) => string_fits(s@) && final(buf)@ == old(buf)@ + enc_string(s@),
            Err(e) => !string_fits(s@) && e == StoreError::StringTooLong,
        },
{
    let bytes = s.as_bytes();
    if bytes.len() > u32::MAX as usize {
        return Err(StoreError::StringTooLong);
    }
    push_u32(buf, bytes.len() as u32);
    push_bytes(buf, bytes);
    assert(buf@ =~= old(buf)@ + enc_string(s@));
    Ok(())
}

fn write_record(buf: &mut Vec<u8>, r: &StoredRecord) -> (res: Result<(), StoreError>)
    ensures
        match res {
            Ok(()) => record_error(r@) is None && final(buf)@ == old(buf)@ + enc_record(r@),
            Err(e) => record_error(r@) == Some(e),
        },
{
    write_string(buf, r.id.as_str())?;
    write_string(buf, r.kind.as_str())?;
    write_string(buf, r.text.as_str())?;
    write_string(buf, r.content_hash.as_str())?;
    if r.vector_bits.len() > u32::MAX as usize {
        return Err(StoreError::VectorTooLarge);
    }
    push_u32(buf, r.vector_bits.len() as u32);
    let ghost start = buf@;
    let mut i: usize = 0;
    while i < r.vector_bits.len()
        invariant
            i <= r.vector_bits.len(),
            buf@ == start + enc_vector(r.vector_bits@.take(i as int)),
        decreases r.vector_bits.len() - i,
    {
        push_u32(buf, r.vector_bits[i]);
        assert(r.vector_bits@.take(i + 1).drop_last() =~= r.vector_bits@.take(i as int));
        assert(buf@ =~= start + enc_vector(r.vector_bits@.take(i + 1)));
        i += 1;
    }
    assert(r.vector_bits@.take(r.vector_bits.len() as int) =~= r.vector_bits@);
    assert(buf@ =~= old(buf)@ + enc_record(r@));
    Ok(())
}

/// Serialize records into the binary format.
pub fn to_binary(records: &Vec<StoredRecord>) -> (r: Result<Vec<u8>, StoreError>)
    ensures
        match r {
            Ok(b) => write_error(record_views(records@)) is None && b@ == encode_store(record_views(records@)),
            Err(e) => write_error(record_views(records@)) == Some(e),
        },
{
    let ghost rv = record_views(records@);
    let mut buf: Vec<u8> = Vec::new();
    let m: Vec<u8> = vec![0x47u8, 0x52u8, 0x56u8, 0x58u8];
    assert(m@ =~= magic());
    push_bytes(&mut buf, m.as_slice());
    push_u32(&mut buf, FORMAT_VERSION);
    if records.len() > u32::MAX as usize {
        return Err(StoreError::TooManyRecordsForFormat);
    }
    push_u32(&mut buf, records.len() as u32);
    let ghost header = buf@;
    let mut k: usize = 0;
    while k < records.len()
        invariant
            k <= records.len() <= u32::MAX,
            rv == record_views(records@),
            records_error(rv.take(k as int)) is None,
            buf@ == header + enc_records(rv.take(k as int)),
        decreases records.len() - k,
    {
        let ghost t = rv.take(k + 1);
        assert(t.drop_last() =~= rv.take(k as int));
        assert(t.last() == records@[k as int]@);
        match write_record(&mut buf, &records[k]) {
            Ok(()) => {},
            Err(e) => {
                proof {
                    lemma_records_error_prefix(rv, k as int + 1);
                }
                return Err(e);
            },
        }
        k += 1;
    }
    assert(rv.take(records.len() as int) =~= rv);
    assert(buf@ =~= encode_store(rv));
    Ok(buf)
}

/// An error met among the first records is the error of all of them.
proof fn lemma_records_error_prefix(rs: Seq<RecordView>, n: int)
    requires
        0 <= n <= rs.len(),
        records_error(rs.take(n)) is Some,
    ensures
        records_error(rs) == records_error(rs.take(n)),
    decreases rs.len() - n,
{
    if n < rs.len() {
        assert(rs.take(n + 1).drop_last() =~= rs.take(n));
        lemma_records_error_prefix(rs, n + 1);
    } else {
        assert(rs.take(n) =~= rs);
    }
}

// ── Decoding ───────────────────────────────────────────────────────────

/// The little-endian `u32` at `p`, if four bytes are there.
pub open spec fn read_u32_at(b: Seq<u8>, p: int) -> Option<u32> {
    if 0 <= p && p + 4 <= b.len() {
        Some(spec_u32_from_le_bytes(b.subrange(p, p + 4)))
    } else {
        None
    }
}

/// The string field at `p` and the position after it.
pub open spec fn read_string_at(b: Seq<u8>, p: int) -> Result<(Seq<char>, int), StoreError> {
    match read_u32_at(b, p) {
        None => Err(StoreError::Truncated),
        Some(n) => if p + 4 + n > b.len() {
            Err(StoreError::Truncated)
        } else if valid_utf8(b.subrange(p + 4, p + 4 + n)) {
            Ok((decode_utf8(b.subrange(p + 4, p + 4 + n)), p + 4 + n))
        } else {
            Err(StoreError::InvalidUtf8)
        },
    }
}

/// The `n` vector elements at `p`.
pub open spec fn vector_at(b: Seq<u8>, p: int, n: nat) -> Seq<u32> {
    Seq::new(n, |i: int| spec_u32_from_le_bytes(b.subrange(p + 4 * i, p + 4 * i + 4)))
}

/// The record at `p` and the position after it.
pub open spec fn read_record_at(b: Seq<u8>, p: int) -> Result<(RecordView, int), StoreError> {
    match read_string_at(b, p) {
        Err(e) => Err(e),
        Ok((id, p1)) => match read_string_at(b, p1) {
            Err(e) => Err(e),
            Ok((kind, p2)) => match read_string_at(b, p2) {
                Err(e) => Err(e),
                Ok((text, p3)) => match read_string_at(b, p3) {
                    Err(e) => Err(e),
                    Ok((content_hash, p4)) => match read_u32_at(b, p4) {
                        None => Err(StoreError::Truncated),
                        Some(n) => if n > MAX_VECTOR_LEN {
                            Err(StoreError::VectorTooLong(n))
                        } else if p4 + 4 + 4 * n > b.len() {
                            Err(StoreError::Truncated)
                        } else {
                            Ok((
                                RecordView { id, kind, text, vector: vector_at(b, p4 + 4, n as nat), content_hash },
                                p4 + 4 + 4 * n,
                            ))
                        },
                    },
                },
            },
        },
    }
}

/// The `n` records from `p` and the position after them.
pub open spec fn read_records_at(b: Seq<u8>, p: int, n: nat) -> Result<(Seq<RecordView>, int), StoreError>
    decreases n,
{
    if n == 0 {
        Ok((Seq::empty(), p))
    } else {
        match read_records_at(b, p, (n - 1) as nat) {
            Err(e) => Err(e),
            Ok((rs, q)) => match read_record_at(b, q) {
                Err(e) => Err(e),
                Ok((r, q2)) => Ok((rs.push(r), q2)),
            },
        }
    }
}

/// What reading a store from `b` gives: its records, or the first error met.
/// Bytes after the last record are not read.
pub open spec fn decode_store(b: Seq<u8>) -> Result<Seq<RecordView>, StoreError> {
    if b.len() < 4 {
        Err(StoreError::Truncated)
    } else if b.take(4) != magic() {
        Err(StoreError::BadMagic)
    } else {
        match read_u32_at(b, 4) {
            None => Err(StoreError::Truncated),
            Some(v) => if v != FORMAT_VERSION {
                Err(StoreError::UnsupportedVersion(v))
            } else {
                match read_u32_at(b, 8) {
                    None => Err(StoreError::Truncated),
                    Some(c) => if c > MAX_RECORDS {
                        Err(StoreError::TooManyRecords(c))
                    } else {
                        match read_records_at(b, 12, c as nat) {
                            Err(e) => Err(e),
                            Ok((rs, _)) => Ok(rs),
                        }
                    },
                }
            },
        }
    }
}

/// The record views of a read result.
pub open spec fn read_view(r: Result<Vec<StoredRecord>, StoreError>) -> Result<Seq<RecordView>, StoreError> {
    match r {
        Ok(rs) => Ok(record_views(rs@)),
        Err(e) => Err(e),
    }
}

/// `String::from_utf8`: the text that valid UTF-8 bytes encode, or `None`
/// for bytes that are not valid UTF-8, as std documents.
#[verifier::external_body]
pub(crate) fn string_from_utf8(bytes: Vec<u8>) -> (r: Option<String>)
    ensures
        match r {
            Some(s) => valid_utf8(bytes@) && s@ == decode_utf8(bytes@),
            None => !valid_utf8(bytes@),
        },
{
    String::from_utf8(bytes).ok()
}

fn read_u32(b: &[u8], p: usize) -> (r: Option<u32>)
    ensures
        match r {
            Some(x) => read_u32_at(b@, p as int) == Some(x),
            None => read_u32_at(b@, p as int) is None,
        },
{
    if p > b.len() || b.len() - p < 4 {
        return None;
    }
    let s = vstd::slice::slice_subrange(b, p, p + 4);
    Some(u32_from_le_bytes(s))
}

fn read_string(b: &[u8], p: usize) -> (r: Result<(String, usize), StoreError>)
    ensures
        match r {
            Ok((s, q)) => read_string_at(b@, p as int) == Ok::<(Seq<char>, int), StoreError>((s@, q as int)),
            Err(e) => read_string_at(b@, p as int) == Err::<(Seq<char>, int), StoreError>(e),
        },
{
    let n = match read_u32(b, p) {
        Some(n) => n,
        None => return Err(StoreError::Truncated),
    };
    if b.len() - (p + 4) < n as usize {
        return Err(StoreError::Truncated);
    }
    let start = p + 4;
    let end = start + n as usize;
    let mut bytes: Vec<u8> = Vec::new();
    let mut i = start;
    while i < end
        invariant
            start <= i <= end <= b.len(),
            bytes@ == b@.subrange(start as int, i as int),
        decreases end - i,
    {
        bytes.push(b[i]);
        assert(bytes@ =~= b@.subrange(start as int, i + 1));
        i += 1;
    }
    match string_from_utf8(bytes) {
        Some(s) => Ok((s, end)),
        None => Err(StoreError::InvalidUtf8),
    }
}

fn read_record(b: &[u8], p: usize) -> (r: Result<(StoredRecord, usize), StoreError>)
    ensures
        match r {
            Ok((rec, q)) => read_record_at(b@, p as int) == Ok::<(RecordView, int), StoreError>((rec@, q as int)),
            Err(e) => read_record_at(b@, p as int) == Err::<(RecordView, int), StoreError>(e),
        },
{
    let (id, p1) = read_string(b, p)?;
    let (kind, p2) = read_string(b, p1)?;
    let (text, p3) = read_string(b, p2)?;
    let (content_hash, p4) = read_string(b, p3)?;
    let n = match read_u32(b, p4) {
        Some(n) => n,
        None => return Err(StoreError::Truncated),
    };
    if n > MAX_VECTOR_LEN {
        return Err(StoreError::VectorTooLong(n));
    }
    if b.len() - (p4 + 4) < 4 * (n as usize) {
        return Err(StoreError::Truncated);
    }
    let base = p4 + 4;
    let mut vector_bits: Vec<u32> = Vec::new();
    let mut i: usize = 0;
    while i < n as usize
        invariant
            i <= n <= MAX_VECTOR_LEN,
            base == p4 + 4,
            base + 4 * n <= b.len(),
            vector_bits@ == vector_at(b@, base as int, i as nat),
        decreases n - i,
    {
        let x = match read_u32(b, base + 4 * i) {
            Some(x) => x,
            None => {
                assert(false);
                0
            },
        };
        vector_bits.push(x);
        assert(vector_bits@ =~= vector_at(b@, base as int, (i + 1) as nat));
        i += 1;
    }
    let rec = StoredRecord { id, kind, text, vector_bits, content_hash };
    Ok((rec, base + 4 * (n as usize)))
}

/// Deserialize records from the binary format.
pub fn from_binary(bytes: &[u8]) -> (r: Result<Vec<StoredRecord>, StoreError>)
    ensures
        read_view(r) == decode_store(bytes@),
{
    if bytes.len() < 4 {
        return Err(StoreError::Truncated);
    }
    if !(bytes[0] == 0x47u8 && bytes[1] == 0x52u8 && bytes[2] == 0x56u8 && bytes[3] == 0x58u8) {
        proof {
            if bytes@.take(4) == magic() {
                assert(bytes@[0] == bytes@.take(4)[0]);
                assert(bytes@[1] == bytes@.take(4)[1]);
                assert(bytes@[2] == bytes@.take(4)[2]);
                assert(bytes@[3] == bytes@.take(4)[3]);
            }
        }
        return Err(StoreError::BadMagic);
    }
    assert(bytes@.take(4) =~= magic());
    let version = match read_u32(bytes, 4) {
        Some(v) => v,
        None => return Err(StoreError::Truncated),
    };
    if version != FORMAT_VERSION {
        return Err(StoreError::UnsupportedVersion(version));
    }
    let count = match read_u32(bytes, 8) {
        Some(c) => c,
        None => return Err(StoreError::Truncated),
    };
    if count > MAX_RECORDS {
        return Err(StoreError::TooManyRecords(count));
    }
    let mut records: Vec<StoredRecord> = Vec::new();
    let mut p: usize = 12;
    let mut k: u32 = 0;
    assert(record_views(records@) =~= Seq::<RecordView>::empty());
    while k < count
        invariant
            k <= count <= MAX_RECORDS,
            bytes@.len() >= 4,
            bytes@.take(4) == magic(),
            read_u32_at(bytes@, 4) == Some(FORMAT_VERSION),
            read_u32_at(bytes@, 8) == Some(count),
            read_records_at(bytes@, 12, k as nat) == Ok::<(Seq<RecordView>, int), StoreError>((record_views(records@), p as int)),
        decreases count - k,
    {
        match read_record(bytes, p) {
            Ok((rec, q)) => {
                let ghost before = record_views(records@);
                records.push(rec);
                assert(record_views(records@) =~= before.push(rec@));
                p = q;
            },
            Err(e) => {
                proof {
                    assert(((k + 1) as nat - 1) as nat == k as nat);
                    assert(read_records_at(bytes@, 12, (k + 1) as nat) == Err::<(Seq<RecordView>, int), StoreError>(e));
                    lemma_read_records_fail(bytes@, k as nat, count as nat);
                }
                return Err(e);
            },
        }
        k += 1;
    }
    Ok(records)
}

/// Once reading the first records fails, reading more fails the same way.
proof fn lemma_read_records_fail(b: Seq<u8>, k: nat, n: nat)
    requires
        k < n,
        read_records_at(b, 12, (k + 1) as nat) is Err,
    ensures
        read_records_at(b, 12, n) == read_records_at(b, 12, (k + 1) as nat),
    decreases n - k,
{
    if k + 1 < n {
        lemma_read_records_fail(b, k + 1, n);
    }
}

// ── The law of the format ──────────────────────────────────────────────

/// The records fit the format and the reader's limits.
pub open spec fn readable(rs: Seq<RecordView>) -> bool {
    &&& rs.len() <= MAX_RECORDS
    &&& forall|i: int| 0 <= i < rs.len() ==> record_fits(#[trigger] rs[i]) && rs[i].vector.len() <= MAX_VECTOR_LEN
}

proof fn lemma_u32_roundtrip(x: u32)
    ensures
        spec_u32_to_le_bytes(x).len() == 4,
        spec_u32_from_le_bytes(spec_u32_to_le_bytes(x)) == x,
{
    lemma_auto_spec_u32_to_from_le_bytes();
    assert(spec_u32_to_le_bytes(x).len() == 4);
    assert(spec_u32_from_le_bytes(spec_u32_to_le_bytes(x)) == x);
}

/// A part of a part of `b` placed at `p`.
proof fn lemma_part(b: Seq<u8>, p: int, whole: Seq<u8>, a: int, c: int)
    requires
        0 <= p,
        p + whole.len() <= b.len(),
        b.subrange(p, p + whole.len()) == whole,
        0 <= a <= c <= whole.len(),
    ensures
        b.subrange(p + a, p + c) == whole.subrange(a, c),
{
    assert forall|i: int| 0 <= i < c - a implies b.subrange(p + a, p + c)[i] == whole.subrange(a, c)[i] by {
        assert(b.subrange(p, p + whole.len())[a + i] == whole[a + i]);
    }
    assert(b.subrange(p + a, p + c) =~= whole.subrange(a, c));
}

proof fn lemma_read_u32(b: Seq<u8>, p: int, x: u32)
    requires
        0 <= p,
        p + 4 <= b.len(),
        b.subrange(p, p + 4) == spec_u32_to_le_bytes(x),
    ensures
        read_u32_at(b, p) == Some(x),
{
    lemma_u32_roundtrip(x);
}

proof fn lemma_read_string(b: Seq<u8>, p: int, s: Seq<char>)
    requires
        0 <= p,
        string_fits(s),
        p + enc_string(s).len() <= b.len(),
        b.subrange(p, p + enc_string(s).len()) == enc_string(s),
    ensures
        enc_string(s).len() == 4 + encode_utf8(s).len(),
        read_string_at(b, p) == Ok::<(Seq<char>, int), StoreError>((s, p + enc_string(s).len())),
{
    let e = encode_utf8(s);
    lemma_u32_roundtrip(e.len() as u32);
    assert(b.subrange(p, p + 4) =~= enc_string(s).subrange(0, 4));
    assert(enc_string(s).subrange(0, 4) =~= spec_u32_to_le_bytes(e.len() as u32));
    lemma_read_u32(b, p, e.len() as u32);
    assert(b.subrange(p + 4, p + 4 + e.len()) =~= enc_string(s).subrange(4, 4 + e.len() as int));
    assert(enc_string(s).subrange(4, 4 + e.len() as int) =~= e);
}

proof fn lemma_enc_vector(v: Seq<u32>)
    ensures
        enc_vector(v).len() == 4 * v.len(),
        forall|i: int| 0 <= i < v.len() ==> #[trigger] enc_vector(v).subrange(4 * i, 4 * i + 4) == spec_u32_to_le_bytes(v[i]),
    decreases v.len(),
{
    lemma_auto_spec_u32_to_from_le_bytes();
    if v.len() > 0 {
        let p = v.drop_last();
        lemma_enc_vector(p);
        let e = enc_vector(v);
        assert forall|i: int| 0 <= i < v.len() implies #[trigger] e.subrange(4 * i, 4 * i + 4) == spec_u32_to_le_bytes(v[i]) by {
            if i < p.len() {
                assert(e.subrange(4 * i, 4 * i + 4) =~= enc_vector(p).subrange(4 * i, 4 * i + 4));
                assert(p[i] == v[i]);
            } else {
                assert(e.subrange(4 * i, 4 * i + 4) =~= spec_u32_to_le_bytes(v.last()));
            }
        }
    }
}

#[verifier::rlimit(40)]
proof fn lemma_read_record(b: Seq<u8>, p: int, r: RecordView)
    requires
        0 <= p,
        record_fits(r),
        r.vector.len() <= MAX_VECTOR_LEN,
        p + enc_record(r).len() <= b.len(),
        b.subrange(p, p + enc_record(r).len()) == enc_record(r),
    ensures
        read_record_at(b, p) == Ok::<(RecordView, int), StoreError>((r, p + enc_record(r).len())),
{
    let e1 = enc_string(r.id);
    let e2 = enc_string(r.kind);
    let e3 = enc_string(r.text);
    let e4 = enc_string(r.content_hash);
    let lb = spec_u32_to_le_bytes(r.vector.len() as u32);
    let ev = enc_vector(r.vector);
    lemma_u32_roundtrip(r.vector.len() as u32);
    lemma_enc_vector(r.vector);
    let er = enc_record(r);
    assert(er =~= e1 + e2 + e3 + e4 + lb + ev);
    let l1 = e1.len() as int;
    let l2 = l1 + e2.len();
    let l3 = l2 + e3.len();
    let l4 = l3 + e4.len();
    let p4 = p + l4;
    lemma_part(b, p, er, 0, l1);
    assert(er.subrange(0, l1) =~= e1);
    lemma_read_string(b, p, r.id);
    lemma_part(b, p, er, l1, l2);
    assert(er.subrange(l1, l2) =~= e2);
    lemma_read_string(b, p + l1, r.kind);
    lemma_part(b, p, er, l2, l3);
    assert(er.subrange(l2, l3) =~= e3);
    lemma_read_string(b, p + l2, r.text);
    lemma_part(b, p, er, l3, l4);
    assert(er.subrange(l3, l4) =~= e4);
    lemma_read_string(b, p + l3, r.content_hash);
    lemma_part(b, p, er, l4, l4 + 4);
    assert(er.subrange(l4, l4 + 4) =~= lb);
    lemma_read_u32(b, p4, r.vector.len() as u32);
    let n = r.vector.len();
    assert(vector_at(b, p4 + 4, n) =~= r.vector) by {
        assert forall|i: int| 0 <= i < n implies #[trigger] vector_at(b, p4 + 4, n)[i] == r.vector[i] by {
            lemma_part(b, p, er, l4 + 4 + 4 * i, l4 + 4 + 4 * i + 4);
            assert(er.subrange(l4 + 4 + 4 * i, l4 + 4 + 4 * i + 4) =~= ev.subrange(4 * i, 4 * i + 4));
            lemma_u32_roundtrip(r.vector[i]);
        }
    }
}

proof fn lemma_read_records(b: Seq<u8>, rs: Seq<RecordView>, n: nat)
    requires
        n <= rs.len(),
        readable(rs),
        12int + enc_records(rs.take(n as int)).len() <= b.len(),
        b.subrange(12, 12int + enc_records(rs.take(n as int)).len()) == enc_records(rs.take(n as int)),
    ensures
        read_records_at(b, 12, n) == Ok::<(Seq<RecordView>, int), StoreError>((rs.take(n as int), 12int + enc_records(rs.take(n as int)).len())),
    decreases n,
{
    if n > 0 {
        let t = rs.take(n as int);
        let p = rs.take(n - 1);
        assert(t.drop_last() =~= p);
        let ep = enc_records(p);
        let er = enc_record(rs[n - 1]);
        assert(enc_records(t) =~= ep + er);
        lemma_part(b, 12, enc_records(t), 0, ep.len() as int);
        assert(enc_records(t).subrange(0, ep.len() as int) =~= ep);
        lemma_read_records(b, rs, (n - 1) as nat);
        lemma_part(b, 12, enc_records(t), ep.len() as int, (ep.len() + er.len()) as int);
        assert(enc_records(t).subrange(ep.len() as int, (ep.len() + er.len()) as int) =~= er);
        assert(record_fits(rs[n - 1]));
        lemma_read_record(b, 12int + ep.len(), rs[n - 1]);
        assert(p.push(rs[n - 1]) =~= t);
    } else {
        assert(rs.take(0) =~= Seq::<RecordView>::empty());
    }
}

proof fn lemma_records_fit(rs: Seq<RecordView>)
    requires
        forall|i: int| 0 <= i < rs.len() ==> #[trigger] record_fits(rs[i]),
    ensures
        records_error(rs) is None,
    decreases rs.len(),
{
    if rs.len() > 0 {
        let p = rs.drop_last();
        assert forall|i: int| 0 <= i < p.len() implies #[trigger] record_fits(p[i]) by {
            assert(p[i] == rs[i]);
        }
        lemma_records_fit(p);
        assert(record_fits(rs[rs.len() - 1]));
    }
}

/// What is read back is what was written: the bytes of records that fit the
/// format and the reader's limits read back as the same records, whatever
/// bytes follow them.
pub proof fn lemma_store_roundtrip(rs: Seq<RecordView>, rest: Seq<u8>)
    requires
        readable(rs),
    ensures
        write_error(rs) is None,
        decode_store(encode_store(rs) + rest) == Ok::<Seq<RecordView>, StoreError>(rs),
{
    assert forall|i: int| 0 <= i < rs.len() implies #[trigger] record_fits(rs[i]) by {
        let r = rs[i];
        assert(record_fits(r));
    }
    lemma_records_fit(rs);
    let b = encode_store(rs) + rest;
    lemma_u32_roundtrip(FORMAT_VERSION);
    lemma_u32_roundtrip(rs.len() as u32);
    let er = enc_records(rs);
    assert(b.take(4) =~= magic());
    assert(b.subrange(4, 8) =~= spec_u32_to_le_bytes(FORMAT_VERSION));
    lemma_read_u32(b, 4, FORMAT_VERSION);
    assert(b.subrange(8, 12) =~= spec_u32_to_le_bytes(rs.len() as u32));
    lemma_read_u32(b, 8, rs.len() as u32);
    assert(rs.take(rs.len() as int) =~= rs);
    assert(b.subrange(12, 12int + er.len()) =~= er);
    lemma_read_records(b, rs, rs.len());
}

/// Reading the bytes that writing gives returns the records written.
pub proof fn lemma_write_then_read(records: Seq<StoredRecord>, written: Seq<u8>)
    requires
        readable(record_views(records)),
        written == encode_store(record_views(records)),
    ensures
        decode_store(written) == Ok::<Seq<RecordView>, StoreError>(record_views(records)),
{
    lemma_store_roundtrip(record_views(records), Seq::empty());
    assert(encode_store(record_views(records)) + Seq::<u8>::empty() =~= written);
}


// ── Content hashes ─────────────────────────────────────────────────────

/// The SHA-256 digest of a byte sequence.
pub uninterp spec fn sha256(data: Seq<u8>) -> Seq<u8>;

/// `sha2::Sha256::digest` (the `Digest` trait of the `digest` crate): the
/// SHA-256 digest of the bytes, which is 32 bytes long (`Sha256`'s output
/// size). The digest itself is left to the name.
#[verifier::external_body]
fn sha256_digest(data: &[u8]) -> (d: Vec<u8>)
    ensures
        d@ == sha256(data@),
        d@.len() == 32,
{
    <sha2::Sha256 as sha2::Digest>::digest(data).to_vec()
}

/// The lowercase hexadecimal digit of a value below 16.
pub open spec fn hex_digit(n: u8) -> char {
    if n < 10 {
        ((n + 48) as u8) as char
    } else {
        ((n + 87) as u8) as char
    }
}

/// Bytes in lowercase hexadecimal, two digits per byte, the high half first.
pub open spec fn hex(b: Seq<u8>) -> Seq<char>
    decreases b.len(),
{
    if b.len() == 0 {
        Seq::empty()
    } else {
        hex(b.drop_last()) + seq![hex_digit(b.last() / 16), hex_digit(b.last() % 16)]
    }
}

fn hex_digit_of(n: u8) -> (c: char)
    requires
        n < 16,
    ensures
        c == hex_digit(n),
{
    if n < 10 {
        ((n + 48) as u8) as char
    } else {
        ((n + 87) as u8) as char
    }
}

/// The SHA-256 hash of a text's UTF-8 bytes, in lowercase hexadecimal.
pub fn content_hash(text: &str) -> (h: String)
    ensures
        h@ == hex(sha256(encode_utf8(text@))),
{
    let d = sha256_digest(text.as_bytes());
    let mut out: Vec<char> = Vec::new();
    let mut i: usize = 0;
    while i < d.len()
        invariant
            i <= d.len(),
            out@ == hex(d@.take(i as int)),
        decreases d.len() - i,
    {
        let b = d[i];
        out.push(hex_digit_of(b / 16));
        out.push(hex_digit_of(b % 16));
        assert(d@.take(i + 1).drop_last() =~= d@.take(i as int));
        assert(out@ =~= hex(d@.take(i + 1)));
        i += 1;
    }
    assert(d@.take(d.len() as int) =~= d@);
    crate::text::string_of(&out)
}

} // verus!
