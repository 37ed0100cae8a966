//! The carrier container: a payload file hidden after a carrier file, then
//! a metadata record, its length as 8 little-endian bytes, and the marker
//! `SIGHFAR_CARRIER_V1`.  It is a trailer, not steganography.
use vstd::prelude::*;
use vstd::string::StringExecFns;
use crate::error::{ErrorModel, SighFarError};
use crate::text::{decimal_int, decimal_usize, string_from_chars};

verus! {

/// The marker that ends every container.
pub open spec fn magic() -> Seq<u8> {
    seq![83u8, 73, 71, 72, 70, 65, 82, 95, 67, 65, 82, 82, 73, 69, 82, 95, 86, 49]
}

fn magic_bytes() -> (v: Vec<u8>)
    ensures
        v@ == magic(),
{
    vec![83u8, 73, 71, 72, 70, 65, 82, 95, 67, 65, 82, 82, 73, 69, 82, 95, 86, 49]
}

/// What the metadata record says: the payload's file name and length.
#[derive(Debug, Clone, PartialEq, Eq)]
pub struct CarrierMetadata {
    pub payload_name: String,
    pub payload_len: u64,
}

/// What embedding reports.
#[derive(Debug, Clone, PartialEq, Eq)]
pub struct CarrierEmbedResult {
    pub output_path: String,
    pub payload_name: String,
    pub carrier_size: usize,
    pub payload_size: usize,
}

/// What extraction reports.
#[derive(Debug, Clone, PartialEq, Eq)]
pub struct CarrierExtractResult {
    pub extracted_path: String,
    pub payload_name: String,
    pub payload_size: usize,
}

impl CarrierEmbedResult {
    /// The line that reports an embedding.
    pub fn summary(&self) -> (r: String)
        ensures
            r@ == "Hidden "@ + self.payload_name@ + " ("@ + decimal_int(self.payload_size as int)
                + " bytes) inside carrier copy "@ + self.output_path@ + " using a "@ + decimal_int(
                self.carrier_size as int,
            ) + " byte carrier."@,
    {
        let payload_size = string_from_chars(decimal_usize(self.payload_size).as_slice());
        let carrier_size = string_from_chars(decimal_usize(self.carrier_size).as_slice());
        String::from_str("Hidden ").concat(self.payload_name.as_str()).concat(" (").concat(payload_size.as_str()).concat(
            " bytes) inside carrier copy ",
        ).concat(self.output_path.as_str()).concat(" using a ").concat(carrier_size.as_str()).concat(" byte carrier.")
    }
}

impl CarrierExtractResult {
    /// The line that reports an extraction.
    pub fn summary(&self) -> (r: String)
        ensures
            r@ == "Extracted "@ + self.payload_name@ + " ("@ + decimal_int(self.payload_size as int) + " bytes) to "@
                + self.extracted_path@ + "."@,
    {
        let payload_size = string_from_chars(decimal_usize(self.payload_size).as_slice());
        String::from_str("Extracted ").concat(self.payload_name.as_str()).concat(" (").concat(payload_size.as_str()).concat(
            " bytes) to ",
        ).concat(self.extracted_path.as_str()).concat(".")
    }
}

/// 256 to the power `k`.
pub open spec fn pow256(k: nat) -> nat
    decreases k,
{
    if k == 0 { 1 } else { 256 * pow256((k - 1) as nat) }
}

proof fn lemma_pow256_increases(a: nat, b: nat)
    requires
        a <= b,
    ensures
        1 <= pow256(a) <= pow256(b),
    decreases b,
{
    if b > 0 && a < b {
        lemma_pow256_increases(a, (b - 1) as nat);
    } else if b > 0 {
        lemma_pow256_increases(0, (b - 1) as nat);
    }
}

/// The `k` low bytes of `v`, least significant first.
pub open spec fn le_bytes(v: nat, k: nat) -> Seq<u8>
    decreases k,
{
    if k == 0 { Seq::empty() } else { seq![(v % 256) as u8] + le_bytes(v / 256, (k - 1) as nat) }
}

/// The number little-endian bytes spell.
pub open spec fn le_value(b: Seq<u8>) -> nat
    decreases b.len(),
{
    if b.len() == 0 { 0 } else { b[0] as nat + 256 * le_value(b.drop_first()) }
}

pub proof fn lemma_le_round_trip(v: nat, k: nat)
    ensures
        le_bytes(v, k).len() == k,
        le_value(le_bytes(v, k)) == v % pow256(k),
    decreases k,
{
    if k > 0 {
        lemma_le_round_trip(v / 256, (k - 1) as nat);
        assert(le_bytes(v, k).drop_first() =~= le_bytes(v / 256, (k - 1) as nat));
        let p = pow256((k - 1) as nat);
        lemma_pow256_increases(0, (k - 1) as nat);
        vstd::arithmetic::div_mod::lemma_fundamental_div_mod(v as int, 256);
        vstd::arithmetic::div_mod::lemma_fundamental_div_mod((v / 256) as int, p as int);
        vstd::arithmetic::div_mod::lemma_breakdown(v as int, 256, p as int);
    } else {
        vstd::arithmetic::div_mod::lemma_small_mod(0, 1);
    }
}

/// A whole container.
pub open spec fn container_spec(carrier: Seq<u8>, payload: Seq<u8>, metadata: Seq<u8>) -> Seq<u8> {
    carrier + payload + metadata + le_bytes(metadata.len(), 8) + magic()
}

/// Where the metadata record of a container lies, or why there is none.
pub open spec fn metadata_span_spec(bytes: Seq<u8>) -> Result<(int, int), ErrorModel> {
    let n = bytes.len() as int;
    if n < 26 {
        Err(ErrorModel::ContainerTooSmall)
    } else if bytes.skip(n - 18) != magic() {
        Err(ErrorModel::TrailerNotFound)
    } else {
        let len_start = n - 26;
        let meta_len = (le_value(bytes.subrange(len_start, n - 18)) as u64) as usize;
        if len_start < meta_len {
            Err(ErrorModel::MetadataMalformed)
        } else {
            Ok((len_start - meta_len, len_start))
        }
    }
}

/// Where the payload lies, given where the metadata starts and the length it records.
pub open spec fn payload_span_spec(meta_start: int, payload_len: u64) -> Result<(int, int), ErrorModel> {
    if meta_start < (payload_len as usize) as int {
        Err(ErrorModel::PayloadLengthMalformed)
    } else {
        Ok((meta_start - (payload_len as usize) as int, meta_start))
    }
}

fn append_bytes(out: &mut Vec<u8>, more: &[u8])
    ensures
        final(out)@ == old(out)@ + more@,
{
    let ghost start = old(out)@;
    let mut i: usize = 0;
    while i < more.len()
        invariant
            i <= more@.len(),
            out@ == start + more@.take(i as int),
        decreases more@.len() - i,
    {
        out.push(more[i]);
        i = i + 1;
        assert(out@ =~= start + more@.take(i as int));
    }
    assert(more@.take(more@.len() as int) =~= more@);
}

/// `v` as 8 little-endian bytes.
pub fn u64_le_bytes(v: u64) -> (r: Vec<u8>)
    ensures
        r@ == le_bytes(v as nat, 8),
{
    let mut r: Vec<u8> = Vec::new();
    let mut rest: u64 = v;
    let mut i: usize = 0;
    while i < 8
        invariant
            i <= 8,
            r@ + le_bytes(rest as nat, (8 - i) as nat) == le_bytes(v as nat, 8),
        decreases 8 - i,
    {
        proof {
            assert(le_bytes(rest as nat, (8 - i) as nat) == seq![(rest % 256) as u8] + le_bytes((rest / 256) as nat, (8 - i - 1) as nat));
        }
        let ghost before = r@;
        r.push((rest % 256) as u8);
        assert(before + (seq![(rest % 256) as u8] + le_bytes((rest / 256) as nat, (8 - i - 1) as nat))
            =~= r@ + le_bytes((rest / 256) as nat, (8 - i - 1) as nat));
        rest = rest / 256;
        i = i + 1;
    }
    assert(r@ + le_bytes(rest as nat, 0) =~= r@);
    r
}

/// The number 8 little-endian bytes spell.
pub fn u64_from_le(b: &[u8]) -> (v: u64)
    requires
        b@.len() == 8,
    ensures
        v as nat == le_value(b@),
{
    let mut v: u64 = 0;
    let mut k: usize = 8;
    proof { lemma_le_value_bound(b@); }
    while k > 0
        invariant
            k <= 8,
            b@.len() == 8,
            v as nat == le_value(b@.skip(k as int)),
            le_value(b@.skip(k as int)) < pow256((8 - k) as nat),
        decreases k,
    {
        proof {
            assert(b@.skip(k - 1).drop_first() =~= b@.skip(k as int));
            lemma_le_value_bound(b@.skip(k - 1));
                    assert(pow256(8) == 0x1_0000_0000_0000_0000) by {
                        reveal_with_fuel(pow256, 9);
                    }
            lemma_pow256_increases((8 - k + 1) as nat, 8);
        }
        v = (b[k - 1] as u64) + 256 * v;
        k = k - 1;
    }
    assert(b@.skip(0) =~= b@);
    v
}

proof fn lemma_le_value_bound(b: Seq<u8>)
    ensures
        le_value(b) < pow256(b.len()),
    decreases b.len(),
{
    if b.len() > 0 {
        lemma_le_value_bound(b.drop_first());
        assert(le_value(b) <= 255 + 256 * (pow256((b.len() - 1) as nat) - 1)) by (nonlinear_arith)
            requires
                le_value(b) == b[0] as nat + 256 * le_value(b.drop_first()),
                le_value(b.drop_first()) < pow256((b.len() - 1) as nat),
                b[0] <= 255;
    }
}

/// The container bytes: carrier, payload, metadata record, the record's
/// length as 8 little-endian bytes, and the marker.
pub fn build_container(carrier: &[u8], payload: &[u8], metadata: &[u8]) -> (r: Vec<u8>)
    requires
        carrier@.len() + payload@.len() + metadata@.len() + 26 <= usize::MAX,
    ensures
        r@ == container_spec(carrier@, payload@, metadata@),
{
    let mut out: Vec<u8> = Vec::new();
    append_bytes(&mut out, carrier);
    append_bytes(&mut out, payload);
    append_bytes(&mut out, metadata);
    let len_bytes = u64_le_bytes(metadata.len() as u64);
    append_bytes(&mut out, len_bytes.as_slice());
    let m = magic_bytes();
    append_bytes(&mut out, m.as_slice());
    out
}

/// Where a container's metadata record lies (start and end), or why the
/// bytes are no container.
pub fn metadata_span(bytes: &[u8]) -> (r: Result<(usize, usize), SighFarError>)
    ensures
        match r {
            Ok((a, b)) => metadata_span_spec(bytes@) == Ok::<(int, int), ErrorModel>((a as int, b as int)),
            Err(e) => metadata_span_spec(bytes@) == Err::<(int, int), ErrorModel>(e@),
        },
{
    let n = bytes.len();
    if n < 26 {
        return Err(SighFarError::ContainerTooSmall);
    }
    let m = magic_bytes();
    let mut i: usize = 0;
    while i < 18
        invariant
            n == bytes@.len(),
            n >= 26,
            m@ == magic(),
            i <= 18,
            forall|j: int| 0 <= j < i ==> bytes@[n - 18 + j] == m@[j],
        decreases 18 - i,
    {
        if bytes[n - 18 + i] != m[i] {
            assert(bytes@.skip(n - 18)[i as int] != magic()[i as int]);
            return Err(SighFarError::TrailerNotFound);
        }
        i = i + 1;
    }
    assert(bytes@.skip(n - 18) =~= magic());
    let mut len_bytes: Vec<u8> = Vec::new();
    let mut k: usize = n - 26;
    while k < n - 18
        invariant
            n == bytes@.len(),
            n >= 26,
            n - 26 <= k <= n - 18,
            len_bytes@ == bytes@.subrange(n - 26, k as int),
        decreases n - 18 - k,
    {
        len_bytes.push(bytes[k]);
        k = k + 1;
        assert(len_bytes@ =~= bytes@.subrange(n - 26, k as int));
    }
    let meta_len = u64_from_le(len_bytes.as_slice()) as usize;
    let len_start = n - 26;
    if len_start < meta_len {
        return Err(SighFarError::MetadataMalformed);
    }
    Ok((len_start - meta_len, len_start))
}

/// Where the payload lies, given where the metadata record starts and the
/// payload length it records.
pub fn payload_span(meta_start: usize, payload_len: u64) -> (r: Result<(usize, usize), SighFarError>)
    ensures
        match r {
            Ok((a, b)) => payload_span_spec(meta_start as int, payload_len) == Ok::<(int, int), ErrorModel>((a as int, b as int)),
            Err(e) => payload_span_spec(meta_start as int, payload_len) == Err::<(int, int), ErrorModel>(e@),
        },
{
    let len = payload_len as usize;
    if meta_start < len {
        return Err(SighFarError::PayloadLengthMalformed);
    }
    Ok((meta_start - len, meta_start))
}

/// The bytes of `bytes` from `start` to `end`.
pub fn slice_bytes(bytes: &[u8], start: usize, end: usize) -> (r: Vec<u8>)
    requires
        start <= end <= bytes@.len(),
    ensures
        r@ == bytes@.subrange(start as int, end as int),
{
    let mut r: Vec<u8> = Vec::new();
    let mut k: usize = start;
    while k < end
        invariant
            start <= k <= end <= bytes@.len(),
            r@ == bytes@.subrange(start as int, k as int),
        decreases end - k,
    {
        r.push(bytes[k]);
        k = k + 1;
        assert(r@ =~= bytes@.subrange(start as int, k as int));
    }
    r
}

/// A container built from a carrier, a payload and a metadata record gives
/// back, on extraction, exactly that record and, given the payload length
/// the record holds, exactly that payload.
pub proof fn lemma_container_round_trip(carrier: Seq<u8>, payload: Seq<u8>, metadata: Seq<u8>)
    requires
        carrier.len() + payload.len() + metadata.len() + 26 <= usize::MAX,
    ensures
        ({
            let c = container_spec(carrier, payload, metadata);
            let meta_start = (carrier.len() + payload.len()) as int;
            &&& metadata_span_spec(c) == Ok::<(int, int), ErrorModel>((meta_start, meta_start + metadata.len() as int))
            &&& c.subrange(meta_start, meta_start + metadata.len() as int) == metadata
            &&& payload_span_spec(meta_start, payload.len() as u64) == Ok::<(int, int), ErrorModel>((carrier.len() as int, meta_start))
            &&& c.subrange(carrier.len() as int, meta_start) == payload
        }),
{
    let c = container_spec(carrier, payload, metadata);
    let n = c.len() as int;
    let mlen = metadata.len();
    lemma_le_round_trip(mlen, 8);
    assert(pow256(8) == 0x1_0000_0000_0000_0000) by {
        reveal_with_fuel(pow256, 9);
    }
    vstd::arithmetic::div_mod::lemma_small_mod(mlen, 0x1_0000_0000_0000_0000);
    let body = carrier + payload + metadata;
    assert(c.skip(n - 18) =~= magic());
    assert(c.subrange(n - 26, n - 18) =~= le_bytes(mlen, 8));
    assert(c.subrange((carrier.len() + payload.len()) as int, (carrier.len() + payload.len() + mlen) as int) =~= metadata);
    assert(c.subrange(carrier.len() as int, (carrier.len() + payload.len()) as int) =~= payload);
}

} // verus!
