//! Fixed-layout, little-endian instruction payloads.

use crate::error::Error;
use vstd::arithmetic::div_mod::lemma_div_denominator;
use vstd::prelude::*;
use vstd::slice::slice_subrange;

verus! {

/// Number of leading bytes that name the instruction.
pub const DISCRIMINATOR_LEN: usize = 8;

/// Number of bytes the fixed parameter layout occupies.
pub const PARAMS_LEN: usize = 26;

/// The parameters shared by the buy, sell and execute-sale instructions.
#[derive(Clone, Copy, Debug, PartialEq, Eq, Structural)]
pub struct InstructionParams {
    pub trade_state_bump: u8,
    pub escrow_payment_bump: u8,
    pub buyer_price: u64,
    pub token_size: u64,
    pub expiry: i64,
}

/// The instructions of the direct marketplace program that are indexed.
#[derive(Clone, Copy, Debug, PartialEq, Eq, Structural)]
pub enum InstructionKind {
    Buy,
    Sell,
    ExecuteSale,
    CancelSell,
    CancelBuy,
}

/// The unsigned number that eight bytes spell, least significant byte first.
pub open spec fn le_u64(b: Seq<u8>) -> int
    recommends
        b.len() == 8,
{
    b[0] as int + b[1] as int * 0x100 + b[2] as int * 0x1_0000 + b[3] as int * 0x100_0000 + b[4] as int
        * 0x1_0000_0000 + b[5] as int * 0x100_0000_0000 + b[6] as int * 0x1_0000_0000_0000 + b[7] as int
        * 0x100_0000_0000_0000
}

/// The signed number that eight bytes spell in two's complement, least
/// significant byte first.
pub open spec fn le_i64(b: Seq<u8>) -> int
    recommends
        b.len() == 8,
{
    if le_u64(b) >= 0x8000_0000_0000_0000 {
        le_u64(b) - 0x1_0000_0000_0000_0000
    } else {
        le_u64(b)
    }
}

/// The eight bytes that spell `v`, least significant byte first.
pub open spec fn u64_le_bytes(v: int) -> Seq<u8>
    recommends
        0 <= v < 0x1_0000_0000_0000_0000,
{
    seq![
        (v % 0x100) as u8,
        (v / 0x100 % 0x100) as u8,
        (v / 0x1_0000 % 0x100) as u8,
        (v / 0x100_0000 % 0x100) as u8,
        (v / 0x1_0000_0000 % 0x100) as u8,
        (v / 0x100_0000_0000 % 0x100) as u8,
        (v / 0x1_0000_0000_0000 % 0x100) as u8,
        (v / 0x100_0000_0000_0000 % 0x100) as u8,
    ]
}

/// The eight bytes that spell `v` in two's complement, least significant
/// byte first.
pub open spec fn i64_le_bytes(v: int) -> Seq<u8>
    recommends
        -0x8000_0000_0000_0000 <= v < 0x8000_0000_0000_0000,
{
    if v < 0 {
        u64_le_bytes(v + 0x1_0000_0000_0000_0000)
    } else {
        u64_le_bytes(v)
    }
}

/// The parameters that the first 26 bytes of `data` spell, if there are
/// that many. Bytes after them are ignored.
pub open spec fn params_of(data: Seq<u8>) -> Option<InstructionParams> {
    if data.len() >= PARAMS_LEN {
        Some(
            InstructionParams {
                trade_state_bump: data[0],
                escrow_payment_bump: data[1],
                buyer_price: le_u64(data.subrange(2, 10)) as u64,
                token_size: le_u64(data.subrange(10, 18)) as u64,
                expiry: le_i64(data.subrange(18, 26)) as i64,
            },
        )
    } else {
        None
    }
}

/// The 26 bytes that spell `p`.
pub open spec fn bytes_of(p: InstructionParams) -> Seq<u8> {
    seq![p.trade_state_bump, p.escrow_payment_bump] + u64_le_bytes(p.buyer_price as int)
        + u64_le_bytes(p.token_size as int) + i64_le_bytes(p.expiry as int)
}

/// The eight bytes that open an instruction of the given kind.
pub open spec fn discriminator(kind: InstructionKind) -> Seq<u8> {
    match kind {
        InstructionKind::Buy => seq![102u8, 6u8, 61u8, 18u8, 1u8, 218u8, 235u8, 234u8],
        InstructionKind::Sell => seq![51u8, 230u8, 133u8, 164u8, 1u8, 127u8, 131u8, 173u8],
        InstructionKind::ExecuteSale => seq![37u8, 74u8, 217u8, 157u8, 79u8, 49u8, 35u8, 6u8],
        InstructionKind::CancelSell => seq![198u8, 198u8, 130u8, 203u8, 163u8, 95u8, 175u8, 75u8],
        InstructionKind::CancelBuy => seq![238u8, 76u8, 36u8, 218u8, 132u8, 177u8, 224u8, 233u8],
    }
}

/// The kind that a discriminator names, if it names one.
pub open spec fn kind_of(tag: Seq<u8>) -> Option<InstructionKind> {
    if tag == discriminator(InstructionKind::Buy) {
        Some(InstructionKind::Buy)
    } else if tag == discriminator(InstructionKind::Sell) {
        Some(InstructionKind::Sell)
    } else if tag == discriminator(InstructionKind::ExecuteSale) {
        Some(InstructionKind::ExecuteSale)
    } else if tag == discriminator(InstructionKind::CancelSell) {
        Some(InstructionKind::CancelSell)
    } else if tag == discriminator(InstructionKind::CancelBuy) {
        Some(InstructionKind::CancelBuy)
    } else {
        None
    }
}

/// Whether the instruction kind carries the fixed parameter layout.
pub open spec fn has_params(kind: InstructionKind) -> bool {
    kind == InstructionKind::Buy || kind == InstructionKind::Sell || kind
        == InstructionKind::ExecuteSale
}

/// The payload of an instruction: its discriminator, then its parameters
/// where the kind has any.
pub open spec fn instruction_bytes(kind: InstructionKind, p: InstructionParams) -> Seq<u8> {
    if has_params(kind) {
        discriminator(kind) + bytes_of(p)
    } else {
        discriminator(kind)
    }
}

fn read_u64(data: &[u8], at: usize) -> (v: u64)
    requires
        at + 8 <= data.len(),
    ensures
        v == le_u64(data@.subrange(at as int, at + 8)),
{
    let b0: u64 = data[at] as u64;
    let b1: u64 = data[at + 1] as u64;
    let b2: u64 = data[at + 2] as u64;
    let b3: u64 = data[at + 3] as u64;
    let b4: u64 = data[at + 4] as u64;
    let b5: u64 = data[at + 5] as u64;
    let b6: u64 = data[at + 6] as u64;
    let b7: u64 = data[at + 7] as u64;
    b0 + b1 * 0x100 + b2 * 0x1_0000 + b3 * 0x100_0000 + b4 * 0x1_0000_0000 + b5 * 0x100_0000_0000
        + b6 * 0x1_0000_0000_0000 + b7 * 0x100_0000_0000_0000
}

fn read_i64(data: &[u8], at: usize) -> (v: i64)
    requires
        at + 8 <= data.len(),
    ensures
        v == le_i64(data@.subrange(at as int, at + 8)),
{
    let u: u64 = read_u64(data, at);
    if u >= 0x8000_0000_0000_0000 {
        let low: u64 = u - 0x8000_0000_0000_0000;
        (low as i64) + i64::MIN
    } else {
        u as i64
    }
}

/// Decodes the fixed parameter layout from the front of `data`.
///
/// Succeeds exactly when `data` holds at least 26 bytes; what follows
/// them is not looked at.
pub fn decode_params(data: &[u8]) -> (r: Result<InstructionParams, Error>)
    ensures
        match params_of(data@) {
            Some(p) => r == Ok::<InstructionParams, Error>(p),
            None => r == Err::<InstructionParams, Error>(Error::Codec),
        },
{
    if data.len() < PARAMS_LEN {
        return Err(Error::Codec);
    }
    Ok(
        InstructionParams {
            trade_state_bump: data[0],
            escrow_payment_bump: data[1],
            buyer_price: read_u64(data, 2),
            token_size: read_u64(data, 10),
            expiry: read_i64(data, 18),
        },
    )
}

fn write_u64(out: &mut Vec<u8>, v: u64)
    ensures
        final(out)@ == old(out)@ + u64_le_bytes(v as int),
{
    out.push((v % 0x100) as u8);
    out.push((v / 0x100 % 0x100) as u8);
    out.push((v / 0x1_0000 % 0x100) as u8);
    out.push((v / 0x100_0000 % 0x100) as u8);
    out.push((v / 0x1_0000_0000 % 0x100) as u8);
    out.push((v / 0x100_0000_0000 % 0x100) as u8);
    out.push((v / 0x1_0000_0000_0000 % 0x100) as u8);
    out.push((v / 0x100_0000_0000_0000 % 0x100) as u8);
    assert(out@ =~= old(out)@ + u64_le_bytes(v as int));
}

fn write_i64(out: &mut Vec<u8>, v: i64)
    ensures
        final(out)@ == old(out)@ + i64_le_bytes(v as int),
{
    if v < 0 {
        let low: u64 = (v - i64::MIN) as u64;
        write_u64(out, low + 0x8000_0000_0000_0000);
    } else {
        write_u64(out, v as u64);
    }
}

/// Encodes `p` in the fixed parameter layout.
pub fn encode_params(p: &InstructionParams) -> (out: Vec<u8>)
    ensures
        out@ == bytes_of(*p),
{
    let mut out: Vec<u8> = Vec::new();
    out.push(p.trade_state_bump);
    out.push(p.escrow_payment_bump);
    write_u64(&mut out, p.buyer_price);
    write_u64(&mut out, p.token_size);
    write_i64(&mut out, p.expiry);
    assert(out@ =~= bytes_of(*p));
    out
}

fn tag_matches(data: &[u8], kind: InstructionKind) -> (b: bool)
    requires
        data.len() >= DISCRIMINATOR_LEN,
    ensures
        b == (data@.subrange(0, 8) == discriminator(kind)),
{
    let tag: [u8; 8] = match kind {
        InstructionKind::Buy => [102, 6, 61, 18, 1, 218, 235, 234],
        InstructionKind::Sell => [51, 230, 133, 164, 1, 127, 131, 173],
        InstructionKind::ExecuteSale => [37, 74, 217, 157, 79, 49, 35, 6],
        InstructionKind::CancelSell => [198, 198, 130, 203, 163, 95, 175, 75],
        InstructionKind::CancelBuy => [238, 76, 36, 218, 132, 177, 224, 233],
    };
    assert(tag@ =~= discriminator(kind));
    let mut i: usize = 0;
    while i < 8
        invariant
            i <= 8,
            data.len() >= 8,
            tag@ == discriminator(kind),
            forall|j: int| 0 <= j < i ==> data[j] == tag[j],
        decreases 8 - i,
    {
        if data[i] != tag[i] {
            assert(data@.subrange(0, 8)[i as int] != discriminator(kind)[i as int]);
            return false;
        }
        i += 1;
    }
    assert(data@.subrange(0, 8) =~= discriminator(kind));
    true
}

/// Names the instruction that `data` opens with.
///
/// Fails with `Codec` exactly when `data` is shorter than a discriminator.
/// A discriminator that names no indexed instruction gives `Ok(None)`.
pub fn instruction_kind(data: &[u8]) -> (r: Result<Option<InstructionKind>, Error>)
    ensures
        data.len() < DISCRIMINATOR_LEN ==> r == Err::<Option<InstructionKind>, Error>(Error::Codec),
        data.len() >= DISCRIMINATOR_LEN ==> r == Ok::<Option<InstructionKind>, Error>(
            kind_of(data@.subrange(0, 8)),
        ),
{
    if data.len() < DISCRIMINATOR_LEN {
        return Err(Error::Codec);
    }
    if tag_matches(data, InstructionKind::Buy) {
        Ok(Some(InstructionKind::Buy))
    } else if tag_matches(data, InstructionKind::Sell) {
        Ok(Some(InstructionKind::Sell))
    } else if tag_matches(data, InstructionKind::ExecuteSale) {
        Ok(Some(InstructionKind::ExecuteSale))
    } else if tag_matches(data, InstructionKind::CancelSell) {
        Ok(Some(InstructionKind::CancelSell))
    } else if tag_matches(data, InstructionKind::CancelBuy) {
        Ok(Some(InstructionKind::CancelBuy))
    } else {
        Ok(None)
    }
}

/// The bytes of an instruction after its discriminator.
pub fn instruction_body(data: &[u8]) -> (body: &[u8])
    requires
        data.len() >= DISCRIMINATOR_LEN,
    ensures
        body@ == data@.subrange(8, data.len() as int),
{
    slice_subrange(data, DISCRIMINATOR_LEN, data.len())
}

/// Encodes an instruction: its discriminator, followed by `p` where the
/// kind carries parameters.
pub fn encode_instruction(kind: InstructionKind, p: &InstructionParams) -> (out: Vec<u8>)
    ensures
        out@ == instruction_bytes(kind, *p),
{
    let tag: [u8; 8] = match kind {
        InstructionKind::Buy => [102, 6, 61, 18, 1, 218, 235, 234],
        InstructionKind::Sell => [51, 230, 133, 164, 1, 127, 131, 173],
        InstructionKind::ExecuteSale => [37, 74, 217, 157, 79, 49, 35, 6],
        InstructionKind::CancelSell => [198, 198, 130, 203, 163, 95, 175, 75],
        InstructionKind::CancelBuy => [238, 76, 36, 218, 132, 177, 224, 233],
    };
    let mut out: Vec<u8> = Vec::new();
    let mut i: usize = 0;
    while i < 8
        invariant
            i <= 8,
            out@ == tag@.subrange(0, i as int),
        decreases 8 - i,
    {
        out.push(tag[i]);
        assert(out@ =~= tag@.subrange(0, i + 1));
        i += 1;
    }
    assert(out@ =~= discriminator(kind));
    match kind {
        InstructionKind::Buy | InstructionKind::Sell | InstructionKind::ExecuteSale => {
            let mut body = encode_params(p);
            out.append(&mut body);
        },
        _ => {},
    }
    out
}

/// Eight bytes written for a number spell that number again.
pub proof fn lemma_u64_round_trip(v: int)
    requires
        0 <= v < 0x1_0000_0000_0000_0000,
    ensures
        u64_le_bytes(v).len() == 8,
        le_u64(u64_le_bytes(v)) == v,
{
    let q1 = v / 0x100;
    let q2 = v / 0x1_0000;
    let q3 = v / 0x100_0000;
    let q4 = v / 0x1_0000_0000;
    let q5 = v / 0x100_0000_0000;
    let q6 = v / 0x1_0000_0000_0000;
    let q7 = v / 0x100_0000_0000_0000;
    lemma_div_denominator(v, 0x100, 0x100);
    lemma_div_denominator(v, 0x1_0000, 0x100);
    lemma_div_denominator(v, 0x100_0000, 0x100);
    lemma_div_denominator(v, 0x1_0000_0000, 0x100);
    lemma_div_denominator(v, 0x100_0000_0000, 0x100);
    lemma_div_denominator(v, 0x1_0000_0000_0000, 0x100);
    assert(q2 == q1 / 0x100);
    assert(q3 == q2 / 0x100);
    assert(q4 == q3 / 0x100);
    assert(q5 == q4 / 0x100);
    assert(q6 == q5 / 0x100);
    assert(q7 == q6 / 0x100);
    assert(q7 < 0x100);
    let b = u64_le_bytes(v);
    assert(b[0] == v % 0x100);
    assert(b[1] == q1 % 0x100);
    assert(b[2] == q2 % 0x100);
    assert(b[3] == q3 % 0x100);
    assert(b[4] == q4 % 0x100);
    assert(b[5] == q5 % 0x100);
    assert(b[6] == q6 % 0x100);
    assert(b[7] == q7);
}

/// Eight bytes written for a signed number spell that number again.
pub proof fn lemma_i64_round_trip(v: int)
    requires
        -0x8000_0000_0000_0000 <= v < 0x8000_0000_0000_0000,
    ensures
        i64_le_bytes(v).len() == 8,
        le_i64(i64_le_bytes(v)) == v,
{
    if v < 0 {
        lemma_u64_round_trip(v + 0x1_0000_0000_0000_0000);
    } else {
        lemma_u64_round_trip(v);
    }
}

/// Decoding what was encoded gives the parameters back.
pub proof fn lemma_params_round_trip(p: InstructionParams)
    ensures
        bytes_of(p).len() == PARAMS_LEN,
        params_of(bytes_of(p)) == Some(p),
{
    let b = bytes_of(p);
    lemma_u64_round_trip(p.buyer_price as int);
    lemma_u64_round_trip(p.token_size as int);
    lemma_i64_round_trip(p.expiry as int);
    assert(b.subrange(2, 10) =~= u64_le_bytes(p.buyer_price as int));
    assert(b.subrange(10, 18) =~= u64_le_bytes(p.token_size as int));
    assert(b.subrange(18, 26) =~= i64_le_bytes(p.expiry as int));
}

/// A discriminator names the kind it was written for.
pub proof fn lemma_kind_of_discriminator(kind: InstructionKind)
    ensures
        discriminator(kind).len() == DISCRIMINATOR_LEN,
        kind_of(discriminator(kind)) == Some(kind),
{
    lemma_discriminators_differ();
}

/// An encoded instruction names its kind again and, where the kind
/// carries parameters, spells them again after the discriminator.
pub proof fn lemma_instruction_round_trip(kind: InstructionKind, p: InstructionParams)
    ensures
        instruction_bytes(kind, p).len() >= DISCRIMINATOR_LEN,
        kind_of(instruction_bytes(kind, p).subrange(0, 8)) == Some(kind),
        has_params(kind) ==> params_of(
            instruction_bytes(kind, p).subrange(8, instruction_bytes(kind, p).len() as int),
        ) == Some(p),
{
    let b = instruction_bytes(kind, p);
    lemma_kind_of_discriminator(kind);
    assert(b.subrange(0, 8) =~= discriminator(kind));
    if has_params(kind) {
        lemma_params_round_trip(p);
        assert(b.subrange(8, b.len() as int) =~= bytes_of(p));
    }
}

/// No two instruction kinds share a discriminator.
pub proof fn lemma_discriminators_differ()
    ensures
        forall|a: InstructionKind, b: InstructionKind|
            discriminator(a) == discriminator(b) ==> a == b,
{
    assert forall|a: InstructionKind, b: InstructionKind|
        discriminator(a) == discriminator(b) implies a == b by {
        assert(discriminator(a)[0] == discriminator(b)[0]);
    }
}

} // verus!
