use borsh::{BorshDeserialize, BorshSerialize};
use marketplace_indexer::codec::{
    decode_params, encode_instruction, encode_params, instruction_body, instruction_kind,
    InstructionKind, InstructionParams,
};
use marketplace_indexer::error::Error;

fn sample() -> InstructionParams {
    InstructionParams {
        trade_state_bump: 254,
        escrow_payment_bump: 255,
        buyer_price: 2_000_000,
        token_size: 1,
        expiry: 0,
    }
}

#[test]
fn params_have_the_fixed_layout() {
    let bytes = encode_params(&sample());
    assert_eq!(
        bytes,
        vec![
            254, 255, 0x80, 0x84, 0x1e, 0, 0, 0, 0, 0, 1, 0, 0, 0, 0, 0, 0, 0, 0, 0, 0, 0, 0, 0, 0,
            0
        ]
    );
}

#[test]
fn params_round_trip() {
    let cases = [
        sample(),
        InstructionParams {
            trade_state_bump: 0,
            escrow_payment_bump: 0,
            buyer_price: 0,
            token_size: 0,
            expiry: i64::MIN,
        },
        InstructionParams {
            trade_state_bump: 1,
            escrow_payment_bump: 2,
            buyer_price: u64::MAX,
            token_size: 0x0102_0304_0506_0708,
            expiry: i64::MAX,
        },
        InstructionParams {
            trade_state_bump: 7,
            escrow_payment_bump: 9,
            buyer_price: 1 << 63,
            token_size: 255,
            expiry: -1,
        },
    ];
    for p in cases {
        let bytes = encode_params(&p);
        assert_eq!(bytes.len(), 26);
        assert_eq!(decode_params(&bytes), Ok(p));
    }
}

#[test]
fn params_agree_with_borsh() {
    let p = InstructionParams {
        trade_state_bump: 3,
        escrow_payment_bump: 4,
        buyer_price: 0xdead_beef_0102_0304,
        token_size: 77,
        expiry: -123_456_789,
    };
    let theirs = (
        p.trade_state_bump,
        p.escrow_payment_bump,
        p.buyer_price,
        p.token_size,
        p.expiry,
    )
        .try_to_vec()
        .unwrap();
    assert_eq!(encode_params(&p), theirs);
    let back = <(u8, u8, u64, u64, i64)>::try_from_slice(&theirs).unwrap();
    let ours = decode_params(&theirs).unwrap();
    assert_eq!(
        back,
        (
            ours.trade_state_bump,
            ours.escrow_payment_bump,
            ours.buyer_price,
            ours.token_size,
            ours.expiry
        )
    );
}

#[test]
fn negative_expiry_decodes_signed() {
    let mut bytes = encode_params(&sample());
    for b in bytes.iter_mut().skip(18) {
        *b = 0xff;
    }
    assert_eq!(decode_params(&bytes).unwrap().expiry, -1);
}

#[test]
fn short_params_are_a_codec_error() {
    let bytes = encode_params(&sample());
    assert_eq!(decode_params(&bytes[..25]), Err(Error::Codec));
    assert_eq!(decode_params(&[]), Err(Error::Codec));
}

#[test]
fn trailing_bytes_are_ignored() {
    let mut bytes = encode_params(&sample());
    bytes.extend_from_slice(&[9, 9, 9]);
    assert_eq!(decode_params(&bytes), Ok(sample()));
}

#[test]
fn discriminators_are_bit_exact() {
    let p = sample();
    assert_eq!(
        &encode_instruction(InstructionKind::Buy, &p)[..8],
        &[102, 6, 61, 18, 1, 218, 235, 234]
    );
    assert_eq!(
        &encode_instruction(InstructionKind::Sell, &p)[..8],
        &[51, 230, 133, 164, 1, 127, 131, 173]
    );
    assert_eq!(
        &encode_instruction(InstructionKind::ExecuteSale, &p)[..8],
        &[37, 74, 217, 157, 79, 49, 35, 6]
    );
    assert_eq!(
        encode_instruction(InstructionKind::CancelSell, &p),
        vec![198, 198, 130, 203, 163, 95, 175, 75]
    );
    assert_eq!(
        encode_instruction(InstructionKind::CancelBuy, &p),
        vec![238, 76, 36, 218, 132, 177, 224, 233]
    );
}

#[test]
fn instructions_round_trip() {
    let p = sample();
    for kind in [
        InstructionKind::Buy,
        InstructionKind::Sell,
        InstructionKind::ExecuteSale,
        InstructionKind::CancelSell,
        InstructionKind::CancelBuy,
    ] {
        let bytes = encode_instruction(kind, &p);
        assert_eq!(instruction_kind(&bytes), Ok(Some(kind)));
        match kind {
            InstructionKind::CancelSell | InstructionKind::CancelBuy => {
                assert_eq!(instruction_body(&bytes).len(), 0)
            }
            _ => assert_eq!(decode_params(instruction_body(&bytes)), Ok(p)),
        }
    }
}

#[test]
fn unknown_discriminator_names_nothing() {
    assert_eq!(instruction_kind(&[1, 2, 3, 4, 5, 6, 7, 8, 9]), Ok(None));
}

#[test]
fn short_payload_is_a_codec_error() {
    assert_eq!(instruction_kind(&[102, 6, 61, 18, 1, 218, 235]), Err(Error::Codec));
}
