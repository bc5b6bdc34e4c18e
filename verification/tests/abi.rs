use alloy_sol_types::sol_data::{Array, Bytes, FixedBytes, Uint};
use alloy_sol_types::SolType;
use brc20_unwrap::abi::{
    decoder_input, order_asm_payments, order_sol_payments, parse_abi_encoded_payments,
    parse_abi_encoded_payments_sol, payments_from_decoded, try_alloy_decode, AbiError, AbiPayment,
};
use brc20_unwrap::error::AlkanesError;
use brc20_unwrap::payment::Payment;

type Payments = Array<(FixedBytes<32>, Uint<256>, Uint<256>, Bytes, Uint<256>)>;

fn word(n: u64) -> Vec<u8> {
    let mut word = vec![0u8; 24];
    word.extend_from_slice(&n.to_be_bytes());
    word
}

fn encoded(p: &Payment) -> Vec<u8> {
    let mut data = p.txid.to_vec();
    data.extend(word(p.vout as u64));
    data.extend(word(p.value));
    data.extend(word(0xa0));
    data.extend(word(p.height));
    data.extend(word(p.recipient.len() as u64));
    data.extend_from_slice(&p.recipient);
    while data.len() % 32 != 0 {
        data.push(0);
    }
    data
}

fn encoding(ps: &[Payment]) -> Vec<u8> {
    let mut data = word(0x20);
    data.extend(word(ps.len() as u64));
    let mut offset = 32 * ps.len() as u64;
    for p in ps {
        data.extend(word(offset));
        offset += encoded(p).len() as u64;
    }
    for p in ps {
        data.extend(encoded(p));
    }
    data
}

fn payment(n: u8) -> Payment {
    Payment {
        txid: [n; 32],
        vout: n as u32,
        value: 1000 + n as u64,
        recipient: vec![n; n as usize],
        height: 800_000 + n as u64,
    }
}

fn overrun() -> AlkanesError {
    AlkanesError::RpcError(
        "Alloy decode failed: ABI decoding failed: buffer overrun while deserializing".to_string(),
    )
}

fn overrun_sol() -> AlkanesError {
    AlkanesError::RpcError(
        "Failed to decode Payment[] ABI from Solidity: RPC error: Alloy decode failed: ABI decoding failed: buffer overrun while deserializing".to_string(),
    )
}

#[test]
fn empty_replies_hold_no_payments() {
    assert_eq!(parse_abi_encoded_payments(&[]), Ok(vec![]));
    assert_eq!(parse_abi_encoded_payments_sol(&[]), Ok(vec![]));
    assert_eq!(try_alloy_decode(&[]), Err(overrun()));
}

#[test]
fn empty_arrays_hold_no_payments() {
    let data = encoding(&[]);
    assert_eq!(try_alloy_decode(&data), Ok(vec![]));
    assert_eq!(parse_abi_encoded_payments(&data), Ok(vec![]));
    assert_eq!(parse_abi_encoded_payments_sol(&data), Ok(vec![]));
}

#[test]
fn encoded_payments_are_read_back() {
    for n in [0u8, 1, 2, 31, 32, 33, 64] {
        let data = encoding(&[payment(n)]);
        assert_eq!(try_alloy_decode(&data), Ok(vec![payment(n)]));
    }
    let data = encoding(&[payment(3), payment(2), payment(1)]);
    assert_eq!(try_alloy_decode(&data), Ok(vec![payment(3), payment(2), payment(1)]));
}

#[test]
fn encoding_is_the_one_of_the_decoder() {
    let ps = [payment(3), payment(40), payment(0)];
    let values: Vec<_> = ps
        .iter()
        .map(|p| {
            (
                p.txid,
                p.vout as u64,
                p.value,
                p.recipient.clone(),
                p.height,
            )
        })
        .collect();
    let decoded = Payments::abi_decode(&encoding(&ps), true).unwrap();
    for (p, v) in decoded.iter().zip(values.iter()) {
        assert_eq!(p.0 .0, v.0);
        assert_eq!(p.1.into_limbs(), [v.1, 0, 0, 0]);
        assert_eq!(p.2.into_limbs(), [v.2, 0, 0, 0]);
        assert_eq!(p.3.to_vec(), v.3);
        assert_eq!(p.4.into_limbs(), [v.4, 0, 0, 0]);
    }
    assert_eq!(Payments::abi_encode(&decoded), encoding(&ps));
}

#[test]
fn different_payments_have_different_encodings() {
    assert_ne!(encoding(&[payment(1)]), encoding(&[payment(2)]));
    assert_ne!(encoding(&[payment(1), payment(2)]), encoding(&[payment(2), payment(1)]));
}

#[test]
fn generated_bytecode_is_read_backwards() {
    let data = encoding(&[payment(9), payment(5), payment(1)]);
    assert_eq!(
        parse_abi_encoded_payments(&data),
        Ok(vec![payment(1), payment(5), payment(9)])
    );
}

#[test]
fn compiled_contract_is_read_forwards() {
    let data = encoding(&[payment(9), payment(5), payment(1)]);
    assert_eq!(
        parse_abi_encoded_payments_sol(&data),
        Ok(vec![payment(9), payment(5), payment(1)])
    );
}

#[test]
fn programs_differ_in_order() {
    let data = encoding(&[payment(9), payment(5)]);
    let mut backwards = parse_abi_encoded_payments(&data).unwrap();
    backwards.reverse();
    assert_eq!(parse_abi_encoded_payments_sol(&data).unwrap(), backwards);
}

#[test]
fn data_that_ends_early_is_an_overrun() {
    let data = encoding(&[payment(3)]);
    for cut in [1, 31, 32, 63, 64, 95, 96, 200, 250, data.len() - 32] {
        assert_eq!(try_alloy_decode(&data[..cut]), Err(overrun()), "{}", cut);
        assert_eq!(parse_abi_encoded_payments(&data[..cut]), Err(overrun()));
        assert_eq!(parse_abi_encoded_payments_sol(&data[..cut]), Err(overrun_sol()));
    }
}

#[test]
fn overrun_has_the_words_of_the_decoder() {
    let words = Payments::abi_decode(&[1, 2, 3], false).unwrap_err().to_string();
    assert_eq!(
        try_alloy_decode(&[1, 2, 3]),
        Err(AlkanesError::RpcError(format!("Alloy decode failed: {}", words)))
    );
}

#[test]
fn recipients_beyond_any_position_are_overruns() {
    let p = payment(3);
    for length in [u64::MAX, u64::MAX - 31, u64::MAX - 32, u64::MAX / 2, 1000] {
        let mut data = encoding(&[p.clone()]);
        let at = 96 + 160;
        data[at..at + 32].copy_from_slice(&word(length));
        assert_eq!(try_alloy_decode(&data), Err(overrun()), "{}", length);
    }
}

#[test]
fn reservation_comes_before_recipients() {
    for count in [u64::MAX, u64::MAX / 4] {
        let mut data = encoding(&[payment(3)]);
        data[32..64].copy_from_slice(&word(count));
        let at = 96 + 160;
        data[at..at + 32].copy_from_slice(&word(u64::MAX));
        let words = Payments::abi_decode(&data, false).unwrap_err().to_string();
        assert_ne!(words, "ABI decoding failed: buffer overrun while deserializing");
        assert_eq!(
            try_alloy_decode(&data),
            Err(AlkanesError::RpcError(format!("Alloy decode failed: {}", words)))
        );
    }
}

#[test]
fn decoder_is_given_no_recipient_beyond_any_position() {
    let data = encoding(&[payment(3), payment(4)]);
    assert_eq!(decoder_input(&data), &data[..]);
    assert_eq!(decoder_input(&data[..70]), &data[..70]);
    assert_eq!(decoder_input(&[]), &[] as &[u8]);
    let mut endless = data.clone();
    let at = 128 + 160;
    endless[at..at + 32].copy_from_slice(&word(u64::MAX - 31));
    assert_eq!(decoder_input(&endless), &endless[..64]);
    endless[at..at + 32].copy_from_slice(&word(u64::MAX - 32));
    assert_eq!(decoder_input(&endless), &endless[..]);
}

#[test]
fn only_what_offsets_lead_to_is_looked_at() {
    let data = encoding(&[payment(3)]);
    let mut trailing = data.clone();
    trailing.extend_from_slice(&[0xee; 40]);
    assert_eq!(try_alloy_decode(&trailing), Ok(vec![payment(3)]));
    assert_eq!(try_alloy_decode(&data[..data.len() - 29]), Ok(vec![payment(3)]));
    assert_eq!(try_alloy_decode(&data[..data.len() - 30]), Err(overrun()));
    let mut unpadded = data.clone();
    let last = unpadded.len() - 1;
    unpadded[last] = 0xee;
    assert_eq!(try_alloy_decode(&unpadded), Ok(vec![payment(3)]));
}

#[test]
fn offsets_may_lead_to_the_same_payment() {
    let mut data = encoding(&[payment(3), payment(4)]);
    let first = data[64..96].to_vec();
    data[96..128].copy_from_slice(&first);
    assert_eq!(try_alloy_decode(&data), Ok(vec![payment(3), payment(3)]));
}

#[test]
fn offsets_and_lengths_keep_their_last_bytes() {
    let mut data = encoding(&[payment(3)]);
    for at in [0, 32, 64, 96 + 96, 96 + 160] {
        data[at] = 1;
    }
    assert_eq!(try_alloy_decode(&data), Ok(vec![payment(3)]));
}

#[test]
fn huge_counts_and_offsets_are_errors() {
    let mut data = encoding(&[payment(3)]);
    data[0..32].copy_from_slice(&word(u64::MAX));
    assert_eq!(try_alloy_decode(&data), Err(overrun()));
    let mut data = encoding(&[payment(3)]);
    data[32..64].copy_from_slice(&word(u64::MAX));
    assert!(matches!(try_alloy_decode(&data), Err(AlkanesError::RpcError(_))));
    let mut data = encoding(&[payment(3)]);
    data[64..96].copy_from_slice(&word(u64::MAX));
    assert_eq!(try_alloy_decode(&data), Err(overrun()));
}

#[test]
fn numbers_too_large_are_read_as_zero() {
    let fields = [(32, "vout"), (64, "value"), (128, "height")];
    for (offset, name) in fields {
        let mut data = encoding(&[payment(3)]);
        data[96 + offset] = 1;
        let read = try_alloy_decode(&data).unwrap();
        let mut wanted = payment(3);
        match name {
            "vout" => wanted.vout = 0,
            "value" => wanted.value = 0,
            _ => wanted.height = 0,
        }
        assert_eq!(read, vec![wanted]);
    }
}

#[test]
fn decoded_numbers_are_kept_where_they_fit() {
    let p = AbiPayment {
        txid: [1; 32],
        vout: [u32::MAX as u64, 0, 0, 0],
        value: [u64::MAX, 0, 0, 0],
        recipient: vec![5],
        height: [7, 0, 0, 0],
    };
    let wanted = Payment {
        txid: [1; 32],
        vout: u32::MAX,
        value: u64::MAX,
        recipient: vec![5],
        height: 7,
    };
    assert_eq!(payments_from_decoded(Ok(vec![p])), Ok(vec![wanted]));
    let p = AbiPayment {
        txid: [1; 32],
        vout: [u32::MAX as u64 + 1, 0, 0, 0],
        value: [5, 1, 0, 0],
        recipient: vec![],
        height: [5, 0, 0, 1],
    };
    let wanted = Payment { txid: [1; 32], vout: 0, value: 0, recipient: vec![], height: 0 };
    assert_eq!(payments_from_decoded(Ok(vec![p])), Ok(vec![wanted]));
}

#[test]
fn decoding_errors_are_reported() {
    assert_eq!(payments_from_decoded(Err(AbiError::Overrun)), Err(overrun()));
    assert_eq!(
        payments_from_decoded(Err(AbiError::Other("no memory".to_string()))),
        Err(AlkanesError::RpcError("Alloy decode failed: no memory".to_string()))
    );
}

#[test]
fn orders_leave_errors_and_mark_them() {
    assert_eq!(order_asm_payments(Err(overrun())), Err(overrun()));
    assert_eq!(order_sol_payments(Err(overrun())), Err(overrun_sol()));
    assert_eq!(
        order_sol_payments(Err(AlkanesError::Configuration("x".to_string()))),
        Err(AlkanesError::RpcError(
            "Failed to decode Payment[] ABI from Solidity: Configuration error: x".to_string()
        ))
    );
    assert_eq!(
        order_asm_payments(Ok(vec![payment(1), payment(2)])),
        Ok(vec![payment(2), payment(1)])
    );
    assert_eq!(
        order_sol_payments(Ok(vec![payment(1), payment(2)])),
        Ok(vec![payment(1), payment(2)])
    );
}
