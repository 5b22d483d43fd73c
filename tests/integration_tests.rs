use address::processor::{
    authorize_initialize, decode_instruction, prepare_initialize, validate_accounts, AccountHandle,
    ProvisionError,
};
use address::state::{AddressInfo, CodecError};

fn john_doe() -> AddressInfo {
    AddressInfo {
        name: "John Doe".to_string(),
        house_number: 123,
        street: "33 Mapleton Road".to_string(),
        city: "Auckland".to_string(),
    }
}

fn handle(key: [u8; 32], is_signer: bool, is_writable: bool) -> AccountHandle {
    AccountHandle { key, is_signer, is_writable }
}

fn system_handle() -> AccountHandle {
    handle([0u8; 32], false, false)
}

// A stand-in for the runtime's rent schedule: a fixed charge per stored byte.
fn minimum_balance(span: usize) -> u64 {
    (span as u64 + 128) * 6960
}

#[test]
fn test_create_address() {
    let program_id = [7u8; 32];
    let payer = handle([1u8; 32], true, true);
    let target = handle([2u8; 32], true, true);
    let accounts = vec![payer, target, system_handle()];
    let initial_address = john_doe();
    let init_instruction_data: Vec<u8> = initial_address.try_to_vec().unwrap();

    let address_info = decode_instruction(&init_instruction_data).unwrap();
    let payload = prepare_initialize(&accounts, &address_info).unwrap();
    let lamports = minimum_balance(payload.len());
    let plan = authorize_initialize(&program_id, &accounts, payload, lamports).unwrap();

    // The runtime creates a zeroed buffer of the requested size; the payload fills it.
    let mut data = vec![0u8; plan.create.space as usize];
    assert_eq!(data.len(), plan.payload.len());
    data.copy_from_slice(&plan.payload);

    let new_address = AddressInfo::try_from_slice(&data).expect("Failed to deserialize address");
    assert_eq!(new_address, initial_address);
    assert!(plan.create.lamports >= minimum_balance(data.len()));
    assert_eq!(plan.create.from, [1u8; 32]);
    assert_eq!(plan.create.to, [2u8; 32]);
    assert_eq!(plan.create.owner, program_id);
}

#[test]
fn payer_not_signer_aborts() {
    let accounts = vec![handle([1u8; 32], false, true), handle([2u8; 32], true, true), system_handle()];
    let payload = prepare_initialize(&accounts, &john_doe()).unwrap();
    let r = authorize_initialize(&[7u8; 32], &accounts, payload, 1000);
    assert!(matches!(r, Err(ProvisionError::MissingRequiredSignature)));
}

#[test]
fn wrong_system_program_aborts() {
    let mut other = [0u8; 32];
    other[31] = 9;
    let accounts = vec![handle([1u8; 32], true, true), handle([2u8; 32], true, true), handle(other, false, false)];
    let payload = prepare_initialize(&accounts, &john_doe()).unwrap();
    let r = authorize_initialize(&[7u8; 32], &accounts, payload, 1000);
    assert!(matches!(r, Err(ProvisionError::IncorrectProgramId)));
}

#[test]
fn unwritable_accounts_are_refused() {
    let s = system_handle();
    let target_ro = handle([2u8; 32], true, false);
    let payer_ro = handle([1u8; 32], true, false);
    let payer = handle([1u8; 32], true, true);
    let target = handle([2u8; 32], true, true);
    assert_eq!(validate_accounts(&payer, &target_ro, &s), Err(ProvisionError::InvalidAccountData));
    assert_eq!(validate_accounts(&payer_ro, &target, &s), Err(ProvisionError::InvalidAccountData));
    assert_eq!(validate_accounts(&payer, &target, &s), Ok(()));
}

#[test]
fn signature_is_checked_before_writability() {
    let s = system_handle();
    let payer = handle([1u8; 32], false, false);
    let target = handle([2u8; 32], false, false);
    assert_eq!(validate_accounts(&payer, &target, &s), Err(ProvisionError::MissingRequiredSignature));
}

#[test]
fn fewer_than_three_accounts_are_refused() {
    let accounts = vec![handle([1u8; 32], true, true), handle([2u8; 32], true, true)];
    assert_eq!(prepare_initialize(&accounts, &john_doe()), Err(ProvisionError::MissingAccount));
    let r = authorize_initialize(&[7u8; 32], &accounts, vec![1, 2, 3], 10);
    assert!(matches!(r, Err(ProvisionError::MissingAccount)));
}

#[test]
fn extra_accounts_are_ignored() {
    let accounts = vec![
        handle([1u8; 32], true, true),
        handle([2u8; 32], true, true),
        system_handle(),
        handle([5u8; 32], false, false),
    ];
    let payload = prepare_initialize(&accounts, &john_doe()).unwrap();
    let plan = authorize_initialize(&[7u8; 32], &accounts, payload, 55).unwrap();
    assert_eq!(plan.create.lamports, 55);
}

#[test]
fn account_space_is_the_payload_length() {
    let accounts = vec![handle([1u8; 32], true, true), handle([2u8; 32], true, true), system_handle()];
    let info = john_doe();
    let payload = prepare_initialize(&accounts, &info).unwrap();
    assert_eq!(payload, info.try_to_vec().unwrap());
    assert_eq!(payload.len(), 4 + 8 + 1 + 4 + 16 + 4 + 8);
    let plan = authorize_initialize(&[7u8; 32], &accounts, payload.clone(), 1).unwrap();
    assert_eq!(plan.create.space, 45);
    assert_eq!(plan.payload, payload);
}

#[test]
fn invalid_instruction_data_is_refused() {
    assert_eq!(decode_instruction(&[1, 2]), Err(ProvisionError::InvalidInstructionData));
    let mut bytes = john_doe().try_to_vec().unwrap();
    bytes.push(0);
    assert_eq!(decode_instruction(&bytes), Err(ProvisionError::InvalidInstructionData));
}

#[test]
fn encoding_has_the_expected_bytes() {
    let info = AddressInfo::new("Al".to_string(), 7, "B".to_string(), String::new());
    let expected: Vec<u8> = vec![2, 0, 0, 0, b'A', b'l', 7, 1, 0, 0, 0, b'B', 0, 0, 0, 0];
    assert_eq!(info.to_le_bytes(), expected);
    assert_eq!(info.try_to_vec().unwrap(), expected);
}

#[test]
fn new_keeps_the_fields() {
    let info = AddressInfo::new("a".to_string(), 255, "b".to_string(), "c".to_string());
    assert_eq!(info.name, "a");
    assert_eq!(info.house_number, 255);
    assert_eq!(info.street, "b");
    assert_eq!(info.city, "c");
}

#[test]
fn round_trip_custom() {
    let info = john_doe();
    let bytes = info.to_le_bytes();
    let (decoded, used) = AddressInfo::from_le_bytes(&bytes).unwrap();
    assert_eq!(decoded, info);
    assert_eq!(used, bytes.len());
}

#[test]
fn round_trip_canonical() {
    let info = john_doe();
    let bytes = info.try_to_vec().unwrap();
    assert_eq!(AddressInfo::try_from_slice(&bytes).unwrap(), info);
}

#[test]
fn round_trip_non_ascii_and_empty() {
    let info = AddressInfo::new("Zoë Ñúñez".to_string(), 0, String::new(), "東京".to_string());
    let bytes = info.to_le_bytes();
    assert_eq!(AddressInfo::from_le_bytes(&bytes).unwrap(), (info.clone(), bytes.len()));
    assert_eq!(AddressInfo::try_from_slice(&bytes).unwrap(), info);
}

#[test]
fn formats_agree() {
    let info = john_doe();
    assert_eq!(info.to_le_bytes(), info.try_to_vec().unwrap());
    let other = AddressInfo::new("Zoë".to_string(), 1, "x".repeat(300), "Ω".to_string());
    assert_eq!(other.to_le_bytes(), other.try_to_vec().unwrap());
}

#[test]
fn custom_decoder_allows_trailing_bytes() {
    let info = john_doe();
    let mut bytes = info.to_le_bytes();
    let len = bytes.len();
    bytes.extend_from_slice(&[9, 9, 9]);
    assert_eq!(AddressInfo::from_le_bytes(&bytes).unwrap(), (info.clone(), len));
    assert_eq!(AddressInfo::try_from_slice(&bytes), Err(CodecError::Deserialization));
}

#[test]
fn every_truncation_is_insufficient() {
    let bytes = john_doe().to_le_bytes();
    for k in 0..bytes.len() {
        let prefix = &bytes[..k];
        assert_eq!(AddressInfo::from_le_bytes(prefix), Err(CodecError::InsufficientBytes));
        assert_eq!(AddressInfo::try_from_slice(prefix), Err(CodecError::Deserialization));
        assert_eq!(decode_instruction(prefix), Err(ProvisionError::InvalidInstructionData));
    }
}

#[test]
fn invalid_utf8_in_each_field() {
    let bad: Vec<u8> = vec![2, 0, 0, 0, 0xff, 0xfe];
    let name = vec![1, 0, 0, 0, b'a'];
    let street = vec![1, 0, 0, 0, b's'];
    let cases: Vec<Vec<u8>> = vec![
        [bad.clone(), vec![1], street.clone(), name.clone()].concat(),
        [name.clone(), vec![1], bad.clone(), name.clone()].concat(),
        [name.clone(), vec![1], street.clone(), bad.clone()].concat(),
    ];
    for bytes in cases {
        assert_eq!(AddressInfo::from_le_bytes(&bytes), Err(CodecError::InvalidUtf8));
        assert_eq!(AddressInfo::try_from_slice(&bytes), Err(CodecError::Deserialization));
    }
}

#[test]
fn length_is_checked_before_utf8() {
    // The body claims three bytes and holds two, both invalid: the length check wins.
    let bytes: Vec<u8> = vec![3, 0, 0, 0, 0xff, 0xfe];
    assert_eq!(AddressInfo::from_le_bytes(&bytes), Err(CodecError::InsufficientBytes));
}

#[test]
fn missing_house_number_is_insufficient() {
    let bytes: Vec<u8> = vec![1, 0, 0, 0, b'a'];
    assert_eq!(AddressInfo::from_le_bytes(&bytes), Err(CodecError::InsufficientBytes));
}

#[test]
fn large_length_prefix_is_insufficient() {
    let bytes: Vec<u8> = vec![0xff, 0xff, 0xff, 0xff, b'a'];
    assert_eq!(AddressInfo::from_le_bytes(&bytes), Err(CodecError::InsufficientBytes));
    assert_eq!(AddressInfo::try_from_slice(&bytes), Err(CodecError::Deserialization));
}

#[test]
fn error_messages() {
    assert_eq!(CodecError::InsufficientBytes.message(), "Insufficient bytes");
    assert_eq!(CodecError::InvalidUtf8.message(), "Invalid UTF-8");
    assert_eq!(CodecError::Deserialization.message(), "Failed to deserialize");
}
