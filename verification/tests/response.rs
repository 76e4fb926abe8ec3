use si1145::response::{ResponseError, ResponseRegister, STATUS_MASK};

const ALL_FAULTS: [ResponseError; 7] = [
    ResponseError::InvalidComand,
    ResponseError::AdcOverflowPs1,
    ResponseError::AdcOverflowPs2,
    ResponseError::AdcOverflowPs3,
    ResponseError::AdcOverflowAlsVis,
    ResponseError::AdcOverflowAlsIr,
    ResponseError::AdcOverflowAux,
];

#[test]
fn zero_response_is_success() {
    assert_eq!(ResponseRegister(0x00).as_result(), Ok(()));
}

#[test]
fn invalid_command_is_reported() {
    assert_eq!(ResponseRegister(0x80).as_result(), Err(ResponseError::InvalidComand));
}

#[test]
fn counter_nibble_does_not_matter() {
    for raw in 0x00u8..=0x0F {
        assert_eq!(ResponseRegister(raw).as_result(), Ok(()));
    }
    for raw in 0x80u8..=0x8F {
        assert_eq!(ResponseRegister(raw).as_result(), Err(ResponseError::InvalidComand));
    }
}

#[test]
fn unknown_status_nibble_is_success() {
    for high in [0x10u8, 0x20, 0x30, 0x40, 0x50, 0x60, 0x70, 0x90, 0xA0, 0xB0, 0xC0, 0xD0, 0xE0, 0xF0] {
        for low in 0x00u8..=0x0F {
            assert_eq!(ResponseRegister(high | low).as_result(), Ok(()));
        }
    }
}

#[test]
fn every_byte_decodes_as_its_status_nibble() {
    for raw in 0x00u8..=0xFF {
        assert_eq!(
            ResponseRegister(raw).as_result(),
            ResponseRegister(raw & STATUS_MASK).as_result()
        );
    }
}

#[test]
fn fault_codes_are_those_of_the_chip() {
    assert_eq!(ResponseError::InvalidComand.code(), 0x80);
    assert_eq!(ResponseError::AdcOverflowPs1.code(), 0x88);
    assert_eq!(ResponseError::AdcOverflowPs2.code(), 0x89);
    assert_eq!(ResponseError::AdcOverflowPs3.code(), 0x8a);
    assert_eq!(ResponseError::AdcOverflowAlsVis.code(), 0x8c);
    assert_eq!(ResponseError::AdcOverflowAlsIr.code(), 0x8d);
    assert_eq!(ResponseError::AdcOverflowAux.code(), 0x8e);
}

#[test]
fn faults_are_found_by_their_codes() {
    for fault in ALL_FAULTS {
        assert_eq!(ResponseError::from_code(fault.code()), Some(fault));
    }
    assert_eq!(ResponseError::from_code(0x8d), Some(ResponseError::AdcOverflowAlsIr));
}

#[test]
fn bytes_outside_the_table_are_no_fault() {
    let mut known = 0;
    for code in 0x00u8..=0xFF {
        match ResponseError::from_code(code) {
            Some(fault) => {
                assert_eq!(fault.code(), code);
                known += 1;
            }
            None => assert!(ALL_FAULTS.iter().all(|fault| fault.code() != code)),
        }
    }
    assert_eq!(known, 7);
    assert_eq!(ResponseError::from_code(0x00), None);
    assert_eq!(ResponseError::from_code(0x8b), None);
    assert_eq!(ResponseError::from_code(0x8f), None);
}
