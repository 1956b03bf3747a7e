use mov_decoder::command::{decode_and_render, Command, DecodeError};

#[test]
fn unrecognized_first_byte_yields_no_instructions() {
    assert_eq!(
        Command::from(&[0x00]),
        Err(DecodeError::UnrecognizedOpcode { offset: 0 })
    );
    assert_eq!(
        Command::from(&[0x90, 0x89, 0xD9]),
        Err(DecodeError::UnrecognizedOpcode { offset: 0 })
    );
}

#[test]
fn unrecognized_byte_mid_stream_reports_its_offset() {
    assert_eq!(
        Command::from(&[0x89, 0xD9, 0x00, 0x00]),
        Err(DecodeError::UnrecognizedOpcode { offset: 2 })
    );
}

#[test]
fn truncated_register_to_register() {
    assert_eq!(Command::from(&[0x89]), Err(DecodeError::TruncatedInstruction));
}

#[test]
fn truncated_direct_address() {
    assert_eq!(
        Command::from(&[0x8B, 0x06, 0x34]),
        Err(DecodeError::TruncatedInstruction)
    );
}

#[test]
fn truncated_displacement() {
    assert_eq!(
        Command::from(&[0x8B, 0x96, 0x34]),
        Err(DecodeError::TruncatedInstruction)
    );
}

#[test]
fn truncated_immediate_to_register() {
    assert_eq!(
        Command::from(&[0xB8, 0x01]),
        Err(DecodeError::TruncatedInstruction)
    );
}

#[test]
fn truncated_accumulator_transfer() {
    assert_eq!(
        Command::from(&[0xA0, 0x00]),
        Err(DecodeError::TruncatedInstruction)
    );
}

#[test]
fn truncated_immediate_to_memory() {
    assert_eq!(
        Command::from(&[0xC7, 0x06, 0x34, 0x12, 0x01]),
        Err(DecodeError::TruncatedInstruction)
    );
}

#[test]
fn odd_length_buffer_is_rejected_before_decoding() {
    assert_eq!(
        decode_and_render(&[0x89, 0xD9, 0x90]),
        Err(DecodeError::InvalidInputLength)
    );
    assert_eq!(
        decode_and_render(&[0xB8, 0x01, 0x00]),
        Err(DecodeError::InvalidInputLength)
    );
}

#[test]
fn whole_pass_renders_lines_in_order() {
    assert_eq!(
        decode_and_render(&[0x89, 0xD9, 0x8B, 0x06, 0x34, 0x12]),
        Ok(vec!["mov cx, bx".to_string(), "mov ax, [4660]".to_string()])
    );
}

#[test]
fn whole_pass_accepts_empty_buffer() {
    assert_eq!(decode_and_render(&[]), Ok(vec![]));
}

#[test]
fn whole_pass_passes_decode_errors_through() {
    assert_eq!(
        decode_and_render(&[0x00, 0x00]),
        Err(DecodeError::UnrecognizedOpcode { offset: 0 })
    );
    assert_eq!(
        decode_and_render(&[0xA0, 0x00]),
        Err(DecodeError::TruncatedInstruction)
    );
}
