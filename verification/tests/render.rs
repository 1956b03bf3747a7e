use mov_decoder::storage::{BaseRegisters, Displacement, Memory, Register, Storage};
use mov_decoder::text::dec_string;

#[test]
fn memory_with_base_pair_and_displacement() {
    let m = Memory {
        registers: Some(BaseRegisters { first: Register::BX, second: Some(Register::SI) }),
        displacements: Some(Displacement { low: 0x34, high: Some(0x12) }),
    };
    assert_eq!(m.render(), "[bx+si+4660]");
}

#[test]
fn memory_with_single_base_and_no_displacement() {
    let m = Memory {
        registers: Some(BaseRegisters { first: Register::BP, second: None }),
        displacements: None,
    };
    assert_eq!(m.render(), "[bp]");
}

#[test]
fn direct_address_renders_value_alone() {
    let m = Memory {
        registers: None,
        displacements: Some(Displacement { low: 0x00, high: Some(0x01) }),
    };
    assert_eq!(m.render(), "[256]");
}

#[test]
fn immediate_storage_combines_little_endian() {
    assert_eq!(Storage::Data(0x34, Some(0x12)).render(), "4660");
    assert_eq!(Storage::Data(0x0C, None).render(), "12");
    assert_eq!(Storage::Data(0, None).render(), "0");
}

#[test]
fn register_storage_renders_name() {
    assert_eq!(Storage::Reg(Register::DI).render(), "di");
}

#[test]
fn decimal_rendering_has_no_leading_zeros() {
    assert_eq!(dec_string(0), "0");
    assert_eq!(dec_string(7), "7");
    assert_eq!(dec_string(10), "10");
    assert_eq!(dec_string(65535), "65535");
    assert_eq!(dec_string(1000), "1000");
}

#[test]
fn displacement_byte_renders_unsigned() {
    let cmds = mov_decoder::command::Command::from(&[0x8B, 0x40, 0xFF]).expect("decode");
    assert_eq!(cmds[0].render(), "mov ax, [bx+si+255]");
}
