use mov_decoder::command::{Command, Instruction, MovVariant};
use mov_decoder::storage::{Register, Storage};

fn render_all(bytes: &[u8]) -> Vec<String> {
    let cmds = Command::from(bytes).expect("decode should succeed");
    cmds.iter().map(|c| c.render()).collect()
}

#[test]
fn register_to_register() {
    assert_eq!(render_all(&[0x89, 0xD9]), vec!["mov cx, bx"]);
}

#[test]
fn immediate_to_register_wide() {
    assert_eq!(render_all(&[0xB8, 0x01, 0x00]), vec!["mov ax, 1"]);
}

#[test]
fn immediate_to_register_narrow() {
    assert_eq!(render_all(&[0xB1, 0x0C]), vec!["mov cl, 12"]);
}

#[test]
fn displacement8_memory_source() {
    assert_eq!(render_all(&[0x8B, 0x40, 0x05]), vec!["mov ax, [bx+si+5]"]);
}

#[test]
fn displacement8_second_pair() {
    assert_eq!(render_all(&[0x8B, 0x41, 0x05]), vec!["mov ax, [bx+di+5]"]);
}

#[test]
fn direct_address_special_case() {
    assert_eq!(render_all(&[0x8B, 0x06, 0x34, 0x12]), vec!["mov ax, [4660]"]);
}

#[test]
fn bp_with_displacement8() {
    assert_eq!(render_all(&[0x8B, 0x46, 0x05]), vec!["mov ax, [bp+5]"]);
}

#[test]
fn bp_with_displacement16() {
    assert_eq!(render_all(&[0x8B, 0x96, 0x34, 0x12]), vec!["mov dx, [bp+4660]"]);
}

#[test]
fn memory_no_displacement() {
    assert_eq!(render_all(&[0x8A, 0x00]), vec!["mov al, [bx+si]"]);
}

#[test]
fn memory_destination_direction_bit_clear() {
    assert_eq!(render_all(&[0x88, 0x07]), vec!["mov [bx], al"]);
}

#[test]
fn memory_to_accumulator_narrow() {
    assert_eq!(render_all(&[0xA0, 0x00, 0x01]), vec!["mov al, [256]"]);
}

#[test]
fn memory_to_accumulator_wide() {
    assert_eq!(render_all(&[0xA1, 0x00, 0x01]), vec!["mov ax, [256]"]);
}

#[test]
fn accumulator_to_memory() {
    assert_eq!(render_all(&[0xA3, 0x10, 0x20]), vec!["mov [8208], ax"]);
}

#[test]
fn immediate_to_memory_narrow() {
    assert_eq!(render_all(&[0xC6, 0x06, 0x10, 0x00, 0x07]), vec!["mov [16], 7"]);
}

#[test]
fn immediate_to_register_via_mode_byte() {
    assert_eq!(render_all(&[0xC7, 0xC3, 0x02, 0x01]), vec!["mov bx, 258"]);
}

#[test]
fn several_instructions_in_order() {
    assert_eq!(
        render_all(&[0x89, 0xD9, 0xB8, 0x01, 0x00, 0xA0, 0x00, 0x01]),
        vec!["mov cx, bx", "mov ax, 1", "mov al, [256]"]
    );
}

#[test]
fn empty_buffer_decodes_to_nothing() {
    let cmds = Command::from(&[]).expect("empty buffer should decode");
    assert_eq!(cmds.len(), 0);
}

#[test]
fn decoded_record_fields() {
    let cmds = Command::from(&[0x89, 0xD9]).expect("decode should succeed");
    assert_eq!(cmds.len(), 1);
    assert_eq!(cmds[0].instruction, Instruction::Mov(MovVariant::ToFromReg));
    assert_eq!(cmds[0].destination, Storage::Reg(Register::CX));
    assert_eq!(cmds[0].source, Storage::Reg(Register::BX));
}

#[test]
fn rendering_twice_is_identical() {
    let cmds = Command::from(&[0x8B, 0x06, 0x34, 0x12]).expect("decode should succeed");
    let first = cmds[0].render();
    let second = cmds[0].render();
    assert_eq!(first, second);
    assert_eq!(first, "mov ax, [4660]");
}

#[test]
fn default_record_is_placeholder() {
    let c = Command::default();
    assert_eq!(c.instruction, Instruction::Nan);
    assert_eq!(c.source, Storage::Reg(Register::AX));
    assert_eq!(c.destination, Storage::Reg(Register::AX));
    assert_eq!(c.render(), "n/a ax, ax");
}
