use mov_decoder::storage::Register;

#[test]
fn register_table_is_total_per_width() {
    let narrow = ["al", "cl", "dl", "bl", "ah", "ch", "dh", "bh"];
    let wide = ["ax", "cx", "dx", "bx", "sp", "bp", "si", "di"];
    for code in 0u8..8 {
        assert_eq!(Register::from_reg(code, false).render(), narrow[code as usize]);
        assert_eq!(Register::from_reg(code, true).render(), wide[code as usize]);
    }
}

#[test]
fn register_table_is_injective_per_width() {
    for w in [false, true] {
        for a in 0u8..8 {
            for b in 0u8..8 {
                if a != b {
                    assert_ne!(Register::from_reg(a, w), Register::from_reg(b, w));
                }
            }
        }
    }
}
