use npucore::arch::{Pm1Cnt, SleepType};

#[test]
fn set_s5_sets_type_and_enable_bits() {
    let mut reg = Pm1Cnt { bits: 0 };
    reg.set_s5();
    assert_eq!(reg.bits, 0x3c00);
    assert!(reg.get_slp_en());
    assert_eq!(reg.get_slp_typ(), 7);
}

#[test]
fn set_s5_keeps_the_other_bits() {
    let mut reg = Pm1Cnt { bits: 0x8000_0401 };
    reg.set_s5();
    assert_eq!(reg.bits, 0x8000_3c01);
}

#[test]
fn sleep_type_field_is_replaced() {
    let mut reg = Pm1Cnt { bits: 0xffff_ffff };
    reg.set_slp_typ(0b101);
    assert_eq!(reg.bits, 0xffff_f7ff);
    assert_eq!(reg.get_slp_typ(), 0b101);
    reg.set_slp_en(false);
    assert_eq!(reg.bits, 0xffff_d7ff);
    assert!(!reg.get_slp_en());
}

#[test]
fn sleep_type_numbers() {
    assert_eq!(usize::from(SleepType::S0), 0);
    assert_eq!(usize::from(SleepType::S3), 5);
    assert_eq!(usize::from(SleepType::S4), 6);
    assert_eq!(usize::from(SleepType::S5), 7);
    assert_eq!(SleepType::try_from_primitive(6), Ok(SleepType::S4));
    assert_eq!(SleepType::try_from_primitive(1), Err(1));
}
