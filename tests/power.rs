use patina::error::{PowerError, RegField};
use patina::power::{
    modify_power_limits, LimitChanges, PowerLimit, PowerStatus, PowerUnit, Regfile,
};
use patina::window::{decode_window, encode_window};

fn unit(pu: u8, esu: u8, tu: u8) -> PowerUnit {
    PowerUnit { pu, esu, tu }
}

fn status(unit_raw: u64, limit_raw: u64) -> PowerStatus {
    PowerStatus::from_raw(unit_raw, limit_raw)
}

#[test]
fn unit_decodes_by_bit_position() {
    assert_eq!(PowerUnit::from_reg(0x0010_0A03), unit(3, 10, 0));
    assert_eq!(PowerUnit::from_reg(0x000A_1003), unit(3, 16, 10));
}

#[test]
fn unit_decodes_min_max_mid() {
    assert_eq!(PowerUnit::from_reg(0), unit(0, 0, 0));
    assert_eq!(PowerUnit::from_reg(0x000F_1F0F), unit(15, 31, 15));
    assert_eq!(PowerUnit::from_reg(u64::MAX), unit(15, 31, 15));
    assert_eq!(PowerUnit::from_reg(0x0007_0F07), unit(7, 15, 7));
}

#[test]
fn unit_encodes_fields_at_their_positions() {
    assert_eq!(unit(3, 16, 10).to_reg(), Ok(0x000A_1003));
    assert_eq!(unit(15, 31, 15).to_reg(), Ok(0x000F_1F0F));
    assert_eq!(unit(0, 0, 0).to_reg(), Ok(0));
}

#[test]
fn unit_encode_rejects_each_wide_field() {
    assert_eq!(unit(16, 0, 0).to_reg(), Err(PowerError::Range(RegField::PowerUnit)));
    assert_eq!(unit(0, 32, 0).to_reg(), Err(PowerError::Range(RegField::EnergyUnit)));
    assert_eq!(unit(0, 0, 16).to_reg(), Err(PowerError::Range(RegField::TimeUnit)));
    assert_eq!(unit(16, 32, 16).check(), Err(PowerError::Range(RegField::PowerUnit)));
    assert_eq!(unit(15, 31, 15).check(), Ok(()));
}

#[test]
fn unit_round_trip() {
    for r in [0u64, 0x000A_1003, 0x000F_1F0F, 0x0005_0A01] {
        assert_eq!(PowerUnit::from_reg(r).to_reg(), Ok(r));
    }
    // bits outside the three fields are not kept
    assert_eq!(PowerUnit::from_reg(0xFFF0_E0F3).to_reg(), Ok(0x0000_0003));
}

#[test]
fn limit_decodes_by_bit_position() {
    let l = PowerLimit::from_reg(0x00DD_8258_00DD_80C8);
    assert_eq!(l.pl1, 0x00C8);
    assert!(l.enable_pl1);
    assert!(l.clamp_pl1);
    assert_eq!(l.time_pl1, 0x6E);
    assert_eq!(l.pl2, 0x0258);
    assert!(l.enable_pl2);
    assert!(l.clamp_pl2);
    assert_eq!(l.time_pl2, 0x6E);
}

#[test]
fn limit_decodes_min_max() {
    let l = PowerLimit::from_reg(0);
    assert_eq!(l.pl1, 0);
    assert!(!l.enable_pl1 && !l.clamp_pl1 && !l.enable_pl2 && !l.clamp_pl2);
    assert_eq!(l.time_pl2, 0);
    let m = PowerLimit::from_reg(u64::MAX);
    assert_eq!((m.pl1, m.time_pl1, m.pl2, m.time_pl2), (0x7FFF, 0x7F, 0x7FFF, 0x7F));
    assert!(m.enable_pl1 && m.clamp_pl1 && m.enable_pl2 && m.clamp_pl2);
    assert_eq!(m.to_reg(), Ok(0x00FF_FFFF_00FF_FFFF));
}

#[test]
fn limit_round_trip() {
    for r in [0u64, 0x00DD_8258_00DD_80C8, 0x00FF_FFFF_00FF_FFFF, 0x0001_0000_0000_8000] {
        assert_eq!(PowerLimit::from_reg(r).to_reg(), Ok(r));
        assert_eq!(PowerLimit::from_reg(r), PowerLimit::from_reg(r));
    }
    assert_eq!(PowerLimit::from_reg(u64::MAX).to_reg(), Ok(0x00FF_FFFF_00FF_FFFF));
}

#[test]
fn limit_power_boundary() {
    let mut l = PowerLimit::from_reg(0);
    l.pl1 = 0x8000;
    assert_eq!(l.to_reg(), Err(PowerError::Range(RegField::Pl1)));
    l.pl1 = 0x7FFF;
    assert_eq!(l.to_reg(), Ok(0x7FFF));
    l.pl2 = 0x8000;
    assert_eq!(l.to_reg(), Err(PowerError::Range(RegField::Pl2)));
    l.pl2 = 0x7FFF;
    assert_eq!(l.to_reg(), Ok(0x0000_7FFF_0000_7FFF));
}

#[test]
fn limit_time_boundary() {
    let mut l = PowerLimit::from_reg(0);
    l.time_pl1 = 0x80;
    assert_eq!(l.to_reg(), Err(PowerError::Range(RegField::TimePl1)));
    l.time_pl1 = 0x7F;
    l.time_pl2 = 0x80;
    assert_eq!(l.to_reg(), Err(PowerError::Range(RegField::TimePl2)));
    l.time_pl2 = 0x7F;
    assert_eq!(l.to_reg(), Ok(0x00FE_0000_00FE_0000));
}

#[test]
fn set_pl1_shifts_watts_into_power_units() {
    let mut s = status(0x000A_1003, 0);
    s.set_pl1(100);
    assert_eq!(s.power_limit.pl1, 800);
    assert_eq!(s.pl1_watts(), 100);
    assert_eq!(s.to_raw(), Ok(800));
}

#[test]
fn set_pl2_shifts_watts_into_power_units() {
    let mut s = status(0x000A_1003, 0);
    s.set_pl2(25);
    assert_eq!(s.power_limit.pl2, 200);
    assert_eq!(s.pl2_watts(), 25);
    assert_eq!(s.to_raw(), Ok(200u64 << 32));
}

#[test]
fn watts_read_back_truncates() {
    let s = status(0x000A_1003, 0x0000_0000_0000_0325);
    assert_eq!(s.power_limit.pl1, 0x325);
    assert_eq!(s.pl1_watts(), 0x325 >> 3);
}

#[test]
fn large_watts_fail_on_encode_not_on_set() {
    let mut s = status(0x000A_1003, 0);
    s.set_pl1(5000);
    assert_eq!(s.power_limit.pl1, 40000);
    assert_eq!(s.to_raw(), Err(PowerError::Range(RegField::Pl1)));
}

#[test]
fn watts_past_sixteen_bits_fail_on_encode() {
    let mut s = status(0x000A_1004, 0);
    s.set_pl1(4096);
    assert_eq!(s.power_limit.pl1, 0xFFFF);
    assert_eq!(s.to_raw(), Err(PowerError::Range(RegField::Pl1)));
    let mut t = status(0x000A_1004, 0);
    t.set_pl2(4096);
    assert_eq!(t.to_raw(), Err(PowerError::Range(RegField::Pl2)));
    t.set_pl2(2047);
    assert_eq!(t.to_raw(), Ok(0x7FF0u64 << 32));
}

#[test]
fn clamp_and_enable_setters() {
    let mut s = status(0x000A_1003, 0);
    s.set_pl1_clamp(true);
    assert_eq!(s.to_raw(), Ok(1 << 16));
    s.set_pl2_clamp(true);
    assert_eq!(s.to_raw(), Ok((1 << 16) | (1 << 48)));
    s.set_pl1_enable(true);
    s.set_pl2_enable(true);
    assert_eq!(s.to_raw(), Ok((1 << 15) | (1 << 16) | (1 << 47) | (1 << 48)));
    s.set_pl1_clamp(false);
    assert!(!s.power_limit.clamp_pl1);
}

#[test]
fn window_encoding_exact_values() {
    assert_eq!(encode_window(0), 0);
    assert_eq!(encode_window(3), 0);
    assert_eq!(encode_window(4), 0);
    assert_eq!(encode_window(5), 32);
    assert_eq!(encode_window(7), 96);
    assert_eq!(encode_window(8), 1);
    assert_eq!(decode_window(encode_window(4096 + 2048 + 1)), 4096 + 2048);
    assert_eq!(encode_window(4096), 10);
    assert_eq!(encode_window(4096 + 2048 + 1), 10 | (2 << 5));
    assert_eq!(encode_window(1 << 33), 31);
    // the exponent keeps five bits only
    assert_eq!(encode_window(1 << 34), 0);
    assert_eq!(encode_window(u64::MAX), (61 & 31) | (3 << 5));
}

#[test]
fn window_decoding_exact_values() {
    assert_eq!(decode_window(0), 4);
    assert_eq!(decode_window(32), 5);
    assert_eq!(decode_window(0x6E), 7 << 14);
    assert_eq!(decode_window(0x7F), 7 << 31);
}

#[test]
fn time_window_set_for_limit_two_lands_in_limit_one() {
    let mut s = status(0x000A_1003, 0x0000_0000_0000_0000);
    // one second with a time unit of 1/1024 s
    s.set_pl2_time_quarters(4 * 1024);
    assert_eq!(s.power_limit.time_pl1, 10);
    assert_eq!(s.power_limit.time_pl2, 0);
    assert_eq!(s.pl1_time_quarters(), 4096);
    assert_eq!(s.pl2_time_quarters(), s.pl1_time_quarters());
}

#[test]
fn time_window_is_read_from_limit_one_for_both() {
    let s = status(0x000A_1003, 0x00FE_0000_0014_0000);
    assert_eq!(s.power_limit.time_pl1, 10);
    assert_eq!(s.pl1_time_quarters(), 4096);
    assert_eq!(s.pl2_time_quarters(), 4096);
}

#[test]
fn modify_applies_present_changes_only() {
    let mut s = status(0x000A_1003, 0x00DD_8258_00DD_80C8);
    let before = s;
    let none = LimitChanges { pl1: None, pl1_clamp: None, pl2: None, pl2_clamp: None, time_quarters: None };
    modify_power_limits(&none, &mut s);
    assert_eq!(s, before);
    let c = LimitChanges {
        pl1: Some(30),
        pl1_clamp: Some(true),
        pl2: None,
        pl2_clamp: Some(true),
        time_quarters: Some(5 * 4096),
    };
    modify_power_limits(&c, &mut s);
    assert_eq!(s.power_unit, before.power_unit);
    assert_eq!(s.power_limit.pl1, 240);
    assert_eq!(s.power_limit.pl2, 0x258);
    assert!(s.power_limit.clamp_pl1 && s.power_limit.clamp_pl2);
    assert_eq!(s.power_limit.time_pl1, 12 | (1 << 5));
    assert_eq!(s.power_limit.time_pl2, 0x6E);
    assert_eq!(s.pl2_time_quarters(), 5 * 4096);
}

#[test]
fn status_round_trips_through_registers() {
    let s = status(0x000A_1003, 0x00DD_8258_00DD_80C8);
    let again = PowerLimit::from_reg(s.power_limit.to_reg().unwrap());
    assert_eq!(s.power_limit, again);
    let unit_again = PowerUnit::from_reg(s.power_unit.to_reg().unwrap());
    assert_eq!(s.power_unit, unit_again);
}

#[test]
fn decoding_twice_gives_equal_structures() {
    for r in [0u64, 0x1234_5678_9ABC_DEF0, u64::MAX, 0x00DD_8258_00DD_80C8] {
        let l = PowerLimit::from_reg(r);
        assert_eq!(l, PowerLimit::from_reg(r));
        assert_eq!(PowerLimit::from_reg(l.to_reg().unwrap()), l);
        let u = PowerUnit::from_reg(r);
        assert_eq!(u, PowerUnit::from_reg(r));
        assert_eq!(PowerUnit::from_reg(u.to_reg().unwrap()), u);
    }
}
