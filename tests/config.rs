use aunisoma::config::{
    determine_mode, get_comm_mode, get_default_mode, get_my_id, set_comm_mode, set_default_mode,
    UserBytes,
};
use aunisoma::protocol::{Address, CommMode, Mode};

#[test]
fn invalid_option_bits_default_to_panel_and_radio() {
    let u = UserBytes::from_option_bytes(7, 0x00);
    assert_eq!(get_my_id(&u), 7);
    assert_eq!(get_default_mode(&u), Mode::Panel);
    assert_eq!(get_comm_mode(&u), CommMode::Radio);
    assert_eq!(u.default_mode(), 2);
    assert_eq!(u.comm_mode(), 0);
}

#[test]
fn erased_option_byte_keeps_high_bits() {
    let u = UserBytes::from_option_bytes(7, 0xFF);
    assert_eq!(get_default_mode(&u), Mode::Spy);
    assert_eq!(get_comm_mode(&u), CommMode::Radio);
    assert_eq!(u.data1 >> 4, 0x0F);
}

#[test]
fn stored_modes_are_read_back() {
    let u = UserBytes::from_option_bytes(3, 0b0101);
    assert_eq!(get_default_mode(&u), Mode::Master);
    assert_eq!(get_comm_mode(&u), CommMode::Serial);
}

#[test]
fn setting_modes_keeps_the_rest() {
    let mut u = UserBytes::from_option_bytes(3, 0b0101);
    set_default_mode(&mut u, Mode::Spy);
    assert_eq!(get_default_mode(&u), Mode::Spy);
    assert_eq!(get_comm_mode(&u), CommMode::Serial);
    set_comm_mode(&mut u, CommMode::Radio);
    assert_eq!(get_comm_mode(&u), CommMode::Radio);
    assert_eq!(get_default_mode(&u), Mode::Spy);
    assert_eq!(u.data1, 0b0011);
    assert_eq!(u.get_id(), 3);
}

#[test]
fn board_zero_spies() {
    let u = UserBytes::from_option_bytes(0, 0b0001);
    assert_eq!(determine_mode(Address(0), &u), Mode::Spy);
    assert_eq!(determine_mode(Address(4), &u), Mode::Master);
}

#[test]
fn mode_numbers_round_trip() {
    for m in [Mode::Master, Mode::Panel, Mode::Spy] {
        assert_eq!(Mode::from_raw(m.raw()), Some(m));
    }
    assert_eq!(Mode::from_raw(0), None);
    assert_eq!(CommMode::from_raw(2), None);
    assert_eq!(CommMode::Serial.mode_name(), "Serial");
    assert_eq!(Mode::Spy.name(), "Spy");
}
