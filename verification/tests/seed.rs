use ptz_controller::seed::{gather_seed, random_start, start_from};

#[test]
fn lowest_bits_make_the_seed() {
    let mut readings = [0xFFFEu16; 64];
    assert_eq!(gather_seed(&readings), 0);
    readings[63] = 1;
    assert_eq!(gather_seed(&readings), 1);
    readings[0] = 3;
    assert_eq!(gather_seed(&readings), 0x8000_0000_0000_0001);
    assert_eq!(gather_seed(&[0xFFFF; 64]), u64::MAX);
}

#[test]
fn bits_keep_their_order() {
    let mut readings = [0u16; 64];
    for i in 0..64 {
        readings[i] = 100 + (i as u16 + 1) % 2;
    }
    assert_eq!(gather_seed(&readings), 0xAAAA_AAAA_AAAA_AAAA);
}

#[test]
fn start_is_half_of_what_was_drawn() {
    assert_eq!(start_from(7), 3);
    assert_eq!(start_from(u32::MAX), 0x7FFF_FFFF);
}

#[test]
fn start_comes_from_the_generator() {
    assert_eq!(random_start(0), 440738591);
    assert_eq!(random_start(1), 905793748);
    assert_eq!(random_start(42), 246345308);
    assert_eq!(random_start(0xAAAA_AAAA_AAAA_AAAA), 1906707034);
}

#[test]
fn start_leaves_room_to_count() {
    for seed in 0..1000u64 {
        assert!(random_start(seed) <= 0x7FFF_FFFF);
    }
}
