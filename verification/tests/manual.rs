use ptz_controller::angle::{AzAngle, ElAngle};
use ptz_controller::context::AppContext;
use ptz_controller::manual::{AdcAction, Potentiometers};

fn block(az: u16, el: u16) -> [u16; 512] {
    let mut b = [0u16; 512];
    for i in 0..512 {
        b[i] = if i % 2 == 1 { az } else { el };
    }
    b
}

#[test]
fn first_block_counts_from_zero() {
    let mut p = Potentiometers::new();
    assert!(p.average(&block(1000, 3000)));
    assert_eq!((p.az_adc, p.el_adc), (996, 2988));
    assert!(p.average(&block(1000, 3000)));
    assert_eq!((p.az_adc, p.el_adc), (999, 2999));
}

#[test]
fn largest_samples_do_not_overflow() {
    let mut p = Potentiometers::new();
    p.az_adc = 65535;
    p.el_adc = 65535;
    assert!(p.average(&block(65535, 65535)));
    assert_eq!((p.az_adc, p.el_adc), (65535, 65535));
}

#[test]
fn zero_averages_need_no_update() {
    let mut p = Potentiometers::new();
    assert!(!p.average(&block(0, 0)));
    assert!(p.average(&block(0, 2)));
    assert_eq!((p.az_adc, p.el_adc), (0, 1));
}

#[test]
fn held_position_stays() {
    let mut p = Potentiometers::new();
    p.az_adc = 1234;
    p.el_adc = 777;
    let before = p;
    assert!(p.average(&block(1234, 777)));
    assert_eq!(p, before);
}

#[test]
fn averages_stay_in_range() {
    let mut p = Potentiometers::new();
    p.az_adc = 120;
    p.el_adc = 5;
    let mut b = block(100, 4);
    b[1] = 150;
    b[0] = 9;
    p.average(&b);
    assert!((100..=150).contains(&p.az_adc));
    assert!((4..=9).contains(&p.el_adc));
}

#[test]
fn samples_take_turns() {
    let mut p = Potentiometers::new();
    let mut b = [0u16; 512];
    b[0] = 257;
    b[511] = 514;
    p.average(&b);
    assert_eq!((p.az_adc, p.el_adc), (2, 1));
}

#[test]
fn switch_changes_hands_on_its_edges_only() {
    let mut ctx = AppContext::new();
    let mut p = Potentiometers::new();
    assert!(!p.switch(&mut ctx, false));
    assert!(!ctx.manual);
    assert!(p.switch(&mut ctx, true));
    assert!(ctx.manual);
    assert!(!p.switch(&mut ctx, true));
    assert!(ctx.manual);
    assert!(p.switch(&mut ctx, false));
    assert!(!ctx.manual);
}

#[test]
fn positions_are_taken_over() {
    let mut ctx = AppContext::new();
    ctx.set_pots(AzAngle { centi: 1 }, ElAngle { centi: 2 });
    assert_eq!(ctx.az_pot, AzAngle { centi: 1 });
    assert_eq!(ctx.el_pot, ElAngle { centi: 2 });
    assert_eq!(ctx.target_az, AzAngle { centi: 0 });
}

#[test]
fn failed_read_restarts_the_converter() {
    let mut p = Potentiometers::new();
    assert_eq!(p.take(Some(&block(0, 0))), AdcAction::Keep);
    assert_eq!(p.take(Some(&block(1000, 3000))), AdcAction::Update);
    assert_eq!((p.az_adc, p.el_adc), (996, 2988));
    let before = p;
    assert_eq!(p.take(None), AdcAction::Restart);
    assert_eq!(p, before);
}
