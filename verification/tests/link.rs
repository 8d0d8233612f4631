use ptz_controller::angle::{AzAngle, ElAngle};
use ptz_controller::context::AppContext;
use ptz_controller::easycom::{answer, Request};
use ptz_controller::link::{Action, E220Task, Event, Outcome, Reception};
use ptz_controller::protocol::{Error, Protocol};
use ptz_controller::relays::Relays;

fn report(seq: u32, az: u16, el: u16) -> Vec<u8> {
    let mut v = vec![0xFF];
    v.extend_from_slice(&seq.to_be_bytes());
    v.extend_from_slice(&az.to_be_bytes());
    v.extend_from_slice(&el.to_be_bytes());
    v.extend_from_slice(&[11, 12, 13]);
    v.push(Protocol::new(0).crc8(&v));
    v.push(14);
    v
}

fn plain(action: Action) -> Outcome {
    Outcome {
        action,
        redraw: false,
        refused: None,
    }
}

const SETUP: Action = Action::InitModule {
    address_h: 78,
    address_l: 6,
};
const NOISE: Action = Action::ReadNoise { attempts: 3 };

/// A task that waits for its first noise reading.
fn started(seq: u32, ctx: &mut AppContext) -> E220Task {
    let (mut t, first) = E220Task::new(seq);
    assert_eq!(first, Action::AwaitAux);
    assert_eq!(t.step(ctx, &[], Event::AuxReady), plain(SETUP));
    assert_eq!(
        t.step(ctx, &[], Event::InitResult { ok: true }),
        plain(Action::SetMode)
    );
    assert_eq!(t.step(ctx, &[], Event::ModeSet), plain(NOISE));
    t
}

/// A task that listens for the report on its first command.
fn listening(seq: u32, ctx: &mut AppContext) -> E220Task {
    let mut t = started(seq, ctx);
    t.step(ctx, &[], Event::NoiseRead { level: None });
    t.step(
        ctx,
        &[],
        Event::Buttons {
            ptz_high: false,
            lna_high: true,
        },
    );
    t.step(ctx, &[], Event::PauseOver);
    assert_eq!(
        t.step(ctx, &[], Event::SendResult { ok: false }),
        plain(Action::Listen { millis: 7000 })
    );
    t
}

#[test]
fn setup_is_given_up_after_ten_failures() {
    let mut ctx = AppContext::new();
    let (mut t, _) = E220Task::new(0);
    t.step(&mut ctx, &[], Event::AuxReady);
    for _ in 0..9 {
        assert_eq!(
            t.step(&mut ctx, &[], Event::InitResult { ok: false }),
            plain(SETUP)
        );
    }
    assert_eq!(
        t.step(&mut ctx, &[], Event::InitResult { ok: false }),
        plain(Action::Halt)
    );
    for event in [
        Event::AuxReady,
        Event::InitResult { ok: true },
        Event::PauseOver,
    ] {
        assert_eq!(t.step(&mut ctx, &[], event), plain(Action::Nothing));
    }
    assert_eq!(ctx, AppContext::new());
}

#[test]
fn tenth_attempt_may_still_succeed() {
    let mut ctx = AppContext::new();
    let (mut t, _) = E220Task::new(0);
    t.step(&mut ctx, &[], Event::AuxReady);
    for _ in 0..9 {
        t.step(&mut ctx, &[], Event::InitResult { ok: false });
    }
    assert_eq!(
        t.step(&mut ctx, &[], Event::InitResult { ok: true }),
        plain(Action::SetMode)
    );
}

#[test]
fn noise_reading_is_shown() {
    let mut ctx = AppContext::new();
    let mut t = started(0, &mut ctx);
    let o = t.step(&mut ctx, &[], Event::NoiseRead { level: Some(99) });
    assert_eq!(o.action, Action::ReadButtons);
    assert!(o.redraw);
    assert_eq!(ctx.noise_m, 99);
}

#[test]
fn failed_noise_reading_keeps_the_old_level() {
    let mut ctx = AppContext::new();
    ctx.noise_m = 77;
    let mut t = started(0, &mut ctx);
    let o = t.step(&mut ctx, &[], Event::NoiseRead { level: None });
    assert_eq!(o, plain(Action::ReadButtons));
    assert_eq!(ctx.noise_m, 77);
}

#[test]
fn cycle_sends_the_targets_and_the_buttons() {
    let mut ctx = AppContext::new();
    ctx.set_start_targets();
    let mut t = started(41, &mut ctx);
    t.step(&mut ctx, &[], Event::NoiseRead { level: None });
    // a later change is for the next cycle
    ctx.target_az = AzAngle { centi: 1 };
    assert_eq!(
        t.step(
            &mut ctx,
            &[],
            Event::Buttons {
                ptz_high: false,
                lna_high: true
            }
        ),
        plain(Action::Pause { millis: 2000 })
    );
    assert_eq!(
        t.relays(),
        Relays {
            ptz: true,
            lna: false
        }
    );
    assert_eq!(ctx.seq, 0);
    assert_eq!(
        t.step(&mut ctx, &[], Event::PauseOver),
        plain(Action::Send {
            address_h: 44,
            address_l: 79
        })
    );
    assert_eq!(ctx.seq, 42);
    assert_eq!(t.seq(), 42);
    assert_eq!(
        t.command(3).unwrap().as_bytes(),
        &[0xFF, 0, 0, 0, 42, 0x27, 0x10, 0x11, 0x94, 3, 0xBF]
    );
}

#[test]
fn manual_control_sends_the_potentiometers() {
    let mut ctx = AppContext::new();
    ctx.set_start_targets();
    ctx.set_pots(AzAngle { centi: 0x0102 }, ElAngle { centi: 9000 - 0x0304 });
    ctx.manual = true;
    let mut t = started(0, &mut ctx);
    t.step(&mut ctx, &[], Event::NoiseRead { level: None });
    t.step(
        &mut ctx,
        &[],
        Event::Buttons {
            ptz_high: true,
            lna_high: false,
        },
    );
    t.step(&mut ctx, &[], Event::PauseOver);
    assert_eq!(&t.command(0).unwrap().as_bytes()[5..9], &[1, 2, 3, 4]);
    assert_eq!(
        t.relays(),
        Relays {
            ptz: false,
            lna: true
        }
    );
}

#[test]
fn short_packets_are_passed_over() {
    let mut ctx = AppContext::new();
    let mut t = listening(41, &mut ctx);
    for n in 0..3 {
        assert_eq!(
            t.step(
                &mut ctx,
                &vec![0; n],
                Event::Received {
                    reception: Reception::Packet
                }
            ),
            plain(Action::Listen { millis: 7000 })
        );
    }
    let o = t.step(
        &mut ctx,
        &[0; 3],
        Event::Received {
            reception: Reception::Packet,
        },
    );
    assert_eq!(o.refused, Some(Error::Length));
    assert_eq!(o.action, NOISE);
}

#[test]
fn timeout_and_fault_end_the_listening() {
    for reception in [Reception::Timeout, Reception::Failed] {
        let mut ctx = AppContext::new();
        let mut t = listening(41, &mut ctx);
        let before = ctx;
        let o = t.step(&mut ctx, &[], Event::Received { reception });
        assert_eq!(
            o,
            Outcome {
                action: NOISE,
                redraw: false,
                refused: Some(Error::Length)
            }
        );
        assert_eq!(ctx, before);
    }
}

#[test]
fn accepted_report_is_shown() {
    let mut ctx = AppContext::new();
    let mut t = listening(41, &mut ctx);
    let o = t.step(
        &mut ctx,
        &report(42, 12345, 2000),
        Event::Received {
            reception: Reception::Packet,
        },
    );
    let response = match o.action {
        Action::Judge { response } => response,
        _ => panic!("no judgement was asked for"),
    };
    assert_eq!(response.az_degrees(), 123);
    assert_eq!(response.el_degrees(), Some(70));
    assert_eq!(response.relays, 13);
    let relays = Relays {
        ptz: true,
        lna: true,
    };
    let o = t.step(
        &mut ctx,
        &[],
        Event::Judged {
            az_ok: true,
            el_ok: true,
            relays: Some(relays),
        },
    );
    assert_eq!(
        o,
        Outcome {
            action: NOISE,
            redraw: true,
            refused: None
        }
    );
    assert_eq!(ctx.current_az, AzAngle { centi: 12300 });
    assert_eq!(ctx.current_el, ElAngle { centi: 7000 });
    assert_eq!((ctx.signal_s, ctx.noise_s, ctx.signal_m), (11, 12, 14));
    assert_eq!(ctx.power_control, relays);
    assert_eq!(ctx.seq, 42);
}

#[test]
fn refused_report_changes_nothing() {
    let cases = [
        (false, true, Some(Relays::new()), 2000, Error::Azimuth),
        (true, true, Some(Relays::new()), 9001, Error::ElevationField),
        (true, false, Some(Relays::new()), 2000, Error::Elevation),
        (true, true, None, 2000, Error::Relays),
    ];
    for (az_ok, el_ok, relays, el, error) in cases {
        let mut ctx = AppContext::new();
        let mut t = listening(41, &mut ctx);
        t.step(
            &mut ctx,
            &report(42, 12345, el),
            Event::Received {
                reception: Reception::Packet,
            },
        );
        let before = ctx;
        let o = t.step(
            &mut ctx,
            &[],
            Event::Judged {
                az_ok,
                el_ok,
                relays,
            },
        );
        assert_eq!(
            o,
            Outcome {
                action: NOISE,
                redraw: false,
                refused: Some(error)
            }
        );
        assert_eq!(ctx, before);
    }
}

#[test]
fn report_from_the_future_is_refused() {
    let mut ctx = AppContext::new();
    let mut t = listening(41, &mut ctx);
    let o = t.step(
        &mut ctx,
        &report(43, 0, 0),
        Event::Received {
            reception: Reception::Packet,
        },
    );
    assert_eq!(o.refused, Some(Error::Number));
}

#[test]
fn event_out_of_turn_changes_nothing() {
    let mut ctx = AppContext::new();
    let mut t = started(5, &mut ctx);
    for event in [
        Event::AuxReady,
        Event::PauseOver,
        Event::SendResult { ok: true },
        Event::Received {
            reception: Reception::Packet,
        },
    ] {
        assert_eq!(t.step(&mut ctx, &[], event), plain(Action::Nothing));
    }
    assert_eq!(t.seq(), 5);
    assert_eq!(ctx, AppContext::new());
}

#[test]
fn numbers_grow_by_one_each_cycle() {
    let mut ctx = AppContext::new();
    let mut t = started(100, &mut ctx);
    for n in 1..=5u32 {
        t.step(&mut ctx, &[], Event::NoiseRead { level: Some(1) });
        t.step(
            &mut ctx,
            &[],
            Event::Buttons {
                ptz_high: true,
                lna_high: true,
            },
        );
        t.step(&mut ctx, &[], Event::PauseOver);
        assert_eq!(ctx.seq, 100 + n);
        t.step(&mut ctx, &[], Event::SendResult { ok: true });
        t.step(
            &mut ctx,
            &[],
            Event::Received {
                reception: Reception::Timeout,
            },
        );
    }
}

#[test]
fn relays_switch_one_by_one() {
    let mut r = Relays::new();
    assert!(!r.is_ptz_on() && !r.is_lna_on());
    r.ptz_on();
    assert!(r.is_ptz_on() && !r.is_lna_on());
    r.lna_on();
    r.ptz_off();
    assert!(!r.is_ptz_on() && r.is_lna_on());
    r.lna_off();
    assert_eq!(r, Relays::new());
}

#[test]
fn new_target_is_sent() {
    let mut ctx = AppContext::new();
    let mut t = started(7, &mut ctx);
    let set_az = Request::SetAz {
        text: b"123.4".to_vec(),
    };
    let set_el = Request::SetEl {
        text: b"30.0".to_vec(),
    };
    answer(&mut ctx, &set_az, Some(AzAngle { centi: 12340 }), None);
    answer(&mut ctx, &set_el, None, ElAngle::new(3000));
    t.step(&mut ctx, &[], Event::NoiseRead { level: None });
    t.step(
        &mut ctx,
        &[],
        Event::Buttons {
            ptz_high: true,
            lna_high: true,
        },
    );
    t.step(&mut ctx, &[], Event::PauseOver);
    let Ok(command) = t.command(0) else {
        panic!("no command")
    };
    assert_eq!(command.as_bytes()[5..7], [0x30, 0x34]);
    assert_eq!(command.as_bytes()[7..9], [0x17, 0x70]);
}

#[test]
fn report_of_an_earlier_cycle_is_refused() {
    let old = report(42, 12345, 2000);
    for reception in [Reception::Packet, Reception::Timeout, Reception::Failed] {
        let mut ctx = AppContext::new();
        let mut t = listening(41, &mut ctx);
        let received = Event::Received { reception };
        let o = t.step(&mut ctx, &old, received);
        assert!(matches!(o.action, Action::Judge { .. }));
        t.step(
            &mut ctx,
            &old,
            Event::Judged {
                az_ok: true,
                el_ok: true,
                relays: Some(Relays::new()),
            },
        );
        assert_eq!(ctx.current_az, AzAngle { centi: 12300 });

        t.step(&mut ctx, &old, Event::NoiseRead { level: None });
        t.step(
            &mut ctx,
            &old,
            Event::Buttons {
                ptz_high: true,
                lna_high: true,
            },
        );
        t.step(&mut ctx, &old, Event::PauseOver);
        t.step(&mut ctx, &old, Event::SendResult { ok: true });
        let before = ctx;
        assert_eq!(
            t.step(&mut ctx, &old, received),
            Outcome {
                action: NOISE,
                redraw: false,
                refused: Some(Error::Number)
            }
        );
        assert_eq!(ctx, before);
    }
}
