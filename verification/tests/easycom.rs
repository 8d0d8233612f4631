use ptz_controller::angle::{one_decimal, AzAngle, ElAngle};
use ptz_controller::context::AppContext;
use ptz_controller::easycom::{
    angle_line, answer, error_answer, EasycomCommands, EasycomReceiver, ReadEvent, ReadStep, Reply,
    Request,
};

fn receive(bytes: &[u8]) -> EasycomReceiver {
    let mut r = EasycomReceiver::new();
    for byte in bytes {
        assert_eq!(
            r.on_read(ReadEvent::Read {
                count: 1,
                byte: *byte
            }),
            ReadStep::ReadMore
        );
    }
    assert_eq!(r.on_read(ReadEvent::Timeout), ReadStep::Complete);
    r
}

fn name(request: &Request) -> String {
    match request {
        Request::Invalid => "?".to_string(),
        Request::Version => "VE".to_string(),
        Request::QueryAz => "AZ".to_string(),
        Request::QueryEl => "EL".to_string(),
        Request::SetAz { text } => format!("AZ={}", String::from_utf8(text.clone()).unwrap()),
        Request::SetEl { text } => format!("EL={}", String::from_utf8(text.clone()).unwrap()),
    }
}

fn names(bytes: &[u8]) -> Vec<String> {
    receive(bytes).requests().iter().map(name).collect()
}

#[test]
fn two_letters_make_a_command() {
    assert_eq!(
        EasycomCommands::from_letters(b'V', b'E'),
        Some(EasycomCommands::VE)
    );
    assert_eq!(
        EasycomCommands::from_letters(b'A', b'Z'),
        Some(EasycomCommands::AZ)
    );
    assert_eq!(
        EasycomCommands::from_letters(b'E', b'L'),
        Some(EasycomCommands::EL)
    );
    assert_eq!(EasycomCommands::from_letters(b'Z', b'A'), None);
    assert_eq!(EasycomCommands::from_letters(b'a', b'z'), None);
}

#[test]
fn empty_burst_makes_no_request() {
    assert!(names(b"").is_empty());
}

#[test]
fn single_byte_is_not_understood() {
    assert_eq!(names(b"A"), ["?"]);
    assert_eq!(names(b"\n"), ["?"]);
}

#[test]
fn queries_and_version() {
    assert_eq!(names(b"AZ\n"), ["AZ"]);
    assert_eq!(names(b"EL\r\n"), ["EL"]);
    assert_eq!(names(b"VE"), ["VE"]);
    assert_eq!(names(b"VERSION"), ["VE"]);
}

#[test]
fn case_does_not_matter() {
    assert_eq!(names(b"az"), ["AZ"]);
    assert_eq!(names(b"eL12.5"), ["EL=12.5"]);
    assert_eq!(names(b"az1.e5"), ["AZ=1.E5"]);
}

#[test]
fn angles_are_three_to_five_bytes() {
    assert_eq!(names(b"AZ1"), ["?"]);
    assert_eq!(names(b"AZ12"), ["?"]);
    assert_eq!(names(b"AZ1.2"), ["AZ=1.2"]);
    assert_eq!(names(b"AZ12.3"), ["AZ=12.3"]);
    assert_eq!(names(b"AZ123.4"), ["AZ=123.4"]);
    assert_eq!(names(b"AZ1234.5"), ["?"]);
    assert_eq!(names(b"EL1"), ["?"]);
    assert_eq!(names(b"EL12"), ["?"]);
    assert_eq!(names(b"EL1.2"), ["EL=1.2"]);
    assert_eq!(names(b"EL123.4"), ["EL=123.4"]);
    assert_eq!(names(b"EL1234.5"), ["?"]);
}

#[test]
fn unknown_command_is_not_understood() {
    assert_eq!(names(b"XY"), ["?"]);
    assert_eq!(names(b"XY AZ"), ["?", "AZ"]);
}

#[test]
fn commands_are_cut_at_separators() {
    assert_eq!(
        names(b"AZ180.0 EL45.0\r\nVE\n"),
        ["AZ=180.0", "EL=45.0", "VE"]
    );
    assert_eq!(names(b"  \r\n "), Vec::<String>::new());
    assert_eq!(names(b"A AZ"), ["AZ"]);
    assert_eq!(names(b"\nAZ"), ["AZ"]);
}

#[test]
fn separated_commands_are_taken_in_order() {
    let a = b"AZ EL1.0";
    let b = b"VE XX";
    for separator in [10u8, 13, 32] {
        let mut whole = a.to_vec();
        whole.push(separator);
        whole.extend_from_slice(b);
        let mut apart = names(a);
        apart.extend(names(b));
        assert_eq!(names(&whole), apart);
    }
}

#[test]
fn first_byte_may_take_long_and_later_ones_may_not() {
    let mut r = EasycomReceiver::new();
    assert_eq!(r.timeout(), 7 * 24 * 60 * 60 * 1000);
    r.on_read(ReadEvent::Read {
        count: 1,
        byte: b'A',
    });
    assert_eq!(r.timeout(), 20);
    r.begin();
    assert_eq!(r.timeout(), 604_800_000);
    assert!(r.requests().is_empty());
}

#[test]
fn fault_and_empty_read_end_the_burst() {
    let mut r = EasycomReceiver::new();
    r.on_read(ReadEvent::Read {
        count: 1,
        byte: b'E',
    });
    r.on_read(ReadEvent::Read {
        count: 1,
        byte: b'L',
    });
    assert_eq!(r.on_read(ReadEvent::Failed), ReadStep::Complete);
    assert_eq!(
        r.on_read(ReadEvent::Read {
            count: 0,
            byte: b'X'
        }),
        ReadStep::Complete
    );
    let requests: Vec<String> = r.requests().iter().map(name).collect();
    assert_eq!(requests, ["EL"]);
}

#[test]
fn full_buffer_ends_the_burst_and_loses_the_byte() {
    let mut r = EasycomReceiver::new();
    for i in 0..128usize {
        let byte = if i % 4 == 3 { b' ' } else { b"XAZ"[i % 4] };
        assert_eq!(
            r.on_read(ReadEvent::Read { count: 1, byte }),
            ReadStep::ReadMore
        );
    }
    assert_eq!(
        r.on_read(ReadEvent::Read {
            count: 1,
            byte: b'A'
        }),
        ReadStep::Complete
    );
    assert_eq!(r.requests().len(), 32);
    r.begin();
    assert!(r.requests().is_empty());
}

#[test]
fn angle_lines_have_one_decimal() {
    assert_eq!(angle_line(0).as_bytes(), b"+0.0\n");
    assert_eq!(angle_line(4).as_bytes(), b"+0.0\n");
    assert_eq!(angle_line(700).as_bytes(), b"+7.0\n");
    assert_eq!(angle_line(4500).as_bytes(), b"+45.0\n");
    assert_eq!(angle_line(18110).as_bytes(), b"+181.1\n");
    assert_eq!(angle_line(9996).as_bytes(), b"+100.0\n");
    assert_eq!(angle_line(35900).as_bytes(), b"+359.0\n");
    assert_eq!(angle_line(65535).as_bytes(), b"+655.3\n");
}

#[test]
fn halves_are_rounded_as_single_precision_has_them() {
    // exact halves go to the even tenth
    assert_eq!(one_decimal(25), 2);
    assert_eq!(one_decimal(75), 8);
    for centi in 0..=u16::MAX {
        let expected = format!("+{0:.1}\n", f32::from(centi) / 100.0);
        assert_eq!(angle_line(centi).as_bytes(), expected.as_bytes());
        let tenths = i32::from(one_decimal(centi));
        assert!((10 * tenths - i32::from(centi)).abs() <= 5);
    }
}

#[test]
fn whole_tenths_are_kept() {
    for tenths in 0..=6553u16 {
        assert_eq!(one_decimal(10 * tenths), tenths);
    }
}

#[test]
fn whole_degrees_are_answered_with_a_zero() {
    for degrees in 0..=655u16 {
        let expected = format!("+{degrees}.0\n");
        assert_eq!(angle_line(100 * degrees).as_bytes(), expected.as_bytes());
    }
}

#[test]
fn burst_of_queries_is_answered_in_order() {
    let mut ctx = AppContext::new();
    ctx.current_az = AzAngle { centi: 18110 };
    ctx.current_el = ElAngle { centi: 5670 };
    let before = ctx;
    let mut written: Vec<u8> = Vec::new();
    for request in receive(b"ve az EL\r\n").requests() {
        match answer(&mut ctx, &request, None, None) {
            Reply::Version => written.extend_from_slice(b"<version>"),
            Reply::Line { line } => written.extend_from_slice(line.as_bytes()),
            _ => panic!("not an answer to a query"),
        }
    }
    assert_eq!(written, b"<version>+181.1\n+56.7\n");
    assert_eq!(ctx, before);
}

#[test]
fn error_answer_is_a_question_mark() {
    assert_eq!(&error_answer(), b"?\n");
}

#[test]
fn queries_answer_with_the_reported_angles() {
    let mut ctx = AppContext::new();
    ctx.current_az = AzAngle { centi: 12300 };
    ctx.current_el = ElAngle { centi: 4500 };
    let before = ctx;
    match answer(&mut ctx, &Request::QueryAz, None, None) {
        Reply::Line { line } => assert_eq!(line.as_bytes(), b"+123.0\n"),
        _ => panic!("no line"),
    }
    match answer(&mut ctx, &Request::QueryEl, None, None) {
        Reply::Line { line } => assert_eq!(line.as_bytes(), b"+45.0\n"),
        _ => panic!("no line"),
    }
    assert_eq!(ctx, before);
}

#[test]
fn version_and_invalid_requests_are_answered() {
    let mut ctx = AppContext::new();
    assert!(matches!(
        answer(&mut ctx, &Request::Version, None, None),
        Reply::Version
    ));
    assert!(matches!(
        answer(&mut ctx, &Request::Invalid, None, None),
        Reply::Error
    ));
    assert_eq!(ctx, AppContext::new());
}

#[test]
fn readable_angles_set_their_target() {
    let mut ctx = AppContext::new();
    let az = AzAngle { centi: 18000 };
    let el = ElAngle { centi: 4500 };
    let set_az = Request::SetAz {
        text: b"180.0".to_vec(),
    };
    let set_el = Request::SetEl {
        text: b"45.0".to_vec(),
    };
    assert!(matches!(
        answer(&mut ctx, &set_az, Some(az), None),
        Reply::Silent
    ));
    assert_eq!(ctx.target_az, az);
    assert_eq!(ctx.target_el, ElAngle { centi: 0 });
    assert!(matches!(
        answer(&mut ctx, &set_el, None, Some(el)),
        Reply::Silent
    ));
    assert_eq!(ctx.target_el, el);
    assert_eq!(ctx.commanded(), (az, el));
    ctx.manual = true;
    assert_eq!(
        ctx.commanded(),
        (AzAngle { centi: 0 }, ElAngle { centi: 0 })
    );
}

#[test]
fn unreadable_angles_are_refused() {
    let mut ctx = AppContext::new();
    let set_az = Request::SetAz {
        text: b"x.y".to_vec(),
    };
    let set_el = Request::SetEl {
        text: b"x.y".to_vec(),
    };
    let el = ElAngle { centi: 1 };
    let az = AzAngle { centi: 1 };
    assert!(matches!(
        answer(&mut ctx, &set_az, None, Some(el)),
        Reply::Error
    ));
    assert!(matches!(
        answer(&mut ctx, &set_el, Some(az), None),
        Reply::Error
    ));
    assert_eq!(ctx, AppContext::new());
}

#[test]
fn power_up_targets() {
    let mut ctx = AppContext::new();
    ctx.set_start_targets();
    assert_eq!(ctx.target_az, AzAngle { centi: 10000 });
    assert_eq!(ctx.target_el, ElAngle { centi: 4500 });
}

#[test]
fn lone_command_makes_one_request() {
    assert_eq!(names(b"az12.5"), ["AZ=12.5"]);
    assert_eq!(names(b"el"), ["EL"]);
    assert_eq!(names(b"XY"), ["?"]);
    assert_eq!(names(b"az1"), ["?"]);
    assert_eq!(names(b"az1,el2"), ["AZ=1,EL2"]);
}
