use tello_autopilot::cmd::{Command, CommandResult, FlipCommandArg, Quantity};
use tello_autopilot::error::Error;
use tello_autopilot::keyword::Keyword;

#[test]
fn cmd_test() {
    assert_eq!(Command::Up(20).to_string(), "up 20");
    assert_eq!(
        Command::Curve {
            x1: -102,
            y1: 34,
            z1: 43,
            x2: -67,
            y2: 326,
            z2: 411,
            speed: 34,
            mid: None
        }
        .to_string(),
        "curve -102 34 43 -67 326 411 34"
    );

    assert!(Command::from_str("flip b").is_some());
}

#[test]
fn flip_back_parses_and_formats() {
    assert_eq!(Command::from_str("flip b"), Some(Command::Flip(FlipCommandArg::Back)));
    assert_eq!(Command::Flip(FlipCommandArg::Back).to_string(), "flip b");
    assert_eq!(Command::Flip(FlipCommandArg::Back).format(), Ok("flip b".to_string()));
}

#[test]
fn curve_formats_with_signs() {
    let c = Command::Curve {
        x1: -102,
        y1: 34,
        z1: 43,
        x2: -67,
        y2: 326,
        z2: 411,
        speed: 34,
        mid: None,
    };
    assert_eq!(c.format(), Ok("curve -102 34 43 -67 326 411 34".to_string()));
    assert_eq!(Command::parse("curve -102 34 43 -67 326 411 34"), Ok(c));
}

#[test]
fn flip_letters() {
    assert_eq!(FlipCommandArg::from_str("l"), Some(FlipCommandArg::Left));
    assert_eq!(FlipCommandArg::from_str("r"), Some(FlipCommandArg::Right));
    assert_eq!(FlipCommandArg::from_str("f"), Some(FlipCommandArg::Forward));
    assert_eq!(FlipCommandArg::from_str("b"), Some(FlipCommandArg::Back));
    assert_eq!(FlipCommandArg::from_str("x"), None);
    assert_eq!(FlipCommandArg::from_str(""), None);
    assert_eq!(FlipCommandArg::from_str("lr"), None);
    assert_eq!(FlipCommandArg::from_str(" l"), None);
    assert_eq!(FlipCommandArg::Left.to_string(), "l");
    assert_eq!(FlipCommandArg::Right.to_string(), "r");
    assert_eq!(FlipCommandArg::Forward.to_string(), "f");
    assert_eq!(FlipCommandArg::Back.as_str(), "b");
}

fn every_sendable_command() -> Vec<(Command, &'static str)> {
    vec![
        (Command::Command, "command"),
        (Command::Takeoff, "takeoff"),
        (Command::Land, "land"),
        (Command::StreamOn, "streamon"),
        (Command::StreamOff, "streamoff"),
        (Command::Emergency, "emergency"),
        (Command::Up(20), "up 20"),
        (Command::Down(500), "down 500"),
        (Command::Left(21), "left 21"),
        (Command::Right(499), "right 499"),
        (Command::Forward(100), "forward 100"),
        (Command::Back(250), "back 250"),
        (Command::ClockwiseRotation(1), "cw 1"),
        (Command::CounterClockwiseRotation(360), "ccw 360"),
        (Command::Flip(FlipCommandArg::Left), "flip l"),
        (Command::Flip(FlipCommandArg::Right), "flip r"),
        (Command::Flip(FlipCommandArg::Forward), "flip f"),
        (Command::Flip(FlipCommandArg::Back), "flip b"),
        (Command::Go { x: -100, y: 50, z: 0, speed: 30, mid: None }, "go -100 50 0 30"),
        (Command::Go { x: -500, y: 500, z: -1, speed: 10, mid: None }, "go -500 500 -1 10"),
        (Command::Stop, "stop"),
        (
            Command::Curve { x1: 1, y1: -2, z1: 3, x2: -4, y2: 5, z2: -6, speed: 100, mid: None },
            "curve 1 -2 3 -4 5 -6 100",
        ),
        (Command::Speed(10), "speed 10"),
        (Command::Speed(100), "speed 100"),
        (Command::Wifi { ssid: "drone".to_string(), pass: "s3cret!".to_string() }, "wifi drone s3cret!"),
        (Command::MissionpadOn, "mon"),
        (Command::MissionpadOff, "moff"),
        (Command::AccessPoint { ssid: "home".to_string(), pass: "pw".to_string() }, "ap home pw"),
        (Command::ReadSpeed, "speed?"),
        (Command::ReadBattery, "battery?"),
        (Command::ReadTime, "time?"),
        (Command::ReadWifi, "wifi?"),
        (Command::ReadSdk, "sdk?"),
        (Command::ReadSerialNumber, "sn?"),
    ]
}

#[test]
fn every_command_formats_to_its_wire_text() {
    for (command, wire) in every_sendable_command() {
        assert_eq!(command.validate(), Ok(()));
        assert_eq!(command.format(), Ok(wire.to_string()));
        assert_eq!(command.to_string(), wire);
    }
}

#[test]
fn every_wire_text_parses_to_its_command() {
    for (command, wire) in every_sendable_command() {
        assert_eq!(Command::parse(wire), Ok(command.clone()));
        assert_eq!(Command::from_str(wire), Some(command));
    }
}

#[test]
fn parse_after_format_is_identity() {
    for (command, _) in every_sendable_command() {
        let wire = command.format().unwrap();
        assert_eq!(Command::parse(&wire), Ok(command));
    }
}

#[test]
fn round_trip_over_whole_ranges() {
    for n in 20..=500usize {
        let c = Command::Up(n);
        assert_eq!(Command::parse(&c.format().unwrap()), Ok(c));
    }
    for n in 1..=360usize {
        let c = Command::ClockwiseRotation(n);
        assert_eq!(Command::parse(&c.format().unwrap()), Ok(c));
    }
    for n in 10..=100usize {
        let c = Command::Speed(n);
        assert_eq!(Command::parse(&c.format().unwrap()), Ok(c));
    }
    for x in -500..=500isize {
        let c = Command::Go { x, y: -x, z: x / 2, speed: 55, mid: None };
        assert_eq!(Command::parse(&c.format().unwrap()), Ok(c));
    }
}

#[test]
fn distance_bounds() {
    assert_eq!(Command::Up(19).format(), Err(Error::ArgumentOutOfRange));
    assert_eq!(Command::Up(501).format(), Err(Error::ArgumentOutOfRange));
    assert_eq!(Command::Up(20).format(), Ok("up 20".to_string()));
    assert_eq!(Command::Up(500).format(), Ok("up 500".to_string()));
    assert_eq!(Command::Down(19).format(), Err(Error::ArgumentOutOfRange));
    assert_eq!(Command::Down(501).format(), Err(Error::ArgumentOutOfRange));
    assert_eq!(Command::Down(20).format(), Ok("down 20".to_string()));
    assert_eq!(Command::Down(500).format(), Ok("down 500".to_string()));
    assert_eq!(Command::Left(19).format(), Err(Error::ArgumentOutOfRange));
    assert_eq!(Command::Left(501).format(), Err(Error::ArgumentOutOfRange));
    assert_eq!(Command::Left(20).format(), Ok("left 20".to_string()));
    assert_eq!(Command::Left(500).format(), Ok("left 500".to_string()));
    assert_eq!(Command::Right(19).format(), Err(Error::ArgumentOutOfRange));
    assert_eq!(Command::Right(501).format(), Err(Error::ArgumentOutOfRange));
    assert_eq!(Command::Right(20).format(), Ok("right 20".to_string()));
    assert_eq!(Command::Right(500).format(), Ok("right 500".to_string()));
    assert_eq!(Command::Forward(19).format(), Err(Error::ArgumentOutOfRange));
    assert_eq!(Command::Forward(501).format(), Err(Error::ArgumentOutOfRange));
    assert_eq!(Command::Forward(20).format(), Ok("forward 20".to_string()));
    assert_eq!(Command::Forward(500).format(), Ok("forward 500".to_string()));
    assert_eq!(Command::Back(19).format(), Err(Error::ArgumentOutOfRange));
    assert_eq!(Command::Back(501).format(), Err(Error::ArgumentOutOfRange));
    assert_eq!(Command::Back(20).format(), Ok("back 20".to_string()));
    assert_eq!(Command::Back(500).format(), Ok("back 500".to_string()));
    assert_eq!(Command::Up(0).format(), Err(Error::ArgumentOutOfRange));
    assert_eq!(Command::Up(usize::MAX).format(), Err(Error::ArgumentOutOfRange));
}

#[test]
fn angle_bounds() {
    assert_eq!(Command::ClockwiseRotation(0).format(), Err(Error::ArgumentOutOfRange));
    assert_eq!(Command::ClockwiseRotation(361).format(), Err(Error::ArgumentOutOfRange));
    assert_eq!(Command::ClockwiseRotation(1).format(), Ok("cw 1".to_string()));
    assert_eq!(Command::ClockwiseRotation(360).format(), Ok("cw 360".to_string()));
    assert_eq!(Command::CounterClockwiseRotation(0).format(), Err(Error::ArgumentOutOfRange));
    assert_eq!(Command::CounterClockwiseRotation(361).format(), Err(Error::ArgumentOutOfRange));
    assert_eq!(Command::CounterClockwiseRotation(1).format(), Ok("ccw 1".to_string()));
    assert_eq!(Command::CounterClockwiseRotation(360).format(), Ok("ccw 360".to_string()));
}

#[test]
fn speed_bounds() {
    assert_eq!(Command::Speed(9).format(), Err(Error::ArgumentOutOfRange));
    assert_eq!(Command::Speed(101).format(), Err(Error::ArgumentOutOfRange));
    assert_eq!(Command::Speed(10).format(), Ok("speed 10".to_string()));
    assert_eq!(Command::Speed(100).format(), Ok("speed 100".to_string()));
}

fn go(x: isize, y: isize, z: isize, speed: usize) -> Command {
    Command::Go { x, y, z, speed, mid: None }
}

#[test]
fn go_bounds() {
    assert_eq!(go(-501, 0, 0, 50).format(), Err(Error::ArgumentOutOfRange));
    assert_eq!(go(501, 0, 0, 50).format(), Err(Error::ArgumentOutOfRange));
    assert_eq!(go(0, -501, 0, 50).format(), Err(Error::ArgumentOutOfRange));
    assert_eq!(go(0, 501, 0, 50).format(), Err(Error::ArgumentOutOfRange));
    assert_eq!(go(0, 0, -501, 50).format(), Err(Error::ArgumentOutOfRange));
    assert_eq!(go(0, 0, 501, 50).format(), Err(Error::ArgumentOutOfRange));
    assert_eq!(go(0, 0, 0, 9).format(), Err(Error::ArgumentOutOfRange));
    assert_eq!(go(0, 0, 0, 101).format(), Err(Error::ArgumentOutOfRange));
    assert_eq!(go(-500, 0, 0, 50).format(), Ok("go -500 0 0 50".to_string()));
    assert_eq!(go(500, 0, 0, 50).format(), Ok("go 500 0 0 50".to_string()));
    assert_eq!(go(0, -500, 0, 50).format(), Ok("go 0 -500 0 50".to_string()));
    assert_eq!(go(0, 500, 0, 50).format(), Ok("go 0 500 0 50".to_string()));
    assert_eq!(go(0, 0, -500, 50).format(), Ok("go 0 0 -500 50".to_string()));
    assert_eq!(go(0, 0, 500, 50).format(), Ok("go 0 0 500 50".to_string()));
    assert_eq!(go(0, 0, 0, 10).format(), Ok("go 0 0 0 10".to_string()));
    assert_eq!(go(0, 0, 0, 100).format(), Ok("go 0 0 0 100".to_string()));
    assert_eq!(go(isize::MIN, 0, 0, 50).format(), Err(Error::ArgumentOutOfRange));
    assert_eq!(go(isize::MAX, 0, 0, 50).format(), Err(Error::ArgumentOutOfRange));
}

fn curve(at: usize, value: isize) -> Command {
    let mut f = [0isize; 6];
    f[at] = value;
    Command::Curve { x1: f[0], y1: f[1], z1: f[2], x2: f[3], y2: f[4], z2: f[5], speed: 60, mid: None }
}

#[test]
fn curve_bounds() {
    for at in 0..6 {
        assert_eq!(curve(at, -501).format(), Err(Error::ArgumentOutOfRange));
        assert_eq!(curve(at, 501).format(), Err(Error::ArgumentOutOfRange));
        assert!(curve(at, -500).format().is_ok());
        assert!(curve(at, 500).format().is_ok());
    }
    assert_eq!(curve(0, -500).format(), Ok("curve -500 0 0 0 0 0 60".to_string()));
    assert_eq!(curve(5, 500).format(), Ok("curve 0 0 0 0 0 500 60".to_string()));
    let slow = Command::Curve { x1: 0, y1: 0, z1: 0, x2: 0, y2: 0, z2: 0, speed: 9, mid: None };
    let fast = Command::Curve { x1: 0, y1: 0, z1: 0, x2: 0, y2: 0, z2: 0, speed: 101, mid: None };
    let least = Command::Curve { x1: 0, y1: 0, z1: 0, x2: 0, y2: 0, z2: 0, speed: 10, mid: None };
    let most = Command::Curve { x1: 0, y1: 0, z1: 0, x2: 0, y2: 0, z2: 0, speed: 100, mid: None };
    assert_eq!(slow.format(), Err(Error::ArgumentOutOfRange));
    assert_eq!(fast.format(), Err(Error::ArgumentOutOfRange));
    assert_eq!(least.format(), Ok("curve 0 0 0 0 0 0 10".to_string()));
    assert_eq!(most.format(), Ok("curve 0 0 0 0 0 0 100".to_string()));
}

#[test]
fn validate_agrees_with_format() {
    assert_eq!(Command::Up(19).validate(), Err(Error::ArgumentOutOfRange));
    assert_eq!(Command::Up(20).validate(), Ok(()));
    assert_eq!(go(0, 0, 501, 50).validate(), Err(Error::ArgumentOutOfRange));
    assert!(!Command::Up(19).in_range());
    assert!(Command::Up(20).in_range());
    assert!(Command::Takeoff.in_range());
}

#[test]
fn mission_pad_commands_are_unsupported() {
    let jump = Command::Jump { x: 0, y: 0, z: 0, speed: 0, yaw: 0, mid1: 0, mid2: 0 };
    assert_eq!(jump.format(), Err(Error::UnsupportedCommand));
    assert_eq!(jump.validate(), Err(Error::UnsupportedCommand));
    assert_eq!(Command::MissionpadDirection(1).format(), Err(Error::UnsupportedCommand));
    assert_eq!(Command::Rc { a: 1, b: 2, c: 3, d: 4 }.format(), Err(Error::UnsupportedCommand));
    let padded = Command::Go { x: 0, y: 0, z: 0, speed: 50, mid: Some(1) };
    assert_eq!(padded.format(), Err(Error::UnsupportedCommand));
    let padded =
        Command::Curve { x1: 0, y1: 0, z1: 0, x2: 0, y2: 0, z2: 0, speed: 50, mid: Some(3) };
    assert_eq!(padded.format(), Err(Error::UnsupportedCommand));
    assert_eq!(Command::parse("jump 1 2 3 4 5 6 7 8"), Err(Error::UnsupportedCommand));
    assert_eq!(Command::from_str("jump 1 2 3 4 5 6 7 8"), None);
}

#[test]
fn range_is_reported_before_missing_wire_form() {
    let c = Command::Go { x: 501, y: 0, z: 0, speed: 50, mid: Some(1) };
    assert_eq!(c.format(), Err(Error::ArgumentOutOfRange));
}

#[test]
fn parse_rejects_values_out_of_range() {
    assert_eq!(Command::parse("up 19"), Err(Error::ArgumentOutOfRange));
    assert_eq!(Command::parse("up 501"), Err(Error::ArgumentOutOfRange));
    assert_eq!(Command::parse("up 20"), Ok(Command::Up(20)));
    assert_eq!(Command::parse("up 500"), Ok(Command::Up(500)));
    assert_eq!(Command::parse("up -20"), Err(Error::ArgumentOutOfRange));
    assert_eq!(Command::parse("cw 0"), Err(Error::ArgumentOutOfRange));
    assert_eq!(Command::parse("ccw 361"), Err(Error::ArgumentOutOfRange));
    assert_eq!(Command::parse("speed 9"), Err(Error::ArgumentOutOfRange));
    assert_eq!(Command::parse("speed 101"), Err(Error::ArgumentOutOfRange));
    assert_eq!(Command::parse("go 501 0 0 50"), Err(Error::ArgumentOutOfRange));
    assert_eq!(Command::parse("go 0 0 -501 50"), Err(Error::ArgumentOutOfRange));
    assert_eq!(Command::parse("go 0 0 0 5"), Err(Error::ArgumentOutOfRange));
    assert_eq!(Command::parse("curve 0 0 0 0 0 501 50"), Err(Error::ArgumentOutOfRange));
    assert_eq!(
        Command::parse("up 99999999999999999999999999999999999999"),
        Err(Error::ArgumentOutOfRange)
    );
    assert_eq!(Command::parse("go -9223372036854775808 0 0 50"), Err(Error::ArgumentOutOfRange));
    assert_eq!(Command::from_str("up 19"), None);
    assert_eq!(Command::from_str("up 501"), None);
}

#[test]
fn parse_rejects_bad_syntax() {
    assert_eq!(Command::parse(""), Err(Error::Syntax));
    assert_eq!(Command::parse("   \t\r\n"), Err(Error::Syntax));
    assert_eq!(Command::parse("fly"), Err(Error::Syntax));
    assert_eq!(Command::parse("UP 20"), Err(Error::Syntax));
    assert_eq!(Command::parse("up"), Err(Error::Syntax));
    assert_eq!(Command::parse("up 20 30"), Err(Error::Syntax));
    assert_eq!(Command::parse("up twenty"), Err(Error::Syntax));
    assert_eq!(Command::parse("up 2o"), Err(Error::Syntax));
    assert_eq!(Command::parse("up +"), Err(Error::Syntax));
    assert_eq!(Command::parse("up -"), Err(Error::Syntax));
    assert_eq!(Command::parse("up 20.0"), Err(Error::Syntax));
    assert_eq!(Command::parse("takeoff now"), Err(Error::Syntax));
    assert_eq!(Command::parse("battery? please"), Err(Error::Syntax));
    assert_eq!(Command::parse("flip"), Err(Error::Syntax));
    assert_eq!(Command::parse("flip x"), Err(Error::Syntax));
    assert_eq!(Command::parse("flip b b"), Err(Error::Syntax));
    assert_eq!(Command::parse("go 1 2 3"), Err(Error::Syntax));
    assert_eq!(Command::parse("go 1 2 3 40 5"), Err(Error::Syntax));
    assert_eq!(Command::parse("go 1 x 3 40"), Err(Error::Syntax));
    assert_eq!(Command::parse("curve 1 2 3 4 5 6"), Err(Error::Syntax));
    assert_eq!(Command::parse("wifi only"), Err(Error::Syntax));
    assert_eq!(Command::parse("ap a b c"), Err(Error::Syntax));
    assert_eq!(Command::parse("rc 1 2 3 4"), Err(Error::Syntax));
    assert_eq!(Command::from_str("fly"), None);
    assert_eq!(Command::from_str(""), None);
}

#[test]
fn syntax_is_reported_before_range() {
    assert_eq!(Command::parse("go 9999 x 0 50"), Err(Error::Syntax));
    assert_eq!(Command::parse("go x 9999 0 50"), Err(Error::Syntax));
}

#[test]
fn parse_accepts_any_white_space_between_words() {
    assert_eq!(Command::parse("  up   20  "), Ok(Command::Up(20)));
    assert_eq!(Command::parse("up\t20\r\n"), Ok(Command::Up(20)));
    assert_eq!(Command::parse("up\u{00A0}20"), Ok(Command::Up(20)));
    assert_eq!(Command::parse("\u{3000}land\u{2003}"), Ok(Command::Land));
    assert_eq!(Command::parse("up +20"), Ok(Command::Up(20)));
    assert_eq!(Command::parse("up 020"), Ok(Command::Up(20)));
    assert_eq!(Command::parse("go -0 +0 0 50"), Ok(go(0, 0, 0, 50)));
}

#[test]
fn names_are_kept_as_written() {
    assert_eq!(
        Command::parse("wifi caf\u{e9} p\u{e4}ss"),
        Ok(Command::Wifi { ssid: "caf\u{e9}".to_string(), pass: "p\u{e4}ss".to_string() })
    );
    let c = Command::Wifi { ssid: "two words".to_string(), pass: "x".to_string() };
    assert_eq!(c.format(), Ok("wifi two words x".to_string()));
    assert_eq!(Command::parse("wifi two words x"), Err(Error::Syntax));
}

#[test]
fn clone_keeps_the_command() {
    for (command, _) in every_sendable_command() {
        assert_eq!(command.clone(), command);
    }
    let jump = Command::Jump { x: 1, y: 2, z: 3, speed: 4, yaw: 5, mid1: 6, mid2: 7 };
    assert_eq!(jump.clone(), jump);
    let rc = Command::Rc { a: 1, b: 2, c: 3, d: 4 };
    assert_eq!(rc.clone(), rc);
}

#[test]
fn only_the_stick_command_gets_no_reply() {
    assert!(!Command::Rc { a: 0, b: 0, c: 0, d: 0 }.expects_reply());
    for (command, _) in every_sendable_command() {
        assert!(command.expects_reply());
    }
}

#[test]
fn keywords_of_commands() {
    assert_eq!(Command::Up(20).keyword(), Some(Keyword::Up));
    assert_eq!(Command::ReadSerialNumber.keyword(), Some(Keyword::ReadSerialNumber));
    assert_eq!(Command::Rc { a: 0, b: 0, c: 0, d: 0 }.keyword(), None);
    assert_eq!(Command::MissionpadDirection(0).keyword(), None);
    assert_eq!(Command::Go { x: 0, y: 0, z: 0, speed: 10, mid: Some(2) }.keyword(), None);
    assert_eq!(Keyword::from_chars(&['c', 'c', 'w']), Some(Keyword::CounterClockwise));
    assert_eq!(Keyword::from_chars(&['c', 'c']), None);
    assert_eq!(Keyword::from_chars(&[]), None);
    assert_eq!(Keyword::ReadBattery.as_str(), "battery?");
    for (command, wire) in every_sendable_command() {
        let k = command.keyword().unwrap();
        let first: Vec<char> = wire.split(' ').next().unwrap().chars().collect();
        assert_eq!(Keyword::from_chars(&first), Some(k));
        assert_eq!(k.as_str().chars().collect::<Vec<char>>(), first);
    }
}

#[test]
fn ranges_are_data() {
    assert_eq!(Quantity::Distance.bounds(), (20, 500));
    assert_eq!(Quantity::Angle.bounds(), (1, 360));
    assert_eq!(Quantity::Axis.bounds(), (-500, 500));
    assert_eq!(Quantity::Speed.bounds(), (10, 100));
    assert!(Quantity::Distance.contains(20) && Quantity::Distance.contains(500));
    assert!(!Quantity::Distance.contains(19) && !Quantity::Distance.contains(501));
    assert!(Quantity::Axis.contains_signed(-500) && !Quantity::Axis.contains_signed(-501));
    assert!(Quantity::Speed.contains_unsigned(100) && !Quantity::Speed.contains_unsigned(101));
    assert!(!Quantity::Axis.contains_unsigned(usize::MAX));
    assert!(!Quantity::Axis.contains(i64::MIN));
}

#[test]
fn answers_of_the_robot() {
    assert_eq!(CommandResult::from_str("ok"), CommandResult::Okay);
    assert_eq!(CommandResult::from_str("error"), CommandResult::Error);
    assert_eq!(CommandResult::from_str("OK"), CommandResult::Other("OK".to_string()));
    assert_eq!(CommandResult::from_str("ok\r\n"), CommandResult::Other("ok\r\n".to_string()));
    assert_eq!(CommandResult::from_str(""), CommandResult::Other(String::new()));
    assert_eq!(CommandResult::from_str("87"), CommandResult::Other("87".to_string()));
    assert_eq!(
        CommandResult::from_str("error Motor stop"),
        CommandResult::Other("error Motor stop".to_string())
    );
    let record = "pitch:0;roll:2;yaw:0;vgx:0;vgy:0;vgz:0;templ:83;temph:85;tof:6553;h:0;bat:83;baro:193.06;time:0;agx:-5.00;agy:-48.00;agz:-998.00;\r\n";
    match CommandResult::from_str(record) {
        CommandResult::State(state) => {
            assert_eq!(state.roll, 2);
            assert_eq!(state.battery, 83);
        }
        other => panic!("not a snapshot: {:?}", other),
    }
    let answer = CommandResult::from_str("unknown command: fly");
    assert_eq!(answer.clone(), answer);
}

#[test]
fn error_messages() {
    assert_eq!(Error::Syntax.message(), "error: syntax");
    assert_eq!(Error::ArgumentOutOfRange.message(), "error: argument out of range");
    assert_eq!(Error::UnsupportedCommand.message(), "error: unsupported command");
    assert_eq!(Error::SocketFailure.message(), "error: socket failure");
    assert_eq!(Error::ResponseTimeout.message(), "error: response timeout");
    assert_eq!(Error::MalformedTelemetry.message(), "error: malformed telemetry");
    assert_eq!(Error::ChannelBusy.message(), "error: channel busy");
}
