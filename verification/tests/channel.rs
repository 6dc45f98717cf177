use tello_autopilot::channel::{
    Action, CommandChannel, Event, Mode, Outcome, DEFAULT_TIMEOUT_MS, SETTLE_MS,
};
use tello_autopilot::cmd::{Command, CommandResult};
use tello_autopilot::error::Error;
use tello_autopilot::session::{
    close_frame, plan_frame, read_request, refusal, reply, split_frame, split_frame_once, submit,
    Reply, Request, FRAME_MARKER,
};
use tello_autopilot::state::State;

fn request(command: Command, now: u64) -> Event {
    Event::Submit { command, mode: Mode::Request, now }
}

fn in_flight(actions: &[Action]) -> i64 {
    actions
        .iter()
        .map(|a| match a {
            Action::Transmit { .. } => 1,
            Action::Complete(_) => -1,
            _ => 0,
        })
        .sum()
}

#[test]
fn a_new_channel_is_free() {
    let channel = CommandChannel::new(3000);
    assert!(channel.is_free());
    assert_eq!(channel.timeout_ms(), 3000);
    assert_eq!(channel.pending(), None);
    assert_eq!(channel.limit(Mode::Request), 3000);
    assert_eq!(channel.limit(Mode::FireAndForget), SETTLE_MS);
    assert_eq!(SETTLE_MS, 500);
    assert_eq!(DEFAULT_TIMEOUT_MS, 5000);
}

#[test]
fn a_request_is_sent_and_answered() {
    let mut channel = CommandChannel::new(5000);
    let action = channel.step(request(Command::Takeoff, 100));
    assert_eq!(
        action,
        Action::Transmit { wire: "takeoff".to_string(), mode: Mode::Request, wait_ms: 5000 }
    );
    assert!(!channel.is_free());
    assert_eq!(channel.pending(), Some(&Command::Takeoff));
    let action = channel.step(Event::Response { text: "ok".to_string() });
    assert_eq!(action, Action::Complete(Outcome::Replied(CommandResult::Okay)));
    assert!(channel.is_free());
    assert_eq!(channel.pending(), None);
}

#[test]
fn answers_are_decoded() {
    let mut channel = CommandChannel::new(5000);
    channel.step(request(Command::Land, 0));
    assert_eq!(
        channel.step(Event::Response { text: "error".to_string() }),
        Action::Complete(Outcome::Replied(CommandResult::Error))
    );
    channel.step(request(Command::ReadBattery, 0));
    assert_eq!(
        channel.step(Event::Response { text: "87\r\n".to_string() }),
        Action::Complete(Outcome::Replied(CommandResult::Other("87\r\n".to_string())))
    );
    let record = "pitch:0;roll:2;yaw:0;vgx:0;vgy:0;vgz:0;templ:83;temph:85;tof:6553;h:0;bat:83;baro:193.06;time:0;agx:-5.00;agy:-48.00;agz:-998.00;\r\n";
    channel.step(request(Command::Command, 0));
    assert_eq!(
        channel.step(Event::Response { text: record.to_string() }),
        Action::Complete(Outcome::Replied(CommandResult::State(State::from_str(record).unwrap())))
    );
    assert!(channel.is_free());
}

#[test]
fn an_invalid_command_never_reaches_the_wire() {
    let mut channel = CommandChannel::new(5000);
    assert_eq!(channel.step(request(Command::Up(19), 0)), Action::Reject(Error::ArgumentOutOfRange));
    assert!(channel.is_free());
    assert_eq!(channel.step(request(Command::Up(501), 0)), Action::Reject(Error::ArgumentOutOfRange));
    assert!(channel.is_free());
    let rc = Command::Rc { a: 1, b: 2, c: 3, d: 4 };
    assert_eq!(
        channel.step(Event::Submit { command: rc, mode: Mode::FireAndForget, now: 0 }),
        Action::Reject(Error::UnsupportedCommand)
    );
    assert!(channel.is_free());
    assert!(matches!(channel.step(request(Command::Up(20), 0)), Action::Transmit { .. }));
}

#[test]
fn a_busy_channel_refuses_a_second_command() {
    let mut channel = CommandChannel::new(5000);
    assert!(matches!(channel.step(request(Command::Takeoff, 0)), Action::Transmit { .. }));
    assert_eq!(channel.step(request(Command::Land, 1)), Action::Reject(Error::ChannelBusy));
    assert_eq!(channel.step(request(Command::Up(19), 1)), Action::Reject(Error::ChannelBusy));
    assert_eq!(channel.pending(), Some(&Command::Takeoff));
    assert_eq!(
        channel.step(Event::Response { text: "ok".to_string() }),
        Action::Complete(Outcome::Replied(CommandResult::Okay))
    );
    assert_eq!(
        channel.step(request(Command::Land, 2)),
        Action::Transmit { wire: "land".to_string(), mode: Mode::Request, wait_ms: 5000 }
    );
}

#[test]
fn a_robot_that_never_replies_times_out_and_frees_the_channel() {
    let mut channel = CommandChannel::new(3000);
    assert!(matches!(channel.step(request(Command::Takeoff, 1000)), Action::Transmit { .. }));
    assert_eq!(channel.step(Event::Clock { now: 1000 }), Action::Idle);
    assert_eq!(channel.step(Event::Clock { now: 3999 }), Action::Idle);
    assert!(!channel.is_free());
    assert_eq!(
        channel.step(Event::Clock { now: 4000 }),
        Action::Complete(Outcome::Failed(Error::ResponseTimeout))
    );
    assert!(channel.is_free());
    assert_eq!(
        channel.step(request(Command::Land, 4000)),
        Action::Transmit { wire: "land".to_string(), mode: Mode::Request, wait_ms: 3000 }
    );
    assert_eq!(channel.step(Event::Clock { now: 999 }), Action::Idle);
    assert_eq!(
        channel.step(Event::Clock { now: u64::MAX }),
        Action::Complete(Outcome::Failed(Error::ResponseTimeout))
    );
}

#[test]
fn a_zero_bound_expires_at_once() {
    let mut channel = CommandChannel::new(0);
    channel.step(request(Command::Takeoff, 50));
    assert_eq!(
        channel.step(Event::Clock { now: 10 }),
        Action::Complete(Outcome::Failed(Error::ResponseTimeout))
    );
}

#[test]
fn a_command_without_reply_settles() {
    let mut channel = CommandChannel::new(5000);
    let action =
        channel.step(Event::Submit { command: Command::Stop, mode: Mode::FireAndForget, now: 10 });
    assert_eq!(
        action,
        Action::Transmit { wire: "stop".to_string(), mode: Mode::FireAndForget, wait_ms: 500 }
    );
    assert_eq!(channel.step(Event::Response { text: "ok".to_string() }), Action::Idle);
    assert!(!channel.is_free());
    assert_eq!(channel.step(Event::Clock { now: 509 }), Action::Idle);
    assert_eq!(channel.step(Event::Clock { now: 510 }), Action::Complete(Outcome::Sent));
    assert!(channel.is_free());
}

#[test]
fn a_transport_failure_ends_only_that_command() {
    let mut channel = CommandChannel::new(5000);
    channel.step(request(Command::Takeoff, 0));
    assert_eq!(
        channel.step(Event::TransportFailed),
        Action::Complete(Outcome::Failed(Error::SocketFailure))
    );
    assert!(channel.is_free());
    assert!(matches!(channel.step(request(Command::Takeoff, 1)), Action::Transmit { .. }));
}

#[test]
fn a_free_channel_ignores_what_it_did_not_ask_for() {
    let mut channel = CommandChannel::new(5000);
    assert_eq!(channel.step(Event::Response { text: "ok".to_string() }), Action::Idle);
    assert_eq!(channel.step(Event::Clock { now: 1 << 40 }), Action::Idle);
    assert_eq!(channel.step(Event::TransportFailed), Action::Idle);
    assert!(channel.is_free());
}

#[test]
fn at_most_one_command_is_in_flight() {
    let mut channel = CommandChannel::new(100);
    let mut actions = Vec::new();
    let mut seed: u64 = 0x2545F4914F6CDD1D;
    let mut now: u64 = 0;
    for _ in 0..2000 {
        seed ^= seed << 13;
        seed ^= seed >> 7;
        seed ^= seed << 17;
        now += seed % 60;
        let event = match seed % 7 {
            0 => request(Command::Takeoff, now),
            1 => request(Command::Up((seed % 600) as usize), now),
            2 => Event::Submit { command: Command::Land, mode: Mode::FireAndForget, now },
            3 => Event::Response { text: "ok".to_string() },
            4 => Event::TransportFailed,
            _ => Event::Clock { now },
        };
        let was_free = channel.is_free();
        let action = channel.step(event);
        match &action {
            Action::Transmit { .. } => assert!(was_free && !channel.is_free()),
            Action::Complete(_) => assert!(!was_free && channel.is_free()),
            _ => assert_eq!(was_free, channel.is_free()),
        }
        actions.push(action);
        let flying = in_flight(&actions);
        assert!(flying == 0 || flying == 1);
        assert_eq!(flying == 0, channel.is_free());
    }
    assert!(actions.iter().any(|a| matches!(a, Action::Transmit { .. })));
    assert!(actions.iter().any(|a| matches!(a, Action::Reject(Error::ChannelBusy))));
    assert!(actions.iter().any(|a| matches!(a, Action::Complete(Outcome::Sent))));
}

#[test]
fn frames_are_cut_in_order() {
    assert_eq!(FRAME_MARKER, 'A');
    assert_eq!(split_frame("takeoffAup 20AlandA"), vec!["takeoff", "up 20", "land"]);
    assert_eq!(split_frame("takeoff"), vec!["takeoff"]);
    assert_eq!(split_frame("up 20\r\nA"), vec!["up 20"]);
    assert_eq!(split_frame("up\n 20A\rland"), vec!["up 20", "land"]);
    assert_eq!(split_frame(""), Vec::<String>::new());
    assert_eq!(split_frame("AAA"), Vec::<String>::new());
    assert_eq!(split_frame("\r\n"), Vec::<String>::new());
    assert_eq!(split_frame("AlandAAstopA"), vec!["land", "stop"]);
    assert_eq!(split_frame("up 20Aup 20Aland"), vec!["up 20", "up 20", "land"]);
    assert_eq!(split_frame(" A "), vec![" ", " "]);
}

#[test]
fn repeated_commands_in_a_frame_are_taken_once() {
    assert_eq!(split_frame_once("up 20Aup 20Aland"), vec!["up 20", "land"]);
    assert_eq!(split_frame_once("landAup 20AlandAup 20AstopAland"), vec!["land", "up 20", "stop"]);
    assert_eq!(split_frame_once("takeoffAup 20AlandA"), vec!["takeoff", "up 20", "land"]);
    assert_eq!(split_frame_once("up 20Aup  20"), vec!["up 20", "up  20"]);
    assert_eq!(split_frame_once("up\n 20Aup 20\r"), vec!["up 20"]);
    assert_eq!(split_frame_once(""), Vec::<String>::new());
}

#[test]
fn a_frame_becomes_requests() {
    assert_eq!(
        plan_frame("takeoffAflyAup 19Aup 20Aup 20AlandA\r\n"),
        vec![
            Request::Run(Command::Takeoff),
            Request::Refuse(Error::Syntax),
            Request::Refuse(Error::ArgumentOutOfRange),
            Request::Run(Command::Up(20)),
            Request::Run(Command::Land),
        ]
    );
    assert_eq!(plan_frame(""), Vec::<Request>::new());
    assert_eq!(read_request("flip b"), Request::Run(Command::Flip(tello_autopilot::cmd::FlipCommandArg::Back)));
    assert_eq!(read_request("jump 0 0 0 0 0 0 0 0"), Request::Refuse(Error::UnsupportedCommand));
    assert_eq!(read_request(" "), Request::Refuse(Error::Syntax));
}

#[test]
fn the_mode_follows_the_kind_of_command() {
    assert_eq!(
        submit(Command::Takeoff, 7),
        Event::Submit { command: Command::Takeoff, mode: Mode::Request, now: 7 }
    );
    let rc = Command::Rc { a: 1, b: 2, c: 3, d: 4 };
    assert_eq!(
        submit(rc.clone(), 9),
        Event::Submit { command: rc, mode: Mode::FireAndForget, now: 9 }
    );
}

#[test]
fn replies_to_the_client() {
    assert_eq!(reply(&Outcome::Sent), None);
    assert_eq!(
        reply(&Outcome::Replied(CommandResult::Okay)),
        Some(Reply::Text("ok".to_string()))
    );
    assert_eq!(
        reply(&Outcome::Replied(CommandResult::Error)),
        Some(Reply::Text("error".to_string()))
    );
    assert_eq!(
        reply(&Outcome::Replied(CommandResult::Other("87".to_string()))),
        Some(Reply::Text("87".to_string()))
    );
    let state = State::default();
    assert_eq!(
        reply(&Outcome::Replied(CommandResult::State(state.clone()))),
        Some(Reply::Telemetry(state))
    );
    assert_eq!(
        reply(&Outcome::Failed(Error::ResponseTimeout)),
        Some(Reply::Text("error: response timeout".to_string()))
    );
    assert_eq!(
        reply(&Outcome::Failed(Error::SocketFailure)),
        Some(Reply::Text("error: socket failure".to_string()))
    );
    assert_eq!(refusal(Error::Syntax), Reply::Text("error: syntax".to_string()));
    assert_eq!(
        refusal(Error::ArgumentOutOfRange),
        Reply::Text("error: argument out of range".to_string())
    );
    assert_eq!(refusal(Error::ChannelBusy), Reply::Text("error: channel busy".to_string()));
}

#[test]
fn a_formatted_command_is_a_frame_of_one_request() {
    for command in [
        Command::Command,
        Command::Takeoff,
        Command::Up(20),
        Command::CounterClockwiseRotation(360),
        Command::Flip(tello_autopilot::cmd::FlipCommandArg::Forward),
        Command::Go { x: -500, y: 0, z: 500, speed: 100, mid: None },
        Command::Curve { x1: -1, y1: 2, z1: -3, x2: 4, y2: -5, z2: 6, speed: 10, mid: None },
        Command::Wifi { ssid: "drone".to_string(), pass: "s3cret!".to_string() },
        Command::ReadSerialNumber,
    ] {
        let wire = command.format().unwrap();
        assert_eq!(plan_frame(&wire), vec![Request::Run(command.clone())]);
        assert_eq!(plan_frame(&format!("{}A", wire)), vec![Request::Run(command.clone())]);
        assert_eq!(plan_frame(&format!("{}\r\nA", wire)), vec![Request::Run(command)]);
    }
    let marked = Command::Wifi { ssid: "ALPHA".to_string(), pass: "x".to_string() };
    assert_eq!(
        plan_frame(&marked.format().unwrap()),
        vec![
            Request::Refuse(Error::Syntax),
            Request::Refuse(Error::Syntax),
            Request::Refuse(Error::Syntax),
        ]
    );
}

#[test]
fn a_line_is_closed_into_a_frame() {
    assert_eq!(close_frame("takeoff\n"), "takeoff\nA");
    assert_eq!(close_frame("  up 20 \r\n"), "up 20 \r\nA");
    assert_eq!(close_frame(""), "A");
    assert_eq!(plan_frame(&close_frame("up 20\n")), vec![Request::Run(Command::Up(20))]);
    assert_eq!(plan_frame(&close_frame("\n")), Vec::<Request>::new());
}

#[test]
fn a_repeat_period_leaves_room_for_the_reply() {
    let channel = CommandChannel::new(5000);
    assert!(channel.admits_period(5000));
    assert!(channel.admits_period(u64::MAX));
    assert!(!channel.admits_period(4999));
    assert!(!channel.admits_period(0));
}
