use std::cell::RefCell;
use std::collections::VecDeque;
use std::rc::Rc;
use std::time::Duration;

use lvast::base::errors::{VastError, VastErrorType, VastResult};
use lvast::base::workers::{trim_reply, CommandChannel, ReceiveOptions};
use lvast::drivers::moonlight::{
    format_firmware_version, move_command_text, parse_hex_i16, parse_hex_u32, parse_motion_state,
    version_of_reply, MoonlightFocuser,
};
use lvast::types::common::TemperatureUnit;

struct MockChannel {
    sent: Rc<RefCell<Vec<String>>>,
    replies: RefCell<VecDeque<String>>,
}

impl CommandChannel for MockChannel {
    fn send(&self, command: &str) -> VastResult<()> {
        self.sent.borrow_mut().push(command.to_string());
        Ok(())
    }

    fn send_receive_with_options(&self, command: &str, options: ReceiveOptions) -> VastResult<String> {
        self.sent.borrow_mut().push(command.to_string());
        match self.replies.borrow_mut().pop_front() {
            Some(r) => Ok(trim_reply(r, options.trim_suffix)),
            None => Err(VastError::new(VastErrorType::TcpReadError, "no mocked response registered".to_string())),
        }
    }

    fn pause(&self, _delay: Duration) {}
}

fn build_focuser(replies: &[&str]) -> (MoonlightFocuser<MockChannel>, Rc<RefCell<Vec<String>>>) {
    let log = Rc::new(RefCell::new(Vec::new()));
    let channel = MockChannel {
        sent: Rc::clone(&log),
        replies: RefCell::new(replies.iter().map(|r| r.to_string()).collect()),
    };
    let mut focuser = MoonlightFocuser::new();
    focuser.connect_inner(channel).unwrap();
    (focuser, log)
}

fn sent(log: &Rc<RefCell<Vec<String>>>) -> Vec<String> {
    log.borrow().clone()
}

#[test]
fn connect_retries_handshake_and_logs_version_read() {
    let (mut focuser, log) = build_focuser(&["12", "12"]);

    assert_eq!(focuser.read_version().unwrap(), "1.2");
    assert_eq!(sent(&log), vec![":GV#", ":GV#"]);
}

#[test]
fn current_position_reads_hex_value() {
    let (mut focuser, log) = build_focuser(&["12", "00FA#"]);

    let position = focuser.current_position_inner().unwrap();

    assert_eq!(position, 250);
    assert_eq!(sent(&log), vec![":GV#", ":GP#"]);
}

#[test]
fn move_to_sends_target_and_start_commands() {
    let (mut focuser, log) = build_focuser(&["12"]);

    focuser.move_to_inner(0x1A2B).unwrap();

    assert_eq!(sent(&log), vec![":GV#", ":SN1A2B#", ":FG#"]);
}

#[test]
fn current_temperature_applies_selected_unit() {
    let (mut focuser, log) = build_focuser(&["12", "001E#", "001E#"]);

    focuser.set_temperature_unit_inner(TemperatureUnit::Kelvin).unwrap();
    assert_eq!(focuser.current_temperature_unit_inner(), TemperatureUnit::Kelvin);
    let kelvin = f64::from(focuser.current_temperature_half_degrees().unwrap()) / 2.0 + 273.15;
    focuser.set_temperature_unit_inner(TemperatureUnit::Fahrenheit).unwrap();
    assert_eq!(focuser.current_temperature_unit_inner(), TemperatureUnit::Fahrenheit);
    let fahrenheit = f64::from(focuser.current_temperature_half_degrees().unwrap()) / 2.0 * 9.0 / 5.0 + 32.0;

    assert!((kelvin - 288.15).abs() < 1e-6);
    assert!((fahrenheit - 59.0).abs() < 1e-6);
    assert_eq!(sent(&log), vec![":GV#", ":C#", ":GT#", ":C#", ":GT#"]);
}

#[test]
fn is_moving_accepts_short_and_padded_values() {
    let (mut focuser, _log) = build_focuser(&["12", "01#"]);

    assert!(focuser.is_moving().unwrap());
}

#[test]
fn move_to_rejects_out_of_range_value_without_io() {
    let (mut focuser, log) = build_focuser(&["12"]);

    let result = focuser.move_to_inner(0x1_0000);

    assert!(matches!(result, Err(VastError { error_type: VastErrorType::InvalidInput, .. })));
    assert_eq!(sent(&log), vec![":GV#"]);
}

struct SendChannel;

impl CommandChannel for SendChannel {
    fn send(&self, _command: &str) -> VastResult<()> {
        Ok(())
    }

    fn send_receive_with_options(&self, _command: &str, _options: ReceiveOptions) -> VastResult<String> {
        Ok(String::new())
    }

    fn pause(&self, _delay: Duration) {}
}

fn assert_send<T: Send>() {}

#[test]
fn moonlight_focuser_is_send() {
    assert_send::<MoonlightFocuser<SendChannel>>();
}

#[test]
fn handshake_gives_up_after_three_failed_attempts() {
    let log = Rc::new(RefCell::new(Vec::new()));
    let channel = MockChannel { sent: Rc::clone(&log), replies: RefCell::new(VecDeque::new()) };
    let mut focuser = MoonlightFocuser::new();
    assert!(focuser.connect_inner(channel).is_err());
    assert_eq!(sent(&log), vec![":GV#", ":GV#", ":GV#"]);
    assert!(focuser.read_version().is_err());
}

#[test]
fn hex_replies_parse_as_the_controller_sends_them() {
    assert_eq!(parse_hex_u32(" 00fa ").unwrap(), 250);
    assert_eq!(parse_hex_u32("+10").unwrap(), 16);
    assert!(parse_hex_u32("").is_err());
    assert!(parse_hex_u32("1G").is_err());
    assert!(parse_hex_u32("100000000").is_err());
    assert_eq!(parse_hex_i16("FFFE").unwrap(), -2);
    assert_eq!(parse_hex_i16("7FFF").unwrap(), 32767);
    assert!(parse_hex_i16("10000").is_err());
}

#[test]
fn motion_version_and_move_texts() {
    assert_eq!(parse_motion_state("00").unwrap(), false);
    assert_eq!(parse_motion_state(" 1 ").unwrap(), true);
    assert!(parse_motion_state("2").is_err());
    assert_eq!(format_firmware_version(" 25 ").unwrap(), "2.5");
    assert!(format_firmware_version("7").is_err());
    assert_eq!(move_command_text(0).unwrap(), ":SN0000#");
    assert_eq!(move_command_text(0xFFFF).unwrap(), ":SNFFFF#");
    assert!(move_command_text(0x10000).is_err());
}

#[test]
fn position_digits_read_back_as_the_position() {
    for position in [0u32, 1, 250, 0x1A2B, 0xFFFF] {
        let command = move_command_text(position).unwrap();
        let digits = &command[3..7];
        assert_eq!(parse_hex_u32(digits).unwrap(), position);
    }
}

#[test]
fn version_replies_are_checked_before_slicing() {
    assert_eq!(version_of_reply("12#".to_string()).unwrap(), "1.2");
    assert!(version_of_reply("1".to_string()).is_err());
    let err = version_of_reply("\u{e9}x".to_string()).unwrap_err();
    assert_eq!(err.error_type, VastErrorType::ConnectionError);
}

#[test]
fn disconnected_focuser_refuses_requests() {
    let mut focuser: MoonlightFocuser<SendChannel> = MoonlightFocuser::new();
    assert!(matches!(focuser.current_position_inner(), Err(VastError { error_type: VastErrorType::ConnectionError, .. })));
    assert!(matches!(focuser.move_to_inner(5), Err(VastError { error_type: VastErrorType::ConnectionError, .. })));
    assert!(matches!(focuser.move_to_inner(0x10000), Err(VastError { error_type: VastErrorType::InvalidInput, .. })));
    assert!(focuser.is_moving().is_err());
    assert!(focuser.current_temperature_half_degrees().is_err());
}

struct RefusingChannel {
    sent: Rc<RefCell<Vec<String>>>,
}

impl CommandChannel for RefusingChannel {
    fn send(&self, command: &str) -> VastResult<()> {
        self.sent.borrow_mut().push(command.to_string());
        Err(VastError::new(VastErrorType::TcpWriteError, "link down".to_string()))
    }

    fn send_receive_with_options(&self, command: &str, _options: ReceiveOptions) -> VastResult<String> {
        self.sent.borrow_mut().push(command.to_string());
        Ok("12".to_string())
    }

    fn pause(&self, _delay: Duration) {}
}

#[test]
fn move_to_returns_the_first_send_error_and_stops() {
    let log = Rc::new(RefCell::new(Vec::new()));
    let mut focuser = MoonlightFocuser::new();
    focuser.connect_inner(RefusingChannel { sent: Rc::clone(&log) }).unwrap();

    let err = focuser.move_to_inner(0x1A2B).unwrap_err();
    assert_eq!(err.error_type, VastErrorType::TcpWriteError);
    assert_eq!(err.message, "link down");
    let err = focuser.current_temperature_half_degrees().unwrap_err();
    assert_eq!(err.error_type, VastErrorType::TcpWriteError);
    assert_eq!(sent(&log), vec![":GV#", ":SN1A2B#", ":C#"]);
}
