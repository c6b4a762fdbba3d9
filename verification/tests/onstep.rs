use std::cell::RefCell;
use std::rc::Rc;
use std::collections::VecDeque;
use std::time::Duration;

use lvast::base::errors::{VastError, VastErrorType, VastResult};
use lvast::base::workers::{trim_reply, CommandChannel, ReceiveOptions};
use lvast::drivers::onstep::{
    format_onstep_utc_offset_minutes, parse_onstep_utc_offset_minutes, slew_result, OnStepClient,
    OnStepStatus,
};
use lvast::types::common::CivilDateTime;

struct MockChannel {
    sent: Rc<RefCell<Vec<String>>>,
    replies: RefCell<VecDeque<String>>,
}

impl MockChannel {
    fn new(replies: &[&str], sent: Rc<RefCell<Vec<String>>>) -> Self {
        MockChannel { sent, replies: RefCell::new(replies.iter().map(|r| r.to_string()).collect()) }
    }
}

impl CommandChannel for MockChannel {
    fn send(&self, command: &str) -> VastResult<()> {
        self.sent.borrow_mut().push(command.to_string());
        Ok(())
    }

    fn send_receive_with_options(&self, command: &str, options: ReceiveOptions) -> VastResult<String> {
        self.sent.borrow_mut().push(command.to_string());
        match self.replies.borrow_mut().pop_front() {
            Some(r) => Ok(trim_reply(r, options.trim_suffix)),
            None => Err(VastError::new(VastErrorType::TcpReadError, "no mocked response registered".to_string())),
        }
    }

    fn pause(&self, _delay: Duration) {}
}

fn build_client(replies: &[&str]) -> (OnStepClient<MockChannel>, Rc<RefCell<Vec<String>>>) {
    let log = Rc::new(RefCell::new(Vec::new()));
    (OnStepClient::new(MockChannel::new(replies, Rc::clone(&log)), false), log)
}

fn sent(log: &Rc<RefCell<Vec<String>>>) -> Vec<String> {
    log.borrow().clone()
}

#[test]
fn tests_send_command_trims_hash_terminator() {
    let (mut client, log) = build_client(&["1#"]);

    let response = client.send_command(":GVN#");

    assert_eq!(response, "1");
    assert_eq!(sent(&log), vec![":GVN#"]);
}

#[test]
fn tests_update_status_parses_gu_response() {
    let (mut client, _log) = build_client(&["PNHGSRET127#"]);

    client.update_status().unwrap();

    assert!(!client.is_slewing());
    assert!(client.is_tracking());
    assert!(client.is_parked());
    assert_eq!(client.pier_side(), Some("East"));
    let status = client.status();
    assert_eq!(status.parking_status, "Parked");
    assert_eq!(status.mount_type, "Equatorial");
    assert!(status.is_home);
    assert!(!status.home_wait);
    assert_eq!(status.pier_side, "East");
    assert!(status.pec_recorded);
    assert_eq!(status.guide_status, "Guide pulse active");
    assert!(status.pps);
    assert_eq!(status.pulse_guide_rate, "1");
    assert_eq!(status.guide_rate, "2");
    assert_eq!(status.general_error, 7);
}

#[test]
fn status_reply_flags_override_in_order() {
    let (mut client, _log) = build_client(&["P#", "PpKAo#", "FT/^#", "nNw#"]);

    client.update_status().unwrap();
    assert!(client.is_parked());
    assert_eq!(client.status().parking_status, "Parked");

    client.update_status().unwrap();
    assert!(!client.is_parked());
    assert_eq!(client.status().parking_status, "Unparked");
    assert_eq!(client.status().mount_type, "AltAz");
    assert_eq!(client.status().pier_side, "None");
    assert_eq!(client.pier_side(), None);
    assert_eq!(client.status().pulse_guide_rate, "K");
    assert_eq!(client.status().guide_rate, "A");
    assert_eq!(client.status().general_error, 0);

    client.update_status().unwrap();
    assert_eq!(client.status().parking_status, "Parking failed");
    assert_eq!(client.pier_side(), Some("East"));
    assert_eq!(client.status().pec, "Recording");
    assert_eq!(client.status().mount_type, "AltAz");

    client.update_status().unwrap();
    assert!(!client.is_tracking());
    assert!(!client.is_slewing());
    assert!(client.status().home_wait);
    assert!(!client.status().is_home);
    assert_eq!(client.status().parking_status, "Parking failed");
    assert_eq!(client.status().pec, "Recording");
    assert_eq!(client.status().guide_status, "");
}

#[test]
fn tests_slew_equ_maps_known_response_code() {
    let (mut client, log) = build_client(&["5#"]);

    let response = client.slew_equ();

    assert_eq!(response.unwrap(), ("5".to_string(), "Goto in progress".to_string()));
    assert_eq!(sent(&log), vec![":MS#"]);
}

#[test]
fn tests_get_ra_refreshes_status_before_query() {
    let (mut client, log) = build_client(&["N#", "12:34:56#"]);

    let ra = client.get_ra(None);

    assert_eq!(ra.unwrap(), "12:34:56");
    assert_eq!(sent(&log), vec![":GU#", ":GR#"]);
}

#[test]
fn utc_offset_minutes_round_trip_uses_onstep_sign_and_fractional_format() {
    let (mut client, log) = build_client(&["1#", "+5:30#"]);

    let set_result = client.set_utc_offset_minutes(-330);
    let get_result = client.get_utc_offset_minutes();

    assert_eq!(set_result.unwrap(), true);
    assert_eq!(get_result.unwrap(), -330);
    assert_eq!(sent(&log), vec![":SG+05:30#", ":GG#"]);
}

#[test]
fn utc_offset_minutes_rejects_unsupported_fraction_without_io() {
    let (mut client, log) = build_client(&[]);

    let result = client.set_utc_offset_minutes(15);

    assert!(matches!(result, Err(VastError { error_type: VastErrorType::InvalidInput, .. })));
    assert!(sent(&log).is_empty());
}

struct SendChannel;

impl CommandChannel for SendChannel {
    fn send(&self, _command: &str) -> VastResult<()> {
        Ok(())
    }

    fn send_receive_with_options(&self, _command: &str, _options: ReceiveOptions) -> VastResult<String> {
        Ok(String::new())
    }

    fn pause(&self, _delay: Duration) {}
}

fn assert_send<T: Send>() {}

#[test]
fn tests_onstep_client_is_send() {
    assert_send::<OnStepClient<SendChannel>>();
}

#[test]
fn update_status_keeps_last_three_characters_as_rates_and_error() {
    let mut status = OnStepStatus::new();
    status.apply_gu_reply("nNpW12x");
    assert!(!status.is_tracking);
    assert!(!status.is_slewing);
    assert!(!status.is_parked);
    assert_eq!(status.pier_side, "West");
    assert_eq!(status.pulse_guide_rate, "1");
    assert_eq!(status.guide_rate, "2");
    assert_eq!(status.general_error, 0);
    status.apply_gu_reply("TW");
    assert_eq!(status.pier_side, "West");
    assert_eq!(status.pulse_guide_rate, "1");
}

#[test]
fn slew_result_maps_every_known_code() {
    assert_eq!(slew_result("0".to_string()).1, "Goto is possible");
    assert_eq!(slew_result("1".to_string()).1, "below the horizon limit");
    assert_eq!(slew_result("6".to_string()).1, "outside limits (MaxDec, MinDec, UnderPoleLimit, MeridianLimit)");
    assert_eq!(slew_result("8".to_string()).1, "already in motion");
    assert_eq!(slew_result("e2".to_string()), ("e2".to_string(), "unspecified error".to_string()));
}

#[test]
fn utc_offset_text_round_trips_through_the_parser() {
    for m in [-720, -345, -330, -60, 0, 45, 60, 330, 525, 840] {
        let text = format_onstep_utc_offset_minutes(m).unwrap();
        assert_eq!(parse_onstep_utc_offset_minutes(&text).unwrap(), -m);
    }
    assert_eq!(format_onstep_utc_offset_minutes(-60).unwrap(), "+1");
    assert_eq!(format_onstep_utc_offset_minutes(345).unwrap(), "-05:45");
    assert!(format_onstep_utc_offset_minutes(20).is_err());
}

#[test]
fn utc_offset_parser_rejects_malformed_text() {
    assert!(parse_onstep_utc_offset_minutes("+5:15").is_err());
    assert!(parse_onstep_utc_offset_minutes("abc").is_err());
    assert_eq!(parse_onstep_utc_offset_minutes(" -3 ").unwrap(), -180);
}

#[test]
fn backlash_axis_and_commands() {
    let (mut client, log) = build_client(&["0#", "7#"]);
    assert!(client.set_backlash(Some(3), None).is_err());
    assert_eq!(client.set_backlash(Some(2), Some(15)).unwrap(), "0");
    assert_eq!(client.get_backlash(None).unwrap(), "7");
    assert_eq!(sent(&log), vec![":$BD15#", ":%BR#"]);
}

#[test]
fn date_time_and_motion_commands() {
    let (mut client, log) = build_client(&["1#", "1#"]);
    let t = CivilDateTime { year: 2024, month: 3, day: 7, hour: 5, minute: 4, second: 9 };
    assert!(client.set_local_date(t).unwrap());
    assert!(client.set_local_time(t).unwrap());
    client.set_speed(Some("8x".to_string())).unwrap();
    client.set_speed(None).unwrap();
    client.move_direction('e').unwrap();
    assert!(client.move_direction('x').is_err());
    client.set_preferred_pierside('W').unwrap();
    assert!(client.set_preferred_pierside('Q').is_err());
    client.stop().unwrap();
    assert_eq!(
        sent(&log),
        vec![":SC03/07/24#", ":SL05:04:09#", ":RC#", ":RM#", ":Me#", ":SX96,W#", ":Q#"]
    );
}

#[test]
fn status_update_passes_channel_errors_through() {
    let (mut client, log) = build_client(&["PT#"]);
    client.update_status().unwrap();
    let err = client.update_status().unwrap_err();
    assert_eq!(err.error_type, VastErrorType::TcpReadError);
    assert_eq!(err.message, "no mocked response registered");
    assert!(client.is_parked());
    assert_eq!(client.pier_side(), Some("East"));
    assert_eq!(client.send_command(":GVN#"), "");
    assert_eq!(sent(&log), vec![":GU#", ":GU#", ":GVN#"]);
}

#[test]
fn replies_lose_one_trailing_hash_only() {
    let (mut client, _log) = build_client(&["1##", "abc"]);
    assert_eq!(client.send_command_result(":GVN#").unwrap(), "1#");
    assert_eq!(client.send_command_result(":GVP#").unwrap(), "abc");
}

struct RefusingChannel;

impl CommandChannel for RefusingChannel {
    fn send(&self, _command: &str) -> VastResult<()> {
        Err(VastError::new(VastErrorType::SerialWriteError, "port closed".to_string()))
    }

    fn send_receive_with_options(&self, _command: &str, _options: ReceiveOptions) -> VastResult<String> {
        Ok("n#".to_string())
    }

    fn pause(&self, _delay: Duration) {}
}

#[test]
fn send_only_commands_return_the_channel_result() {
    let mut client = OnStepClient::new(RefusingChannel, false);
    let err = client.stop().unwrap_err();
    assert_eq!(err.error_type, VastErrorType::SerialWriteError);
    assert_eq!(err.message, "port closed");
    assert_eq!(client.move_direction('x').unwrap_err().error_type, VastErrorType::InvalidInput);
    assert_eq!(client.move_direction('n').unwrap_err().error_type, VastErrorType::SerialWriteError);
    assert!(client.sync().is_ok());
    assert!(!client.is_tracking());
}
