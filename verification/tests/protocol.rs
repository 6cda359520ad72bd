use arena_core::client_handler::ClientHandler;
use arena_core::types::{Rgb, StyledMessage};

fn fresh() -> ClientHandler {
    ClientHandler::new(0)
}

#[test]
fn name_round_trip_is_well_formed() {
    let mut h = fresh();
    let (reply, quit) = h.handle_received_message(b"NAME=Foo", 40, 5);
    assert_eq!(reply, b"NAME\n".to_vec());
    assert!(!quit);
    assert!(h.connected);
    assert_eq!(h.previous_time, 5);
}

#[test]
fn exit_closes_without_reply() {
    let mut h = fresh();
    let (reply, quit) = h.handle_received_message(b"EXIT", 40, 5);
    assert!(reply.is_empty());
    assert!(quit);
    assert!(!h.connected);
    assert_eq!(h.previous_time, 0);
}

#[test]
fn exit_stops_processing_later_units() {
    let mut h = fresh();
    let (reply, quit) = h.handle_received_message(b"LIVE#EXIT#MSG=hi", 40, 7);
    assert_eq!(reply, b"LIVE\n".to_vec());
    assert!(quit);
    assert!(!h.connected);
    assert_eq!(h.previous_time, 7);
}

#[test]
fn unknown_code_draws_error() {
    let mut h = fresh();
    let (reply, quit) = h.handle_received_message(b"BOGUS", 40, 1);
    assert_eq!(reply, b"ERROR\n".to_vec());
    assert!(!quit);
}

#[test]
fn empty_line_draws_error() {
    let mut h = fresh();
    let (reply, quit) = h.handle_received_message(b"", 40, 1);
    assert_eq!(reply, b"ERROR\n".to_vec());
    assert!(!quit);
}

#[test]
fn multiple_units_join_with_separator() {
    let mut h = fresh();
    let (reply, quit) = h.handle_received_message(b"LIVE#CBOT#NLIST", 40, 2);
    assert_eq!(reply, b"LIVE#CBOT#NLIST\n".to_vec());
    assert!(!quit);
}

#[test]
fn surrounding_whitespace_is_trimmed() {
    let mut h = fresh();
    let (reply, quit) = h.handle_received_message(b"  NAME=Foo\r\n", 40, 2);
    assert_eq!(reply, b"NAME\n".to_vec());
    assert!(!quit);
}

#[test]
fn color_arguments_must_be_three_numbers() {
    let h = fresh();
    assert_eq!(h.process_message(b"COL=10=20=30", 40), b"COL".to_vec());
    assert_eq!(h.process_message(b"COL=10=20", 40), b"ERROR".to_vec());
    assert_eq!(h.process_message(b"COL=a=20=30", 40), b"ERROR".to_vec());
    assert_eq!(h.process_message(b"COL=10=20=30=40", 40), b"ERROR".to_vec());
}

#[test]
fn message_length_is_bounded() {
    let h = fresh();
    let ok: Vec<u8> = [b"MSG=".to_vec(), vec![b'x'; 40]].concat();
    let long: Vec<u8> = [b"MSG=".to_vec(), vec![b'x'; 41]].concat();
    assert_eq!(h.process_message(&ok, 40), b"MSG".to_vec());
    assert_eq!(h.process_message(&long, 40), b"ERROR".to_vec());
}

#[test]
fn argument_counts_are_checked() {
    let h = fresh();
    assert_eq!(h.process_message(b"NAME", 40), b"ERROR".to_vec());
    assert_eq!(h.process_message(b"NAME=a=b", 40), b"ERROR".to_vec());
    assert_eq!(h.process_message(b"LIVE=extra", 40), b"ERROR".to_vec());
    assert_eq!(h.process_message(b"NBOT=Foo", 40), b"NBOT".to_vec());
    assert_eq!(h.process_message(b"USRMSG=Foo", 40), b"USRMSG".to_vec());
    assert_eq!(h.process_message(b"CPROJ", 40), b"CPROJ".to_vec());
    assert_eq!(h.process_message(b"ORIENT", 40), b"ORIENT".to_vec());
    assert_eq!(h.process_message(b"EMPTY", 40), b"EMPTY".to_vec());
}

#[test]
fn idle_timeout_logs_exactly_once() {
    let mut h = fresh();
    let mut messages: Vec<StyledMessage> = Vec::new();
    assert!(!h.check_timeout(5, 10, &mut messages, "peer"));
    assert!(h.connected);
    assert!(messages.is_empty());
    assert!(h.check_timeout(11, 10, &mut messages, "peer"));
    assert!(!h.connected);
    assert!(h.timeout_logged);
    assert_eq!(messages.len(), 1);
    assert_eq!(messages[0].color, Rgb { r: 255, g: 255, b: 0 });
    assert_eq!(messages[0].text, "[WARNING] Connection timeout: peer");
    assert!(!h.check_timeout(50, 10, &mut messages, "peer"));
    assert_eq!(messages.len(), 1);
}

#[test]
fn activity_resets_idle_timer() {
    let mut h = fresh();
    let mut messages: Vec<StyledMessage> = Vec::new();
    let (_, quit) = h.handle_received_message(b"LIVE", 40, 9);
    assert!(!quit);
    assert!(!h.check_timeout(15, 10, &mut messages, "peer"));
    assert!(messages.is_empty());
}

#[test]
fn disconnection_is_logged() {
    let mut h = fresh();
    let mut messages: Vec<StyledMessage> = Vec::new();
    h.handle_disconnection(&mut messages, "1.2.3.4:5");
    assert!(!h.connected);
    assert_eq!(messages.len(), 1);
    assert_eq!(messages[0].color, Rgb { r: 0, g: 255, b: 0 });
    assert_eq!(messages[0].text, "[INFO] Client disconnected: 1.2.3.4:5");
}

#[test]
fn add_to_reponse_joins_with_separator() {
    let r = ClientHandler::add_to_reponse(String::new(), "LIVE".to_string());
    assert_eq!(r, "LIVE");
    let r2 = ClientHandler::add_to_reponse(r, "CBOT".to_string());
    assert_eq!(r2, "LIVE#CBOT");
}
