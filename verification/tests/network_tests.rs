use ranitask::network::{
    auth_accepted, auth_line, auth_reply_ok, command_line, command_reply, execute_command,
    is_listening, play_command, play_load_reply, queue_load_reply, read_line, reply_text,
    send_outcome, stop_listener, take_listener_error, CommandPlan, ListenerState, Reply,
};

#[test]
fn reply_lines() {
    assert_eq!(reply_text(Reply::Success), "OK\n");
    assert_eq!(reply_text(Reply::AuthFailed), "ERR auth_failed\n");
    assert_eq!(reply_text(Reply::Recording), "ERR recording\n");
    assert_eq!(reply_text(Reply::AlreadyPlaying), "ERR already_playing\n");
    assert_eq!(reply_text(Reply::EmptyQueue), "ERR empty_queue\n");
    assert_eq!(reply_text(Reply::LoadFailed), "ERR load_failed\n");
    assert_eq!(reply_text(Reply::EmptyName), "ERR empty_name\n");
    assert_eq!(reply_text(Reply::NotFound), "ERR not_found\n");
    assert_eq!(reply_text(Reply::UnknownCommand), "ERR unknown_command\n");
}

#[test]
fn read_line_limits() {
    assert_eq!(read_line(Some(5), "STOP\n".to_string()), Some("STOP\n".to_string()));
    assert_eq!(read_line(Some(0), String::new()), None);
    assert_eq!(read_line(None, "x".to_string()), None);
    assert_eq!(read_line(Some(512), "y".to_string()), Some("y".to_string()));
    assert_eq!(read_line(Some(513), "z".to_string()), None);
}

#[test]
fn commands_while_recording_are_refused() {
    assert!(matches!(execute_command("STOP\n", true, false, false), CommandPlan::Respond(Reply::Recording)));
    assert!(matches!(execute_command("PLAY a", true, false, false), CommandPlan::Respond(Reply::Recording)));
}

#[test]
fn stop_command() {
    assert!(matches!(execute_command("  STOP \r\n", false, true, false), CommandPlan::CancelPlayback));
}

#[test]
fn play_queue_command() {
    assert!(matches!(execute_command("PLAY_QUEUE\n", false, false, false), CommandPlan::PlayQueue));
    assert!(matches!(execute_command("PLAY_QUEUE\n", false, true, false), CommandPlan::Respond(Reply::AlreadyPlaying)));
    assert!(matches!(execute_command("PLAY_QUEUE\n", false, false, true), CommandPlan::Respond(Reply::EmptyQueue)));
}

#[test]
fn play_command_parses_the_name() {
    match execute_command("PLAY   boss rotation  \n", false, false, true) {
        CommandPlan::PlaySequence(n) => assert_eq!(n, "boss rotation"),
        other => panic!("unexpected {:?}", other),
    }
    // Trimming first leaves "PLAY" alone, which is no play command.
    assert!(matches!(execute_command("PLAY    \n", false, false, false), CommandPlan::Respond(Reply::UnknownCommand)));
    assert!(matches!(execute_command("PLAY x\n", false, true, false), CommandPlan::Respond(Reply::AlreadyPlaying)));
}

#[test]
fn unknown_commands() {
    assert!(matches!(execute_command("HELLO\n", false, false, false), CommandPlan::Respond(Reply::UnknownCommand)));
    assert!(matches!(execute_command("play x\n", false, false, false), CommandPlan::Respond(Reply::UnknownCommand)));
    assert!(matches!(execute_command("PLAY\n", false, false, false), CommandPlan::Respond(Reply::UnknownCommand)));
}

#[test]
fn load_replies() {
    assert_eq!(queue_load_reply(0), Reply::LoadFailed);
    assert_eq!(queue_load_reply(3), Reply::Success);
    assert_eq!(play_load_reply(true), Reply::Success);
    assert_eq!(play_load_reply(false), Reply::NotFound);
}

#[test]
fn authentication() {
    assert!(auth_accepted("AUTH secret\n", "secret"));
    assert!(auth_accepted("AUTH   secret \r\n", "secret"));
    assert!(!auth_accepted("AUTH wrong\n", "secret"));
    assert!(!auth_accepted("auth secret\n", "secret"));
    assert!(!auth_accepted("", "secret"));
}

#[test]
fn auth_round_trip_scenario() {
    let line = auth_line("p4ss word");
    assert_eq!(line, "AUTH p4ss word\n");
    assert!(auth_accepted(&line, "p4ss word"));
    assert!(!auth_accepted(&line, "p4ss"));
}

#[test]
fn play_round_trip_scenario() {
    let cmd = play_command("combo 1");
    assert_eq!(cmd, "PLAY combo 1");
    let line = command_line(&cmd);
    assert_eq!(line, "PLAY combo 1\n");
    match execute_command(&line, false, false, false) {
        CommandPlan::PlaySequence(n) => assert_eq!(n, "combo 1"),
        other => panic!("unexpected {:?}", other),
    }
}

#[test]
fn sender_outcomes() {
    assert!(auth_reply_ok("OK\n"));
    assert!(!auth_reply_ok("ERR auth_failed\n"));
    assert!(!auth_reply_ok(""));
    assert_eq!(command_reply("  ERR not_found\r\n"), "ERR not_found");
    assert_eq!(send_outcome(None, "OK\n"), Ok("OK".to_string()));
    assert_eq!(send_outcome(Some("OK\n"), "ERR busy\n"), Ok("ERR busy".to_string()));
    assert_eq!(send_outcome(Some("ERR auth_failed\n"), "OK\n"), Err("Authentication failed".to_string()));
    assert_eq!(send_outcome(Some(""), "OK\n"), Err("Authentication failed".to_string()));
}

#[test]
fn listener_state_machine() {
    let mut s = ListenerState::new();
    assert!(!is_listening(&s));
    assert_eq!(s.begin(), Ok(()));
    assert!(is_listening(&s));
    assert_eq!(s.begin(), Err("Already listening".to_string()));
    stop_listener(&mut s);
    s.ended(Some("accept failed".to_string()));
    assert!(!is_listening(&s));
    assert_eq!(take_listener_error(&mut s), Some("accept failed".to_string()));
    assert_eq!(take_listener_error(&mut s), None);
    assert_eq!(s.begin(), Ok(()));
}

use ranitask::network::{host_address, listen_address, port_from_text, session_start, session_step, SessionAction, SessionPhase};

#[test]
fn addresses_and_ports() {
    assert_eq!(listen_address(9847), "0.0.0.0:9847");
    assert_eq!(host_address("10.0.0.7", 80), "10.0.0.7:80");
    assert_eq!(port_from_text("1234"), 1234);
    assert_eq!(port_from_text("+65535"), 65535);
    assert_eq!(port_from_text("65536"), 9847);
    assert_eq!(port_from_text("-1"), 9847);
    assert_eq!(port_from_text(""), 9847);
    assert_eq!(port_from_text(" 80"), 9847);
}

#[test]
fn session_with_password() {
    let pw = Some("pw".to_string());
    let phase = session_start(&pw);
    assert_eq!(phase, SessionPhase::Auth);
    let (phase, action) = session_step(phase, &pw, Some("AUTH pw\n".to_string()), false, false, true);
    assert_eq!(phase, SessionPhase::Command);
    assert!(matches!(action, SessionAction::Reply(Reply::Success)));
    let (phase, action) = session_step(phase, &pw, Some("STOP\n".to_string()), false, true, true);
    assert_eq!(phase, SessionPhase::Closed);
    assert!(matches!(action, SessionAction::Run(CommandPlan::CancelPlayback)));
    let (phase, action) = session_step(phase, &pw, Some("STOP\n".to_string()), false, true, true);
    assert_eq!(phase, SessionPhase::Closed);
    assert!(matches!(action, SessionAction::Close));
}

#[test]
fn refused_authentication_is_answered() {
    let pw = Some("pw".to_string());
    let (phase, action) = session_step(SessionPhase::Auth, &pw, Some("AUTH nope\n".to_string()), false, false, true);
    assert_eq!(phase, SessionPhase::Closed);
    assert!(matches!(action, SessionAction::Reply(Reply::AuthFailed)));
    let (phase, action) = session_step(SessionPhase::Auth, &pw, None, false, false, true);
    assert_eq!(phase, SessionPhase::Closed);
    assert!(matches!(action, SessionAction::Close));
}

#[test]
fn session_without_password() {
    let phase = session_start(&None);
    assert_eq!(phase, SessionPhase::Command);
    let (phase, action) = session_step(phase, &None, Some("PLAY x\n".to_string()), false, false, true);
    assert_eq!(phase, SessionPhase::Closed);
    match action {
        SessionAction::Run(CommandPlan::PlaySequence(n)) => assert_eq!(n, "x"),
        other => panic!("unexpected {:?}", other),
    }
}

use ranitask::network::{plan_reply, start_listening};

#[test]
fn replies_to_carried_out_commands() {
    assert_eq!(plan_reply(&execute_command("STOP\n", false, true, false), 0, false), Reply::Success);
    assert_eq!(reply_text(plan_reply(&execute_command(" STOP ", false, false, false), 0, false)), "OK\n");
    assert_eq!(plan_reply(&CommandPlan::PlayQueue, 0, false), Reply::LoadFailed);
    assert_eq!(plan_reply(&CommandPlan::PlayQueue, 2, false), Reply::Success);
    assert_eq!(plan_reply(&CommandPlan::PlaySequence("x".into()), 0, false), Reply::NotFound);
    assert_eq!(plan_reply(&CommandPlan::PlaySequence("x".into()), 0, true), Reply::Success);
    assert_eq!(plan_reply(&CommandPlan::Respond(Reply::Recording), 5, true), Reply::Recording);
}

#[test]
fn starting_the_receiver() {
    let mut s = ListenerState::new();
    assert_eq!(start_listening(&mut s, Err("Bind failed: in use".to_string())), Err("Bind failed: in use".to_string()));
    assert!(!is_listening(&s));
    assert_eq!(start_listening(&mut s, Ok(())), Ok(()));
    assert!(is_listening(&s));
    assert_eq!(take_listener_error(&mut s), None);
    assert_eq!(start_listening(&mut s, Ok(())), Err("Already listening".to_string()));
    assert_eq!(start_listening(&mut s, Err("x".to_string())), Err("Already listening".to_string()));
    assert!(is_listening(&s));
}
