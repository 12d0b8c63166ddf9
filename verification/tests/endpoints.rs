use redirector::cli::{invocation, Invocation};
use redirector::command_receiver::{decode_request, request_step, CommandReceiver, RequestStep};
use redirector::input_param::ParsedCommand;
use redirector::relay::{relay_step, RelayStep, RELAY_BUFFER_SIZE};

#[test]
fn receiver_keeps_its_address() {
    let r = CommandReceiver::new("127.0.0.1:9900".to_string());
    assert_eq!(r.address(), "127.0.0.1:9900");
}

#[test]
fn request_bytes_become_a_command() {
    match decode_request(b"slow web 250") {
        Some(ParsedCommand::Slow(n, t)) => {
            assert_eq!(n, "web");
            assert_eq!(t, "250");
        }
        other => panic!("unexpected {:?}", other),
    }
}

#[test]
fn bad_requests_are_skipped() {
    assert!(decode_request(b"").is_none());
    assert!(decode_request(&[0xff, 0x20]).is_none());
    assert!(decode_request(b"launch x").is_none());
    assert!(decode_request(b"start x 10").is_none());
}

#[test]
fn utf8_request_is_decoded() {
    match decode_request("stop é".as_bytes()) {
        Some(ParsedCommand::Stop(n)) => assert_eq!(n, "é"),
        other => panic!("unexpected {:?}", other),
    }
}

#[test]
fn relay_steps() {
    assert_eq!(relay_step(None), RelayStep::Stop);
    assert_eq!(relay_step(Some(0)), RelayStep::ShutDownAndStop);
    assert_eq!(relay_step(Some(17)), RelayStep::Forward(17));
    assert_eq!(RELAY_BUFFER_SIZE, 4096);
}

#[test]
fn first_argument_decides() {
    assert_eq!(invocation(None), Invocation::Nothing);
    assert_eq!(invocation(Some("engine")), Invocation::RunEngine);
    assert_eq!(invocation(Some("stop a")), Invocation::SendRequest);
    assert_eq!(invocation(Some("abc")), Invocation::Nothing);
    assert_eq!(invocation(Some("abcd")), Invocation::SendRequest);
    assert_eq!(invocation(Some("éé")), Invocation::SendRequest);
}

#[test]
fn request_steps() {
    assert_eq!(request_step(None), RequestStep::Stop);
    assert_eq!(request_step(Some(0)), RequestStep::ShutDownAndStop);
    assert_eq!(request_step(Some(12)), RequestStep::Process(12));
}
