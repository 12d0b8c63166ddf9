use redirector::input_param::ErrorKind;
use redirector::command_handler::{CommandError, CommandHandler, HandleOutcome};
use redirector::input_param::ParsedCommand;
use redirector::redirection::{ConnectionAction, Redirection, RedirectionMode};
use redirector::redirections_storage::RedirectionsStorage;

fn s(x: &str) -> String {
    x.to_string()
}

fn handler_with(names: &[&str]) -> CommandHandler<u32> {
    let mut storage: RedirectionsStorage<u32> = RedirectionsStorage::new();
    for (i, n) in names.iter().enumerate() {
        let mut r = Redirection::new(s(n), 1000 + i as i32, s("127.0.0.1:80"));
        r.start();
        storage.add_redirection(r, i as u32);
    }
    CommandHandler::from_storage(storage)
}

fn modes(h: &CommandHandler<u32>) -> Vec<RedirectionMode> {
    h.storage().redirections.iter().map(|r| r.mode).collect()
}

#[test]
fn new_redirection_is_off() {
    let r = Redirection::new(s("a"), 1001, s("127.0.0.1:7176"));
    assert_eq!(r.name, "a");
    assert_eq!(r.listening_port, 1001);
    assert_eq!(r.target_address, "127.0.0.1:7176");
    assert_eq!(r.mode, RedirectionMode::Off);
}

#[test]
fn mode_setters_set_the_mode() {
    let mut r = Redirection::new(s("a"), 1, s("t"));
    r.start();
    assert_eq!(r.mode, RedirectionMode::Started);
    r.slow(200);
    assert_eq!(r.mode, RedirectionMode::Slowed(200));
    r.stop();
    assert_eq!(r.mode, RedirectionMode::Off);
    assert_eq!(r.name, "a");
}

#[test]
fn connection_action_follows_mode() {
    assert_eq!(RedirectionMode::Started.connection_action(), ConnectionAction::Relay);
    assert_eq!(RedirectionMode::Off.connection_action(), ConnectionAction::Close);
    assert_eq!(
        RedirectionMode::Slowed(30).connection_action(),
        ConnectionAction::DelayThenRelay(30)
    );
}

#[test]
fn listen_address_is_local() {
    assert_eq!(Redirection::new(s("a"), 1001, s("t")).listen_address(), "127.0.0.1:1001");
    assert_eq!(Redirection::new(s("a"), -5, s("t")).listen_address(), "127.0.0.1:-5");
}

#[test]
fn clone_copies_every_field() {
    let mut r = Redirection::new(s("a"), 9, s("t"));
    r.slow(4);
    let c = r.clone();
    assert_eq!((c.name, c.listening_port, c.target_address, c.mode), (s("a"), 9, s("t"), RedirectionMode::Slowed(4)));
}

#[test]
fn storage_finds_first_by_name() {
    let mut st: RedirectionsStorage<u8> = RedirectionsStorage::new();
    assert!(st.find_by_name("a").is_none());
    st.add_redirection(Redirection::new(s("a"), 1, s("x")), 10);
    st.add_redirection(Redirection::new(s("b"), 2, s("y")), 11);
    st.add_redirection(Redirection::new(s("a"), 3, s("z")), 12);
    assert_eq!(st.redirections.len(), 3);
    assert_eq!(st.threads, vec![10, 11, 12]);
    assert_eq!(st.find_by_name("a").unwrap().listening_port, 1);
    assert_eq!(st.find_by_name("b").unwrap().listening_port, 2);
    assert_eq!(st.position_by_name("a"), Some(0));
    assert_eq!(st.position_by_name("b"), Some(1));
    assert_eq!(st.position_by_name("c"), None);
}

#[test]
fn start_launches_a_started_redirection() {
    let mut h = handler_with(&[]);
    match h.handle(ParsedCommand::Start(s("web"), s("1001"), s("127.0.0.1:7176"))) {
        Ok(HandleOutcome::Launch(r)) => {
            assert_eq!(r.name, "web");
            assert_eq!(r.listening_port, 1001);
            assert_eq!(r.target_address, "127.0.0.1:7176");
            assert_eq!(r.mode, RedirectionMode::Started);
            assert!(h.storage().redirections.is_empty());
            h.register(r, 7);
            assert_eq!(h.storage().redirections.len(), 1);
            assert_eq!(h.storage().threads, vec![7]);
        }
        other => panic!("unexpected {:?}", other),
    }
}

#[test]
fn start_with_bad_port_is_refused() {
    let mut h = handler_with(&["a"]);
    assert!(matches!(
        h.handle(ParsedCommand::Start(s("x"), s("80x"), s("t"))),
        Err(CommandError::InvalidPort)
    ));
    assert!(matches!(
        h.handle(ParsedCommand::Start(s("x"), s("2147483648"), s("t"))),
        Err(CommandError::InvalidPort)
    ));
    assert_eq!(h.storage().redirections.len(), 1);
}

#[test]
fn stop_slow_resume_change_the_first_named() {
    let mut h = handler_with(&["a", "b", "a"]);
    assert!(matches!(h.handle(ParsedCommand::Stop(s("a"))), Ok(HandleOutcome::Updated)));
    assert_eq!(
        modes(&h),
        vec![RedirectionMode::Off, RedirectionMode::Started, RedirectionMode::Started]
    );
    assert!(matches!(
        h.handle(ParsedCommand::Slow(s("b"), s("200"))),
        Ok(HandleOutcome::Updated)
    ));
    assert_eq!(
        modes(&h),
        vec![RedirectionMode::Off, RedirectionMode::Slowed(200), RedirectionMode::Started]
    );
    assert!(matches!(h.handle(ParsedCommand::Resume(s("a"))), Ok(HandleOutcome::Updated)));
    assert_eq!(
        modes(&h),
        vec![RedirectionMode::Started, RedirectionMode::Slowed(200), RedirectionMode::Started]
    );
    assert_eq!(h.storage().threads, vec![0, 1, 2]);
}

#[test]
fn unknown_name_is_not_found() {
    let mut h = handler_with(&["a"]);
    assert!(matches!(h.handle(ParsedCommand::Stop(s("z"))), Err(CommandError::NotFound)));
    assert!(matches!(h.handle(ParsedCommand::Resume(s("z"))), Err(CommandError::NotFound)));
    assert!(matches!(
        h.handle(ParsedCommand::Slow(s("z"), s("5"))),
        Err(CommandError::NotFound)
    ));
    assert_eq!(modes(&h), vec![RedirectionMode::Started]);
}

#[test]
fn bad_delay_is_refused_before_lookup() {
    let mut h = handler_with(&["a"]);
    assert!(matches!(
        h.handle(ParsedCommand::Slow(s("z"), s("soon"))),
        Err(CommandError::InvalidMs)
    ));
    assert!(matches!(
        h.handle(ParsedCommand::Slow(s("a"), s("-1"))),
        Err(CommandError::InvalidMs)
    ));
    assert_eq!(modes(&h), vec![RedirectionMode::Started]);
}

#[test]
fn last_mode_wins() {
    let mut a = handler_with(&["a"]);
    a.handle(ParsedCommand::Slow(s("a"), s("9"))).unwrap();
    a.handle(ParsedCommand::Stop(s("a"))).unwrap();
    let mut b = handler_with(&["a"]);
    b.handle(ParsedCommand::Stop(s("a"))).unwrap();
    assert_eq!(modes(&a), modes(&b));
}

#[test]
fn stop_after_start_closes_new_connections() {
    let mut h = handler_with(&[]);
    let r = match h.handle(ParsedCommand::Start(s("svc"), s("9000"), s("h:1"))) {
        Ok(HandleOutcome::Launch(r)) => r,
        other => panic!("unexpected {:?}", other),
    };
    h.register(r, 1);
    h.handle(ParsedCommand::Stop(s("svc"))).unwrap();
    let found = h.storage().find_by_name("svc").unwrap();
    assert_eq!(found.mode.connection_action(), ConnectionAction::Close);
    assert_eq!(found.listening_port, 9000);
}

#[test]
fn command_errors_carry_their_text() {
    assert_eq!(CommandError::InvalidPort.message(), "Invalid port value");
    assert_eq!(CommandError::InvalidPort.kind(), ErrorKind::InvalidInput);
    assert_eq!(CommandError::InvalidMs.message(), "Invalid ms value");
    assert_eq!(CommandError::InvalidMs.kind(), ErrorKind::InvalidInput);
    assert_eq!(CommandError::NotFound.message(), "Redirection not found");
    assert_eq!(CommandError::NotFound.kind(), ErrorKind::NotFound);
}

#[test]
fn resume_undoes_stop_and_slow() {
    let mut h = handler_with(&["a", "a"]);
    h.handle(ParsedCommand::Stop(s("a"))).unwrap();
    assert!(matches!(h.handle(ParsedCommand::Resume(s("a"))), Ok(HandleOutcome::Updated)));
    assert_eq!(modes(&h), vec![RedirectionMode::Started, RedirectionMode::Started]);
    h.handle(ParsedCommand::Slow(s("a"), s("40"))).unwrap();
    h.handle(ParsedCommand::Resume(s("a"))).unwrap();
    assert_eq!(modes(&h), vec![RedirectionMode::Started, RedirectionMode::Started]);
    match h.handle(ParsedCommand::Resume(s("b"))) {
        Err(e) => assert_eq!(e.message(), "Redirection not found"),
        other => panic!("unexpected {:?}", other),
    }
}

#[test]
fn registered_redirection_stands_at_next_position() {
    let mut h = handler_with(&["a", "b"]);
    let at = h.next_position();
    assert_eq!(at, 2);
    let mut r = Redirection::new(s("c"), 5, s("t"));
    r.start();
    h.register(r, 9);
    h.handle(ParsedCommand::Stop(s("a"))).unwrap();
    assert_eq!(h.storage().redirections[at].name, "c");
    assert_eq!(h.storage().redirections[at].mode, RedirectionMode::Started);
}

#[test]
fn copies_do_not_share_the_mode() {
    let mut st: RedirectionsStorage<u8> = RedirectionsStorage::new();
    st.add_redirection(Redirection::new(s("a"), 1, s("x")), 0);
    let mut copy = st.find_by_name("a").unwrap();
    copy.start();
    assert_eq!(st.redirections[0].mode, RedirectionMode::Off);
}
