use netcore::reactor::{
    removal_tolerated, wait_retry, Handler, Reactor, ReactorError, EBADF, EINTR, ENOENT, EPOLLHUP,
    EPOLLIN, EPOLLRDHUP,
};
use netcore::tcp_server::{
    on_accept_result, on_client_event, AcceptOutcome, AcceptStep, ReadOutcome, TcpServer,
};

#[test]
fn test_reactor_creation() {
    let reactor = Reactor::new();
    assert_eq!(reactor.handler_count(), 0);
    assert!(!reactor.is_running());
}

#[test]
fn test_add_and_lookup_handler() {
    let mut reactor = Reactor::new();
    reactor.add_handler(5, EPOLLIN, Handler::Custom { token: 1 }).unwrap();
    assert!(reactor.contains_handler(5));
    assert_eq!(reactor.lookup(5), Some((EPOLLIN, Handler::Custom { token: 1 })));
    assert!(!reactor.contains_handler(6));
}

#[test]
fn test_duplicate_registration_is_rejected() {
    let mut reactor = Reactor::new();
    reactor.add_handler(5, EPOLLIN, Handler::Custom { token: 1 }).unwrap();
    assert_eq!(
        reactor.add_handler(5, EPOLLIN, Handler::Custom { token: 2 }),
        Err(ReactorError::AlreadyRegistered)
    );
    // The first registration is untouched.
    assert_eq!(reactor.lookup(5), Some((EPOLLIN, Handler::Custom { token: 1 })));
}

#[test]
fn test_dispatch_invokes_registered_handler_once() {
    let mut reactor = Reactor::new();
    reactor.add_handler(5, EPOLLIN, Handler::Custom { token: 7 }).unwrap();

    let events = vec![(5, EPOLLIN)];
    let out = reactor.dispatch_batch(&events);
    assert_eq!(out, vec![(5, EPOLLIN, Handler::Custom { token: 7 })]);
}

#[test]
fn test_dispatch_preserves_delivery_order() {
    let mut reactor = Reactor::new();
    reactor.add_handler(3, EPOLLIN, Handler::Custom { token: 1 }).unwrap();
    reactor.add_handler(4, EPOLLIN, Handler::Custom { token: 2 }).unwrap();

    let events = vec![(4, EPOLLIN), (9, EPOLLIN), (3, EPOLLHUP)];
    let out = reactor.dispatch_batch(&events);
    assert_eq!(
        out,
        vec![
            (4, EPOLLIN, Handler::Custom { token: 2 }),
            (3, EPOLLHUP, Handler::Custom { token: 1 }),
        ]
    );
}

#[test]
fn test_handler_removal() {
    let mut reactor = Reactor::new();
    reactor.add_handler(5, EPOLLIN, Handler::Custom { token: 1 }).unwrap();
    assert!(reactor.remove_handler(5));
    assert!(!reactor.contains_handler(5));

    // Events already pending for the removed fd invoke nothing.
    let events = vec![(5, EPOLLIN)];
    assert!(reactor.dispatch_batch(&events).is_empty());
}

#[test]
fn test_removing_absent_handler_is_tolerated() {
    let mut reactor = Reactor::new();
    assert!(!reactor.remove_handler(42));
    assert_eq!(reactor.handler_count(), 0);
}

#[test]
fn test_removal_race_never_dispatches_twice() {
    // A pending event is dispatched at most once: before the removal it
    // yields exactly one invocation, after it none.
    let mut reactor = Reactor::new();
    reactor.add_handler(8, EPOLLIN, Handler::Custom { token: 3 }).unwrap();
    let pending = vec![(8, EPOLLIN)];

    let before = reactor.dispatch_batch(&pending);
    assert_eq!(before.len(), 1);

    reactor.remove_handler(8);
    let after = reactor.dispatch_batch(&pending);
    assert!(after.is_empty());
}

#[test]
fn test_stop_clears_running() {
    let mut reactor = Reactor::new();
    reactor.begin_run();
    assert!(reactor.is_running());
    reactor.stop();
    assert!(!reactor.is_running());
}

#[test]
fn test_wait_error_classification() {
    assert!(wait_retry(EINTR));
    assert!(!wait_retry(EBADF));
    assert!(removal_tolerated(EBADF));
    assert!(removal_tolerated(ENOENT));
    assert!(!removal_tolerated(EINTR));
}

#[test]
fn test_accept_decision_registers_client() {
    assert_eq!(
        on_accept_result(&AcceptOutcome::Accepted(7)),
        AcceptStep::Register { fd: 7, interest: EPOLLIN | EPOLLRDHUP }
    );
    assert_eq!(on_accept_result(&AcceptOutcome::WouldBlock), AcceptStep::Done);
    assert_eq!(on_accept_result(&AcceptOutcome::Failed(13)), AcceptStep::Done);
}

#[test]
fn test_client_read_delivers_data() {
    let step = on_client_event(EPOLLIN, &ReadOutcome::Data(4));
    assert_eq!(step.deliver, Some(4));
    assert!(!step.close);
}

#[test]
fn test_client_eof_takes_close_path() {
    let step = on_client_event(EPOLLIN, &ReadOutcome::Closed);
    assert_eq!(step.deliver, None);
    assert!(step.close);
}

#[test]
fn test_client_would_block_is_ignored() {
    let step = on_client_event(EPOLLIN, &ReadOutcome::WouldBlock);
    assert_eq!(step.deliver, None);
    assert!(!step.close);
}

#[test]
fn test_peer_hangup_takes_close_path() {
    let step = on_client_event(EPOLLRDHUP, &ReadOutcome::WouldBlock);
    assert_eq!(step.deliver, None);
    assert!(step.close);
}

#[test]
fn test_server_start_and_stop_are_idempotent() {
    let mut server = TcpServer::new(9);
    assert_eq!(server.start(), Some((9, EPOLLIN)));
    assert_eq!(server.start(), None);
    assert_eq!(server.stop(), Some(9));
    assert_eq!(server.stop(), None);
}

#[test]
fn test_peer_close_cleanup() {
    // A client connects, sends nothing and closes; the server takes the
    // close path, the fd leaves the registry, and new clients still accept.
    let mut reactor = Reactor::new();
    let mut server = TcpServer::new(3);
    let (listen_fd, interest) = server.start().unwrap();
    reactor
        .add_handler(listen_fd, interest, Handler::AcceptListener { server_id: 0 })
        .unwrap();

    assert!(server.on_listener_event(EPOLLIN));
    let client_fd = 7;
    match on_accept_result(&AcceptOutcome::Accepted(client_fd)) {
        AcceptStep::Register { fd, interest } => {
            reactor
                .add_handler(fd, interest, Handler::ClientReader { server_id: 0, client_fd: fd })
                .unwrap();
        }
        AcceptStep::Done => panic!("expected a registration"),
    }
    assert!(reactor.contains_handler(client_fd));

    // Zero bytes sent, then close: the read sees end of stream.
    let step = on_client_event(EPOLLIN, &ReadOutcome::Closed);
    assert!(step.close);
    reactor.remove_handler(client_fd);
    assert!(!reactor.contains_handler(client_fd));

    // The listener is untouched and keeps accepting.
    assert!(reactor.contains_handler(listen_fd));
    assert_eq!(
        on_accept_result(&AcceptOutcome::Accepted(8)),
        AcceptStep::Register { fd: 8, interest: EPOLLIN | EPOLLRDHUP }
    );
}
