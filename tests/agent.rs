use portier_broker::agent::{AgentError, Mailbox};

#[test]
fn requests_are_taken_first_in_first_out() {
    let mut mb: Mailbox<u32> = Mailbox::new();
    assert_eq!(mb.send(1), Ok(()));
    assert_eq!(mb.send(2), Ok(()));
    assert_eq!(mb.send(3), Ok(()));
    assert_eq!(mb.receive(), Some(1));
    assert_eq!(mb.receive(), Some(2));
    assert_eq!(mb.receive(), Some(3));
    assert_eq!(mb.receive(), None);
}

#[test]
fn disconnected_mailbox_refuses_every_send() {
    let mut mb: Mailbox<u32> = Mailbox::new();
    assert_eq!(mb.send(1), Ok(()));
    mb.disconnect();
    assert!(!mb.is_connected());
    for i in 0..10 {
        assert_eq!(mb.send(i), Err(AgentError::Disconnected));
    }
    assert_eq!(mb.receive(), None);
    assert!(!mb.is_connected());
}
