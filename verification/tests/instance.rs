use cinnamon_wallpaper::instance::{
    acquire_instance_and_maybe_send, decode_args, deliver, encode_args, message_to_send, receive,
    register_handler, socket_path, AcquireStep, HandlerSlot, Observed, SOCKET_MODE,
};
use std::cell::RefCell;
use std::rc::Rc;

fn owned(items: &[&str]) -> Vec<String> {
    items.iter().map(|s| s.to_string()).collect()
}

#[test]
fn socket_lives_in_the_runtime_directory() {
    assert_eq!(
        socket_path(None, Some("/run/user/1000"), Some("/home/ana")),
        "/run/user/1000/cinnamon-wallpaper.sock"
    );
    assert_eq!(
        socket_path(Some("gui"), Some("/run/user/1000/"), None),
        "/run/user/1000/cinnamon-wallpaper-gui.sock"
    );
}

#[test]
fn socket_falls_back_to_home_and_tmp() {
    assert_eq!(
        socket_path(Some("gui"), None, Some("/home/ana")),
        "/home/ana/.local/share/cinnamon-wallpaper/cinnamon-wallpaper-gui.sock"
    );
    assert_eq!(socket_path(None, None, None), "/tmp/cinnamon-wallpaper.sock");
    assert_eq!(SOCKET_MODE, 448);
}

#[test]
fn gui_and_runner_sockets_differ() {
    for home in [None, Some("/home/ana")] {
        assert_ne!(socket_path(Some("gui"), None, home), socket_path(None, None, home));
    }
}

#[test]
fn blank_message_asks_for_the_interface() {
    assert_eq!(message_to_send(""), "--gui");
    assert_eq!(message_to_send(" \t\n"), "--gui");
    assert_eq!(message_to_send(" x "), " x ");
    // The separator is no white space.
    assert_eq!(message_to_send("\u{1e}"), "\u{1e}");
}

#[test]
fn arguments_survive_the_message() {
    let args = owned(&["--monitor", "1", "/videos/a file \"x\".mp4"]);
    let message = message_to_send(&encode_args(&args));
    assert_eq!(message, "--monitor\u{1e}1\u{1e}/videos/a file \"x\".mp4");
    assert_eq!(
        decode_args(&message),
        owned(&["cinnamon-wallpaper", "--monitor", "1", "/videos/a file \"x\".mp4"])
    );
}

#[test]
fn empty_arguments_are_lost() {
    let message = encode_args(&owned(&["", "a", "", "b"]));
    assert_eq!(decode_args(&message), owned(&["cinnamon-wallpaper", "a", "b"]));
    assert_eq!(decode_args(""), owned(&["cinnamon-wallpaper"]));
    assert_eq!(
        decode_args(&message_to_send(&encode_args(&Vec::new()))),
        owned(&["cinnamon-wallpaper", "--gui"])
    );
}

#[test]
fn running_instance_gets_the_message() {
    assert!(matches!(
        acquire_instance_and_maybe_send("a", Observed::SocketFile(true)),
        AcquireStep::Connect
    ));
    match acquire_instance_and_maybe_send("", Observed::Connected(true)) {
        AcquireStep::Send(m) => assert_eq!(m, "--gui"),
        _ => panic!("nothing sent"),
    }
    match acquire_instance_and_maybe_send("a", Observed::ConnectedAfterBind(true, "busy".into())) {
        AcquireStep::Send(m) => assert_eq!(m, "a"),
        _ => panic!("nothing sent"),
    }
}

#[test]
fn stale_socket_is_replaced() {
    assert!(matches!(
        acquire_instance_and_maybe_send("a", Observed::Connected(false)),
        AcquireStep::RemoveSocket
    ));
    assert!(matches!(
        acquire_instance_and_maybe_send("a", Observed::SocketRemoved),
        AcquireStep::Bind
    ));
    assert!(matches!(
        acquire_instance_and_maybe_send("a", Observed::SocketFile(false)),
        AcquireStep::Bind
    ));
    assert!(matches!(
        acquire_instance_and_maybe_send("a", Observed::Bound(Ok(()))),
        AcquireStep::Serve
    ));
}

#[test]
fn failure_names_the_bind_error() {
    match acquire_instance_and_maybe_send("a", Observed::Bound(Err("denied".into()))) {
        AcquireStep::ConnectAgain(e) => assert_eq!(e, "denied"),
        _ => panic!("no second attempt"),
    }
    match acquire_instance_and_maybe_send("a", Observed::ConnectedAfterBind(false, "denied".into())) {
        AcquireStep::Fail(e) => {
            assert_eq!(e, "Failed to bind or connect to instance socket: denied")
        }
        _ => panic!("no failure"),
    }
}

#[test]
fn last_registered_handler_gets_the_message() {
    let seen: Rc<RefCell<Vec<String>>> = Rc::new(RefCell::new(Vec::new()));
    let mut slot: HandlerSlot<Box<dyn Fn(String)>> = HandlerSlot::new();
    assert!(!deliver(&slot, "lost".to_string()));
    let first = seen.clone();
    register_handler(&mut slot, Box::new(move |m| first.borrow_mut().push(format!("1{}", m))));
    let second = seen.clone();
    register_handler(&mut slot, Box::new(move |m| second.borrow_mut().push(format!("2{}", m))));
    assert!(deliver(&slot, "x".to_string()));
    assert_eq!(*seen.borrow(), owned(&["2x"]));
}

#[test]
fn client_text_reaches_the_handler_unchanged() {
    let seen: Rc<RefCell<Vec<String>>> = Rc::new(RefCell::new(Vec::new()));
    let mut slot: HandlerSlot<Box<dyn Fn(String)>> = HandlerSlot::new();
    assert!(!receive(&slot, &b"lost".to_vec()));
    let log = seen.clone();
    register_handler(&mut slot, Box::new(move |m| log.borrow_mut().push(m)));
    let message = " --monitor\u{1e}1\u{1e}/v/año.mp4\n";
    assert!(receive(&slot, &message.as_bytes().to_vec()));
    assert!(!receive(&slot, &vec![b'a', 0xff, b'b']));
    assert!(receive(&slot, &vec![]));
    assert_eq!(*seen.borrow(), owned(&[message, ""]));
}
