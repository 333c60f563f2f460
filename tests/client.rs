use opcode::client::{is_quit_input, Args};

#[test]
fn default_address() {
    assert_eq!(Args::default().connect_addr, "ws://localhost:8000/opcode");
}

#[test]
fn quit_input() {
    assert!(is_quit_input("quit\n"));
    assert!(!is_quit_input("quit"));
    assert!(!is_quit_input(" quit\n"));
    assert!(!is_quit_input("help\n"));
}
