use rover_link::actuator::DutyCycles;
use rover_link::server::Session;

fn duties(lf: u32, lb: u32, rf: u32, rb: u32) -> DutyCycles {
    DutyCycles {
        left_forward: lf,
        left_backward: lb,
        right_forward: rf,
        right_backward: rb,
    }
}

#[test]
fn new_session_is_at_rest() {
    let s = Session::new();
    assert_eq!(s, Session { left: 0, right: 0 });
}

#[test]
fn malformed_line_then_valid_line() {
    let mut s = Session::new();
    let first = s.handle_line("abc\n");
    assert_eq!(first.reply, b"invalid command\nl=0 r=0\n".to_vec());
    assert_eq!(first.duties, duties(0, 0, 0, 0));
    let second = s.handle_line("10 -10\n");
    assert_eq!(second.reply, b"l=10 r=-10\n".to_vec());
    assert_eq!(second.duties, duties(10, 0, 0, 10));
}

#[test]
fn malformed_line_keeps_previous_command() {
    let mut s = Session::new();
    s.handle_line("40 -25\n");
    let r = s.handle_line("40\n");
    assert_eq!(r.reply, b"invalid command\nl=40 r=-25\n".to_vec());
    assert_eq!(r.duties, duties(40, 0, 0, 25));
    assert_eq!(s, Session { left: 40, right: -25 });
}

#[test]
fn sequential_commands_override() {
    let mut s = Session::new();
    let first = s.handle_line("0 0\n");
    assert_eq!(first.reply, b"l=0 r=0\n".to_vec());
    assert_eq!(first.duties, duties(0, 0, 0, 0));
    let second = s.handle_line("100 -100\n");
    assert_eq!(second.reply, b"l=100 r=-100\n".to_vec());
    assert_eq!(second.duties, duties(100, 0, 0, 100));
    assert_eq!(s, Session { left: 100, right: -100 });
}

#[test]
fn sessions_are_independent() {
    let mut a = Session::new();
    let mut b = Session::new();
    a.handle_line("30 30\n");
    let r = b.handle_line("junk\n");
    assert_eq!(r.reply, b"invalid command\nl=0 r=0\n".to_vec());
    assert_eq!(a, Session { left: 30, right: 30 });
}
