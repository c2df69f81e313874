use rover_link::actuator::{backward, forward, DutyCycles, DUTY_DENOMINATOR};

#[test]
fn forward_and_backward_split_the_sign() {
    assert_eq!(forward(70), 70);
    assert_eq!(backward(70), 0);
    assert_eq!(forward(-30), 0);
    assert_eq!(backward(-30), 30);
    assert_eq!(forward(0), 0);
    assert_eq!(backward(0), 0);
}

#[test]
fn split_recombines_and_is_exclusive() {
    let values = [
        i32::MIN,
        i32::MIN + 1,
        -100_000,
        -101,
        -100,
        -1,
        0,
        1,
        99,
        100,
        65_536,
        i32::MAX,
    ];
    for v in values {
        let f = forward(v) as i64;
        let b = backward(v) as i64;
        assert_eq!(f - b, v as i64);
        assert_eq!(f * b, 0);
    }
}

#[test]
fn extreme_velocities_are_not_truncated() {
    assert_eq!(backward(i32::MIN), 2_147_483_648);
    assert_eq!(forward(i32::MAX), 2_147_483_647);
    assert_eq!(forward(70_000), 70_000);
}

#[test]
fn duty_cycles_follow_both_wheels() {
    let d = DutyCycles::for_velocities(100, -100);
    assert_eq!(d.left_forward, 100);
    assert_eq!(d.left_backward, 0);
    assert_eq!(d.right_forward, 0);
    assert_eq!(d.right_backward, 100);
    assert_eq!(DUTY_DENOMINATOR, 100);
}
