use motor_control::motor::{EncoderLines, Level, Motor, MotorEncoder};

fn edge(channel_b: Level) -> EncoderLines {
    EncoderLines { edge_pending: true, channel_b }
}

fn idle(channel_b: Level) -> EncoderLines {
    EncoderLines { edge_pending: false, channel_b }
}

fn encoder_at(counter: i32) -> MotorEncoder {
    let mut encoder = Motor::take().with_encoder();
    encoder.counter = counter;
    encoder
}

#[test]
fn a_new_encoder_has_counted_nothing() {
    let motor = Motor::take();
    assert_eq!(motor.with_encoder().counter, 0);
}

#[test]
fn encoders_of_one_motor_count_apart() {
    let motor = Motor::take();
    let mut first = motor.with_encoder();
    let second = motor.with_encoder();
    let mut lines = edge(Level::Low);
    assert!(first.update(&mut lines));
    assert_eq!(first.counter, 1);
    assert_eq!(second.counter, 0);
}

#[test]
fn without_a_pending_edge_nothing_is_counted() {
    for channel_b in [Level::Low, Level::High] {
        let mut encoder = encoder_at(7);
        let mut lines = idle(channel_b);
        assert!(!encoder.update(&mut lines));
        assert_eq!(encoder.counter, 7);
        assert_eq!(lines, idle(channel_b));
    }
}

#[test]
fn an_edge_with_channel_b_low_counts_up() {
    let mut encoder = encoder_at(7);
    let mut lines = edge(Level::Low);
    assert!(encoder.update(&mut lines));
    assert_eq!(encoder.counter, 8);
    assert_eq!(lines, idle(Level::Low));
}

#[test]
fn an_edge_with_channel_b_high_counts_down() {
    let mut encoder = encoder_at(5);
    let mut lines = edge(Level::High);
    assert!(encoder.update(&mut lines));
    assert_eq!(encoder.counter, 4);
    assert_eq!(lines, idle(Level::High));
}

#[test]
fn counting_down_from_nothing_goes_negative() {
    let mut encoder = encoder_at(0);
    let mut lines = edge(Level::High);
    assert!(encoder.update(&mut lines));
    assert_eq!(encoder.counter, -1);
}

#[test]
fn a_second_update_counts_nothing() {
    for first_b in [Level::Low, Level::High] {
        for later_b in [Level::Low, Level::High] {
            let mut encoder = encoder_at(3);
            let mut lines = edge(first_b);
            assert!(encoder.update(&mut lines));
            let after_first = encoder.counter;
            lines.channel_b = later_b;
            assert!(!encoder.update(&mut lines));
            assert_eq!(encoder.counter, after_first);
        }
    }
}

#[test]
fn ten_edges_with_channel_b_low_count_to_ten() {
    let mut motor = Motor::take();
    motor.drive(0.75f32.to_bits());
    motor.stop();
    let mut encoder = motor.with_encoder();
    let mut lines = idle(Level::Low);
    for _ in 0..10 {
        lines.edge_pending = true;
        assert!(encoder.update(&mut lines));
        assert!(!lines.edge_pending);
    }
    assert_eq!(encoder.counter, 10);
}

#[test]
fn the_count_stops_where_it_cannot_be_held() {
    let top = encoder_at(i32::MAX);
    assert!(!top.can_update(&edge(Level::Low)));
    assert!(top.can_update(&edge(Level::High)));
    assert!(top.can_update(&idle(Level::Low)));
    let bottom = encoder_at(i32::MIN);
    assert!(!bottom.can_update(&edge(Level::High)));
    assert!(bottom.can_update(&edge(Level::Low)));
    assert!(bottom.can_update(&idle(Level::High)));
    let mut near = encoder_at(i32::MAX - 1);
    let mut lines = edge(Level::Low);
    assert!(near.can_update(&lines));
    assert!(near.update(&mut lines));
    assert_eq!(near.counter, i32::MAX);
}
