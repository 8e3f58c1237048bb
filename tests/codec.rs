use rollback_netcode::input::{decode, encode, PlayerInput, ANGLE_STEPS, DOWN, LEFT, PRIMARY, RIGHT, SECONDARY, UP};

fn quantize(angle: f32) -> u16 {
    let range = 2.0 * std::f32::consts::PI;
    ((angle + std::f32::consts::PI) / range * 1024.0) as u16
}

fn angles(end: f32, step: f32) -> Vec<f32> {
    let mut out = vec![0.0f32];
    let mut a = 0.0f32;
    loop {
        let next = a + step;
        if next < end {
            out.push(next);
            a = next;
        } else {
            break;
        }
    }
    out
}

#[test]
fn test_input_encode_decode() {
    for angle in angles(2.0 * std::f32::consts::PI, 0.1) {
        for left in [true, false] {
            for right in [true, false] {
                for up in [true, false] {
                    for down in [true, false] {
                        for primary in [true, false] {
                            for secondary in [true, false] {
                                let input = PlayerInput {
                                    angle: quantize(angle),
                                    left,
                                    right,
                                    up,
                                    down,
                                    primary,
                                    secondary,
                                };
                                assert_eq!(
                                    u16::from(input),
                                    u16::from(PlayerInput::from(u16::from(input)))
                                );
                            }
                        }
                    }
                }
            }
        }
    }
}

#[test]
fn every_representable_input_round_trips() {
    for angle in 0..ANGLE_STEPS {
        for bits in 0u8..64 {
            let input = PlayerInput {
                angle,
                up: bits & 1 != 0,
                down: bits & 2 != 0,
                left: bits & 4 != 0,
                right: bits & 8 != 0,
                primary: bits & 16 != 0,
                secondary: bits & 32 != 0,
            };
            assert_eq!(decode(encode(input)), input);
        }
    }
}

#[test]
fn every_wire_value_round_trips() {
    for x in 0..=u16::MAX {
        assert_eq!(encode(decode(x)), x);
    }
}

#[test]
fn encode_places_each_field() {
    let input = PlayerInput {
        angle: 0x155,
        up: true,
        down: false,
        left: true,
        right: false,
        primary: true,
        secondary: false,
    };
    assert_eq!(encode(input), 0x155 | UP | LEFT | PRIMARY);
    assert_eq!(encode(input), 0x5555);
    let none = PlayerInput {
        angle: 0,
        up: false,
        down: false,
        left: false,
        right: false,
        primary: false,
        secondary: false,
    };
    assert_eq!(encode(none), 0);
}

#[test]
fn encode_wraps_angle_to_ten_bits() {
    let input = PlayerInput {
        angle: 1024 + 7,
        up: false,
        down: false,
        left: false,
        right: false,
        primary: false,
        secondary: false,
    };
    assert_eq!(encode(input), 7);
}

#[test]
fn decode_reads_each_bit() {
    let all = decode(0xffff);
    assert_eq!(all.angle, 0x3ff);
    assert!(all.up && all.down && all.left && all.right && all.primary && all.secondary);
    let d = decode(DOWN | RIGHT | SECONDARY | 12);
    assert_eq!(d.angle, 12);
    assert!(!d.up && d.down && !d.left && d.right && !d.primary && d.secondary);
}

#[test]
fn movement_vec_is_right_minus_left_and_up_minus_down() {
    let mut i = decode(0);
    assert_eq!(i.movement_vec(), (0, 0));
    i.right = true;
    i.up = true;
    assert_eq!(i.movement_vec(), (1, 1));
    i.left = true;
    i.down = true;
    assert_eq!(i.movement_vec(), (0, 0));
    i.right = false;
    i.up = false;
    assert_eq!(i.movement_vec(), (-1, -1));
}
