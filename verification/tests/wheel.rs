use ceiling_rt::wheel::{Turn, Wheel, WheelError};

fn lit_positions(wheel: &Wheel) -> Vec<usize> {
    let mut lit: Vec<usize> = Vec::new();
    let mut i: usize = 0;
    while i < wheel.count() {
        if wheel.is_lit(i) {
            lit.push(i);
        }
        i += 1;
    }
    lit
}

#[test]
fn a_new_wheel_has_its_first_light_lit() {
    let wheel = Wheel::new(8).unwrap();
    assert_eq!(wheel.count(), 8);
    assert_eq!(wheel.position(), 0);
    assert_eq!(lit_positions(&wheel), vec![0]);
    assert!(wheel.is_lit(0));
    assert!(!wheel.is_lit(1));
    assert!(!wheel.is_lit(8));
}

#[test]
fn exactly_one_light_is_lit_on_every_wheel() {
    let mut count: usize = 1;
    while count <= 255 {
        let mut wheel = Wheel::new(count).unwrap();
        assert_eq!(lit_positions(&wheel), vec![0]);
        let mut turn: usize = 0;
        while turn < count + 2 {
            let done = wheel.advance();
            assert_eq!(done.off, turn % count);
            assert_eq!(done.on, (turn + 1) % count);
            assert_eq!(lit_positions(&wheel), vec![done.on]);
            turn += 1;
        }
        count += 1;
    }
}

#[test]
fn a_wheel_needs_a_position() {
    assert_eq!(Wheel::new(0).err(), Some(WheelError::Empty));
}

#[test]
fn a_wheel_has_at_most_255_positions() {
    assert_eq!(Wheel::new(256).err(), Some(WheelError::TooMany));
    assert_eq!(Wheel::new(100_000).err(), Some(WheelError::TooMany));
    let wheel = Wheel::new(255).unwrap();
    assert_eq!(wheel.count(), 255);
}

#[test]
fn a_turn_moves_the_light_by_one() {
    let mut wheel = Wheel::new(8).unwrap();
    assert_eq!(wheel.advance(), Turn { off: 0, on: 1 });
    assert_eq!(wheel.position(), 1);
    assert_eq!(lit_positions(&wheel), vec![1]);
    assert_eq!(wheel.advance(), Turn { off: 1, on: 2 });
    assert_eq!(wheel.position(), 2);
    assert_eq!(lit_positions(&wheel), vec![2]);
}

#[test]
fn the_last_position_wraps_to_the_first() {
    let mut wheel = Wheel::new(3).unwrap();
    wheel.advance();
    wheel.advance();
    assert_eq!(wheel.position(), 2);
    assert_eq!(wheel.advance(), Turn { off: 2, on: 0 });
    assert_eq!(wheel.position(), 0);
    assert_eq!(lit_positions(&wheel), vec![0]);
}

#[test]
fn eight_turns_bring_the_wheel_back() {
    let mut wheel = Wheel::new(8).unwrap();
    wheel.advance();
    wheel.advance();
    let start = wheel.position();
    let mut seen: Vec<u8> = Vec::new();
    let mut turn: u8 = 0;
    while turn < 8 {
        wheel.advance();
        // exactly one light is lit, the one at the position
        assert_eq!(lit_positions(&wheel), vec![wheel.position() as usize]);
        seen.push(wheel.position());
        turn += 1;
    }
    assert_eq!(wheel.position(), start);
    assert_eq!(seen, vec![3, 4, 5, 6, 7, 0, 1, 2]);
}

#[test]
fn a_wheel_of_one_position_stays_lit() {
    let mut wheel = Wheel::new(1).unwrap();
    assert_eq!(wheel.advance(), Turn { off: 0, on: 0 });
    assert_eq!(wheel.position(), 0);
    assert!(wheel.is_lit(0));
}

#[test]
fn the_largest_wheel_wraps_without_overflow() {
    let mut wheel = Wheel::new(255).unwrap();
    let mut turn: u32 = 0;
    while turn < 254 {
        wheel.advance();
        turn += 1;
    }
    assert_eq!(wheel.position(), 254);
    assert_eq!(wheel.advance(), Turn { off: 254, on: 0 });
    assert_eq!(lit_positions(&wheel), vec![0]);
}
