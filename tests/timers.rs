use crab_chip::{Stack, Error, Timers};

#[test]
fn at_600_hz_the_delay_timer_drops_once_in_ten_cycles() {
    let mut t = Timers::new(600);
    t.delay = 5;
    for _ in 0..9 {
        t.tick();
        assert_eq!(t.delay, 5);
    }
    t.tick();
    assert_eq!(t.delay, 4);
}

#[test]
fn sound_request_comes_when_sound_timer_runs_out() {
    let mut t = Timers::new(60);
    t.sound = 2;
    assert!(!t.tick());
    assert_eq!(t.sound, 1);
    assert!(t.tick());
    assert_eq!(t.sound, 0);
    assert!(!t.tick());
}

#[test]
fn stopped_timers_stay_at_zero() {
    let mut t = Timers::new(120);
    for _ in 0..5 {
        assert!(!t.tick());
    }
    assert_eq!((t.delay, t.sound), (0, 0));
}

#[test]
fn stack_holds_sixteen_return_addresses() {
    let mut s = Stack::new();
    for i in 0..16u16 {
        assert_eq!(s.push(0x200 + 2 * i), Ok(()));
    }
    assert_eq!(s.depth(), 16);
    assert_eq!(s.push(0x400), Err(Error::StackOverflow));
    assert_eq!(s.depth(), 16);
    assert_eq!(s.pop(), Ok(0x21E));
    assert_eq!(s.depth(), 15);
}

#[test]
fn popping_an_empty_stack_underflows() {
    let mut s = Stack::new();
    assert_eq!(s.pop(), Err(Error::StackUnderflow));
    s.push(0x234).unwrap();
    assert_eq!(s.pop(), Ok(0x234));
    assert_eq!(s.pop(), Err(Error::StackUnderflow));
}
