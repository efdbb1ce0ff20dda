use rtactor::{Instant, Timer};
use std::time::Duration;

#[test]
fn test_instant_is_inf() {
    let begin = Instant::new(std::time::Instant::now());

    assert!(!begin.at_inf());
    assert!((begin + Duration::MAX).at_inf());
    assert!(Instant::INFINITY.at_inf());
}

#[test]
fn test_instant_sub() {
    let begin = std::time::Instant::now();

    let a = Instant::new(begin);
    let b = a + Duration::from_secs(13);

    assert!(b.saturating_sub(&a) == Duration::from_secs(13));
    assert!(a.saturating_sub(&b) == Duration::ZERO);

    assert!(Instant::INFINITY.saturating_sub(&a) == Duration::MAX);
    assert!(b.saturating_sub(&Instant::INFINITY) == Duration::ZERO);
}

#[test]
fn test_timer_compare() {
    let begin = Instant::new(std::time::Instant::now());
    let mut end;
    loop {
        end = Instant::new(std::time::Instant::now());
        if end.saturating_sub(&begin) > Duration::ZERO {
            break;
        }
    }

    assert!(
        Timer {
            id: 345,
            deadline: begin
        } == Timer {
            id: 345,
            deadline: begin
        }
    );
    assert!(
        Timer {
            id: 1,
            deadline: begin
        } > Timer {
            id: 0,
            deadline: begin
        }
    );

    assert!(
        Timer {
            id: 13,
            deadline: begin
        } < Timer {
            id: 45,
            deadline: end
        }
    );
    assert!(
        Timer {
            id: 13,
            deadline: end
        } > Timer {
            id: 45,
            deadline: begin
        }
    );

    assert!(
        Timer {
            id: 0,
            deadline: Instant::INFINITY
        } > Timer {
            id: u32::MAX,
            deadline: begin
        }
    );

    assert!(
        Timer {
            id: 1234567,
            deadline: Instant::INFINITY
        } < Timer {
            id: 1234568,
            deadline: Instant::INFINITY
        }
    );
    assert!(
        Timer {
            id: 55555,
            deadline: Instant::INFINITY
        } == Timer {
            id: 55555,
            deadline: Instant::INFINITY
        }
    );
}

#[test]
fn instant_order_and_equality() {
    let a = Instant::new(std::time::Instant::now());
    let b = a + Duration::from_millis(7);
    assert!(a < b);
    assert!(b > a);
    assert!(a == a);
    assert!(a != b);
    assert!(b < Instant::INFINITY);
    assert!(Instant::INFINITY == Instant::INFINITY);
    assert!(!(Instant::INFINITY < Instant::INFINITY));
}

#[test]
fn instant_add_zero_is_same_instant() {
    let a = Instant::new(std::time::Instant::now());
    assert!(a + Duration::ZERO == a);
    assert!((Instant::INFINITY + Duration::from_secs(1)).at_inf());
}

#[test]
fn instant_set_inf() {
    let mut a = Instant::new(std::time::Instant::now());
    a.set_inf();
    assert!(a.at_inf());
    assert!(a == Instant::INFINITY);
}

#[test]
fn instant_saturating_add_of_unrepresentable_sum_is_infinity() {
    let a = Instant::new(std::time::Instant::now());
    let almost_max = Duration::MAX - Duration::from_nanos(1);
    assert!(a.saturating_add(almost_max).at_inf());
    assert!(a.saturating_add(Duration::from_secs(2)) == a + Duration::from_secs(2));
}

#[test]
fn timer_new_is_unscheduled() {
    let t = Timer::new();
    assert_eq!(t.id, 0);
    assert!(t.deadline.at_inf());
    let d = Timer::default();
    assert!(d == t);
}

#[test]
fn add_then_saturating_sub_gives_the_duration_back() {
    let a = Instant::new(std::time::Instant::now());
    for millis in [0u64, 1, 250, 86_400_000] {
        let d = Duration::from_millis(millis);
        let b = a + d;
        assert!(b.saturating_sub(&a) == d);
        assert!(a.saturating_sub(&b) == Duration::ZERO);
        let c = a.saturating_add(d);
        assert!(c == b);
    }
}

#[test]
fn timers_sort_by_deadline_then_identifier() {
    let begin = Instant::new(std::time::Instant::now());
    let end = begin + Duration::from_millis(3);
    let mut timers = vec![
        Timer { id: 2, deadline: Instant::INFINITY },
        Timer { id: 9, deadline: begin },
        Timer { id: 1, deadline: end },
        Timer { id: 3, deadline: begin },
    ];
    timers.sort();
    let order: Vec<u32> = timers.iter().map(|t| t.id).collect();
    assert_eq!(order, vec![3, 9, 1, 2]);
    assert!(begin.cmp(&end) == std::cmp::Ordering::Less);
    assert!(Instant::INFINITY.cmp(&end) == std::cmp::Ordering::Greater);
}
