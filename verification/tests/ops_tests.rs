//! Tests of the delegating operations on the wrapper type: comparison,
//! arithmetic, and summation.

use duration_string::{Duration, DurationString};

#[test]
fn test_eq() {
    let duration = Duration::from_secs(1);
    assert_eq!(DurationString::new(duration), DurationString::new(duration));
    assert_eq!(DurationString::new(duration).as_duration(), duration);
    assert_eq!(duration, DurationString::new(duration).as_duration());
}

#[test]
fn test_ne() {
    let a = Duration::from_secs(1);
    let b = Duration::from_secs(2);
    assert_ne!(DurationString::new(a), DurationString::new(b));
    assert_ne!(DurationString::new(a).as_duration(), b);
    assert_ne!(a, DurationString::new(b).as_duration());
}

#[test]
fn test_lt() {
    let a = Duration::from_secs(1);
    let b = Duration::from_secs(2);
    assert!(DurationString::new(a) < DurationString::new(b));
    assert!(DurationString::new(a).as_duration() < b);
    assert!(a < DurationString::new(b).as_duration());
}

#[test]
fn test_le() {
    let a = Duration::from_secs(1);
    let b = Duration::from_secs(2);
    assert!(DurationString::new(a) <= DurationString::new(b));
    assert!(DurationString::new(a).as_duration() <= b);
    assert!(a <= DurationString::new(b).as_duration());
    let a = Duration::from_secs(1);
    let b = Duration::from_secs(1);
    assert!(DurationString::new(a) <= DurationString::new(b));
    assert!(DurationString::new(a).as_duration() <= b);
    assert!(a <= DurationString::new(b).as_duration());
}

#[test]
fn test_gt() {
    let a = Duration::from_secs(2);
    let b = Duration::from_secs(1);
    assert!(DurationString::new(a) > DurationString::new(b));
    assert!(DurationString::new(a).as_duration() > b);
    assert!(a > DurationString::new(b).as_duration());
}

#[test]
fn test_ge() {
    let a = Duration::from_secs(2);
    let b = Duration::from_secs(1);
    assert!(DurationString::new(a) >= DurationString::new(b));
    assert!(DurationString::new(a).as_duration() >= b);
    assert!(a >= DurationString::new(b).as_duration());
    let a = Duration::from_secs(1);
    let b = Duration::from_secs(1);
    assert!(DurationString::new(a) >= DurationString::new(b));
    assert!(DurationString::new(a).as_duration() >= b);
    assert!(a >= DurationString::new(b).as_duration());
}

#[test]
fn test_add() {
    let a = Duration::from_secs(1);
    let b = Duration::from_secs(1);
    let result = a.add(b);
    assert_eq!(
        DurationString::new(a).add(DurationString::new(b)),
        DurationString::new(result)
    );
    assert_eq!(DurationString::new(a).add_duration(b), DurationString::new(result));
    assert_eq!(a.add(DurationString::new(b).as_duration()), result);
}

#[test]
fn test_add_assign() {
    let a = Duration::from_secs(1);
    let b = Duration::from_secs(1);
    let result = a.add(b);
    let mut duration_string_duration_string = DurationString::new(a);
    duration_string_duration_string.add_assign(DurationString::new(b));
    let mut duration_string_duration = DurationString::new(a);
    duration_string_duration.add_assign(DurationString::new(b));
    let mut duration_duration_string = a;
    duration_duration_string = duration_duration_string.add(DurationString::new(b).as_duration());
    assert_eq!(duration_string_duration_string, DurationString::new(result));
    assert_eq!(duration_string_duration, DurationString::new(result));
    assert_eq!(duration_duration_string, result);
}

#[test]
fn test_sub() {
    let a = Duration::from_secs(1);
    let b = Duration::from_secs(1);
    let result = a.sub(b);
    assert_eq!(
        DurationString::new(a).sub(DurationString::new(b)),
        DurationString::new(result)
    );
    assert_eq!(DurationString::new(a).sub_duration(b), DurationString::new(result));
    assert_eq!(a.sub(DurationString::new(b).as_duration()), result);
}

#[test]
fn test_sub_assign() {
    let a = Duration::from_secs(1);
    let b = Duration::from_secs(1);
    let result = a.sub(b);
    let mut duration_string_duration_string = DurationString::new(a);
    duration_string_duration_string.sub_assign(DurationString::new(b));
    let mut duration_string_duration = DurationString::new(a);
    duration_string_duration.sub_assign(DurationString::new(b));
    let mut duration_duration_string = a;
    duration_duration_string = duration_duration_string.sub(DurationString::new(b).as_duration());
    assert_eq!(duration_string_duration_string, DurationString::new(result));
    assert_eq!(duration_string_duration, DurationString::new(result));
    assert_eq!(duration_duration_string, result);
}

#[test]
fn test_mul() {
    let a = 2u32;
    let a_duration = DurationString::new(Duration::from_secs(a.into()));
    let b = 4u32;
    let b_duration = DurationString::new(Duration::from_secs(b.into()));
    let result = DurationString::new(Duration::from_secs((a * b).into()));
    assert_eq!(a_duration.mul(b), result);
    assert_eq!(b_duration.mul(a), result);
}

#[test]
fn test_mul_assign() {
    let a = 2u32;
    let b = 4u32;
    let result = DurationString::new(Duration::from_secs((a * b).into()));
    let mut duration_string_u32 = DurationString::new(Duration::from_secs(a.into()));
    duration_string_u32.mul_assign(b);
    assert_eq!(duration_string_u32, result);
}

#[test]
fn test_div() {
    let a = 8u32;
    let a_duration = DurationString::new(Duration::from_secs(a.into()));
    let b = 4u32;
    let result = DurationString::new(Duration::from_secs((a / b).into()));
    assert_eq!(a_duration.div(b), result);
}

#[test]
fn test_div_assign() {
    let a = 8u32;
    let b = 4u32;
    let result = DurationString::new(Duration::from_secs((a / b).into()));
    let mut duration_string_u32 = DurationString::new(Duration::from_secs(a.into()));
    duration_string_u32.div_assign(b);
    assert_eq!(duration_string_u32, result);
}

#[test]
fn test_sum() {
    let durations = [
        Duration::from_secs(1),
        Duration::from_secs(2),
        Duration::from_secs(3),
        Duration::from_secs(4),
        Duration::from_secs(5),
        Duration::from_secs(6),
        Duration::from_secs(7),
        Duration::from_secs(8),
        Duration::from_secs(9),
    ];
    let mut total = Duration::zero();
    for duration in durations.iter() {
        total = total.add(*duration);
    }
    let result = DurationString::new(total);
    let durations = durations
        .iter()
        .map(|duration| Into::<DurationString>::into(*duration))
        .collect::<Vec<_>>();
    assert_eq!(DurationString::sum(&durations), result);
    let owned = durations.into_iter().collect::<Vec<_>>();
    assert_eq!(DurationString::sum(&owned), result);
}

#[test]
fn test_default_is_zero() {
    let d: DurationString = Default::default();
    assert_eq!(d.as_duration(), Duration::zero());
}

#[test]
fn test_duration_getters() {
    let d = Duration::from_millis(1_500);
    assert_eq!(d.as_secs(), 1);
    assert_eq!(d.subsec_nanos(), 500_000_000);
    assert_eq!(d.as_nanos(), 1_500_000_000u128);
}

#[test]
fn test_duration_checked_ops() {
    let a = Duration::from_secs(u64::MAX);
    assert!(a.checked_add(&Duration::from_secs(1)).is_none());
    assert!(a.checked_mul(2).is_none());
    let b = Duration::from_secs(2);
    assert_eq!(b.checked_add(&b), Some(Duration::from_secs(4)));
    assert_eq!(b.checked_mul(3), Some(Duration::from_secs(6)));
}
