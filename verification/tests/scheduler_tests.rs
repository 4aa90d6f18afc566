use kittypaws::config::{Duration, FrequencyOptions, RandomRange};
use kittypaws::intervals::{time_till_next_run, wait_for_sample};

#[test]
fn once_has_no_wait() {
    assert_eq!(time_till_next_run(&FrequencyOptions::Once), None);
    assert_eq!(wait_for_sample(&FrequencyOptions::Once, 17), None);
}

#[test]
fn fixed_waits_exactly_its_duration() {
    let d = Duration::new(2, 500).unwrap();
    assert_eq!(time_till_next_run(&FrequencyOptions::Fixed(d)), Some(d));
    assert_eq!(wait_for_sample(&FrequencyOptions::Fixed(d), 17), Some(d));
}

#[test]
fn random_wait_lies_in_the_range() {
    let min = Duration::new(1, 250_000_000).unwrap();
    let max = Duration::new(1, 250_000_300).unwrap();
    let frequency = FrequencyOptions::Random(RandomRange { min, max });
    let mut seen_different = false;
    let first = time_till_next_run(&frequency).unwrap();
    for _ in 0..2000 {
        let d = time_till_next_run(&frequency).unwrap();
        assert!(min.le(&d));
        assert!(d.as_nanos() < max.as_nanos());
        if d != first {
            seen_different = true;
        }
    }
    assert!(seen_different);
}

#[test]
fn random_wait_of_a_single_instant_is_that_instant() {
    let d = Duration::from_secs(3);
    let frequency = FrequencyOptions::Random(RandomRange { min: d, max: d });
    assert_eq!(time_till_next_run(&frequency), Some(d));
}

#[test]
fn random_wait_of_one_nanosecond_range_is_its_lower_bound() {
    let min = Duration::from_secs(3);
    let max = Duration::new(3, 1).unwrap();
    let frequency = FrequencyOptions::Random(RandomRange { min, max });
    assert_eq!(time_till_next_run(&frequency), Some(min));
}

#[test]
fn sample_is_taken_as_the_wait_in_nanoseconds() {
    let min = Duration::from_secs(1);
    let max = Duration::from_secs(3);
    let frequency = FrequencyOptions::Random(RandomRange { min, max });
    assert_eq!(wait_for_sample(&frequency, 1_000_000_000), Some(min));
    assert_eq!(
        wait_for_sample(&frequency, 2_123_456_789),
        Some(Duration::new(2, 123_456_789).unwrap())
    );
    assert_eq!(
        wait_for_sample(&frequency, 2_999_999_999),
        Some(Duration::new(2, 999_999_999).unwrap())
    );
}

#[test]
fn sample_outside_the_range_is_brought_to_its_nearest_end() {
    let min = Duration::from_secs(1);
    let max = Duration::from_secs(3);
    let frequency = FrequencyOptions::Random(RandomRange { min, max });
    assert_eq!(wait_for_sample(&frequency, 0), Some(min));
    assert_eq!(
        wait_for_sample(&frequency, 3_000_000_000),
        Some(Duration::new(2, 999_999_999).unwrap())
    );
    assert_eq!(
        wait_for_sample(&frequency, u128::MAX),
        Some(Duration::new(2, 999_999_999).unwrap())
    );
}
