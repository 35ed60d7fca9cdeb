use mpmc_rust::scenario::{
    consumer_step, next_producer_value, parse_duration_secs, scenarios, selected, ConsumerStep, Scenario,
    DEFAULT_DURATION_SECS, SENTINEL,
};

#[test]
fn label_names_producers_consumers_and_capacity() {
    assert_eq!(Scenario::new(8, 2, 256, 3).label(), "p8_c2_cap256");
    assert_eq!(Scenario::new(1, 1, 64, 3).label(), "p1_c1_cap64");
    assert_eq!(Scenario::new(16, 16, 1024, 1).label(), "p16_c16_cap1024");
    assert_eq!(Scenario::new(0, 10, 100, 0).label(), "p0_c10_cap100");
}

#[test]
fn new_keeps_the_four_numbers() {
    let s = Scenario::new(3, 4, 5, 6);
    assert_eq!((s.producers, s.consumers, s.capacity, s.duration_secs), (3, 4, 5, 6));
}

#[test]
fn scenarios_follow_the_default_plan() {
    let plan = scenarios(None);
    assert_eq!(plan.len(), 17);
    let mut k = 0;
    for capacity in [64, 256, 1024] {
        for pairs in [1, 2, 4, 8, 16] {
            let s = plan[k];
            assert_eq!((s.producers, s.consumers, s.capacity), (pairs, pairs, capacity));
            assert_eq!(s.duration_secs, DEFAULT_DURATION_SECS);
            k += 1;
        }
    }
    assert_eq!((plan[15].producers, plan[15].consumers, plan[15].capacity), (8, 2, 256));
    assert_eq!((plan[16].producers, plan[16].consumers, plan[16].capacity), (2, 8, 256));
    assert_eq!(DEFAULT_DURATION_SECS, 3);
}

#[test]
fn scenarios_take_the_given_duration() {
    let plan = scenarios(Some(11));
    assert_eq!(plan.len(), 17);
    assert!(plan.iter().all(|s| s.duration_secs == 11));
    assert_eq!(plan[0].label(), "p1_c1_cap64");
    assert_eq!(plan[14].label(), "p16_c16_cap1024");
}

#[test]
fn producer_values_step_by_1024() {
    assert_eq!(next_producer_value(3, 3), 1027);
    assert_eq!(next_producer_value(0, 0), 1024);
}

#[test]
fn producer_values_wrap_around() {
    assert_eq!(next_producer_value(u64::MAX - 1023, 7), 0);
    assert_eq!(next_producer_value(u64::MAX - 1000, 7), 23);
}

#[test]
fn producer_never_sends_sentinel() {
    assert_eq!(next_producer_value(u64::MAX - 1024, 5), 5);
    assert_eq!(SENTINEL, u64::MAX);
}

#[test]
fn producer_streams_are_disjoint() {
    for producer in [0usize, 1, 5, 1023] {
        let mut value = producer as u64;
        for _ in 0..50 {
            assert_eq!(value % 1024, producer as u64);
            assert_ne!(value, SENTINEL);
            value = next_producer_value(value, producer);
        }
        let mut near_end = u64::MAX - 1023 - 2048 + producer as u64;
        for _ in 0..5 {
            near_end = next_producer_value(near_end, producer);
            assert_eq!(near_end % 1024, producer as u64);
            assert_ne!(near_end, SENTINEL);
        }
    }
}

#[test]
fn plan_labels_are_all_different() {
    let labels: Vec<String> = scenarios(Some(1)).iter().map(|s| s.label()).collect();
    for i in 0..labels.len() {
        for j in (i + 1)..labels.len() {
            assert_ne!(labels[i], labels[j]);
        }
    }
}

#[test]
fn labels_differ_when_counts_differ() {
    assert_ne!(Scenario::new(1, 11, 2, 3).label(), Scenario::new(11, 1, 2, 3).label());
    assert_ne!(Scenario::new(1, 2, 34, 3).label(), Scenario::new(1, 23, 4, 3).label());
    assert_eq!(Scenario::new(1, 2, 3, 4).label(), Scenario::new(1, 2, 3, 99).label());
}

#[test]
fn duration_text_reads_like_u64_from_str() {
    assert_eq!(parse_duration_secs("3"), Some(3));
    assert_eq!(parse_duration_secs("0"), Some(0));
    assert_eq!(parse_duration_secs("+42"), Some(42));
    assert_eq!(parse_duration_secs("007"), Some(7));
    assert_eq!(parse_duration_secs("18446744073709551615"), Some(u64::MAX));
    assert_eq!(parse_duration_secs("18446744073709551616"), None);
    assert_eq!(parse_duration_secs("99999999999999999999x"), None);
    assert_eq!(parse_duration_secs(""), None);
    assert_eq!(parse_duration_secs("+"), None);
    assert_eq!(parse_duration_secs("-1"), None);
    assert_eq!(parse_duration_secs(" 5"), None);
    assert_eq!(parse_duration_secs("5s"), None);
    assert_eq!(parse_duration_secs("++5"), None);
    assert_eq!(parse_duration_secs("٣"), None);
    for text in ["3", "+42", "", "+", "-1", "5s", "18446744073709551616", "12345678901234"] {
        assert_eq!(parse_duration_secs(text), text.parse::<u64>().ok());
    }
}

#[test]
fn consumer_stops_on_sentinel_and_counts_while_measuring() {
    assert_eq!(consumer_step(SENTINEL, true, 4), ConsumerStep::Stop);
    assert_eq!(consumer_step(SENTINEL, false, 4), ConsumerStep::Stop);
    assert_eq!(consumer_step(17, true, 4), ConsumerStep::Continue(5));
    assert_eq!(consumer_step(17, false, 4), ConsumerStep::Continue(4));
    assert_eq!(consumer_step(0, true, 0), ConsumerStep::Continue(1));
}

#[test]
fn thread_count_counts_producers_consumers_and_driver() {
    assert_eq!(Scenario::new(8, 2, 256, 3).thread_count(), 11);
    assert_eq!(Scenario::new(0, 0, 1, 3).thread_count(), 1);
}

#[test]
fn filter_selects_labels_containing_it() {
    assert!(selected("p8_c2_cap256", None));
    assert!(selected("p8_c2_cap256", Some("cap256")));
    assert!(selected("p8_c2_cap256", Some("")));
    assert!(selected("p8_c2_cap256", Some("p8_c2_cap256")));
    assert!(selected("p8_c2_cap256", Some("_c2")));
    assert!(!selected("p8_c2_cap256", Some("cap64")));
    assert!(!selected("p8_c2_cap256", Some("p8_c2_cap2567")));
    assert!(!selected("", Some("p")));
    let plan = scenarios(None);
    let chosen: Vec<String> = plan
        .iter()
        .map(|s| s.label())
        .filter(|l| selected(l, Some("cap1024")))
        .collect();
    assert_eq!(chosen.len(), 5);
    for label in ["p1_c1_cap64", "p16_c16_cap1024", "p2_c8_cap256"] {
        for filter in ["c1", "cap", "16_", "x", "p1_c1_cap64"] {
            assert_eq!(selected(label, Some(filter)), label.contains(filter));
        }
    }
}
