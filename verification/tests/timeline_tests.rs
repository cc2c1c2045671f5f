use engine_rust::bars::{extract_bar, BarData, Field};
use engine_rust::timeline::next_timeline_step;

fn bar(text: &str) -> BarData<f64, ()> {
    extract_bar(0, Field::Value(text.to_string()), Some(1.0), None, ()).unwrap()
}

#[test]
fn steps_follow_the_earliest_next_bar() {
    let feeds = vec![
        vec![bar("2024-01-01 09:30"), bar("2024-01-01 09:32")],
        vec![bar("2024-01-01 09:31"), bar("2024-01-01 09:32"), bar("2024-01-01 09:33")],
    ];
    let mut idxs = vec![0usize, 0usize];
    let s1 = next_timeline_step(&feeds, &mut idxs).unwrap();
    assert_eq!(s1.advanced, vec![0]);
    assert_eq!(s1.datetime, "2024-01-01 09:30");
    assert_eq!(idxs, vec![1, 0]);
    let s2 = next_timeline_step(&feeds, &mut idxs).unwrap();
    assert_eq!(s2.advanced, vec![1]);
    assert_eq!(s2.datetime, "2024-01-01 09:31");
    assert_eq!(idxs, vec![1, 1]);
    let s3 = next_timeline_step(&feeds, &mut idxs).unwrap();
    assert_eq!(s3.advanced, vec![0, 1]);
    assert_eq!(idxs, vec![2, 2]);
    let s4 = next_timeline_step(&feeds, &mut idxs).unwrap();
    assert_eq!(s4.advanced, vec![1]);
    assert_eq!(s4.datetime, "2024-01-01 09:33");
    assert_eq!(idxs, vec![2, 3]);
    assert!(next_timeline_step(&feeds, &mut idxs).is_none());
    assert_eq!(idxs, vec![2, 3]);
}

#[test]
fn ties_are_compared_as_instants_not_text() {
    // The same instant written two ways is one step.
    let feeds = vec![vec![bar("2024-01-01T09:30:00")], vec![bar("2024-01-01 09:30")]];
    let mut idxs = vec![0usize, 0usize];
    let s = next_timeline_step(&feeds, &mut idxs).unwrap();
    assert_eq!(s.advanced, vec![0, 1]);
    assert_eq!(s.datetime, "2024-01-01T09:30:00");
    assert!(next_timeline_step(&feeds, &mut idxs).is_none());
}

#[test]
fn every_bar_is_taken_exactly_once() {
    let feeds = vec![
        vec![bar("2024-01-03"), bar("2024-01-01")],
        vec![],
        vec![bar("2024-01-02"), bar("2024-01-02"), bar("2024-01-04")],
    ];
    let mut idxs = vec![0usize; 3];
    let mut taken = 0usize;
    let mut steps = 0usize;
    while let Some(step) = next_timeline_step(&feeds, &mut idxs) {
        assert!(!step.advanced.is_empty());
        taken += step.advanced.len();
        steps += 1;
    }
    assert_eq!(taken, 5);
    assert_eq!(idxs, vec![2, 0, 3]);
    assert!(steps <= 5);
}

#[test]
fn no_feeds_means_no_steps() {
    let feeds: Vec<Vec<BarData<f64, ()>>> = vec![];
    let mut idxs: Vec<usize> = vec![];
    assert!(next_timeline_step(&feeds, &mut idxs).is_none());
}

#[test]
fn sorted_feeds_give_nondecreasing_steps() {
    let feeds = vec![
        vec![bar("2024-01-01"), bar("2024-01-01"), bar("2024-01-03"), bar("2024-01-07")],
        vec![bar("2024-01-02"), bar("2024-01-03"), bar("2024-01-05")],
        vec![bar("2024-01-01 12:00"), bar("2024-01-06")],
    ];
    let mut idxs = vec![0usize; 3];
    let mut prev = None;
    let mut steps = 0usize;
    while let Some(step) = next_timeline_step(&feeds, &mut idxs) {
        if let Some(p) = prev {
            assert!(!step.time.is_before(&p));
        }
        prev = Some(step.time);
        steps += 1;
    }
    assert_eq!(steps, 8);
}
