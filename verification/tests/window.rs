use skip_delta::{
    compute_deltas, DeltaRecord, DeltaWindow, PipelineError, PositionAggregate, ReferenceNames,
};

fn wn_aggregate(reference_id: u32, coordinate: u32, skips: u32) -> PositionAggregate {
    PositionAggregate::from_counts(reference_id, coordinate, skips + 2, 1, 1, skips, 0).unwrap()
}

fn wn_names() -> ReferenceNames {
    let mut names = ReferenceNames::new();
    names.push(b"chrA".to_vec());
    names.push(b"chrB".to_vec());
    names
}

#[test]
fn window_starts_empty_and_holds_the_first() {
    let names = wn_names();
    let mut window = DeltaWindow::new();
    assert!(matches!(window, DeltaWindow::Empty));
    assert_eq!(window.on_next(wn_aggregate(0, 5, 1), &names), Ok(None));
    assert!(matches!(window, DeltaWindow::Holding(held) if held.coordinate() == 5));
}

#[test]
fn window_emits_for_each_successor() {
    let names = wn_names();
    let mut window = DeltaWindow::new();
    assert_eq!(window.on_next(wn_aggregate(0, 5, 1), &names), Ok(None));
    let record = window.on_next(wn_aggregate(0, 6, 4), &names).unwrap().unwrap();
    assert_eq!(
        record,
        DeltaRecord {
            reference_name: b"chrA".to_vec(),
            coordinate: 5,
            coverage_count: 2,
            coverage_count_fwd: 1,
            coverage_count_rev: 1,
            skip_count: 1,
            skip_count_fwd: 1,
            skip_count_rev: 0,
            delta_skip: -3,
            delta_skip_fwd: -3,
            delta_skip_rev: 0,
        }
    );
    let record = window.on_next(wn_aggregate(0, 9, 0), &names).unwrap().unwrap();
    assert_eq!(record.coordinate, 6);
    assert_eq!(record.delta_skip, 4);
    assert!(matches!(window, DeltaWindow::Holding(held) if held.coordinate() == 9));
}

#[test]
fn window_end_drops_the_held_aggregate() {
    let names = wn_names();
    let mut window = DeltaWindow::new();
    assert_eq!(window.on_next(wn_aggregate(0, 5, 1), &names), Ok(None));
    window.on_end();
    assert!(matches!(window, DeltaWindow::Empty));
    // after the end a smaller coordinate starts a new sequence
    assert_eq!(window.on_next(wn_aggregate(0, 1, 1), &names), Ok(None));
}

#[test]
fn gap_in_coordinates_still_gives_a_delta() {
    let names = wn_names();
    let records =
        compute_deltas(&[wn_aggregate(0, 10, 8), wn_aggregate(0, 5000, 3)], &names).unwrap();
    assert_eq!(records.len(), 1);
    assert_eq!((records[0].coordinate, records[0].delta_skip), (10, 5));
}

#[test]
fn equal_coordinates_are_in_order() {
    let names = wn_names();
    let records =
        compute_deltas(&[wn_aggregate(1, 7, 2), wn_aggregate(1, 7, 5)], &names).unwrap();
    assert_eq!(records.len(), 1);
    assert_eq!(records[0].reference_name, b"chrB".to_vec());
    assert_eq!(records[0].delta_skip, -3);
}

#[test]
fn smaller_coordinate_is_an_ordering_violation() {
    let names = wn_names();
    let mut window = DeltaWindow::new();
    assert_eq!(window.on_next(wn_aggregate(0, 5, 1), &names), Ok(None));
    assert_eq!(
        window.on_next(wn_aggregate(0, 4, 1), &names),
        Err(PipelineError::OrderingViolation)
    );
    // the refused aggregate has not replaced the held one
    assert!(matches!(window, DeltaWindow::Holding(held) if held.coordinate() == 5));
    assert_eq!(
        compute_deltas(
            &[wn_aggregate(0, 1, 0), wn_aggregate(0, 2, 0), wn_aggregate(0, 1, 0)],
            &names
        ),
        Err(PipelineError::OrderingViolation)
    );
}

#[test]
fn reference_without_a_name_is_refused() {
    let names = wn_names();
    assert_eq!(
        compute_deltas(&[wn_aggregate(2, 1, 0), wn_aggregate(2, 2, 0)], &names),
        Err(PipelineError::UnknownReference)
    );
    assert_eq!(
        compute_deltas(&[wn_aggregate(0, 1, 0), wn_aggregate(0, 2, 0)], &ReferenceNames::new()),
        Err(PipelineError::UnknownReference)
    );
}

#[test]
fn ordering_is_tested_before_the_name() {
    let names = wn_names();
    assert_eq!(
        compute_deltas(&[wn_aggregate(7, 2, 0), wn_aggregate(7, 1, 0)], &names),
        Err(PipelineError::OrderingViolation)
    );
}

#[test]
fn first_refusal_decides() {
    let names = wn_names();
    let aggregates = [
        wn_aggregate(0, 1, 0),
        wn_aggregate(0, 2, 0),
        wn_aggregate(5, 3, 0),
        wn_aggregate(5, 4, 0),
        wn_aggregate(5, 3, 0),
    ];
    assert_eq!(compute_deltas(&aggregates, &names), Err(PipelineError::UnknownReference));
}

#[test]
fn no_record_across_references() {
    let names = wn_names();
    let aggregates = [
        wn_aggregate(0, 100, 3),
        wn_aggregate(0, 200, 1),
        wn_aggregate(1, 5, 9),
        wn_aggregate(1, 6, 2),
        wn_aggregate(0, 1, 0),
    ];
    let records = compute_deltas(&aggregates, &names).unwrap();
    let keyed: Vec<(Vec<u8>, u32, i64)> = records
        .iter()
        .map(|r| (r.reference_name.clone(), r.coordinate, r.delta_skip))
        .collect();
    assert_eq!(keyed, vec![(b"chrA".to_vec(), 100, 2), (b"chrB".to_vec(), 5, 7)]);
}

#[test]
fn names_resolve_by_id() {
    let names = wn_names();
    assert_eq!(names.len(), 2);
    assert_eq!(names.resolve(0), Some(&b"chrA".to_vec()));
    assert_eq!(names.resolve(1), Some(&b"chrB".to_vec()));
    assert_eq!(names.resolve(2), None);
    assert_eq!(names.resolve(u32::MAX), None);
    assert_eq!(ReferenceNames::new().len(), 0);
    assert_eq!(ReferenceNames::new().resolve(0), None);
    let listed = ReferenceNames::from_names(vec![b"x".to_vec(), Vec::new()]);
    assert_eq!(listed.resolve(0), Some(&b"x".to_vec()));
    assert_eq!(listed.resolve(1), Some(&Vec::new()));
}

#[test]
fn error_messages() {
    assert_eq!(PipelineError::InvalidInterval.message(), "invalid interval");
    assert_eq!(PipelineError::OrderingViolation.message(), "coordinates out of order");
    assert_eq!(PipelineError::UnknownReference.message(), "unknown reference id");
}
