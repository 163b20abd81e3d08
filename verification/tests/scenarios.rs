use skip_delta::{
    aggregate, collect_records, compute_deltas, format_record, pileup, pileup_region,
    run_pipeline, AlignmentObservation, DeltaRecord, PileupColumn, PipelineConfig,
    PositionAggregate, ReferenceNames, Region, Strand,
};

fn sc_observation(is_skip: bool, is_deletion: bool, strand: Strand) -> AlignmentObservation {
    AlignmentObservation { is_skip, is_deletion, strand }
}

/// A column with `skips` forward skips and `matches` forward matches.
fn sc_column(reference_id: u32, coordinate: u32, skips: usize, matches: usize) -> PileupColumn {
    let mut observations = Vec::new();
    for _ in 0..skips {
        observations.push(sc_observation(true, false, Strand::Forward));
    }
    for _ in 0..matches {
        observations.push(sc_observation(false, false, Strand::Forward));
    }
    PileupColumn { reference_id, coordinate, observations }
}

fn sc_names() -> ReferenceNames {
    ReferenceNames::from_names(vec![b"chr1".to_vec(), b"chr2".to_vec()])
}

fn sc_aggregate(coordinate: u32, skips: u32) -> PositionAggregate {
    PositionAggregate::from_counts(0, coordinate, skips + 1, 1, 0, skips, 0).unwrap()
}

#[test]
fn simple_bam() {
    let columns = vec![
        sc_column(0, 7, 2, 3),
        sc_column(0, 8, 5, 1),
        sc_column(0, 9, 0, 4),
        sc_column(0, 10, 1, 1),
    ];
    let rows = pileup_region(&columns, &sc_names(), 8, 10, 10_000_000).unwrap();
    assert_eq!(rows, vec![b"chr1\t8\t1\t5\t5".to_vec()]);
    let all = pileup(&columns, &sc_names(), 10_000_000).unwrap();
    assert_eq!(
        all,
        vec![
            b"chr1\t7\t3\t2\t-3".to_vec(),
            b"chr1\t8\t1\t5\t5".to_vec(),
            b"chr1\t9\t4\t0\t-1".to_vec(),
        ]
    );
}

#[test]
fn equal_skip_counts_give_zero_deltas() {
    let aggregates = vec![sc_aggregate(1, 5), sc_aggregate(2, 5), sc_aggregate(3, 5)];
    let records = compute_deltas(&aggregates, &sc_names()).unwrap();
    assert_eq!(records.len(), 2);
    assert_eq!(records[0].delta_skip, 0);
    assert_eq!(records[1].delta_skip, 0);
}

#[test]
fn deltas_are_keyed_on_the_earlier_coordinate() {
    let aggregates = vec![sc_aggregate(100, 10), sc_aggregate(101, 4), sc_aggregate(102, 4)];
    let records = compute_deltas(&aggregates, &sc_names()).unwrap();
    let keyed: Vec<(u32, i64)> = records.iter().map(|r| (r.coordinate, r.delta_skip)).collect();
    assert_eq!(keyed, vec![(100, 6), (101, 0)]);
    assert_eq!(records[0].skip_count, 10);
    assert_eq!(records[1].skip_count, 4);
}

#[test]
fn no_coordinate_gives_no_record() {
    let none: Vec<PileupColumn> = Vec::new();
    assert_eq!(pileup(&none, &sc_names(), 100), Ok(Vec::new()));
    assert_eq!(compute_deltas(&[], &sc_names()), Ok(Vec::new()));
}

#[test]
fn one_coordinate_gives_no_record() {
    let one = vec![sc_column(0, 5, 3, 3)];
    assert_eq!(pileup(&one, &sc_names(), 100), Ok(Vec::new()));
    assert_eq!(compute_deltas(&[sc_aggregate(5, 3)], &sc_names()), Ok(Vec::new()));
}

#[test]
fn one_coordinate_of_an_unnamed_reference_is_no_error() {
    let one = vec![sc_column(9, 5, 3, 3)];
    assert_eq!(pileup(&one, &sc_names(), 100), Ok(Vec::new()));
}

#[test]
fn interval_keeps_only_its_coordinates() {
    let columns: Vec<PileupColumn> = (10u32..100).map(|c| sc_column(0, c, c as usize, 1)).collect();
    let config = PipelineConfig::bounded(1000, 50, 60);
    let records = collect_records(&columns, &sc_names(), &config).unwrap();
    let coordinates: Vec<u32> = records.iter().map(|r| r.coordinate).collect();
    assert_eq!(coordinates, (50u32..59).collect::<Vec<u32>>());
    for record in &records {
        assert_eq!(record.skip_count, record.coordinate);
        assert_eq!(record.delta_skip, -1);
    }
    let rows = pileup_region(&columns, &sc_names(), 50, 60, 1000).unwrap();
    assert_eq!(rows.len(), 9);
    assert_eq!(rows[0], b"chr1\t50\t1\t50\t-1".to_vec());
    assert_eq!(rows[8], b"chr1\t58\t1\t58\t-1".to_vec());
}

#[test]
fn interval_does_not_pair_across_its_bounds() {
    // 49 lies before the interval: it must not become the partner of 50.
    let columns = vec![sc_column(0, 49, 9, 0), sc_column(0, 50, 1, 0), sc_column(0, 60, 4, 0)];
    assert_eq!(pileup_region(&columns, &sc_names(), 50, 60, 100), Ok(Vec::new()));
}

#[test]
fn strand_aware_deltas() {
    let mut first = Vec::new();
    for _ in 0..3 {
        first.push(sc_observation(true, false, Strand::Forward));
    }
    for _ in 0..2 {
        first.push(sc_observation(true, false, Strand::Reverse));
    }
    let second = vec![
        sc_observation(true, false, Strand::Forward),
        sc_observation(true, false, Strand::Reverse),
    ];
    let x = aggregate(0, 10, &first, 100);
    let y = aggregate(0, 11, &second, 100);
    assert_eq!(x.skip_count(), 5);
    assert_eq!(y.skip_count(), 2);
    let records = compute_deltas(&[x, y], &sc_names()).unwrap();
    assert_eq!(records.len(), 1);
    assert_eq!(records[0].delta_skip, 3);
    assert_eq!(records[0].delta_skip_fwd, 2);
    assert_eq!(records[0].delta_skip_rev, 1);
    assert_eq!(
        format_record(&records[0], true),
        b"chr1\t10\t3\t2\t1\t5\t3\t2\t0\t0\t0".to_vec()
    );
}

#[test]
fn record_count_is_one_less_than_aggregates() {
    for n in 0u32..12 {
        let aggregates: Vec<PositionAggregate> =
            (0..n).map(|c| sc_aggregate(c, (c * 7) % 5)).collect();
        let records = compute_deltas(&aggregates, &sc_names()).unwrap();
        assert_eq!(records.len() as u32, n.saturating_sub(1));
    }
}

#[test]
fn delta_is_the_signed_difference() {
    let x = sc_aggregate(1, 0);
    let y = sc_aggregate(2, 4_000_000_000);
    let records = compute_deltas(&[x, y, x], &ReferenceNames::from_names(vec![Vec::new()]));
    // the third aggregate lies before the second: refused as a whole
    assert!(records.is_err());
    let down = DeltaRecord::between(&x, &y, b"r");
    assert_eq!(down.delta_skip, -4_000_000_000i64);
    let up = DeltaRecord::between(&y, &x, b"r");
    assert_eq!(up.delta_skip, 4_000_000_000i64);
}

#[test]
fn strand_deltas_add_up_to_the_delta() {
    let counts = [(0u32, 0u32), (3, 2), (1, 1), (0, 9), (7, 0), (2, 2)];
    let aggregates: Vec<PositionAggregate> = counts
        .iter()
        .enumerate()
        .map(|(i, (f, r))| PositionAggregate::from_counts(0, i as u32, 20, 1, 2, *f, *r).unwrap())
        .collect();
    let records = compute_deltas(&aggregates, &sc_names()).unwrap();
    assert_eq!(records.len(), 5);
    for (i, record) in records.iter().enumerate() {
        assert_eq!(record.delta_skip_fwd + record.delta_skip_rev, record.delta_skip);
        assert_eq!(record.delta_skip_fwd, counts[i].0 as i64 - counts[i + 1].0 as i64);
        assert_eq!(record.delta_skip_rev, counts[i].1 as i64 - counts[i + 1].1 as i64);
        assert_eq!(record.skip_count_fwd + record.skip_count_rev, record.skip_count);
        assert_eq!(record.coverage_count, 3);
    }
}

#[test]
fn region_admits_start_and_not_end() {
    let region = Region::new(50, 60);
    assert!(!region.admits(49));
    assert!(region.admits(50));
    assert!(region.admits(59));
    assert!(!region.admits(60));
    assert!(!Region::new(60, 50).admits(55));
    assert!(!Region::new(5, 5).admits(5));
    let whole = PipelineConfig::whole_reference(10);
    assert!(whole.admits(0));
    assert!(whole.admits(u32::MAX));
    let bounded = PipelineConfig::bounded(10, 50, 60);
    assert!(bounded.admits(50));
    assert!(!bounded.admits(60));
}

#[test]
fn rerun_gives_identical_rows() {
    let columns: Vec<PileupColumn> =
        (0u32..40).map(|c| sc_column(c / 20, c % 20, (c % 7) as usize, 2)).collect();
    let config = PipelineConfig::default().with_strands(true);
    let first = run_pipeline(&columns, &sc_names(), &config);
    let second = run_pipeline(&columns, &sc_names(), &config);
    assert!(first.is_ok());
    assert_eq!(first, second);
    assert_eq!(first.unwrap().len(), 38);
}
