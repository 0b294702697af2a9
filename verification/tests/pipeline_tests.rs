use lidar_fetch::grid::enumerate_links;
use lidar_fetch::ident::{AreaCode, Coordinate, CoordinateSystem, FileFormat, PointFormat};
use lidar_fetch::link::Link;
use lidar_fetch::pipeline::{action_for, plan_writes, Scheduler, WriteAction, CONCURRENT_REQUESTS};

fn sample_links() -> Vec<Link> {
    enumerate_links(
        &PointFormat::GKOT,
        &FileFormat::ZLAS,
        &AreaCode { letter: 'b', number: 14 },
        &CoordinateSystem::D96TM,
        &Coordinate { x: 1, y: 1 },
        &Coordinate { x: 2, y: 2 },
    )
}

#[test]
fn pairing_survives_reverse_completion() {
    let links = sample_links();
    assert_eq!(links.len(), 4);
    // Bodies arrive in reverse submission order; each carries its tile index.
    let results: Vec<(usize, Result<Vec<u8>, String>)> = vec![
        (3, Ok(vec![3u8, 3, 3])),
        (2, Ok(vec![2u8, 2])),
        (1, Ok(vec![1u8])),
        (0, Ok(vec![0u8, 0, 0, 0])),
    ];
    let acts = plan_writes(&links, results);
    assert_eq!(acts.len(), 4);
    let expected: Vec<(String, Vec<u8>)> = vec![
        (links[3].output_path(), vec![3u8, 3, 3]),
        (links[2].output_path(), vec![2u8, 2]),
        (links[1].output_path(), vec![1u8]),
        (links[0].output_path(), vec![0u8, 0, 0, 0]),
    ];
    for (act, (path, body)) in acts.iter().zip(expected.iter()) {
        match act {
            WriteAction::Save { path: p, body: b } => {
                assert_eq!(p, path);
                assert_eq!(b, body);
            }
            WriteAction::Report { .. } => panic!("unexpected report"),
        }
    }
}

#[test]
fn fetch_error_is_isolated() {
    let links = sample_links();
    let results: Vec<(usize, Result<Vec<u8>, String>)> = vec![
        (0, Ok(vec![10u8])),
        (1, Err("connection reset".to_string())),
        (2, Ok(vec![20u8])),
        (3, Ok(vec![30u8])),
    ];
    let acts = plan_writes(&links, results);
    assert_eq!(acts.len(), 4);
    let saves: Vec<&WriteAction> = acts
        .iter()
        .filter(|a| matches!(a, WriteAction::Save { .. }))
        .collect();
    let reports: Vec<&WriteAction> = acts
        .iter()
        .filter(|a| matches!(a, WriteAction::Report { .. }))
        .collect();
    assert_eq!(saves.len(), 3);
    assert_eq!(reports.len(), 1);
    match reports[0] {
        WriteAction::Report { message } => {
            assert!(message.contains(&links[1].url));
            assert_eq!(
                message,
                &format!("Got an error fetching {}: connection reset", links[1].url)
            );
        }
        WriteAction::Save { .. } => unreachable!(),
    }
}

#[test]
fn stubbed_fetch_writes_exact_body() {
    let link = Link::new(
        &PointFormat::GKOT,
        &FileFormat::ZLAS,
        &AreaCode { letter: 'b', number: 14 },
        &CoordinateSystem::D96TM,
        Coordinate { x: 510, y: 74 },
    );
    let body = b"B".to_vec();
    match action_for(&link, Ok(body.clone())) {
        WriteAction::Save { path, body: b } => {
            assert_eq!(path, "output/510_74.gkot");
            assert_eq!(b, body);
        }
        WriteAction::Report { .. } => panic!("expected a save"),
    }
}

#[test]
fn failed_fetch_reports_and_does_not_save() {
    let link = Link::new(
        &PointFormat::GKOT,
        &FileFormat::ZLAS,
        &AreaCode { letter: 'b', number: 14 },
        &CoordinateSystem::D96TM,
        Coordinate { x: 510, y: 74 },
    );
    match action_for(&link, Err("timed out".to_string())) {
        WriteAction::Save { .. } => panic!("expected a report"),
        WriteAction::Report { message } => {
            assert_eq!(
                message,
                format!("Got an error fetching {}: timed out", link.url)
            );
        }
    }
}

#[test]
fn concurrency_stays_within_bound() {
    let total = 7usize;
    let mut sched = Scheduler::new(total);
    let mut max_in_flight = 0usize;
    let mut launched_order: Vec<usize> = Vec::new();
    while !sched.is_done() {
        while let Some(i) = sched.try_launch() {
            launched_order.push(i);
            let f = sched.in_flight_count();
            if f > max_in_flight {
                max_in_flight = f;
            }
        }
        sched.on_complete();
    }
    assert!(max_in_flight <= CONCURRENT_REQUESTS);
    assert_eq!(max_in_flight, 2);
    assert_eq!(launched_order, (0..total).collect::<Vec<usize>>());
}

#[test]
fn scheduler_refuses_past_the_cap() {
    let mut sched = Scheduler::new(3);
    assert_eq!(sched.try_launch(), Some(0));
    assert_eq!(sched.try_launch(), Some(1));
    assert_eq!(sched.try_launch(), None);
    assert_eq!(sched.in_flight_count(), 2);
    sched.on_complete();
    assert_eq!(sched.try_launch(), Some(2));
    assert_eq!(sched.try_launch(), None);
    sched.on_complete();
    sched.on_complete();
    assert!(sched.is_done());
}
