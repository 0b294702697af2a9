use lidar_fetch::grid::enumerate_links;
use lidar_fetch::ident::{AreaCode, Coordinate, CoordinateSystem, FileFormat, PointFormat};

#[test]
fn grid_enumeration_is_row_major() {
    let links = enumerate_links(
        &PointFormat::DTM,
        &FileFormat::ASC,
        &AreaCode { letter: 'b', number: 14 },
        &CoordinateSystem::D96TM,
        &Coordinate { x: 1, y: 1 },
        &Coordinate { x: 2, y: 2 },
    );
    assert_eq!(links.len(), 4);
    let coords: Vec<(u64, u64)> = links
        .iter()
        .map(|l| (l.coordinate.x, l.coordinate.y))
        .collect();
    assert_eq!(coords, vec![(1, 1), (1, 2), (2, 1), (2, 2)]);
    let urls: Vec<&str> = links.iter().map(|l| l.url.as_str()).collect();
    assert_eq!(
        urls,
        vec![
            "http://gis.arso.gov.si/lidar/dmr1/b_14/D96TM/TM1_1_1.asc",
            "http://gis.arso.gov.si/lidar/dmr1/b_14/D96TM/TM1_1_2.asc",
            "http://gis.arso.gov.si/lidar/dmr1/b_14/D96TM/TM1_2_1.asc",
            "http://gis.arso.gov.si/lidar/dmr1/b_14/D96TM/TM1_2_2.asc",
        ]
    );
    for l in &links {
        assert!(l.output_path().ends_with(".dmr1"));
    }
}

#[test]
fn grid_enumeration_count() {
    let links = enumerate_links(
        &PointFormat::GKOT,
        &FileFormat::ZLAS,
        &AreaCode { letter: 'b', number: 14 },
        &CoordinateSystem::D96TM,
        &Coordinate { x: 10, y: 20 },
        &Coordinate { x: 12, y: 24 },
    );
    assert_eq!(links.len(), 3 * 5);
}

#[test]
fn grid_single_cell() {
    let links = enumerate_links(
        &PointFormat::GKOT,
        &FileFormat::ZLAS,
        &AreaCode { letter: 'b', number: 14 },
        &CoordinateSystem::D96TM,
        &Coordinate { x: 510, y: 74 },
        &Coordinate { x: 510, y: 74 },
    );
    assert_eq!(links.len(), 1);
    assert_eq!(
        links[0].url,
        "http://gis.arso.gov.si/lidar/gkot/b_14/D96TM/TM_510_74.zlas"
    );
}

#[test]
fn grid_single_row_in_x_order() {
    let links = enumerate_links(
        &PointFormat::OTR,
        &FileFormat::LAZ,
        &AreaCode { letter: 'c', number: 7 },
        &CoordinateSystem::D48GK,
        &Coordinate { x: 100, y: 200 },
        &Coordinate { x: 101, y: 200 },
    );
    assert_eq!(links.len(), 2);
    assert_eq!(
        links[0].url,
        "http://gis.arso.gov.si/lidar/otr/c_7/D48GK/GKR_100_200.laz"
    );
    assert_eq!(
        links[1].url,
        "http://gis.arso.gov.si/lidar/otr/c_7/D48GK/GKR_101_200.laz"
    );
    assert_eq!(links[0].output_path(), "output/100_200.otr");
    assert_eq!(links[1].output_path(), "output/101_200.otr");
}

#[test]
fn grid_swapped_corners_is_empty() {
    let links = enumerate_links(
        &PointFormat::GKOT,
        &FileFormat::ZLAS,
        &AreaCode { letter: 'b', number: 14 },
        &CoordinateSystem::D96TM,
        &Coordinate { x: 2, y: 2 },
        &Coordinate { x: 1, y: 1 },
    );
    assert!(links.is_empty());
}
