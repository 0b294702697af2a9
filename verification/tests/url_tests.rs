use lidar_fetch::ident::{AreaCode, Coordinate, CoordinateSystem, FileFormat, PointFormat};
use lidar_fetch::link::Link;

#[test]
fn url_is_deterministic_for_gkot_tile() {
    let link = Link::new(
        &PointFormat::GKOT,
        &FileFormat::ZLAS,
        &AreaCode { letter: 'b', number: 14 },
        &CoordinateSystem::D96TM,
        Coordinate { x: 510, y: 74 },
    );
    assert_eq!(
        link.url,
        "http://gis.arso.gov.si/lidar/gkot/b_14/D96TM/TM_510_74.zlas"
    );
}

#[test]
fn url_variant_otr_d48gk() {
    let link = Link::new(
        &PointFormat::OTR,
        &FileFormat::LAZ,
        &AreaCode { letter: 'c', number: 7 },
        &CoordinateSystem::D48GK,
        Coordinate { x: 100, y: 200 },
    );
    assert_eq!(
        link.url,
        "http://gis.arso.gov.si/lidar/otr/c_7/D48GK/GKR_100_200.laz"
    );
}

#[test]
fn url_variant_dtm_renders_dmr1() {
    let link = Link::new(
        &PointFormat::DTM,
        &FileFormat::ASC,
        &AreaCode { letter: 'b', number: 14 },
        &CoordinateSystem::D96TM,
        Coordinate { x: 1, y: 2 },
    );
    assert_eq!(
        link.url,
        "http://gis.arso.gov.si/lidar/dmr1/b_14/D96TM/TM1_1_2.asc"
    );
}

#[test]
fn url_from_parsed_input() {
    let pf = PointFormat::from_str("GKOT").unwrap();
    let ff = FileFormat::from_str("zlas").unwrap();
    let area = AreaCode::from_str("b14").unwrap();
    let cs = CoordinateSystem::from_str("D96TM").unwrap();
    let c = Coordinate::from_str("510_74").unwrap();
    let link = Link::new(&pf, &ff, &area, &cs, c);
    assert_eq!(
        link.url,
        "http://gis.arso.gov.si/lidar/gkot/b_14/D96TM/TM_510_74.zlas"
    );
}

#[test]
fn output_path_uses_point_format_token() {
    let link = Link::new(
        &PointFormat::GKOT,
        &FileFormat::ZLAS,
        &AreaCode { letter: 'b', number: 14 },
        &CoordinateSystem::D96TM,
        Coordinate { x: 510, y: 74 },
    );
    assert_eq!(link.output_path(), "output/510_74.gkot");
}

#[test]
fn output_path_for_dtm_tile() {
    let link = Link::new(
        &PointFormat::DTM,
        &FileFormat::ASC,
        &AreaCode { letter: 'b', number: 14 },
        &CoordinateSystem::D96TM,
        Coordinate { x: 1, y: 2 },
    );
    assert_eq!(link.output_path(), "output/1_2.dmr1");
}
