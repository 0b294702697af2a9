//! The URL composer: a fully-specified tile identifier with its canonical
//! remote URL and its canonical local output path.

use vstd::prelude::*;
use crate::ident::{
    PointFormat, FileFormat, AreaCode, CoordinateSystem, Coordinate, pf_token, ff_token,
    cs_token, area_token, coord_filename,
};
use crate::text::dec_digits;

verus! {

/// The canonical URL of one tile:
/// `http://gis.arso.gov.si/lidar/{pf}/{area}/{cs}/{stem}.{ff}`.
pub open spec fn url_of(
    pf: PointFormat,
    ff: FileFormat,
    area: AreaCode,
    cs: CoordinateSystem,
    x: u64,
    y: u64,
) -> Seq<char> {
    "http://gis.arso.gov.si/lidar/"@ + pf_token(pf) + "/"@ + area_token(area) + "/"@ + cs_token(
        cs,
    ) + "/"@ + coord_filename(cs, pf, x, y) + "."@ + ff_token(ff)
}

/// The canonical local path of one tile's output file:
/// `output/{x}_{y}.{pf-token}` (the point-format token, not the remote
/// file extension).
pub open spec fn output_path_of(pf: PointFormat, c: Coordinate) -> Seq<char> {
    "output/"@ + dec_digits(c.x as nat) + "_"@ + dec_digits(c.y as nat) + "."@ + pf_token(pf)
}

/// One tile to fetch: its URL and the identifier parts it was built from.
pub struct Link {
    pub url: String,
    pub point_format: PointFormat,
    pub file_format: FileFormat,
    pub area_code: AreaCode,
    pub coordinate_system: CoordinateSystem,
    pub coordinate: Coordinate,
}

impl Link {
    /// Composes the canonical tile URL for the given identifier parts.
    pub fn new(
        point_format: &PointFormat,
        file_format: &FileFormat,
        area_code: &AreaCode,
        coordinate_system: &CoordinateSystem,
        coordinate: Coordinate,
    ) -> (r: Link)
        ensures
            r.url@ == url_of(
                *point_format,
                *file_format,
                *area_code,
                *coordinate_system,
                coordinate.x,
                coordinate.y,
            ),
            r.point_format == *point_format,
            r.file_format == *file_format,
            r.area_code == *area_code,
            r.coordinate_system == *coordinate_system,
            r.coordinate == coordinate,
    {
        let mut url = String::from_str("http://gis.arso.gov.si/lidar/");
        url.append(point_format.url_token());
        url.append("/");
        let area = area_code.url_token();
        url.append(area.as_str());
        url.append("/");
        url.append(coordinate_system.url_token());
        url.append("/");
        let stem = coordinate.filename_stem(coordinate_system, point_format);
        url.append(stem.as_str());
        url.append(".");
        url.append(file_format.url_token());
        assert(url@ =~= url_of(
            *point_format,
            *file_format,
            *area_code,
            *coordinate_system,
            coordinate.x,
            coordinate.y,
        ));
        Link {
            url,
            point_format: *point_format,
            file_format: *file_format,
            area_code: *area_code,
            coordinate_system: *coordinate_system,
            coordinate,
        }
    }

    /// The local path this tile's body must be written to.
    pub fn output_path(&self) -> (r: String)
        ensures
            r@ == output_path_of(self.point_format, self.coordinate),
    {
        let mut out = String::from_str("output/");
        let xs = crate::text::u64_to_string(self.coordinate.x);
        out.append(xs.as_str());
        out.append("_");
        let ys = crate::text::u64_to_string(self.coordinate.y);
        out.append(ys.as_str());
        out.append(".");
        out.append(self.point_format.url_token());
        assert(out@ =~= output_path_of(self.point_format, self.coordinate));
        out
    }
}

} // verus!
