//! The identifier model: point format, file format, area code, coordinate
//! system and grid coordinate, each with strict parsing from text and
//! rendering to the exact substrings the remote URL scheme expects.

use vstd::prelude::*;
use crate::text::{
    lower_char, seq_lower, eq_ignore_case, lower_char_exec, dec_digits, digits_value,
    is_u64_digits, parse_u64, u64_to_string, push_char, first_underscore, find_underscore,
};

verus! {

/// The LiDAR product family.
#[derive(Clone, Copy, PartialEq, Eq, Structural, Debug)]
pub enum PointFormat {
    GKOT,
    OTR,
    DTM,
}

/// The on-disk container format.
#[derive(Clone, Copy, PartialEq, Eq, Structural, Debug)]
pub enum FileFormat {
    ZLAS,
    LAZ,
    ASC,
}

/// A coverage block: one letter and an unsigned number, e.g. `b14`.
#[derive(Clone, Copy, PartialEq, Eq, Structural, Debug)]
pub struct AreaCode {
    pub letter: char,
    pub number: u32,
}

/// The national reference frame of the grid indices.
#[derive(Clone, Copy, PartialEq, Eq, Structural, Debug)]
pub enum CoordinateSystem {
    D96TM,
    D48GK,
}

/// One grid cell, a plain pair of unsigned integers.
#[derive(Clone, Copy, PartialEq, Eq, Structural, Debug)]
pub struct Coordinate {
    pub x: u64,
    pub y: u64,
}

/// URL path token of a point format (note: DTM renders as `dmr1`).
pub open spec fn pf_token(pf: PointFormat) -> Seq<char> {
    match pf {
        PointFormat::GKOT => "gkot"@,
        PointFormat::OTR => "otr"@,
        PointFormat::DTM => "dmr1"@,
    }
}

/// Filename infix of a point format.
pub open spec fn pf_infix(pf: PointFormat) -> Seq<char> {
    match pf {
        PointFormat::GKOT => ""@,
        PointFormat::OTR => "R"@,
        PointFormat::DTM => "1"@,
    }
}

/// URL path token (and file extension) of a file format.
pub open spec fn ff_token(ff: FileFormat) -> Seq<char> {
    match ff {
        FileFormat::ZLAS => "zlas"@,
        FileFormat::LAZ => "laz"@,
        FileFormat::ASC => "asc"@,
    }
}

/// URL path token of a coordinate system.
pub open spec fn cs_token(cs: CoordinateSystem) -> Seq<char> {
    match cs {
        CoordinateSystem::D96TM => "D96TM"@,
        CoordinateSystem::D48GK => "D48GK"@,
    }
}

/// Filename infix of a coordinate system.
pub open spec fn cs_infix(cs: CoordinateSystem) -> Seq<char> {
    match cs {
        CoordinateSystem::D96TM => "TM"@,
        CoordinateSystem::D48GK => "GK"@,
    }
}

/// URL token of an area code: letter, underscore, number.
pub open spec fn area_token(a: AreaCode) -> Seq<char> {
    seq![a.letter] + "_"@ + dec_digits(a.number as nat)
}

/// Filename stem of a coordinate bound to a coordinate system and a point
/// format: `{CS-infix}{PF-infix}_{x}_{y}`.
pub open spec fn coord_filename(cs: CoordinateSystem, pf: PointFormat, x: u64, y: u64) -> Seq<
    char,
> {
    cs_infix(cs) + pf_infix(pf) + "_"@ + dec_digits(x as nat) + "_"@ + dec_digits(y as nat)
}

/// Case-insensitive recognition of a point format token.
pub open spec fn spec_parse_point_format(s: Seq<char>) -> Option<PointFormat> {
    if seq_lower(s) == "gkot"@ {
        Some(PointFormat::GKOT)
    } else if seq_lower(s) == "otr"@ {
        Some(PointFormat::OTR)
    } else if seq_lower(s) == "dtm"@ {
        Some(PointFormat::DTM)
    } else {
        None
    }
}

/// Case-insensitive recognition of a file format token.
pub open spec fn spec_parse_file_format(s: Seq<char>) -> Option<FileFormat> {
    if seq_lower(s) == "zlas"@ {
        Some(FileFormat::ZLAS)
    } else if seq_lower(s) == "laz"@ {
        Some(FileFormat::LAZ)
    } else if seq_lower(s) == "asc"@ {
        Some(FileFormat::ASC)
    } else {
        None
    }
}

/// Case-insensitive recognition of a coordinate system token.
pub open spec fn spec_parse_coordinate_system(s: Seq<char>) -> Option<CoordinateSystem> {
    if seq_lower(s) == "d96tm"@ {
        Some(CoordinateSystem::D96TM)
    } else if seq_lower(s) == "d48gk"@ {
        Some(CoordinateSystem::D48GK)
    } else {
        None
    }
}

/// An area code is one letter (stored lowercased) followed by the text of
/// an unsigned 32-bit integer.
pub open spec fn spec_parse_area_code(s: Seq<char>) -> Option<AreaCode> {
    if s.len() == 0 {
        None
    } else if is_u64_digits(s.skip(1)) && digits_value(s.skip(1)) <= u32::MAX as int {
        Some(AreaCode { letter: lower_char(s[0]), number: digits_value(s.skip(1)) as u32 })
    } else {
        None
    }
}

/// A coordinate is `X_Y`: the part before the first underscore and the
/// part between the first and the second underscore (or the end), both
/// unsigned 64-bit integers. Anything after a second underscore is
/// ignored.
pub open spec fn spec_parse_coordinate(s: Seq<char>) -> Option<Coordinate> {
    let u1 = first_underscore(s);
    if u1 == s.len() {
        None
    } else {
        let xs = s.take(u1);
        let rest = s.skip(u1 + 1);
        let ys = rest.take(first_underscore(rest));
        if is_u64_digits(xs) && is_u64_digits(ys) {
            Some(Coordinate { x: digits_value(xs) as u64, y: digits_value(ys) as u64 })
        } else {
            None
        }
    }
}

/// The error text for a rejected area code: the letter may be missing, or
/// the numeric portion may not be an unsigned 32-bit integer.
pub open spec fn area_code_error(s: Seq<char>) -> Seq<char> {
    if s.len() == 0 {
        "Area code must have a letter"@
    } else {
        "Invalid number: "@ + s.skip(1)
    }
}

/// The error text for a rejected coordinate: the separator may be missing,
/// or one of the two numeric parts (x checked first) may not be an
/// unsigned 64-bit integer.
pub open spec fn coordinate_error(s: Seq<char>) -> Seq<char> {
    let u1 = first_underscore(s);
    if u1 == s.len() {
        "No y coordinate"@
    } else if !is_u64_digits(s.take(u1)) {
        "X coordinate is not a number"@
    } else {
        "Y coordinate is not a number"@
    }
}

impl PointFormat {
    /// Parses a point format token, case-insensitively.
    pub fn from_str(s: &str) -> (r: Result<PointFormat, String>)
        ensures
            match spec_parse_point_format(s@) {
                Some(pf) => r == Ok::<PointFormat, String>(pf),
                None => (r matches Err(m) && m@ == "Unknown point format: "@ + s@),
            },
    {
        proof {
            lemma_tokens_lower();
        }
        if eq_ignore_case(s, "gkot") {
            Ok(PointFormat::GKOT)
        } else if eq_ignore_case(s, "otr") {
            Ok(PointFormat::OTR)
        } else if eq_ignore_case(s, "dtm") {
            Ok(PointFormat::DTM)
        } else {
            Err(String::from_str("Unknown point format: ").concat(s))
        }
    }

    /// The token used in the URL path, also the local file extension.
    pub fn url_token(&self) -> (r: &'static str)
        ensures
            r@ == pf_token(*self),
    {
        match self {
            PointFormat::GKOT => "gkot",
            PointFormat::OTR => "otr",
            PointFormat::DTM => "dmr1",
        }
    }

    /// The short infix used in the filename portion of the URL.
    pub fn filename_infix(&self) -> (r: &'static str)
        ensures
            r@ == pf_infix(*self),
    {
        match self {
            PointFormat::GKOT => "",
            PointFormat::OTR => "R",
            PointFormat::DTM => "1",
        }
    }
}

impl FileFormat {
    /// Parses a file format token, case-insensitively.
    pub fn from_str(s: &str) -> (r: Result<FileFormat, String>)
        ensures
            match spec_parse_file_format(s@) {
                Some(ff) => r == Ok::<FileFormat, String>(ff),
                None => (r matches Err(m) && m@ == "Unknown file format: "@ + s@),
            },
    {
        proof {
            lemma_tokens_lower();
        }
        if eq_ignore_case(s, "zlas") {
            Ok(FileFormat::ZLAS)
        } else if eq_ignore_case(s, "laz") {
            Ok(FileFormat::LAZ)
        } else if eq_ignore_case(s, "asc") {
            Ok(FileFormat::ASC)
        } else {
            Err(String::from_str("Unknown file format: ").concat(s))
        }
    }

    /// The token used in the URL path and as the remote file extension.
    pub fn url_token(&self) -> (r: &'static str)
        ensures
            r@ == ff_token(*self),
    {
        match self {
            FileFormat::ZLAS => "zlas",
            FileFormat::LAZ => "laz",
            FileFormat::ASC => "asc",
        }
    }
}

impl CoordinateSystem {
    /// Parses a coordinate system token, case-insensitively.
    pub fn from_str(s: &str) -> (r: Result<CoordinateSystem, String>)
        ensures
            match spec_parse_coordinate_system(s@) {
                Some(cs) => r == Ok::<CoordinateSystem, String>(cs),
                None => (r matches Err(m) && m@ == "Unknown coordinate system"@),
            },
    {
        proof {
            lemma_tokens_lower();
        }
        if eq_ignore_case(s, "d96tm") {
            Ok(CoordinateSystem::D96TM)
        } else if eq_ignore_case(s, "d48gk") {
            Ok(CoordinateSystem::D48GK)
        } else {
            Err(String::from_str("Unknown coordinate system"))
        }
    }

    /// The token used in the URL path, exact case.
    pub fn url_token(&self) -> (r: &'static str)
        ensures
            r@ == cs_token(*self),
    {
        match self {
            CoordinateSystem::D96TM => "D96TM",
            CoordinateSystem::D48GK => "D48GK",
        }
    }

    /// The two-letter infix used in the filename portion of the URL.
    pub fn filename_infix(&self) -> (r: &'static str)
        ensures
            r@ == cs_infix(*self),
    {
        match self {
            CoordinateSystem::D96TM => "TM",
            CoordinateSystem::D48GK => "GK",
        }
    }
}

impl AreaCode {
    /// Parses an area code: a letter (lowercased) followed by an unsigned
    /// base-10 number.
    pub fn from_str(s: &str) -> (r: Result<AreaCode, String>)
        ensures
            match spec_parse_area_code(s@) {
                Some(a) => r == Ok::<AreaCode, String>(a),
                None => (r matches Err(m) && m@ == area_code_error(s@)),
            },
    {
        let n: usize = s.unicode_len();
        if n == 0 {
            return Err(String::from_str("Area code must have a letter"));
        }
        let letter = lower_char_exec(s.get_char(0));
        let digits = s.substring_char(1, n);
        assert(digits@ =~= s@.skip(1));
        if let Some(v) = parse_u64(digits) {
            if v <= u32::MAX as u64 {
                Ok(AreaCode { letter, number: v as u32 })
            } else {
                Err(String::from_str("Invalid number: ").concat(digits))
            }
        } else {
            Err(String::from_str("Invalid number: ").concat(digits))
        }
    }

    /// The URL token: letter, underscore, number.
    pub fn url_token(&self) -> (r: String)
        ensures
            r@ == area_token(*self),
    {
        let mut out = String::new();
        push_char(&mut out, self.letter);
        out.append("_");
        let num = u64_to_string(self.number as u64);
        let out = out.concat(num.as_str());
        assert(out@ =~= area_token(*self));
        out
    }
}

impl Coordinate {
    /// Parses `X_Y` with strict unsigned base-10 integer parts.
    pub fn from_str(s: &str) -> (r: Result<Coordinate, String>)
        ensures
            match spec_parse_coordinate(s@) {
                Some(c) => r == Ok::<Coordinate, String>(c),
                None => (r matches Err(m) && m@ == coordinate_error(s@)),
            },
    {
        let n: usize = s.unicode_len();
        let u1 = find_underscore(s);
        if u1 == n {
            return Err(String::from_str("No y coordinate"));
        }
        let xs = s.substring_char(0, u1);
        assert(xs@ =~= s@.take(u1 as int));
        let rest = s.substring_char(u1 + 1, n);
        assert(rest@ =~= s@.skip(u1 + 1));
        let u2 = find_underscore(rest);
        let ys = rest.substring_char(0, u2);
        assert(ys@ =~= rest@.take(u2 as int));
        let xv = parse_u64(xs);
        let yv = parse_u64(ys);
        if let Some(x) = xv {
            if let Some(y) = yv {
                return Ok(Coordinate { x, y });
            }
            return Err(String::from_str("Y coordinate is not a number"));
        }
        Err(String::from_str("X coordinate is not a number"))
    }

    /// The filename stem `{CS-infix}{PF-infix}_{x}_{y}` for this
    /// coordinate bound to a coordinate system and a point format.
    pub fn filename_stem(&self, cs: &CoordinateSystem, pf: &PointFormat) -> (r: String)
        ensures
            r@ == coord_filename(*cs, *pf, self.x, self.y),
    {
        let mut out = String::from_str(cs.filename_infix());
        out.append(pf.filename_infix());
        out.append("_");
        let xs = u64_to_string(self.x);
        out.append(xs.as_str());
        out.append("_");
        let ys = u64_to_string(self.y);
        out.append(ys.as_str());
        assert(out@ =~= coord_filename(*cs, *pf, self.x, self.y));
        out
    }
}

/// ASCII lowercasing is idempotent.
pub proof fn lemma_lower_char_idempotent(c: char)
    ensures
        lower_char(lower_char(c)) == lower_char(c),
{
}

/// Each recognized token, already lowercase, is fixed by case folding.
proof fn lemma_tokens_lower()
    ensures
        seq_lower("gkot"@) == "gkot"@,
        seq_lower("otr"@) == "otr"@,
        seq_lower("dtm"@) == "dtm"@,
        seq_lower("zlas"@) == "zlas"@,
        seq_lower("laz"@) == "laz"@,
        seq_lower("asc"@) == "asc"@,
        seq_lower("d96tm"@) == "d96tm"@,
        seq_lower("d48gk"@) == "d48gk"@,
{
    reveal_strlit("gkot");
    reveal_strlit("otr");
    reveal_strlit("dtm");
    reveal_strlit("zlas");
    reveal_strlit("laz");
    reveal_strlit("asc");
    reveal_strlit("d96tm");
    reveal_strlit("d48gk");
    assert(seq_lower("gkot"@) =~= "gkot"@);
    assert(seq_lower("otr"@) =~= "otr"@);
    assert(seq_lower("dtm"@) =~= "dtm"@);
    assert(seq_lower("zlas"@) =~= "zlas"@);
    assert(seq_lower("laz"@) =~= "laz"@);
    assert(seq_lower("asc"@) =~= "asc"@);
    assert(seq_lower("d96tm"@) =~= "d96tm"@);
    assert(seq_lower("d48gk"@) =~= "d48gk"@);
}

/// Law: recognition only looks at the case-folded text, so parsing is
/// case-insensitive for each enumeration.
pub proof fn lemma_parse_case_insensitive(s: Seq<char>)
    ensures
        spec_parse_point_format(seq_lower(s)) == spec_parse_point_format(s),
        spec_parse_file_format(seq_lower(s)) == spec_parse_file_format(s),
        spec_parse_coordinate_system(seq_lower(s)) == spec_parse_coordinate_system(s),
{
    assert(seq_lower(seq_lower(s)) =~= seq_lower(s)) by {
        assert forall|k: int| 0 <= k < s.len() implies lower_char(lower_char(s[k])) == lower_char(
            s[k],
        ) by {
            lemma_lower_char_idempotent(s[k]);
        }
    }
}

/// Law: for every recognized token of each enumeration, parsing the token
/// yields the variant whose rendering is the canonical form: `gkot`,
/// `otr`, `dmr1` (URL) for the point formats parsed from `gkot`, `otr`,
/// `dtm`; `zlas`, `laz`, `asc` for the file formats; `D96TM`, `D48GK` for
/// the coordinate systems.
pub proof fn lemma_enum_round_trip()
    ensures
        spec_parse_point_format("gkot"@) == Some(PointFormat::GKOT),
        spec_parse_point_format("otr"@) == Some(PointFormat::OTR),
        spec_parse_point_format("dtm"@) == Some(PointFormat::DTM),
        spec_parse_file_format("zlas"@) == Some(FileFormat::ZLAS),
        spec_parse_file_format("laz"@) == Some(FileFormat::LAZ),
        spec_parse_file_format("asc"@) == Some(FileFormat::ASC),
        spec_parse_coordinate_system("d96tm"@) == Some(CoordinateSystem::D96TM),
        spec_parse_coordinate_system("d48gk"@) == Some(CoordinateSystem::D48GK),
        pf_token(PointFormat::GKOT) == "gkot"@,
        pf_token(PointFormat::OTR) == "otr"@,
        pf_token(PointFormat::DTM) == "dmr1"@,
        ff_token(FileFormat::ZLAS) == "zlas"@,
        ff_token(FileFormat::LAZ) == "laz"@,
        ff_token(FileFormat::ASC) == "asc"@,
        cs_token(CoordinateSystem::D96TM) == "D96TM"@,
        cs_token(CoordinateSystem::D48GK) == "D48GK"@,
{
    lemma_tokens_lower();
    reveal_strlit("gkot");
    reveal_strlit("otr");
    reveal_strlit("dtm");
    reveal_strlit("zlas");
    reveal_strlit("laz");
    reveal_strlit("asc");
    reveal_strlit("d96tm");
    reveal_strlit("d48gk");
    assert(seq_lower("otr"@) != "gkot"@);
    assert(seq_lower("dtm"@) != "gkot"@);
    assert("dtm"@[0] != "otr"@[0]);
    assert(seq_lower("dtm"@) != "otr"@);
    assert(seq_lower("laz"@) != "zlas"@);
    assert(seq_lower("asc"@) != "zlas"@);
    assert("asc"@[0] != "laz"@[0]);
    assert(seq_lower("asc"@) != "laz"@);
    assert("d48gk"@[1] != "d96tm"@[1]);
    assert(seq_lower("d48gk"@) != "d96tm"@);
}

} // verus!
