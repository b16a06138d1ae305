//! The exact part of bearing and distance: the longitude a pair of fixes is
//! apart, and what to call a direction. Fixes are in the `1e-7` degree
//! integers the position packet carries.

use vstd::prelude::*;

verus! {

/// The 16 points of the compass, clockwise from north.
pub const POINTS: [&'static str; 16] = [
    "N", "NNE", "NE", "ENE", "E", "ESE", "SE", "SSE", "S", "SSW", "SW", "WSW", "W", "WNW", "NW", "NNW",
];

/// Longitude difference in `1e-7` degrees, east positive.
pub open spec fn dlon(from_lon_e7: i32, to_lon_e7: i32) -> int {
    to_lon_e7 - from_lon_e7
}

/// What a compass point is called, counting clockwise from north and around.
pub open spec fn called(point: int) -> Seq<char> {
    POINTS@[point % 16]@
}

/// Longitude difference in `1e-7` degrees, east positive.
///
/// The subtraction must not happen in `i32`: two fixes either side of the
/// antimeridian are about +1.8e9 and -1.8e9, and the 3.6e9 between them is
/// past `i32::MAX`.
pub fn dlon_e7(from_lon_e7: i32, to_lon_e7: i32) -> (r: i64)
    ensures
        r == dlon(from_lon_e7, to_lon_e7),
{
    to_lon_e7 as i64 - from_lon_e7 as i64
}

/// The name of a compass point, counting clockwise from north and around.
pub fn point_name(point: usize) -> (r: &'static str)
    ensures
        r@ == called(point as int),
{
    POINTS[point % 16]
}

/// The longitude from one fix to another is what takes the first to the
/// second: it turns round with the pair and adds up along a way.
pub proof fn law_longitudes_add_up(a: i32, b: i32, c: i32)
    ensures
        a + dlon(a, b) == b,
        dlon(b, a) == -dlon(a, b),
        dlon(a, b) + dlon(b, c) == dlon(a, c),
        b > a ==> dlon(a, b) > 0,
{
}

/// The compass goes round in 16 points, clockwise from north.
pub proof fn law_the_compass_goes_round(point: int)
    requires
        0 <= point,
    ensures
        called(point + 16) == called(point),
        called(0) == "N"@ && called(1) == "NNE"@ && called(2) == "NE"@ && called(3) == "ENE"@,
        called(4) == "E"@ && called(5) == "ESE"@ && called(6) == "SE"@ && called(7) == "SSE"@,
        called(8) == "S"@ && called(9) == "SSW"@ && called(10) == "SW"@ && called(11) == "WSW"@,
        called(12) == "W"@ && called(13) == "WNW"@ && called(14) == "NW"@ && called(15) == "NNW"@,
{
}

} // verus!
