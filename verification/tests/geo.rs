use midair_proto::geo::{dlon_e7, point_name, POINTS};

/// Either side of the antimeridian the difference is past an `i32`, and comes
/// out whole.
#[test]
fn a_difference_across_the_antimeridian_does_not_wrap() {
    assert_eq!(dlon_e7(1_799_000_000, -1_799_000_000), -3_598_000_000);
    assert_eq!(dlon_e7(i32::MIN, i32::MAX), 4_294_967_295);
    assert_eq!(dlon_e7(-1_226_760_000, -1_226_759_000), 1_000);
}

/// Sixteen points, clockwise from north and around again.
#[test]
fn points_go_clockwise_and_around() {
    assert_eq!(point_name(0), "N");
    assert_eq!(point_name(4), "E");
    assert_eq!(point_name(9), "SSW");
    assert_eq!(point_name(15), "NNW");
    assert_eq!(point_name(16), "N");
    assert_eq!(POINTS.len(), 16);
}
