use bevyearth::coord::CoordError;

#[test]
fn coord_test_coord_error_debug_format() {
    let error = CoordError { msg: "Test error".to_string() };
    let debug_str = format!("{:?}", error);
    assert!(debug_str.contains("CoordError"));
    assert!(debug_str.contains("Test error"));
}

#[test]
fn coordinates_test_coord_error_debug_format() {
    let error = bevyearth::coordinates::CoordError { msg: "Test error".to_string() };
    let debug_str = format!("{:?}", error);
    assert!(debug_str.contains("CoordError"));
    assert!(debug_str.contains("Test error"));
}
