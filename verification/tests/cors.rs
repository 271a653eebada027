use sensor_telemetry::cors::{Kind, CORS};

#[test]
fn cors_allows_every_origin() {
    let header = CORS.on_response();
    assert_eq!(header.name, "Access-Control-Allow-Origin");
    assert_eq!(header.value, "*");
}

#[test]
fn cors_runs_on_responses() {
    let info = CORS.info();
    assert_eq!(info.name, "Add CORS headers to responses");
    assert_eq!(info.kind, Kind::Response);
}
