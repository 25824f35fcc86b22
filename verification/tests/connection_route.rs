use tile_server::request::RequestError;
use tile_server::route::{route_connection, route_request, response_content_type, Route,
    HandleError};
use tile_server::tile::Tile;

#[test]
fn tile_request_routes_to_render() {
    let r = route_request(b"GET /5/10/12.png HTTP/1.1", false);
    assert_eq!(r, Ok(Route::RenderTile(Tile { zoom: 5, x: 10, y: 12 })));
}

#[test]
fn perf_stats_path_routes_to_report_when_enabled() {
    let r = route_request(b"GET /perf_stats HTTP/1.1", true);
    assert_eq!(r, Ok(Route::PerfStatsReport));
}

#[test]
fn perf_stats_path_is_plain_miss_when_disabled() {
    let r = route_request(b"GET /perf_stats HTTP/1.1", false);
    assert_eq!(r, Err(HandleError::NoTileMatch));
}

#[test]
fn unmatched_path_is_dropped_silently() {
    let r = route_request(b"GET /favicon.ico HTTP/1.1", true);
    assert_eq!(r, Err(HandleError::NoTileMatch));
}

#[test]
fn bad_method_reaches_route_as_request_error() {
    let r = route_request(b"PUT /5/10/12.png HTTP/1.1", false);
    assert_eq!(r, Err(HandleError::Request(RequestError::UnsupportedMethod)));
}

#[test]
fn missing_request_line_is_a_read_failure() {
    let r = route_connection(None, false);
    assert_eq!(r, Err(HandleError::ReadFailed));
}

#[test]
fn empty_request_line_is_malformed() {
    let line = b"".to_vec();
    let r = route_connection(Some(&line), false);
    assert_eq!(r, Err(HandleError::Request(RequestError::MalformedRequestLine)));
}

#[test]
fn present_line_routes_as_request() {
    let line = b"GET /0/0/0.png HTTP/1.0".to_vec();
    let r = route_connection(Some(&line), true);
    assert_eq!(r, Ok(Route::RenderTile(Tile { zoom: 0, x: 0, y: 0 })));
}

#[test]
fn perf_stats_with_query_is_not_the_report() {
    // The comparison is exact; a query string makes it an ordinary
    // (unmatched) path.
    let r = route_request(b"GET /perf_stats?verbose HTTP/1.1", true);
    assert_eq!(r, Err(HandleError::NoTileMatch));
}

#[test]
fn formatted_tile_request_routes_end_to_end() {
    let t = Tile { zoom: 12, x: 2375, y: 1410 };
    let mut line = b"GET ".to_vec();
    line.extend(tile_server::tile_path::format_tile_path(&t));
    line.extend(b" HTTP/1.1");
    assert_eq!(route_request(&line, true), Ok(Route::RenderTile(t)));
}

#[test]
fn content_type_per_route() {
    assert_eq!(response_content_type(&Route::PerfStatsReport), b"text/html".to_vec());
    let tile_route = Route::RenderTile(Tile { zoom: 5, x: 10, y: 12 });
    assert_eq!(response_content_type(&tile_route), b"image/png".to_vec());
}
