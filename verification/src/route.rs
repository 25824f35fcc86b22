//! The per-connection decision: from the raw request line to either the
//! statistics report, a tile to render, or a reason to drop the
//! connection. No error ever produces response bytes — a refused request
//! is answered by closing the connection.

use vstd::prelude::*;
use crate::bytes::{bytes_eq, is_digit, lemma_dec_digits, lemma_split_bytes_concat,
    lemma_split_bytes_no_sep, split_bytes};
use crate::request::{RequestError, parsed_request, extract_path_from_request, get_method,
    http_version_11, space};
use crate::response::{content_type_png, content_type_html, content_type_png_bytes,
    content_type_html_bytes};
use crate::tile::Tile;
use crate::tile_path::{tile_of_path, extract_tile_from_path, tile_path_bytes,
    lemma_tile_path_round_trip, slash, png_suffix};

verus! {

/// What a well-formed request asks for.
#[derive(Clone, Copy, PartialEq, Eq, Structural, Debug)]
pub enum Route {
    /// The literal `/perf_stats` path while statistics are enabled.
    PerfStatsReport,
    /// A valid tile address.
    RenderTile(Tile),
}

/// Why a connection is dropped without a response.
#[derive(Clone, Copy, PartialEq, Eq, Structural, Debug)]
pub enum HandleError {
    /// No request line could be read before the stream ended.
    ReadFailed,
    /// The request line was refused by the request parser.
    Request(RequestError),
    /// The path matches neither the statistics endpoint nor a tile.
    NoTileMatch,
}

/// `/perf_stats`
pub open spec fn perf_stats_path() -> Seq<u8> {
    seq![
        '/' as u8,
        'p' as u8,
        'e' as u8,
        'r' as u8,
        'f' as u8,
        '_' as u8,
        's' as u8,
        't' as u8,
        'a' as u8,
        't' as u8,
        's' as u8,
    ]
}

/// The route a raw request line leads to: the path of a well-formed
/// `GET` line goes to the statistics report when that is enabled and the
/// path is exactly `/perf_stats`, else to the tile parser.
pub open spec fn route_of(line: Seq<u8>, perf_stats_enabled: bool) -> Result<Route, HandleError> {
    match parsed_request(line) {
        Err(e) => Err(HandleError::Request(e)),
        Ok(path) => if perf_stats_enabled && path == perf_stats_path() {
            Ok(Route::PerfStatsReport)
        } else {
            match tile_of_path(path) {
                Some(t) => Ok(Route::RenderTile(t)),
                None => Err(HandleError::NoTileMatch),
            }
        },
    }
}

fn perf_stats_path_bytes() -> (v: Vec<u8>)
    ensures
        v@ == perf_stats_path(),
{
    let mut v: Vec<u8> = Vec::new();
    v.push('/' as u8);
    v.push('p' as u8);
    v.push('e' as u8);
    v.push('r' as u8);
    v.push('f' as u8);
    v.push('_' as u8);
    v.push('s' as u8);
    v.push('t' as u8);
    v.push('a' as u8);
    v.push('t' as u8);
    v.push('s' as u8);
    proof {
        assert(v@ =~= perf_stats_path());
    }
    v
}

/// Decides what one request line asks for.
pub fn route_request(line: &[u8], perf_stats_enabled: bool) -> (r: Result<Route, HandleError>)
    ensures
        r == route_of(line@, perf_stats_enabled),
{
    let path = match extract_path_from_request(line) {
        Ok(p) => p,
        Err(e) => {
            return Err(HandleError::Request(e));
        },
    };
    if perf_stats_enabled {
        let pp = perf_stats_path_bytes();
        if bytes_eq(path.as_slice(), pp.as_slice()) {
            return Ok(Route::PerfStatsReport);
        }
    }
    match extract_tile_from_path(path.as_slice()) {
        Some(t) => Ok(Route::RenderTile(t)),
        None => Err(HandleError::NoTileMatch),
    }
}

/// Decides one connection's fate from what the reader produced: a stream
/// that ends before a line can be read is dropped as a read failure, and
/// every error leaves the connection without any response bytes.
pub fn route_connection(first_line: Option<&Vec<u8>>, perf_stats_enabled: bool) -> (r: Result<
    Route,
    HandleError,
>)
    ensures
        match first_line {
            None => r == Err::<Route, HandleError>(HandleError::ReadFailed),
            Some(line) => r == route_of(line@, perf_stats_enabled),
        },
{
    match first_line {
        None => Err(HandleError::ReadFailed),
        Some(line) => route_request(line.as_slice(), perf_stats_enabled),
    }
}

/// The request line a client sends for tile `t`: `GET /z/x/y.png HTTP/1.1`.
pub open spec fn tile_request_line(t: Tile) -> Seq<u8> {
    get_method() + seq![space()] + tile_path_bytes(t) + seq![space()] + http_version_11()
}

/// End to end: the canonical request line for any valid tile routes to
/// rendering exactly that tile, whether or not statistics are enabled.
pub proof fn lemma_tile_request_routes_to_tile(t: Tile, perf_stats_enabled: bool)
    requires
        t.is_valid(),
    ensures
        route_of(tile_request_line(t), perf_stats_enabled) == Ok::<Route, HandleError>(
            Route::RenderTile(t),
        ),
{
    let line = tile_request_line(t);
    let path = tile_path_bytes(t);
    lemma_dec_digits(t.zoom as nat);
    lemma_dec_digits(t.x as nat);
    lemma_dec_digits(t.y as nat);

    // None of the three tokens holds a space.
    assert(forall|k: int| 0 <= k < get_method().len() ==> get_method()[k] != space());
    assert(forall|k: int| 0 <= k < http_version_11().len() ==> http_version_11()[k] != space());
    assert forall|k: int| 0 <= k < path.len() implies path[k] != space() by {
        assert(is_digit(path[k]) || path[k] == slash() || png_suffix().contains(path[k]));
    }

    // The line splits into exactly `GET`, the path and the version.
    let tail = path + seq![space()] + http_version_11();
    assert(line =~= get_method() + seq![space()] + tail);
    lemma_split_bytes_concat(get_method(), tail, space());
    lemma_split_bytes_concat(path, http_version_11(), space());
    lemma_split_bytes_no_sep(get_method(), space());
    lemma_split_bytes_no_sep(path, space());
    lemma_split_bytes_no_sep(http_version_11(), space());
    assert(split_bytes(line, space()) =~~= seq![get_method(), path, http_version_11()]);

    // A tile path is never the statistics path: it ends in `g`, not `s`.
    assert(path[path.len() - 1] == 'g' as u8);
    if path == perf_stats_path() {
        assert(path[path.len() - 1] == 's' as u8);
    }

    lemma_tile_path_round_trip(t);
}

/// The `Content-Type` value a route's response carries: `text/html` for
/// the statistics report, `image/png` for a rendered tile.
pub fn response_content_type(route: &Route) -> (ct: Vec<u8>)
    ensures
        ct@ == match *route {
            Route::PerfStatsReport => content_type_html(),
            Route::RenderTile(_) => content_type_png(),
        },
{
    match route {
        Route::PerfStatsReport => content_type_html_bytes(),
        Route::RenderTile(_) => content_type_png_bytes(),
    }
}

} // verus!
