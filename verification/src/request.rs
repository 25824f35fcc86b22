//! The request-line parser: splits `GET <path> HTTP/1.x` on spaces and
//! hands the path through verbatim. No headers and no body are ever read.

use vstd::prelude::*;
use crate::bytes::{split_bytes, split_on, bytes_eq};

verus! {

/// Why a request line was refused.
#[derive(Clone, Copy, PartialEq, Eq, Structural, Debug)]
pub enum RequestError {
    /// The line does not split into exactly three space-separated tokens.
    MalformedRequestLine,
    /// The method token is not `GET`.
    UnsupportedMethod,
    /// The version token is neither `HTTP/1.1` nor `HTTP/1.0`.
    UnsupportedVersion,
}

pub open spec fn space() -> u8 {
    ' ' as u8
}

pub open spec fn get_method() -> Seq<u8> {
    seq!['G' as u8, 'E' as u8, 'T' as u8]
}

pub open spec fn http_version_11() -> Seq<u8> {
    seq![
        'H' as u8,
        'T' as u8,
        'T' as u8,
        'P' as u8,
        '/' as u8,
        '1' as u8,
        '.' as u8,
        '1' as u8,
    ]
}

pub open spec fn http_version_10() -> Seq<u8> {
    seq![
        'H' as u8,
        'T' as u8,
        'T' as u8,
        'P' as u8,
        '/' as u8,
        '1' as u8,
        '.' as u8,
        '0' as u8,
    ]
}

/// What the parser yields for a raw request line: the path token of a
/// well-formed `GET` line, or the reason the line was refused.
pub open spec fn parsed_request(line: Seq<u8>) -> Result<Seq<u8>, RequestError> {
    let ts = split_bytes(line, space());
    if ts.len() != 3 {
        Err(RequestError::MalformedRequestLine)
    } else if ts[0] != get_method() {
        Err(RequestError::UnsupportedMethod)
    } else if ts[2] != http_version_11() && ts[2] != http_version_10() {
        Err(RequestError::UnsupportedVersion)
    } else {
        Ok(ts[1])
    }
}

fn get_method_bytes() -> (v: Vec<u8>)
    ensures
        v@ == get_method(),
{
    let mut v: Vec<u8> = Vec::new();
    v.push('G' as u8);
    v.push('E' as u8);
    v.push('T' as u8);
    proof {
        assert(v@ =~= get_method());
    }
    v
}

fn http_version_bytes(last: u8) -> (v: Vec<u8>)
    ensures
        v@ == seq![
            'H' as u8,
            'T' as u8,
            'T' as u8,
            'P' as u8,
            '/' as u8,
            '1' as u8,
            '.' as u8,
            last,
        ],
{
    let mut v: Vec<u8> = Vec::new();
    v.push('H' as u8);
    v.push('T' as u8);
    v.push('T' as u8);
    v.push('P' as u8);
    v.push('/' as u8);
    v.push('1' as u8);
    v.push('.' as u8);
    v.push(last);
    proof {
        assert(v@ =~= seq![
            'H' as u8,
            'T' as u8,
            'T' as u8,
            'P' as u8,
            '/' as u8,
            '1' as u8,
            '.' as u8,
            last,
        ]);
    }
    v
}

/// Parses one raw HTTP request line and returns its path token.
///
/// The line must split on single spaces into exactly `GET`, a path and
/// `HTTP/1.1` or `HTTP/1.0`; the path comes back verbatim, query string
/// included.
pub fn extract_path_from_request(line: &[u8]) -> (r: Result<Vec<u8>, RequestError>)
    ensures
        match r {
            Ok(p) => parsed_request(line@) == Ok::<Seq<u8>, RequestError>(p@),
            Err(e) => parsed_request(line@) == Err::<Seq<u8>, RequestError>(e),
        },
{
    let mut tokens = split_on(line, ' ' as u8);
    if tokens.len() != 3 {
        return Err(RequestError::MalformedRequestLine);
    }
    let method_ok = bytes_eq(tokens[0].as_slice(), get_method_bytes().as_slice());
    if !method_ok {
        return Err(RequestError::UnsupportedMethod);
    }
    let version_ok = bytes_eq(tokens[2].as_slice(), http_version_bytes('1' as u8).as_slice())
        || bytes_eq(tokens[2].as_slice(), http_version_bytes('0' as u8).as_slice());
    if !version_ok {
        return Err(RequestError::UnsupportedVersion);
    }
    let path = tokens.remove(1);
    Ok(path)
}

} // verus!
