//! The response serializer: one fixed-shape `200 OK` response with a
//! caller-chosen content type, an exact `Content-Length`, and
//! `Connection: close`. No other status line is ever produced.

use vstd::prelude::*;
use crate::bytes::{dec_digits, u64_to_decimal, append_bytes};

verus! {

pub open spec fn crlf() -> Seq<u8> {
    seq!['\r' as u8, '\n' as u8]
}

/// `HTTP/1.1 200 OK`
pub open spec fn status_line() -> Seq<u8> {
    seq![
        'H' as u8,
        'T' as u8,
        'T' as u8,
        'P' as u8,
        '/' as u8,
        '1' as u8,
        '.' as u8,
        '1' as u8,
        ' ' as u8,
        '2' as u8,
        '0' as u8,
        '0' as u8,
        ' ' as u8,
        'O' as u8,
        'K' as u8,
    ]
}

/// `Content-Type: `
pub open spec fn content_type_prefix() -> Seq<u8> {
    seq![
        'C' as u8,
        'o' as u8,
        'n' as u8,
        't' as u8,
        'e' as u8,
        'n' as u8,
        't' as u8,
        '-' as u8,
        'T' as u8,
        'y' as u8,
        'p' as u8,
        'e' as u8,
        ':' as u8,
        ' ' as u8,
    ]
}

/// `Content-Length: `
pub open spec fn content_length_prefix() -> Seq<u8> {
    seq![
        'C' as u8,
        'o' as u8,
        'n' as u8,
        't' as u8,
        'e' as u8,
        'n' as u8,
        't' as u8,
        '-' as u8,
        'L' as u8,
        'e' as u8,
        'n' as u8,
        'g' as u8,
        't' as u8,
        'h' as u8,
        ':' as u8,
        ' ' as u8,
    ]
}

/// `Connection: close`
pub open spec fn connection_close_line() -> Seq<u8> {
    seq![
        'C' as u8,
        'o' as u8,
        'n' as u8,
        'n' as u8,
        'e' as u8,
        'c' as u8,
        't' as u8,
        'i' as u8,
        'o' as u8,
        'n' as u8,
        ':' as u8,
        ' ' as u8,
        'c' as u8,
        'l' as u8,
        'o' as u8,
        's' as u8,
        'e' as u8,
    ]
}

/// `image/png`
pub open spec fn content_type_png() -> Seq<u8> {
    seq![
        'i' as u8,
        'm' as u8,
        'a' as u8,
        'g' as u8,
        'e' as u8,
        '/' as u8,
        'p' as u8,
        'n' as u8,
        'g' as u8,
    ]
}

/// `text/html`
pub open spec fn content_type_html() -> Seq<u8> {
    seq![
        't' as u8,
        'e' as u8,
        'x' as u8,
        't' as u8,
        '/' as u8,
        'h' as u8,
        't' as u8,
        'm' as u8,
        'l' as u8,
    ]
}

/// The exact bytes of the response header for a body of `body_len` bytes:
/// status line, `Content-Type`, `Content-Length`, `Connection: close`,
/// each line ended by CRLF, then the blank line.
pub open spec fn response_header(content_type: Seq<u8>, body_len: nat) -> Seq<u8> {
    status_line() + crlf() + content_type_prefix() + content_type + crlf()
        + content_length_prefix() + dec_digits(body_len) + crlf() + connection_close_line() + crlf()
        + crlf()
}

fn push_crlf(r: &mut Vec<u8>)
    ensures
        final(r)@ == old(r)@ + crlf(),
{
    r.push('\r' as u8);
    r.push('\n' as u8);
    proof {
        assert(r@ =~= old(r)@ + crlf());
    }
}

/// `image/png`, as the `Content-Type` value for a rendered tile.
pub fn content_type_png_bytes() -> (v: Vec<u8>)
    ensures
        v@ == content_type_png(),
{
    let mut v: Vec<u8> = Vec::new();
    v.push('i' as u8);
    v.push('m' as u8);
    v.push('a' as u8);
    v.push('g' as u8);
    v.push('e' as u8);
    v.push('/' as u8);
    v.push('p' as u8);
    v.push('n' as u8);
    v.push('g' as u8);
    proof {
        assert(v@ =~= content_type_png());
    }
    v
}

/// `text/html`, as the `Content-Type` value for the statistics report.
pub fn content_type_html_bytes() -> (v: Vec<u8>)
    ensures
        v@ == content_type_html(),
{
    let mut v: Vec<u8> = Vec::new();
    v.push('t' as u8);
    v.push('e' as u8);
    v.push('x' as u8);
    v.push('t' as u8);
    v.push('/' as u8);
    v.push('h' as u8);
    v.push('t' as u8);
    v.push('m' as u8);
    v.push('l' as u8);
    proof {
        assert(v@ =~= content_type_html());
    }
    v
}

fn status_line_bytes() -> (v: Vec<u8>)
    ensures
        v@ == status_line(),
{
    let mut v: Vec<u8> = Vec::new();
    v.push('H' as u8);
    v.push('T' as u8);
    v.push('T' as u8);
    v.push('P' as u8);
    v.push('/' as u8);
    v.push('1' as u8);
    v.push('.' as u8);
    v.push('1' as u8);
    v.push(' ' as u8);
    v.push('2' as u8);
    v.push('0' as u8);
    v.push('0' as u8);
    v.push(' ' as u8);
    v.push('O' as u8);
    v.push('K' as u8);
    proof {
        assert(v@ =~= status_line());
    }
    v
}

fn content_type_prefix_bytes() -> (v: Vec<u8>)
    ensures
        v@ == content_type_prefix(),
{
    let mut v: Vec<u8> = Vec::new();
    v.push('C' as u8);
    v.push('o' as u8);
    v.push('n' as u8);
    v.push('t' as u8);
    v.push('e' as u8);
    v.push('n' as u8);
    v.push('t' as u8);
    v.push('-' as u8);
    v.push('T' as u8);
    v.push('y' as u8);
    v.push('p' as u8);
    v.push('e' as u8);
    v.push(':' as u8);
    v.push(' ' as u8);
    proof {
        assert(v@ =~= content_type_prefix());
    }
    v
}

fn content_length_prefix_bytes() -> (v: Vec<u8>)
    ensures
        v@ == content_length_prefix(),
{
    let mut v: Vec<u8> = Vec::new();
    v.push('C' as u8);
    v.push('o' as u8);
    v.push('n' as u8);
    v.push('t' as u8);
    v.push('e' as u8);
    v.push('n' as u8);
    v.push('t' as u8);
    v.push('-' as u8);
    v.push('L' as u8);
    v.push('e' as u8);
    v.push('n' as u8);
    v.push('g' as u8);
    v.push('t' as u8);
    v.push('h' as u8);
    v.push(':' as u8);
    v.push(' ' as u8);
    proof {
        assert(v@ =~= content_length_prefix());
    }
    v
}

fn connection_close_bytes() -> (v: Vec<u8>)
    ensures
        v@ == connection_close_line(),
{
    let mut v: Vec<u8> = Vec::new();
    v.push('C' as u8);
    v.push('o' as u8);
    v.push('n' as u8);
    v.push('n' as u8);
    v.push('e' as u8);
    v.push('c' as u8);
    v.push('t' as u8);
    v.push('i' as u8);
    v.push('o' as u8);
    v.push('n' as u8);
    v.push(':' as u8);
    v.push(' ' as u8);
    v.push('c' as u8);
    v.push('l' as u8);
    v.push('o' as u8);
    v.push('s' as u8);
    v.push('e' as u8);
    proof {
        assert(v@ =~= connection_close_line());
    }
    v
}

/// Serializes the response header for a body of `body_len` bytes.
pub fn build_response_header(content_type: &[u8], body_len: usize) -> (r: Vec<u8>)
    ensures
        r@ == response_header(content_type@, body_len as nat),
{
    let mut r = status_line_bytes();
    push_crlf(&mut r);
    let ct_prefix = content_type_prefix_bytes();
    append_bytes(&mut r, ct_prefix.as_slice());
    append_bytes(&mut r, content_type);
    push_crlf(&mut r);
    let cl_prefix = content_length_prefix_bytes();
    append_bytes(&mut r, cl_prefix.as_slice());
    let digits = u64_to_decimal(body_len as u64);
    append_bytes(&mut r, digits.as_slice());
    push_crlf(&mut r);
    let close_line = connection_close_bytes();
    append_bytes(&mut r, close_line.as_slice());
    push_crlf(&mut r);
    push_crlf(&mut r);
    proof {
        assert(r@ =~= response_header(content_type@, body_len as nat));
    }
    r
}

/// Serializes the whole response: the exact header for this body's
/// length, then the raw body bytes.
pub fn build_response(content_type: &[u8], body: &[u8]) -> (r: Vec<u8>)
    ensures
        r@ == response_header(content_type@, body@.len()) + body@,
{
    let mut r = build_response_header(content_type, body.len());
    append_bytes(&mut r, body);
    r
}

} // verus!
