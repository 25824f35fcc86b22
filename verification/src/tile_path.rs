//! The tile-address parser: turns a URL path into a validated tile
//! coordinate, and writes a tile back as its canonical path.
//!
//! A path matches when, after cutting the query string (everything from
//! the last `?`) and a trailing `.png` suffix, its last three non-empty
//! `/`-separated segments are decimal numbers `z`, `x`, `y` with
//! `z <= MAX_ZOOM`. Anything else is an absence signal, not an error.

use vstd::prelude::*;
use crate::bytes::{
    split_bytes,
    split_on,
    token_views,
    is_digits,
    is_digit,
    digits_val,
    dec_digits,
    lemma_dec_digits,
    lemma_split_bytes_no_sep,
    lemma_split_bytes_concat,
    last_byte_index,
    lemma_last_byte_index_at,
    lemma_last_byte_index_none,
    parse_decimal_u32,
    u64_to_decimal,
    append_bytes,
};
use crate::tile::{Tile, MAX_ZOOM};

verus! {

pub open spec fn slash() -> u8 {
    '/' as u8
}

pub open spec fn question_mark() -> u8 {
    '?' as u8
}

pub open spec fn png_suffix() -> Seq<u8> {
    seq!['.' as u8, 'p' as u8, 'n' as u8, 'g' as u8]
}

/// `p` with everything from its last `?` onward removed.
pub open spec fn query_stripped(p: Seq<u8>) -> Seq<u8> {
    if last_byte_index(p, question_mark()) >= 0 {
        p.take(last_byte_index(p, question_mark()))
    } else {
        p
    }
}

/// `p` with one trailing `.png` suffix removed, if it carries one.
pub open spec fn png_stripped(p: Seq<u8>) -> Seq<u8> {
    if p.len() >= 4 && p.subrange(p.len() - 4, p.len() as int) == png_suffix() {
        p.take(p.len() - 4)
    } else {
        p
    }
}

/// The non-empty tokens of `ts`, in order.
pub open spec fn nonempty_tokens(ts: Seq<Seq<u8>>) -> Seq<Seq<u8>>
    decreases ts.len(),
{
    if ts.len() == 0 {
        Seq::empty()
    } else if ts.last().len() > 0 {
        nonempty_tokens(ts.drop_last()).push(ts.last())
    } else {
        nonempty_tokens(ts.drop_last())
    }
}

/// The tile a URL path addresses, if any: the last three non-empty
/// segments read as `zoom`, `x`, `y`, with `zoom` bounded by `MAX_ZOOM`
/// and `x`, `y` only by their machine width.
pub open spec fn tile_of_path(p: Seq<u8>) -> Option<Tile> {
    let segs = nonempty_tokens(split_bytes(png_stripped(query_stripped(p)), slash()));
    if segs.len() < 3 {
        None
    } else {
        let z = segs[segs.len() - 3];
        let x = segs[segs.len() - 2];
        let y = segs[segs.len() - 1];
        if is_digits(z) && digits_val(z) <= MAX_ZOOM as nat && is_digits(x) && digits_val(x)
            <= u32::MAX as nat && is_digits(y) && digits_val(y) <= u32::MAX as nat {
            Some(
                Tile {
                    zoom: digits_val(z) as u8,
                    x: digits_val(x) as u32,
                    y: digits_val(y) as u32,
                },
            )
        } else {
            None
        }
    }
}

fn strip_query(p: &[u8]) -> (r: &[u8])
    ensures
        r@ == query_stripped(p@),
{
    let mut i: usize = p.len();
    while i > 0
        invariant
            i <= p@.len(),
            forall|k: int| i <= k < p@.len() ==> p@[k] != question_mark(),
        decreases i,
    {
        if p[i - 1] == '?' as u8 {
            proof {
                lemma_last_byte_index_at(p@, question_mark(), i - 1);
            }
            return &p[0..i - 1];
        }
        i -= 1;
    }
    proof {
        lemma_last_byte_index_none(p@, question_mark());
    }
    p
}

fn strip_png(p: &[u8]) -> (r: &[u8])
    ensures
        r@ == png_stripped(p@),
{
    let n = p.len();
    if n >= 4 && p[n - 4] == '.' as u8 && p[n - 3] == 'p' as u8 && p[n - 2] == 'n' as u8 && p[n
        - 1] == 'g' as u8 {
        proof {
            assert(p@.subrange(n - 4, n as int) =~= png_suffix());
        }
        &p[0..n - 4]
    } else {
        proof {
            if p@.len() >= 4 {
                assert(p@.subrange(n - 4, n as int)[0] == p@[n - 4]);
                assert(p@.subrange(n - 4, n as int)[1] == p@[n - 3]);
                assert(p@.subrange(n - 4, n as int)[2] == p@[n - 2]);
                assert(p@.subrange(n - 4, n as int)[3] == p@[n - 1]);
            }
        }
        p
    }
}

/// Parses a URL path as a tile address. `None` is a plain no-match: the
/// caller drops the request without a response.
pub fn extract_tile_from_path(path: &[u8]) -> (r: Option<Tile>)
    ensures
        r == tile_of_path(path@),
        r is Some ==> r->Some_0.is_valid(),
{
    let trimmed = strip_png(strip_query(path));
    let mut toks = split_on(trimmed, '/' as u8);
    let ghost full: Seq<Seq<u8>> = token_views(toks@);
    let ghost segs = nonempty_tokens(full);
    let mut found: Vec<Vec<u8>> = Vec::new();
    proof {
        assert(token_views(found@) =~~= Seq::<Seq<u8>>::empty());
        assert(nonempty_tokens(full) =~~= nonempty_tokens(token_views(toks@)) + token_views(
            found@,
        ));
    }
    while toks.len() > 0 && found.len() < 3
        invariant
            found@.len() <= 3,
            segs == nonempty_tokens(full),
            segs == nonempty_tokens(token_views(toks@)) + token_views(found@),
        decreases toks@.len(),
    {
        let ghost pre = token_views(toks@);
        let ghost fpre = token_views(found@);
        let t = toks.pop().unwrap();
        proof {
            assert(token_views(toks@) =~~= pre.drop_last());
            assert(pre.last() == t@);
        }
        if t.len() > 0 {
            found.insert(0, t);
            proof {
                assert(token_views(found@) =~~= seq![t@] + fpre);
                assert(nonempty_tokens(pre.drop_last()).push(t@) + fpre =~~= nonempty_tokens(
                    pre.drop_last(),
                ) + (seq![t@] + fpre));
            }
        }
    }
    if found.len() < 3 {
        proof {
            assert(token_views(toks@) =~~= Seq::<Seq<u8>>::empty());
            assert(segs =~~= token_views(found@));
        }
        return None;
    }
    proof {
        assert(segs.len() >= 3);
        assert(segs[segs.len() - 3] == found@[0]@);
        assert(segs[segs.len() - 2] == found@[1]@);
        assert(segs[segs.len() - 1] == found@[2]@);
    }
    let vz = match parse_decimal_u32(found[0].as_slice()) {
        Some(v) => v,
        None => {
            return None;
        },
    };
    if vz > MAX_ZOOM as u32 {
        return None;
    }
    let vx = match parse_decimal_u32(found[1].as_slice()) {
        Some(v) => v,
        None => {
            return None;
        },
    };
    let vy = match parse_decimal_u32(found[2].as_slice()) {
        Some(v) => v,
        None => {
            return None;
        },
    };
    Some(Tile { zoom: vz as u8, x: vx, y: vy })
}

/// The canonical path of a tile: `/z/x/y.png` with no leading zeros.
pub open spec fn tile_path_bytes(t: Tile) -> Seq<u8> {
    seq![slash()] + dec_digits(t.zoom as nat) + seq![slash()] + dec_digits(t.x as nat) + seq![
        slash(),
    ] + dec_digits(t.y as nat) + png_suffix()
}

/// Writes a tile as its canonical path `/z/x/y.png`.
pub fn format_tile_path(t: &Tile) -> (r: Vec<u8>)
    ensures
        r@ == tile_path_bytes(*t),
{
    let mut r: Vec<u8> = Vec::new();
    r.push('/' as u8);
    let dz = u64_to_decimal(t.zoom as u64);
    append_bytes(&mut r, dz.as_slice());
    r.push('/' as u8);
    let dx = u64_to_decimal(t.x as u64);
    append_bytes(&mut r, dx.as_slice());
    r.push('/' as u8);
    let dy = u64_to_decimal(t.y as u64);
    append_bytes(&mut r, dy.as_slice());
    r.push('.' as u8);
    r.push('p' as u8);
    r.push('n' as u8);
    r.push('g' as u8);
    proof {
        assert(r@ =~= tile_path_bytes(*t));
    }
    r
}

/// Round trip: the canonical path of any valid tile parses back to that
/// same tile.
pub proof fn lemma_tile_path_round_trip(t: Tile)
    requires
        t.is_valid(),
    ensures
        tile_of_path(tile_path_bytes(t)) == Some(t),
{
    let dz = dec_digits(t.zoom as nat);
    let dx = dec_digits(t.x as nat);
    let dy = dec_digits(t.y as nat);
    lemma_dec_digits(t.zoom as nat);
    lemma_dec_digits(t.x as nat);
    lemma_dec_digits(t.y as nat);
    let p = tile_path_bytes(t);
    let core = seq![slash()] + dz + seq![slash()] + dx + seq![slash()] + dy;
    assert(p =~= core + png_suffix());

    // No `?` occurs anywhere in the canonical path.
    assert forall|k: int| 0 <= k < p.len() implies p[k] != question_mark() by {
        assert(is_digit(p[k]) || p[k] == slash() || png_suffix().contains(p[k]));
    }
    lemma_last_byte_index_none(p, question_mark());
    assert(query_stripped(p) == p);

    // The `.png` suffix comes off, leaving the three segments.
    assert(p.subrange(p.len() - 4, p.len() as int) =~= png_suffix());
    assert(png_stripped(p) == p.take(p.len() - 4));
    assert(p.take(p.len() - 4) =~= core);

    // Splitting the remainder on `/` yields an empty first token and the
    // three digit strings.
    let rest2 = dx + seq![slash()] + dy;
    let rest1 = dz + seq![slash()] + rest2;
    assert(core =~= Seq::<u8>::empty() + seq![slash()] + rest1);
    lemma_split_bytes_concat(Seq::<u8>::empty(), rest1, slash());
    lemma_split_bytes_concat(dz, rest2, slash());
    lemma_split_bytes_concat(dx, dy, slash());
    assert(forall|i: int| 0 <= i < dz.len() ==> dz[i] != slash());
    assert(forall|i: int| 0 <= i < dx.len() ==> dx[i] != slash());
    assert(forall|i: int| 0 <= i < dy.len() ==> dy[i] != slash());
    lemma_split_bytes_no_sep(dz, slash());
    lemma_split_bytes_no_sep(dx, slash());
    lemma_split_bytes_no_sep(dy, slash());
    let ts = seq![Seq::<u8>::empty(), dz, dx, dy];
    assert(split_bytes(core, slash()) =~~= ts);

    // Only the empty token falls away.
    assert(nonempty_tokens(Seq::<Seq<u8>>::empty()) =~~= Seq::<Seq<u8>>::empty());
    assert(seq![Seq::<u8>::empty()].drop_last() =~= Seq::<Seq<u8>>::empty());
    assert(nonempty_tokens(seq![Seq::<u8>::empty()]) =~~= Seq::<Seq<u8>>::empty());
    assert(seq![Seq::<u8>::empty(), dz].drop_last() =~= seq![Seq::<u8>::empty()]);
    assert(nonempty_tokens(seq![Seq::<u8>::empty(), dz]) =~~= seq![dz]);
    assert(seq![Seq::<u8>::empty(), dz, dx].drop_last() =~= seq![Seq::<u8>::empty(), dz]);
    assert(nonempty_tokens(seq![Seq::<u8>::empty(), dz, dx]) =~~= seq![dz, dx]);
    assert(ts.drop_last() =~= seq![Seq::<u8>::empty(), dz, dx]);
    assert(nonempty_tokens(ts) =~~= seq![dz, dx, dy]);

    let segs = nonempty_tokens(split_bytes(png_stripped(query_stripped(p)), slash()));
    assert(segs =~~= seq![dz, dx, dy]);
    assert(segs[0] == dz && segs[1] == dx && segs[2] == dy);
}

} // verus!
