//! Splits the configured stylesheet path into the directory the drawer
//! resolves resources against and the file name the parser opens.
//!
//! The file name is the path's final component the way the platform
//! path type reads it: trailing `/` separators and trailing `.`
//! components are ignored, so `/a/b/` and `a/b/.` both name `b`. A path
//! with no component left, or whose final component is `..`, names no
//! file and is refused — startup fails on it. The base is the path with
//! the file-name component (and the separators before it) removed;
//! joining the base back with the file name addresses the same file.

use vstd::prelude::*;
use crate::bytes::append_bytes;

verus! {

/// Why a stylesheet path was refused at startup.
#[derive(Clone, Copy, PartialEq, Eq, Structural, Debug)]
pub enum StylesheetPathError {
    /// The path has no final component — it is empty or all separators
    /// and `.` components — or the final component is `..`.
    NoFileName,
}

pub open spec fn path_separator() -> u8 {
    '/' as u8
}

/// The start of the path component that ends at `e`: the position after
/// the nearest separator to its left.
pub open spec fn component_start(p: Seq<u8>, e: int) -> int
    decreases e,
{
    if e <= 0 {
        0
    } else if p[e - 1] == path_separator() {
        e
    } else {
        component_start(p, e - 1)
    }
}

pub proof fn lemma_component_start_bounds(p: Seq<u8>, e: int)
    ensures
        0 <= component_start(p, e),
        component_start(p, e) <= e || e < 0,
    decreases e,
{
    if e > 0 && p[e - 1] != path_separator() {
        lemma_component_start_bounds(p, e - 1);
    }
}

/// Where the path's final component ends, once trailing separators and
/// trailing `.` components are ignored; `0` when no component is left.
pub open spec fn file_name_end(p: Seq<u8>, e: int) -> int
    decreases e,
    via file_name_end_decreases
{
    if e <= 0 {
        0
    } else if p[e - 1] == path_separator() {
        file_name_end(p, e - 1)
    } else if p.subrange(component_start(p, e), e) == seq!['.' as u8] {
        file_name_end(p, component_start(p, e))
    } else {
        e
    }
}

#[via_fn]
proof fn file_name_end_decreases(p: Seq<u8>, e: int) {
    if e > 0 && p[e - 1] != path_separator() {
        lemma_component_start_bounds(p, e - 1);
    }
}

/// The position left of `e` once separators directly before it are
/// dropped.
pub open spec fn separators_stripped(p: Seq<u8>, e: int) -> int
    decreases e,
{
    if e <= 0 {
        0
    } else if p[e - 1] == path_separator() {
        separators_stripped(p, e - 1)
    } else {
        e
    }
}

pub open spec fn file_name_start(p: Seq<u8>) -> int {
    component_start(p, file_name_end(p, p.len() as int))
}

/// The path's final component: what the stylesheet parser opens.
pub open spec fn stylesheet_file_name(p: Seq<u8>) -> Seq<u8> {
    p.subrange(file_name_start(p), file_name_end(p, p.len() as int))
}

/// Whether the path has a final component that names a file: one is
/// left after ignoring trailing separators and `.` components, and it
/// is not `..`.
pub open spec fn names_a_file(p: Seq<u8>) -> bool {
    &&& file_name_end(p, p.len() as int) > 0
    &&& stylesheet_file_name(p) != seq!['.' as u8, '.' as u8]
}

/// The path with its file-name component removed: the bytes before it,
/// less the separators directly in front of it; a bare `/` survives so
/// that an absolute path keeps an absolute base.
pub open spec fn stylesheet_base(p: Seq<u8>) -> Seq<u8> {
    if separators_stripped(p, file_name_start(p)) == 0 && file_name_start(p) > 0 {
        seq![path_separator()]
    } else {
        p.take(separators_stripped(p, file_name_start(p)))
    }
}

fn copy_range(p: &[u8], from: usize, to: usize) -> (r: Vec<u8>)
    requires
        from <= to <= p@.len(),
    ensures
        r@ == p@.subrange(from as int, to as int),
{
    let mut r: Vec<u8> = Vec::new();
    append_bytes(&mut r, &p[from..to]);
    proof {
        assert(r@ =~= p@.subrange(from as int, to as int));
    }
    r
}

fn find_component_start(p: &[u8], e: usize) -> (s: usize)
    requires
        e <= p@.len(),
    ensures
        s as int == component_start(p@, e as int),
        s <= e,
{
    let mut s: usize = e;
    while s > 0 && p[s - 1] != '/' as u8
        invariant
            s <= e <= p@.len(),
            component_start(p@, e as int) == component_start(p@, s as int),
        decreases s,
    {
        s -= 1;
    }
    s
}

/// Splits a stylesheet path into its base directory and file name, or
/// refuses it when no final component names a file.
pub fn split_stylesheet_path(file_path: &[u8]) -> (r: Result<
    (Vec<u8>, Vec<u8>),
    StylesheetPathError,
>)
    ensures
        match r {
            Ok((base, name)) => {
                &&& names_a_file(file_path@)
                &&& base@ == stylesheet_base(file_path@)
                &&& name@ == stylesheet_file_name(file_path@)
            },
            Err(e) => {
                &&& e == StylesheetPathError::NoFileName
                &&& !names_a_file(file_path@)
            },
        },
{
    let ghost n0: int = file_path@.len() as int;
    let mut e: usize = file_path.len();
    let mut s: usize = 0;
    let mut finished: bool = false;
    while !finished
        invariant
            s <= e <= file_path@.len(),
            !finished ==> s == 0,
            file_name_end(file_path@, n0) == file_name_end(file_path@, e as int),
            finished ==> file_name_end(file_path@, e as int) == e as int,
            finished && e > 0 ==> s as int == component_start(file_path@, e as int) && s < e,
        decreases e + (if finished {
            0int
        } else {
            1int
        }),
    {
        if e == 0 {
            finished = true;
        } else if file_path[e - 1] == '/' as u8 {
            e -= 1;
        } else {
            let comp_s = find_component_start(file_path, e);
            proof {
                lemma_component_start_bounds(file_path@, e - 1);
            }
            if e - comp_s == 1 && file_path[comp_s] == '.' as u8 {
                proof {
                    assert(file_path@.subrange(comp_s as int, e as int) =~= seq!['.' as u8]);
                }
                e = comp_s;
            } else {
                proof {
                    let cs = comp_s as int;
                    let sub = file_path@.subrange(cs, e as int);
                    assert(sub.len() == e - cs);
                    assert(seq!['.' as u8].len() == 1);
                    if e - comp_s == 1 {
                        assert(sub[0] == file_path@[cs]);
                        assert(file_path@[cs] != '.' as u8);
                        assert(sub != seq!['.' as u8]);
                    } else {
                        assert(sub != seq!['.' as u8]);
                    }
                }
                s = comp_s;
                finished = true;
            }
        }
    }
    if e == 0 {
        return Err(StylesheetPathError::NoFileName);
    }
    if e - s == 2 && file_path[s] == '.' as u8 && file_path[s + 1] == '.' as u8 {
        proof {
            assert(file_path@.subrange(s as int, e as int) =~= seq!['.' as u8, '.' as u8]);
        }
        return Err(StylesheetPathError::NoFileName);
    }
    proof {
        let sub = file_path@.subrange(s as int, e as int);
        assert(sub.len() == e - s);
        assert(seq!['.' as u8, '.' as u8].len() == 2);
        if e - s == 2 {
            assert(sub[0] == file_path@[s as int]);
            assert(sub[1] == file_path@[s + 1]);
            assert(sub != seq!['.' as u8, '.' as u8]);
        } else {
            assert(sub != seq!['.' as u8, '.' as u8]);
        }
    }
    let name = copy_range(file_path, s, e);
    let mut b: usize = s;
    while b > 0 && file_path[b - 1] == '/' as u8
        invariant
            b <= s,
            s <= file_path@.len(),
            separators_stripped(file_path@, s as int) == separators_stripped(
                file_path@,
                b as int,
            ),
        decreases b,
    {
        b -= 1;
    }
    let base = if b == 0 && s > 0 {
        let mut v: Vec<u8> = Vec::new();
        v.push('/' as u8);
        proof {
            assert(v@ =~= seq![path_separator()]);
        }
        v
    } else {
        let prefix = copy_range(file_path, 0, b);
        proof {
            assert(prefix@ =~= file_path@.take(b as int));
        }
        prefix
    };
    Ok((base, name))
}

} // verus!
