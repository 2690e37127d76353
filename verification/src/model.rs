//! The mathematical description of flattening: what the flat container holds
//! after walking a JSON value, for every configuration.

use vstd::prelude::*;
use crate::digits::dec_str;
use crate::value::JsonV;

verus! {

/// The model of a flattener configuration.
pub struct Config {
    /// The separator placed between path segments.
    pub separator: Seq<char>,
    /// Wrap scalars met under an array in a one-element array even before any
    /// collision.
    pub alt_array_flattening: bool,
    /// Append array indices to the key, so every element keeps its own key.
    pub preserve_arrays: bool,
}

/// The model of the flat container: key/value pairs in insertion order.
pub type FlatV = Seq<(Seq<char>, JsonV)>;

/// The key of a child of an object: the field's own key at the top level,
/// else the parent path extended with the separator and the field's key.
pub open spec fn child_key(id: Option<Seq<char>>, sep: Seq<char>, k: Seq<char>) -> Seq<char> {
    match id {
        None => k,
        Some(p) => p + sep + k,
    }
}

/// The key of an array element: the array's own key, unless indices are
/// preserved, in which case the element's index becomes a path segment.
pub open spec fn elem_key(cfg: Config, id: Seq<char>, i: nat) -> Seq<char> {
    if cfg.preserve_arrays {
        id + cfg.separator + dec_str(i)
    } else {
        id
    }
}

/// The position of the first entry with key `k`, or `-1` if there is none.
pub open spec fn find_key(m: FlatV, k: Seq<char>) -> int
    decreases m.len(),
{
    if m.len() == 0 {
        -1
    } else if m[0].0 == k {
        0
    } else {
        let r = find_key(m.drop_first(), k);
        if r < 0 {
            -1
        } else {
            r + 1
        }
    }
}

/// Writes one leaf into the container. A colliding write merges: onto an
/// existing array it appends, an existing lone value becomes a two-element
/// array with the earlier value first, in place. A fresh key is appended at
/// the end, wrapped in a one-element array exactly when `wrap` holds.
pub open spec fn write_leaf(m: FlatV, k: Seq<char>, v: JsonV, wrap: bool) -> FlatV {
    let i = find_key(m, k);
    if i >= 0 {
        match m[i].1 {
            JsonV::Arr(es) => m.update(i, (k, JsonV::Arr(es.push(v)))),
            _ => m.update(i, (k, JsonV::Arr(seq![m[i].1, v]))),
        }
    } else {
        m.push((k, if wrap {
            JsonV::Arr(seq![v])
        } else {
            v
        }))
    }
}

/// Walks the fields of an object from position `i` on: each field's key
/// extends the parent path, containers recurse, scalars are written as
/// leaves. `arr` tells whether an enclosing array set the wrapping policy.
pub open spec fn flatten_fields(
    cfg: Config,
    m: FlatV,
    id: Option<Seq<char>>,
    fs: Seq<(Seq<char>, JsonV)>,
    i: nat,
    arr: bool,
) -> FlatV
    decreases fs, fs.len() - i,
{
    if i >= fs.len() {
        m
    } else {
        let k = child_key(id, cfg.separator, fs[i as int].0);
        let m1 = match fs[i as int].1 {
            JsonV::Obj(fs2) => flatten_fields(cfg, m, Some(k), fs2, 0, arr),
            JsonV::Arr(es2) => flatten_elems(cfg, m, k, es2, 0),
            _ => write_leaf(m, k, fs[i as int].1, arr),
        };
        flatten_fields(cfg, m1, id, fs, i + 1, arr)
    }
}

/// Walks the elements of an array from position `i` on: each element's key
/// is the array's key, or gains the index as a segment when indices are
/// preserved. Scalars met here follow the array wrapping policy.
pub open spec fn flatten_elems(cfg: Config, m: FlatV, id: Seq<char>, es: Seq<JsonV>, i: nat) -> FlatV
    decreases es, es.len() - i,
{
    if i >= es.len() {
        m
    } else {
        let k = elem_key(cfg, id, i);
        let m1 = match es[i as int] {
            JsonV::Obj(fs2) => flatten_fields(cfg, m, Some(k), fs2, 0, cfg.alt_array_flattening),
            JsonV::Arr(es2) => flatten_elems(cfg, m, k, es2, 0),
            _ => write_leaf(m, k, es[i as int], cfg.alt_array_flattening),
        };
        flatten_elems(cfg, m1, id, es, i + 1)
    }
}

/// The flat container produced for a whole document: an object starts with no
/// parent path, an array starts at the empty key, and a lone scalar is the
/// single entry under the empty key.
pub open spec fn flatten_spec(v: JsonV, cfg: Config) -> FlatV {
    match v {
        JsonV::Obj(fs) => flatten_fields(cfg, Seq::empty(), None, fs, 0, false),
        JsonV::Arr(es) => flatten_elems(cfg, Seq::empty(), Seq::empty(), es, 0),
        _ => write_leaf(Seq::empty(), Seq::empty(), v, false),
    }
}

/// No two entries of the container share a key.
pub open spec fn unique_keys(m: FlatV) -> bool {
    forall|i: int, j: int| 0 <= i < j < m.len() ==> m[i].0 != m[j].0
}

/// `find_key` finds exactly the first position holding `k`.
pub proof fn lemma_find_key(m: FlatV, k: Seq<char>)
    ensures
        find_key(m, k) >= 0 ==> find_key(m, k) < m.len() && m[find_key(m, k)].0 == k && (forall|
            j: int,
        | 0 <= j < find_key(m, k) ==> m[j].0 != k),
        find_key(m, k) < 0 ==> forall|j: int| 0 <= j < m.len() ==> m[j].0 != k,
    decreases m.len(),
{
    if m.len() > 0 && m[0].0 != k {
        let md = m.drop_first();
        lemma_find_key(md, k);
        assert(forall|j: int| 0 <= j < md.len() ==> md[j] == m[j + 1]);
        let r = find_key(md, k);
        if r >= 0 {
            assert(m[r + 1].0 == k);
            assert(forall|j: int| 1 <= j < r + 1 ==> m[j].0 == md[j - 1].0 && md[j - 1].0 != k);
        } else {
            assert(forall|j: int| 1 <= j < m.len() ==> m[j].0 == md[j - 1].0 && md[j - 1].0 != k);
        }
    }
}

} // verus!
