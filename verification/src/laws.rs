//! General properties of flattening, proved once for every input.

use vstd::prelude::*;
use crate::digits::{dec_str, lemma_dec_str_inj};
use crate::model::{
    child_key, find_key, flatten_elems, flatten_fields, flatten_spec, lemma_find_key, unique_keys,
    write_leaf, Config, FlatV,
};
use crate::value::JsonV;

verus! {

/// Writing one leaf never duplicates a key: a colliding write merges in
/// place, a fresh key is appended once.
pub proof fn lemma_write_leaf_unique(m: FlatV, k: Seq<char>, v: JsonV, wrap: bool)
    requires
        unique_keys(m),
    ensures
        unique_keys(write_leaf(m, k, v, wrap)),
{
    lemma_find_key(m, k);
    let i = find_key(m, k);
    if i >= 0 {
        let r = write_leaf(m, k, v, wrap);
        assert(forall|j: int| 0 <= j < m.len() ==> r[j].0 == m[j].0);
    }
}

/// Walking an object's fields keeps the container's keys unique.
pub proof fn lemma_fields_unique(
    cfg: Config,
    m: FlatV,
    id: Option<Seq<char>>,
    fs: Seq<(Seq<char>, JsonV)>,
    i: nat,
    arr: bool,
)
    requires
        unique_keys(m),
    ensures
        unique_keys(flatten_fields(cfg, m, id, fs, i, arr)),
    decreases fs, fs.len() - i,
{
    if i < fs.len() {
        let k = child_key(id, cfg.separator, fs[i as int].0);
        match fs[i as int].1 {
            JsonV::Obj(fs2) => {
                lemma_fields_unique(cfg, m, Some(k), fs2, 0, arr);
            },
            JsonV::Arr(es2) => {
                lemma_elems_unique(cfg, m, k, es2, 0);
            },
            _ => {
                lemma_write_leaf_unique(m, k, fs[i as int].1, arr);
            },
        }
        let m1 = match fs[i as int].1 {
            JsonV::Obj(fs2) => flatten_fields(cfg, m, Some(k), fs2, 0, arr),
            JsonV::Arr(es2) => flatten_elems(cfg, m, k, es2, 0),
            _ => write_leaf(m, k, fs[i as int].1, arr),
        };
        lemma_fields_unique(cfg, m1, id, fs, i + 1, arr);
    }
}

/// Walking an array's elements keeps the container's keys unique.
pub proof fn lemma_elems_unique(cfg: Config, m: FlatV, id: Seq<char>, es: Seq<JsonV>, i: nat)
    requires
        unique_keys(m),
    ensures
        unique_keys(flatten_elems(cfg, m, id, es, i)),
    decreases es, es.len() - i,
{
    if i < es.len() {
        let k = crate::model::elem_key(cfg, id, i);
        match es[i as int] {
            JsonV::Obj(fs2) => {
                lemma_fields_unique(cfg, m, Some(k), fs2, 0, cfg.alt_array_flattening);
            },
            JsonV::Arr(es2) => {
                lemma_elems_unique(cfg, m, k, es2, 0);
            },
            _ => {
                lemma_write_leaf_unique(m, k, es[i as int], cfg.alt_array_flattening);
            },
        }
        let m1 = match es[i as int] {
            JsonV::Obj(fs2) => flatten_fields(cfg, m, Some(k), fs2, 0, cfg.alt_array_flattening),
            JsonV::Arr(es2) => flatten_elems(cfg, m, k, es2, 0),
            _ => write_leaf(m, k, es[i as int], cfg.alt_array_flattening),
        };
        lemma_elems_unique(cfg, m1, id, es, i + 1);
    }
}

/// The container invariant: for every value and every configuration, no two
/// entries of the flat result share a key. A colliding write merges into an
/// array; it never silently overwrites, and never leaves two entries behind.
pub proof fn lemma_flatten_unique_keys(v: JsonV, cfg: Config)
    ensures
        unique_keys(flatten_spec(v, cfg)),
{
    match v {
        JsonV::Obj(fs) => {
            lemma_fields_unique(cfg, Seq::empty(), None, fs, 0, false);
        },
        JsonV::Arr(es) => {
            lemma_elems_unique(cfg, Seq::empty(), Seq::empty(), es, 0);
        },
        _ => {
            lemma_write_leaf_unique(Seq::empty(), Seq::empty(), v, false);
        },
    }
}

/// Collisions merge in declaration order: for any keys `a` and `b`, any
/// scalars `v` and `w`, and any configuration, the object
/// `{a: {b: v}, a<sep>b: w}` flattens to the single entry
/// `a<sep>b: [v, w]` — the first-declared field's value first.
pub proof fn lemma_collision_order(a: Seq<char>, b: Seq<char>, v: JsonV, w: JsonV, cfg: Config)
    requires
        v.is_scalar(),
        w.is_scalar(),
    ensures
        flatten_spec(
            JsonV::Obj(seq![(a, JsonV::Obj(seq![(b, v)])), (a + cfg.separator + b, w)]),
            cfg,
        ) == seq![(a + cfg.separator + b, JsonV::Arr(seq![v, w]))],
{
    let key = a + cfg.separator + b;
    let inner: Seq<(Seq<char>, JsonV)> = seq![(b, v)];
    let fs: Seq<(Seq<char>, JsonV)> = seq![(a, JsonV::Obj(inner)), (key, w)];
    let empty = Seq::<(Seq<char>, JsonV)>::empty();
    let m1 = write_leaf(empty, key, v, false);
    assert(m1 =~= seq![(key, v)]);
    assert(flatten_fields(cfg, empty, Some(a), inner, 0, false) == flatten_fields(
        cfg,
        m1,
        Some(a),
        inner,
        1,
        false,
    ));
    let m2 = write_leaf(m1, key, w, false);
    assert(find_key(m1, key) == 0);
    assert(m2 =~= seq![(key, JsonV::Arr(seq![v, w]))]);
    assert(flatten_fields(cfg, empty, None, fs, 0, false) == flatten_fields(
        cfg,
        m1,
        None,
        fs,
        1,
        false,
    ));
    assert(flatten_fields(cfg, m1, None, fs, 1, false) == flatten_fields(
        cfg,
        m2,
        None,
        fs,
        2,
        false,
    ));
}

/// The separator is what joins path segments: for any keys `a` and `b`, any
/// scalar `v`, and any configuration, `{a: {b: v}}` flattens to the single
/// entry `a<sep>b: v`.
pub proof fn lemma_nested_key(a: Seq<char>, b: Seq<char>, v: JsonV, cfg: Config)
    requires
        v.is_scalar(),
    ensures
        flatten_spec(JsonV::Obj(seq![(a, JsonV::Obj(seq![(b, v)]))]), cfg) == seq![
            (a + cfg.separator + b, v),
        ],
{
    let key = a + cfg.separator + b;
    let inner: Seq<(Seq<char>, JsonV)> = seq![(b, v)];
    let fs: Seq<(Seq<char>, JsonV)> = seq![(a, JsonV::Obj(inner))];
    let empty = Seq::<(Seq<char>, JsonV)>::empty();
    let m1 = write_leaf(empty, key, v, false);
    assert(m1 =~= seq![(key, v)]);
    assert(flatten_fields(cfg, empty, Some(a), inner, 0, false) == flatten_fields(
        cfg,
        m1,
        Some(a),
        inner,
        1,
        false,
    ));
    assert(flatten_fields(cfg, empty, None, fs, 0, false) == flatten_fields(
        cfg,
        m1,
        None,
        fs,
        1,
        false,
    ));
}

/// A value the flat container may hold: a scalar, or a nonempty array of
/// scalars. Never an object, and never an array with further nesting.
pub open spec fn flat_value(v: JsonV) -> bool {
    match v {
        JsonV::Arr(es) => es.len() >= 1 && (forall|i: int| 0 <= i < es.len() ==> es[i].is_scalar()),
        JsonV::Obj(_) => false,
        _ => true,
    }
}

/// Every value of the container is flat.
pub open spec fn flat_values(m: FlatV) -> bool {
    forall|i: int| 0 <= i < m.len() ==> flat_value(#[trigger] m[i].1)
}

/// Writing one scalar leaf keeps the container's values flat.
pub proof fn lemma_write_leaf_flat(m: FlatV, k: Seq<char>, v: JsonV, wrap: bool)
    requires
        flat_values(m),
        v.is_scalar(),
    ensures
        flat_values(write_leaf(m, k, v, wrap)),
{
    lemma_find_key(m, k);
    let i = find_key(m, k);
    let r = write_leaf(m, k, v, wrap);
    if i >= 0 {
        assert(flat_value(m[i].1));
        match m[i].1 {
            JsonV::Arr(es) => {
                assert(forall|j: int| 0 <= j < es.len() ==> es.push(v)[j] == es[j]);
                assert(flat_value(JsonV::Arr(es.push(v))));
            },
            _ => {
                assert(flat_value(JsonV::Arr(seq![m[i].1, v])));
            },
        }
        assert(forall|j: int| 0 <= j < r.len() && j != i ==> r[j].1 == m[j].1);
    } else {
        assert(forall|j: int| 0 <= j < m.len() ==> r[j].1 == m[j].1);
        if wrap {
            assert(flat_value(JsonV::Arr(seq![v])));
        }
    }
}

/// Walking an object's fields keeps the container's values flat.
pub proof fn lemma_fields_flat(
    cfg: Config,
    m: FlatV,
    id: Option<Seq<char>>,
    fs: Seq<(Seq<char>, JsonV)>,
    i: nat,
    arr: bool,
)
    requires
        flat_values(m),
    ensures
        flat_values(flatten_fields(cfg, m, id, fs, i, arr)),
    decreases fs, fs.len() - i,
{
    if i < fs.len() {
        let k = child_key(id, cfg.separator, fs[i as int].0);
        match fs[i as int].1 {
            JsonV::Obj(fs2) => {
                lemma_fields_flat(cfg, m, Some(k), fs2, 0, arr);
            },
            JsonV::Arr(es2) => {
                lemma_elems_flat(cfg, m, k, es2, 0);
            },
            _ => {
                lemma_write_leaf_flat(m, k, fs[i as int].1, arr);
            },
        }
        let m1 = match fs[i as int].1 {
            JsonV::Obj(fs2) => flatten_fields(cfg, m, Some(k), fs2, 0, arr),
            JsonV::Arr(es2) => flatten_elems(cfg, m, k, es2, 0),
            _ => write_leaf(m, k, fs[i as int].1, arr),
        };
        lemma_fields_flat(cfg, m1, id, fs, i + 1, arr);
    }
}

/// Walking an array's elements keeps the container's values flat.
pub proof fn lemma_elems_flat(cfg: Config, m: FlatV, id: Seq<char>, es: Seq<JsonV>, i: nat)
    requires
        flat_values(m),
    ensures
        flat_values(flatten_elems(cfg, m, id, es, i)),
    decreases es, es.len() - i,
{
    if i < es.len() {
        let k = crate::model::elem_key(cfg, id, i);
        match es[i as int] {
            JsonV::Obj(fs2) => {
                lemma_fields_flat(cfg, m, Some(k), fs2, 0, cfg.alt_array_flattening);
            },
            JsonV::Arr(es2) => {
                lemma_elems_flat(cfg, m, k, es2, 0);
            },
            _ => {
                lemma_write_leaf_flat(m, k, es[i as int], cfg.alt_array_flattening);
            },
        }
        let m1 = match es[i as int] {
            JsonV::Obj(fs2) => flatten_fields(cfg, m, Some(k), fs2, 0, cfg.alt_array_flattening),
            JsonV::Arr(es2) => flatten_elems(cfg, m, k, es2, 0),
            _ => write_leaf(m, k, es[i as int], cfg.alt_array_flattening),
        };
        lemma_elems_flat(cfg, m1, id, es, i + 1);
    }
}

/// The result is genuinely flat: for every value and every configuration,
/// each entry of the flat container holds a scalar or a nonempty array of
/// scalars — never an object, and never an array with further nesting.
pub proof fn lemma_flatten_flat(v: JsonV, cfg: Config)
    ensures
        flat_values(flatten_spec(v, cfg)),
{
    match v {
        JsonV::Obj(fs) => {
            lemma_fields_flat(cfg, Seq::empty(), None, fs, 0, false);
        },
        JsonV::Arr(es) => {
            lemma_elems_flat(cfg, Seq::empty(), Seq::empty(), es, 0);
        },
        _ => {
            lemma_write_leaf_flat(Seq::empty(), Seq::empty(), v, false);
        },
    }
}

/// The degenerate document: a scalar root becomes the single entry under the
/// empty key, unwrapped, for every configuration.
pub proof fn lemma_scalar_root(v: JsonV, cfg: Config)
    requires
        v.is_scalar(),
    ensures
        flatten_spec(v, cfg) == seq![(Seq::<char>::empty(), v)],
{
    assert(write_leaf(Seq::empty(), Seq::<char>::empty(), v, false) =~= seq![
        (Seq::<char>::empty(), v),
    ]);
}

/// Appending the same prefix leaves two sequences apart exactly where they
/// were apart.
proof fn lemma_prefix_cancel(x: Seq<char>, a: Seq<char>, b: Seq<char>)
    requires
        x + a == x + b,
    ensures
        a == b,
{
    assert(a =~= (x + a).skip(x.len() as int));
    assert(b =~= (x + b).skip(x.len() as int));
}

/// The entry an array element earns in index-preserving mode: its index
/// becomes a path segment, and the wrapping policy still applies.
pub open spec fn preserve_entry(cfg: Config, id: Seq<char>, es: Seq<JsonV>, k: int) -> (
    Seq<char>,
    JsonV,
) {
    (
        id + cfg.separator + dec_str(k as nat),
        if cfg.alt_array_flattening {
            JsonV::Arr(seq![es[k]])
        } else {
            es[k]
        },
    )
}

/// Every element from `i` on lands under its own fresh key, once the
/// container holds exactly the entries of the elements before `i`.
proof fn lemma_preserve_run(cfg: Config, id: Seq<char>, es: Seq<JsonV>, i: nat)
    requires
        cfg.preserve_arrays,
        i <= es.len(),
        forall|j: int| i <= j < es.len() ==> es[j].is_scalar(),
    ensures
        flatten_elems(cfg, Seq::new(i, |k: int| preserve_entry(cfg, id, es, k)), id, es, i)
            == Seq::new(es.len(), |k: int| preserve_entry(cfg, id, es, k)),
    decreases es.len() - i,
{
    let m = Seq::new(i, |k: int| preserve_entry(cfg, id, es, k));
    if i == es.len() {
        assert(m =~= Seq::new(es.len(), |k: int| preserve_entry(cfg, id, es, k)));
    } else {
        let key = id + cfg.separator + dec_str(i);
        assert forall|k: int| 0 <= k < i implies m[k].0 != key by {
            if m[k].0 == key {
                lemma_prefix_cancel(id + cfg.separator, dec_str(k as nat), dec_str(i));
                lemma_dec_str_inj(k as nat, i);
            }
        }
        lemma_find_key(m, key);
        assert(find_key(m, key) < 0);
        assert(es[i as int].is_scalar());
        let m1 = write_leaf(m, key, es[i as int], cfg.alt_array_flattening);
        assert(m1 =~= Seq::new(i + 1, |k: int| preserve_entry(cfg, id, es, k)));
        assert(flatten_elems(cfg, m, id, es, i) == flatten_elems(cfg, m1, id, es, i + 1));
        lemma_preserve_run(cfg, id, es, i + 1);
    }
}

/// In index-preserving mode no merging occurs among an array's elements:
/// each scalar element of an array walked into an empty container lands
/// under its own key — the array's key extended with the element's index —
/// one entry per element, in element order.
pub proof fn lemma_preserve_arrays_no_merge(cfg: Config, id: Seq<char>, es: Seq<JsonV>)
    requires
        cfg.preserve_arrays,
        forall|j: int| 0 <= j < es.len() ==> es[j].is_scalar(),
    ensures
        flatten_elems(cfg, Seq::empty(), id, es, 0) == Seq::new(
            es.len(),
            |k: int| preserve_entry(cfg, id, es, k),
        ),
{
    assert(Seq::new(0, |k: int| preserve_entry(cfg, id, es, k)) =~= Seq::<
        (Seq<char>, JsonV),
    >::empty());
    lemma_preserve_run(cfg, id, es, 0);
}

/// Once the container holds `id: [acc...]`, every further scalar element of
/// the array lands at the end of that entry's array, in element order.
proof fn lemma_scalar_run(cfg: Config, id: Seq<char>, es: Seq<JsonV>, i: nat, acc: Seq<JsonV>)
    requires
        !cfg.preserve_arrays,
        i <= es.len(),
        forall|j: int| i <= j < es.len() ==> es[j].is_scalar(),
    ensures
        flatten_elems(cfg, seq![(id, JsonV::Arr(acc))], id, es, i) == seq![
            (id, JsonV::Arr(acc + es.skip(i as int))),
        ],
    decreases es.len() - i,
{
    let m = seq![(id, JsonV::Arr(acc))];
    if i >= es.len() {
        assert(acc + es.skip(i as int) =~= acc);
    } else {
        assert(find_key(m, id) == 0);
        let m1 = write_leaf(m, id, es[i as int], cfg.alt_array_flattening);
        assert(m1 =~= seq![(id, JsonV::Arr(acc.push(es[i as int])))]);
        lemma_scalar_run(cfg, id, es, i + 1, acc.push(es[i as int]));
        assert(acc.push(es[i as int]) + es.skip(i as int + 1) =~= acc + es.skip(i as int));
    }
}

/// Sibling scalar elements collapse onto the array's own key, in element
/// order: with indices not preserved, an array of two or more scalars walked
/// into an empty container becomes the single entry `id: [e0, e1, ...]`
/// under either wrapping policy, while a lone scalar element stays lone
/// unless the alternate policy wraps it.
pub proof fn lemma_scalar_elems_collapse(cfg: Config, id: Seq<char>, es: Seq<JsonV>)
    requires
        !cfg.preserve_arrays,
        es.len() >= 1,
        forall|j: int| 0 <= j < es.len() ==> es[j].is_scalar(),
    ensures
        es.len() >= 2 || cfg.alt_array_flattening ==> flatten_elems(
            cfg,
            Seq::empty(),
            id,
            es,
            0,
        ) == seq![(id, JsonV::Arr(es))],
        es.len() == 1 && !cfg.alt_array_flattening ==> flatten_elems(
            cfg,
            Seq::empty(),
            id,
            es,
            0,
        ) == seq![(id, es[0])],
{
    let empty = Seq::<(Seq<char>, JsonV)>::empty();
    let e0 = es[0];
    assert(e0.is_scalar());
    let m1 = write_leaf(empty, id, e0, cfg.alt_array_flattening);
    assert(flatten_elems(cfg, empty, id, es, 0) == flatten_elems(cfg, m1, id, es, 1));
    if cfg.alt_array_flattening {
        assert(m1 =~= seq![(id, JsonV::Arr(seq![e0]))]);
        lemma_scalar_run(cfg, id, es, 1, seq![e0]);
        assert(seq![e0] + es.skip(1) =~= es);
    } else {
        assert(m1 =~= seq![(id, e0)]);
        if es.len() >= 2 {
            let e1 = es[1];
            assert(e1.is_scalar());
            assert(find_key(m1, id) == 0);
            let m2 = write_leaf(m1, id, e1, cfg.alt_array_flattening);
            assert(m2 =~= seq![(id, JsonV::Arr(seq![e0, e1]))]);
            assert(flatten_elems(cfg, m1, id, es, 1) == flatten_elems(cfg, m2, id, es, 2));
            lemma_scalar_run(cfg, id, es, 2, seq![e0, e1]);
            assert(seq![e0, e1] + es.skip(2) =~= es);
        } else {
            assert(flatten_elems(cfg, m1, id, es, 1) == m1);
        }
    }
}

} // verus!
