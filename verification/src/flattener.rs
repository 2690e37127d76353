//! The flattener: configuration and the verified walk of the value tree.

use vstd::prelude::*;
use vstd::string::StringExecFns;
use crate::digits::push_dec;
use crate::model::{
    child_key, elem_key, find_key, flatten_elems, flatten_fields, flatten_spec, write_leaf, Config,
};
use crate::value::{
    elems_view, esize, fields_view, fsize, json_view, lemma_elems_view, lemma_esize_index,
    lemma_fields_view, lemma_fsize_index, Json, JsonV,
};

verus! {

/// The model of an optional parent path.
pub open spec fn opt_view(id: Option<&String>) -> Option<Seq<char>> {
    match id {
        None => None,
        Some(s) => Some(s@),
    }
}

/// Drives the flattening of a JSON value. The separator joins path segments;
/// the two flags pick the policy for values that sit under an array. When
/// both flags are set, both apply: indices become path segments, and scalars
/// met under an array are still wrapped in a one-element array.
pub struct Flattener<'a> {
    /// The string placed between path segments.
    pub separator: &'a str,
    /// Wrap scalars met under an array in a one-element array even before any
    /// collision.
    pub alt_array_flattening: bool,
    /// Append array indices to the key, so every element keeps its own key.
    pub preserve_arrays: bool,
}

impl View for Flattener<'_> {
    type V = Config;

    open spec fn view(&self) -> Config {
        Config {
            separator: self.separator@,
            alt_array_flattening: self.alt_array_flattening,
            preserve_arrays: self.preserve_arrays,
        }
    }
}

/// An owned copy of a scalar value.
fn clone_scalar(v: &Json) -> (r: Json)
    requires
        v@.is_scalar(),
    ensures
        r@ == v@,
{
    match v {
        Json::Null => Json::Null,
        Json::Bool(b) => Json::Bool(*b),
        Json::Num(s) => Json::Num(s.clone()),
        Json::Str(s) => Json::Str(s.clone()),
        _ => {
            proof {
                assert(false);
            }
            Json::Null
        },
    }
}

/// The position of the first entry whose key is `key`, if any.
fn find_entry(builder: &Vec<(String, Json)>, key: &String) -> (r: Option<usize>)
    ensures
        match r {
            Some(j) => j < builder@.len() && builder@[j as int].0@ == key@ && (forall|k: int|
                0 <= k < j ==> builder@[k].0@ != key@),
            None => forall|k: int| 0 <= k < builder@.len() ==> builder@[k].0@ != key@,
        },
{
    let n = builder.len();
    let mut j: usize = 0;
    while j < n
        invariant
            j <= n,
            n == builder@.len(),
            forall|k: int| 0 <= k < j ==> builder@[k].0@ != key@,
        decreases n - j,
    {
        if builder[j].0 == *key {
            return Some(j);
        }
        j += 1;
    }
    None
}

impl<'a> Flattener<'a> {
    /// A flattener with the default configuration: separator `"."`, neither
    /// array policy switched on.
    pub fn new() -> (r: Self)
        ensures
            r@ == (Config { separator: "."@, alt_array_flattening: false, preserve_arrays: false }),
    {
        Flattener { separator: ".", alt_array_flattening: false, preserve_arrays: false }
    }

    /// Flattens a JSON value into a flat JSON object whose keys spell out the
    /// original paths. Total: every value yields an object.
    ///
    /// Flattening its own output again is not in general a no-op: a flat
    /// object may hold dotted keys that collide once more, and those merge.
    ///
    /// Recursion depth follows the input's nesting depth; no explicit
    /// ceiling is imposed.
    pub fn flatten(&self, json: &Json) -> (r: Json)
        ensures
            r@ == JsonV::Obj(flatten_spec(json@, self@)),
    {
        let mut flattened_val: Vec<(String, Json)> = Vec::new();
        match json {
            Json::Arr(obj_arr) => {
                let empty = String::new();
                self.flatten_array(&mut flattened_val, &empty, obj_arr);
                proof {
                    assert(json_view(*json) == JsonV::Arr(elems_view(obj_arr@)));
                }
            },
            Json::Obj(obj_val) => {
                self.flatten_object(&mut flattened_val, None, obj_val, false);
                proof {
                    assert(json_view(*json) == JsonV::Obj(fields_view(obj_val@)));
                }
            },
            _ => {
                let empty = String::new();
                self.flatten_value(&mut flattened_val, &empty, json, false);
            },
        }
        Json::Obj(flattened_val)
    }

    /// Walks an object's fields, extending the parent path with each key.
    fn flatten_object(
        &self,
        builder: &mut Vec<(String, Json)>,
        identifier: Option<&String>,
        obj: &Vec<(String, Json)>,
        arr: bool,
    )
        ensures
            fields_view(final(builder)@) == flatten_fields(
                self@,
                fields_view(old(builder)@),
                opt_view(identifier),
                fields_view(obj@),
                0,
                arr,
            ),
        decreases fsize(fields_view(obj@)),
    {
        let ghost m0 = fields_view(builder@);
        let ghost fsv = fields_view(obj@);
        let ghost cfg = self@;
        let ghost idv = opt_view(identifier);
        proof {
            lemma_fields_view(obj@);
        }
        let n = obj.len();
        let mut i: usize = 0;
        while i < n
            invariant
                i <= n,
                n == obj@.len(),
                fsv == fields_view(obj@),
                cfg == self@,
                idv == opt_view(identifier),
                fsv.len() == obj@.len(),
                forall|j: int|
                    0 <= j < obj@.len() ==> fsv[j] == (obj@[j].0@, json_view(obj@[j].1)),
                flatten_fields(cfg, fields_view(builder@), idv, fsv, i as nat, arr)
                    == flatten_fields(cfg, m0, idv, fsv, 0, arr),
            decreases n - i,
        {
            let ghost m_before = fields_view(builder@);
            let expanded_identifier: String = match identifier {
                None => obj[i].0.clone(),
                Some(id) => {
                    let mut s = (*id).clone();
                    s.append(self.separator);
                    s.append(obj[i].0.as_str());
                    s
                },
            };
            proof {
                assert(expanded_identifier@ =~= child_key(idv, cfg.separator, obj@[i as int].0@));
            }
            match &obj[i].1 {
                Json::Obj(obj_val) => {
                    proof {
                        lemma_fsize_index(fsv, i as int);
                        assert(json_view(obj@[i as int].1) == JsonV::Obj(fields_view(obj_val@)));
                    }
                    self.flatten_object(builder, Some(&expanded_identifier), obj_val, arr);
                },
                Json::Arr(obj_arr) => {
                    proof {
                        lemma_fsize_index(fsv, i as int);
                        assert(json_view(obj@[i as int].1) == JsonV::Arr(elems_view(obj_arr@)));
                    }
                    self.flatten_array(builder, &expanded_identifier, obj_arr);
                },
                v => {
                    proof {
                        assert(json_view(obj@[i as int].1) == fsv[i as int].1);
                    }
                    self.flatten_value(builder, &expanded_identifier, v, arr);
                },
            }
            proof {
                assert(flatten_fields(cfg, m_before, idv, fsv, i as nat, arr) == flatten_fields(
                    cfg,
                    fields_view(builder@),
                    idv,
                    fsv,
                    (i + 1) as nat,
                    arr,
                ));
            }
            i += 1;
        }
    }

    /// Walks an array's elements. The elements reuse the array's own key,
    /// unless indices are preserved, in which case each index becomes a path
    /// segment of its own.
    fn flatten_array(&self, builder: &mut Vec<(String, Json)>, identifier: &String, obj: &Vec<Json>)
        ensures
            fields_view(final(builder)@) == flatten_elems(
                self@,
                fields_view(old(builder)@),
                identifier@,
                elems_view(obj@),
                0,
            ),
        decreases esize(elems_view(obj@)),
    {
        let ghost m0 = fields_view(builder@);
        let ghost esv = elems_view(obj@);
        let ghost cfg = self@;
        proof {
            lemma_elems_view(obj@);
        }
        let n = obj.len();
        let mut i: usize = 0;
        while i < n
            invariant
                i <= n,
                n == obj@.len(),
                esv == elems_view(obj@),
                cfg == self@,
                esv.len() == obj@.len(),
                forall|j: int| 0 <= j < obj@.len() ==> esv[j] == json_view(obj@[j]),
                flatten_elems(cfg, fields_view(builder@), identifier@, esv, i as nat)
                    == flatten_elems(cfg, m0, identifier@, esv, 0),
            decreases n - i,
        {
            let ghost m_before = fields_view(builder@);
            let mut with_key = identifier.clone();
            with_key.append(self.separator);
            push_dec(&mut with_key, i);
            let effective: &String = if self.preserve_arrays {
                &with_key
            } else {
                identifier
            };
            proof {
                assert(with_key@ =~= identifier@ + cfg.separator + crate::digits::dec_str(
                    i as nat,
                ));
                assert(effective@ == elem_key(cfg, identifier@, i as nat));
            }
            match &obj[i] {
                Json::Obj(obj_val) => {
                    proof {
                        lemma_esize_index(esv, i as int);
                        assert(json_view(obj@[i as int]) == JsonV::Obj(fields_view(obj_val@)));
                    }
                    self.flatten_object(
                        builder,
                        Some(effective),
                        obj_val,
                        self.alt_array_flattening,
                    );
                },
                Json::Arr(obj_arr) => {
                    proof {
                        lemma_esize_index(esv, i as int);
                        assert(json_view(obj@[i as int]) == JsonV::Arr(elems_view(obj_arr@)));
                    }
                    self.flatten_array(builder, effective, obj_arr);
                },
                v => {
                    proof {
                        assert(json_view(obj@[i as int]) == esv[i as int]);
                    }
                    self.flatten_value(builder, effective, v, self.alt_array_flattening);
                },
            }
            proof {
                assert(flatten_elems(cfg, m_before, identifier@, esv, i as nat) == flatten_elems(
                    cfg,
                    fields_view(builder@),
                    identifier@,
                    esv,
                    (i + 1) as nat,
                ));
            }
            i += 1;
        }
    }

    /// Writes one scalar into the container under `identifier`, merging on
    /// collision: an existing array gains the value at its end, an existing
    /// lone value becomes a two-element array with the earlier value first.
    /// A fresh key is appended, wrapped in a one-element array exactly when
    /// `arr` holds.
    fn flatten_value(
        &self,
        builder: &mut Vec<(String, Json)>,
        identifier: &String,
        obj: &Json,
        arr: bool,
    )
        requires
            obj@.is_scalar(),
        ensures
            fields_view(final(builder)@) == write_leaf(
                fields_view(old(builder)@),
                identifier@,
                obj@,
                arr,
            ),
    {
        let ghost m0 = fields_view(builder@);
        proof {
            lemma_fields_view(builder@);
            crate::model::lemma_find_key(m0, identifier@);
        }
        match find_entry(builder, identifier) {
            Some(j) => {
                proof {
                    assert(find_key(m0, identifier@) == j as int);
                }
                let (key, existing) = builder.remove(j);
                match existing {
                    Json::Arr(mut es) => {
                        proof {
                            lemma_elems_view(es@);
                        }
                        es.push(clone_scalar(obj));
                        proof {
                            lemma_elems_view(es@);
                            assert(elems_view(es@) =~= match m0[j as int].1 {
                                JsonV::Arr(ev) => ev.push(obj@),
                                _ => arbitrary(),
                            });
                        }
                        builder.insert(j, (key, Json::Arr(es)));
                    },
                    other => {
                        proof {
                            assert(!(json_view(other) is Arr));
                        }
                        let mut pair: Vec<Json> = Vec::new();
                        pair.push(other);
                        pair.push(clone_scalar(obj));
                        proof {
                            lemma_elems_view(pair@);
                            assert(elems_view(pair@) =~= seq![m0[j as int].1, obj@]);
                        }
                        builder.insert(j, (key, Json::Arr(pair)));
                    },
                }
                proof {
                    lemma_fields_view(builder@);
                    assert(fields_view(builder@) =~= write_leaf(m0, identifier@, obj@, arr));
                }
            },
            None => {
                proof {
                    assert(find_key(m0, identifier@) < 0);
                }
                if arr {
                    let mut single: Vec<Json> = Vec::new();
                    single.push(clone_scalar(obj));
                    proof {
                        lemma_elems_view(single@);
                        assert(elems_view(single@) =~= seq![obj@]);
                    }
                    builder.push((identifier.clone(), Json::Arr(single)));
                } else {
                    builder.push((identifier.clone(), clone_scalar(obj)));
                }
                proof {
                    lemma_fields_view(builder@);
                    assert(fields_view(builder@) =~= write_leaf(m0, identifier@, obj@, arr));
                }
            },
        }
    }
}

impl Default for Flattener<'_> {
    /// The default configuration: separator `"."`, neither array policy
    /// switched on.
    fn default() -> (r: Self)
        ensures
            r@ == (Config { separator: "."@, alt_array_flattening: false, preserve_arrays: false }),
    {
        Flattener::new()
    }
}

} // verus!
