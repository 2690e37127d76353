//! The JSON value tree and its mathematical model.

use vstd::prelude::*;

verus! {

/// A parsed JSON value: the tree that flattening walks.
///
/// A number is carried as its literal decimal text, so the tree holds only
/// plain values; the flattener never inspects a scalar, it only moves it.
#[derive(Debug, PartialEq, Eq)]
pub enum Json {
    Null,
    Bool(bool),
    Num(String),
    Str(String),
    Arr(Vec<Json>),
    Obj(Vec<(String, Json)>),
}

/// The mathematical model of a JSON value: strings become sequences of
/// characters, containers become sequences. An object is a sequence of
/// key/value pairs, so insertion order is part of the model.
pub enum JsonV {
    Null,
    Bool(bool),
    Num(Seq<char>),
    Str(Seq<char>),
    Arr(Seq<JsonV>),
    Obj(Seq<(Seq<char>, JsonV)>),
}

/// The model of an exec JSON value.
pub open spec fn json_view(j: Json) -> JsonV
    decreases j,
{
    match j {
        Json::Null => JsonV::Null,
        Json::Bool(b) => JsonV::Bool(b),
        Json::Num(s) => JsonV::Num(s@),
        Json::Str(s) => JsonV::Str(s@),
        Json::Arr(es) => JsonV::Arr(elems_view(es@)),
        Json::Obj(fs) => JsonV::Obj(fields_view(fs@)),
    }
}

/// The models of the elements of an array, in order.
pub open spec fn elems_view(es: Seq<Json>) -> Seq<JsonV>
    decreases es,
{
    if es.len() == 0 {
        Seq::empty()
    } else {
        seq![json_view(es[0])] + elems_view(es.drop_first())
    }
}

/// The models of the fields of an object, in order.
pub open spec fn fields_view(fs: Seq<(String, Json)>) -> Seq<(Seq<char>, JsonV)>
    decreases fs,
{
    if fs.len() == 0 {
        Seq::empty()
    } else {
        seq![(fs[0].0@, json_view(fs[0].1))] + fields_view(fs.drop_first())
    }
}

/// `elems_view` maps each element to its model, position by position.
pub proof fn lemma_elems_view(es: Seq<Json>)
    ensures
        elems_view(es).len() == es.len(),
        forall|i: int| 0 <= i < es.len() ==> elems_view(es)[i] == json_view(es[i]),
    decreases es.len(),
{
    if es.len() > 0 {
        lemma_elems_view(es.drop_first());
    }
}

/// `fields_view` maps each field to its model, position by position.
pub proof fn lemma_fields_view(fs: Seq<(String, Json)>)
    ensures
        fields_view(fs).len() == fs.len(),
        forall|i: int| 0 <= i < fs.len() ==> fields_view(fs)[i] == (fs[i].0@, json_view(fs[i].1)),
    decreases fs.len(),
{
    if fs.len() > 0 {
        lemma_fields_view(fs.drop_first());
    }
}

/// The size of a value: one for each node of the tree. A termination measure
/// for walks of the tree.
pub open spec fn vsize(v: JsonV) -> nat
    decreases v,
{
    match v {
        JsonV::Arr(es) => 1 + esize(es),
        JsonV::Obj(fs) => 1 + fsize(fs),
        _ => 1,
    }
}

/// The summed size of an array's elements.
pub open spec fn esize(es: Seq<JsonV>) -> nat
    decreases es,
{
    if es.len() == 0 {
        0
    } else {
        vsize(es[0]) + esize(es.drop_first())
    }
}

/// The summed size of an object's field values.
pub open spec fn fsize(fs: Seq<(Seq<char>, JsonV)>) -> nat
    decreases fs,
{
    if fs.len() == 0 {
        0
    } else {
        vsize(fs[0].1) + fsize(fs.drop_first())
    }
}

/// Each element weighs no more than the whole array.
pub proof fn lemma_esize_index(es: Seq<JsonV>, i: int)
    requires
        0 <= i < es.len(),
    ensures
        vsize(es[i]) <= esize(es),
    decreases es.len(),
{
    if i > 0 {
        lemma_esize_index(es.drop_first(), i - 1);
    }
}

/// Each field value weighs no more than the whole object.
pub proof fn lemma_fsize_index(fs: Seq<(Seq<char>, JsonV)>, i: int)
    requires
        0 <= i < fs.len(),
    ensures
        vsize(fs[i].1) <= fsize(fs),
    decreases fs.len(),
{
    if i > 0 {
        lemma_fsize_index(fs.drop_first(), i - 1);
    }
}

impl View for Json {
    type V = JsonV;

    open spec fn view(&self) -> JsonV {
        json_view(*self)
    }
}

impl JsonV {
    /// A scalar is anything that is not a container.
    pub open spec fn is_scalar(self) -> bool {
        !(self is Arr) && !(self is Obj)
    }
}

impl Json {
    /// A scalar is anything that is not a container.
    pub open spec fn is_scalar(self) -> bool {
        !(self is Arr) && !(self is Obj)
    }
}

} // verus!
