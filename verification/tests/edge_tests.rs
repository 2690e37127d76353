use smooth_json::Flattener;
use smooth_json::Json;

fn s(x: &str) -> Json {
    Json::Str(x.to_string())
}

fn num(x: &str) -> Json {
    Json::Num(x.to_string())
}

fn obj(entries: Vec<(&str, Json)>) -> Json {
    Json::Obj(entries.into_iter().map(|(k, v)| (k.to_string(), v)).collect())
}

fn arr(elems: Vec<Json>) -> Json {
    Json::Arr(elems)
}

#[test]
fn empty_object() {
    let flattener = Flattener::new();
    let result = flattener.flatten(&obj(vec![]));
    assert_eq!(result, obj(vec![]));
}

#[test]
fn empty_array() {
    let flattener = Flattener::new();
    let result = flattener.flatten(&arr(vec![]));
    assert_eq!(result, obj(vec![]));
}

#[test]
fn scalar_roots() {
    let flattener = Flattener::new();
    assert_eq!(flattener.flatten(&Json::Null), obj(vec![("", Json::Null)]));
    assert_eq!(
        flattener.flatten(&Json::Bool(true)),
        obj(vec![("", Json::Bool(true))])
    );
    assert_eq!(flattener.flatten(&num("7")), obj(vec![("", num("7"))]));
}

#[test]
fn collision_order_is_declaration_order() {
    // The first-declared field's value stands first in the merged array,
    // whichever field holds the nested object.
    let flattener = Flattener::new();

    let nested_first = obj(vec![("a", obj(vec![("b", num("1"))])), ("a.b", num("2"))]);
    assert_eq!(
        flattener.flatten(&nested_first),
        obj(vec![("a.b", arr(vec![num("1"), num("2")]))])
    );

    let literal_first = obj(vec![("a.b", num("2")), ("a", obj(vec![("b", num("1"))]))]);
    assert_eq!(
        flattener.flatten(&literal_first),
        obj(vec![("a.b", arr(vec![num("2"), num("1")]))])
    );
}

#[test]
fn triple_collision_appends_in_order() {
    let flattener = Flattener::new();
    let base = obj(vec![
        ("a", obj(vec![("b", s("x"))])),
        ("a.b", s("y")),
        ("a.b ", s("spaced key stays distinct")),
    ]);
    let flat = flattener.flatten(&base);
    assert_eq!(
        flat,
        obj(vec![
            ("a.b", arr(vec![s("x"), s("y")])),
            ("a.b ", s("spaced key stays distinct")),
        ])
    );
}

#[test]
fn flat_result_has_unique_keys() {
    let flattener = Flattener::new();
    let base = obj(vec![
        ("a", obj(vec![("b", s("c")), ("d", s("e"))])),
        ("a.b", s("f")),
        ("a.d", s("g")),
    ]);
    let flat = flattener.flatten(&base);
    match flat {
        Json::Obj(entries) => {
            for i in 0..entries.len() {
                for j in (i + 1)..entries.len() {
                    assert_ne!(entries[i].0, entries[j].0);
                }
            }
        }
        _ => panic!("flatten must return an object"),
    }
}

#[test]
fn result_values_are_flat() {
    // Whatever the nesting, each entry of the result holds a scalar or an
    // array of scalars — never an object, never a nested array.
    let flattener = Flattener::new();
    let base = obj(vec![
        (
            "a",
            arr(vec![
                arr(vec![arr(vec![num("1"), num("2")])]),
                obj(vec![("b", obj(vec![("c", s("x"))]))]),
            ]),
        ),
        ("d", obj(vec![("e", arr(vec![s("y"), s("z")]))])),
    ]);
    let flat = flattener.flatten(&base);
    match flat {
        Json::Obj(entries) => {
            for (_, value) in &entries {
                match value {
                    Json::Obj(_) => panic!("an object survived flattening"),
                    Json::Arr(elems) => {
                        assert!(!elems.is_empty());
                        for e in elems {
                            assert!(!matches!(e, Json::Obj(_) | Json::Arr(_)));
                        }
                    }
                    _ => {}
                }
            }
        }
        _ => panic!("flatten must return an object"),
    }
}

#[test]
fn multi_digit_indices() {
    let flattener = Flattener {
        preserve_arrays: true,
        ..Default::default()
    };
    let elems: Vec<Json> = (0..12).map(|i| num(&i.to_string())).collect();
    let input = obj(vec![("a", arr(elems))]);
    let result = flattener.flatten(&input);
    let expected = obj(vec![
        ("a.0", num("0")),
        ("a.1", num("1")),
        ("a.2", num("2")),
        ("a.3", num("3")),
        ("a.4", num("4")),
        ("a.5", num("5")),
        ("a.6", num("6")),
        ("a.7", num("7")),
        ("a.8", num("8")),
        ("a.9", num("9")),
        ("a.10", num("10")),
        ("a.11", num("11")),
    ]);
    assert_eq!(result, expected);
}

#[test]
fn mixed_scalars_merge_in_element_order() {
    let flattener = Flattener::new();
    let input = obj(vec![(
        "a",
        arr(vec![Json::Null, Json::Bool(true), num("3"), s("four")]),
    )]);
    let result = flattener.flatten(&input);
    assert_eq!(
        result,
        obj(vec![(
            "a",
            arr(vec![Json::Null, Json::Bool(true), num("3"), s("four")]),
        )])
    );
}

#[test]
fn preserve_and_alt_together() {
    // Both policies at once: indices become path segments, and scalars met
    // under an array are still wrapped in a one-element array.
    let flattener = Flattener {
        preserve_arrays: true,
        alt_array_flattening: true,
        ..Default::default()
    };
    let input = obj(vec![("a", arr(vec![num("1")]))]);
    let result = flattener.flatten(&input);
    assert_eq!(result, obj(vec![("a.0", arr(vec![num("1")]))]));
}

#[test]
fn custom_separator_multi_char() {
    let flattener = Flattener {
        separator: "::",
        ..Default::default()
    };
    let input = obj(vec![("a", obj(vec![("b", obj(vec![("c", num("1"))]))]))]);
    let result = flattener.flatten(&input);
    assert_eq!(result, obj(vec![("a::b::c", num("1"))]));
}

#[test]
fn deep_nesting_keeps_path() {
    let flattener = Flattener::new();
    let input = obj(vec![(
        "w",
        obj(vec![("x", obj(vec![("y", obj(vec![("z", Json::Bool(false))]))]))]),
    )]);
    let result = flattener.flatten(&input);
    assert_eq!(result, obj(vec![("w.x.y.z", Json::Bool(false))]));
}

#[test]
fn default_matches_new() {
    let d: Flattener = Default::default();
    let n = Flattener::new();
    assert_eq!(d.separator, n.separator);
    assert_eq!(d.alt_array_flattening, n.alt_array_flattening);
    assert_eq!(d.preserve_arrays, n.preserve_arrays);
}

#[test]
fn mixed_nested_collapse_onto_named_ancestor() {
    // Arrays of arrays and arrays of objects both collapse onto the nearest
    // named ancestor, while leaves under differently keyed objects stay apart.
    let flattener = Flattener::new();
    let input = obj(vec![(
        "a",
        arr(vec![
            arr(vec![arr(vec![s("deep")])]),
            obj(vec![("k", s("under k"))]),
            obj(vec![("l", s("under l"))]),
        ]),
    )]);
    let result = flattener.flatten(&input);
    assert_eq!(
        result,
        obj(vec![
            ("a", s("deep")),
            ("a.k", s("under k")),
            ("a.l", s("under l")),
        ])
    );
}
