use smooth_json::Flattener;
use smooth_json::Json;

fn s(x: &str) -> Json {
    Json::Str(x.to_string())
}

fn num(x: &str) -> Json {
    Json::Num(x.to_string())
}

fn obj(entries: Vec<(&str, Json)>) -> Json {
    Json::Obj(entries.into_iter().map(|(k, v)| (k.to_string(), v)).collect())
}

fn arr(elems: Vec<Json>) -> Json {
    Json::Arr(elems)
}

#[test]
fn serde_example() {
    let flattener = Flattener::new();
    let base = obj(vec![
        ("name", s("John Doe")),
        ("age", num("43")),
        (
            "address",
            obj(vec![("street", s("10 Downing Street")), ("city", s("London"))]),
        ),
        ("phones", arr(vec![s("+44 1234567"), s("+44 2345678")])),
    ]);

    let flat = flattener.flatten(&base);

    assert_eq!(
        flat,
        obj(vec![
            ("name", s("John Doe")),
            ("age", num("43")),
            ("address.street", s("10 Downing Street")),
            ("address.city", s("London")),
            ("phones", arr(vec![s("+44 1234567"), s("+44 2345678")])),
        ])
    );
}

#[test]
fn collision_object() {
    let flattener = Flattener::new();
    let base = obj(vec![("a", obj(vec![("b", s("c"))])), ("a.b", s("d"))]);
    let flat = flattener.flatten(&base);

    assert_eq!(flat, obj(vec![("a.b", arr(vec![s("c"), s("d")]))]));
}

#[test]
fn collision_array() {
    let flattener = Flattener::new();
    let flattener_alt = Flattener {
        alt_array_flattening: true,
        ..Default::default()
    };

    let base = obj(vec![
        (
            "a",
            arr(vec![
                obj(vec![("b", s("c"))]),
                obj(vec![("b", s("d")), ("c", s("e"))]),
                arr(vec![num("35")]),
            ]),
        ),
        ("a.b", s("f")),
    ]);

    let flat = flattener.flatten(&base);
    let flat_alt = flattener_alt.flatten(&base);

    assert_eq!(
        flat,
        obj(vec![
            ("a.b", arr(vec![s("c"), s("d"), s("f")])),
            ("a.c", s("e")),
            ("a", num("35")),
        ])
    );

    assert_eq!(
        flat_alt,
        obj(vec![
            ("a.b", arr(vec![s("c"), s("d"), s("f")])),
            ("a.c", arr(vec![s("e")])),
            ("a", arr(vec![num("35")])),
        ])
    );
}

#[test]
fn nested_arrays() {
    let flattener = Flattener::new();
    let flattener_alt = Flattener {
        alt_array_flattening: true,
        ..Default::default()
    };

    let base = obj(vec![(
        "a",
        arr(vec![
            arr(vec![s("b"), s("c")]),
            obj(vec![("d", s("e"))]),
            arr(vec![s("f"), s("g")]),
            arr(vec![obj(vec![("h", s("i"))]), obj(vec![("d", s("j"))])]),
            arr(vec![s("k"), s("l")]),
        ]),
    )]);
    let flat = flattener.flatten(&base);
    let flat_alt = flattener_alt.flatten(&base);

    assert_eq!(
        flat,
        obj(vec![
            ("a", arr(vec![s("b"), s("c"), s("f"), s("g"), s("k"), s("l")])),
            ("a.d", arr(vec![s("e"), s("j")])),
            ("a.h", s("i")),
        ])
    );

    assert_eq!(
        flat_alt,
        obj(vec![
            ("a", arr(vec![s("b"), s("c"), s("f"), s("g"), s("k"), s("l")])),
            ("a.d", arr(vec![s("e"), s("j")])),
            ("a.h", arr(vec![s("i")])),
        ])
    );
}

#[test]
fn nested_arrays_and_objects() {
    let flattener = Flattener::new();
    let flattener_alt = Flattener {
        alt_array_flattening: true,
        ..Default::default()
    };

    let base = obj(vec![(
        "a",
        arr(vec![
            s("b"),
            arr(vec![s("c"), s("d")]),
            obj(vec![("e", arr(vec![s("f"), s("g")]))]),
            arr(vec![
                obj(vec![("h", s("i"))]),
                obj(vec![("e", arr(vec![s("j"), obj(vec![("z", s("y"))])]))]),
            ]),
            arr(vec![s("l")]),
            s("m"),
        ]),
    )]);
    let flat = flattener.flatten(&base);
    let flat_alt = flattener_alt.flatten(&base);

    assert_eq!(
        flat,
        obj(vec![
            ("a", arr(vec![s("b"), s("c"), s("d"), s("l"), s("m")])),
            ("a.e", arr(vec![s("f"), s("g"), s("j")])),
            ("a.h", s("i")),
            ("a.e.z", s("y")),
        ])
    );

    assert_eq!(
        flat_alt,
        obj(vec![
            ("a", arr(vec![s("b"), s("c"), s("d"), s("l"), s("m")])),
            ("a.e", arr(vec![s("f"), s("g"), s("j")])),
            ("a.h", arr(vec![s("i")])),
            ("a.e.z", arr(vec![s("y")])),
        ])
    );
}

#[test]
fn custom_separator() {
    let flattener = Flattener {
        separator: "$",
        ..Default::default()
    };

    let input = obj(vec![("a", obj(vec![("b", num("1"))]))]);

    let result = flattener.flatten(&input);
    assert_eq!(result, obj(vec![("a$b", num("1"))]));
}

#[test]
fn object() {
    let flattener = Flattener::new();

    let input = obj(vec![(
        "a",
        obj(vec![("b", s("1")), ("c", s("2")), ("d", s("3"))]),
    )]);

    let result = flattener.flatten(&input);
    assert_eq!(
        result,
        obj(vec![("a.b", s("1")), ("a.c", s("2")), ("a.d", s("3"))])
    );
}

#[test]
fn array() {
    let flattener = Flattener::new();

    let input = obj(vec![(
        "a",
        arr(vec![
            obj(vec![("b", s("1"))]),
            obj(vec![("b", s("2"))]),
            obj(vec![("b", s("3"))]),
        ]),
    )]);

    let result = flattener.flatten(&input);
    assert_eq!(result, obj(vec![("a.b", arr(vec![s("1"), s("2"), s("3")]))]));
}

#[test]
fn array_preserve() {
    let flattener = Flattener {
        preserve_arrays: true,
        ..Default::default()
    };

    let input = obj(vec![(
        "a",
        arr(vec![
            obj(vec![("b", s("1"))]),
            obj(vec![("b", s("2"))]),
            obj(vec![("b", s("3"))]),
        ]),
    )]);

    let result = flattener.flatten(&input);
    assert_eq!(
        result,
        obj(vec![("a.0.b", s("1")), ("a.1.b", s("2")), ("a.2.b", s("3"))])
    );
}

#[test]
fn array_no_collision() {
    let flattener = Flattener::new();
    let flattener_alt = Flattener {
        alt_array_flattening: true,
        ..Default::default()
    };

    let input = obj(vec![("a", arr(vec![obj(vec![("b", arr(vec![s("1")]))])]))]);

    let flat = flattener.flatten(&input);
    let flat_alt = flattener_alt.flatten(&input);

    assert_eq!(flat, obj(vec![("a.b", s("1"))]));

    assert_eq!(flat_alt, obj(vec![("a.b", arr(vec![s("1")]))]));
}

#[test]
fn arr_no_key() {
    let flattener = Flattener::new();

    let input = arr(vec![s("a"), s("b")]);

    let result = flattener.flatten(&input);

    assert_eq!(result, obj(vec![("", arr(vec![s("a"), s("b")]))]));
}

#[test]
fn arr_empty_key() {
    let flattener = Flattener::new();

    let input = obj(vec![(
        "",
        arr(vec![s("a"), s("b"), obj(vec![("b", arr(vec![s("1")]))])]),
    )]);
    let result = flattener.flatten(&input);

    assert_eq!(
        result,
        obj(vec![("", arr(vec![s("a"), s("b")])), (".b", s("1"))])
    );
}

#[test]
fn only_value() {
    let flattener = Flattener::new();

    let input = s("abc");
    let result = flattener.flatten(&input);

    assert_eq!(result, obj(vec![("", s("abc"))]));
}

#[test]
fn nested_array_preserve() {
    let flattener = Flattener {
        preserve_arrays: true,
        ..Default::default()
    };

    let input = obj(vec![(
        "a",
        arr(vec![
            s("b"),
            arr(vec![s("c"), s("d")]),
            obj(vec![("e", arr(vec![s("f"), s("g")]))]),
            arr(vec![
                obj(vec![("h", s("i"))]),
                obj(vec![("e", arr(vec![s("j"), obj(vec![("z", s("y"))])]))]),
            ]),
            arr(vec![s("l")]),
            s("m"),
        ]),
    )]);

    let result = flattener.flatten(&input);

    assert_eq!(
        result,
        obj(vec![
            ("a.0", s("b")),
            ("a.1.0", s("c")),
            ("a.1.1", s("d")),
            ("a.2.e.0", s("f")),
            ("a.2.e.1", s("g")),
            ("a.3.0.h", s("i")),
            ("a.3.1.e.0", s("j")),
            ("a.3.1.e.1.z", s("y")),
            ("a.4.0", s("l")),
            ("a.5", s("m")),
        ])
    );
}
