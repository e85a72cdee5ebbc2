use robot_bus::double_bits::{int_to_double, whole_to_i64};
use robot_bus::errors::BusError;
use robot_bus::param_doc::{YamlNode, YamlValue};
use robot_bus::parameters::{
    collect_parent_prefixes, parameter_matches_prefix, Parameter, ParameterStore, ParameterValue,
    PARAMETER_DEPTH_RECURSIVE,
};

fn double(v: f64) -> ParameterValue {
    ParameterValue::Double(v.to_bits())
}

fn is_double(v: &ParameterValue, x: f64) -> bool {
    matches!(v, ParameterValue::Double(bits) if f64::from_bits(*bits) == x)
}

#[test]
fn declare_get_set_list() {
    let mut store = ParameterStore::new();
    store.declare("max_speed".into(), double(1.5)).unwrap();
    store
        .declare("frame_id".into(), ParameterValue::String("base_link".into()))
        .unwrap();

    let bits = store.get("max_speed").unwrap().as_double().unwrap();
    assert_eq!(f64::from_bits(bits), 1.5);
    store.set("max_speed", double(2.0)).unwrap();
    assert!(is_double(&store.get("max_speed").unwrap().value, 2.0));

    let names: Vec<_> = store.list_all().into_iter().map(|p| p.name).collect();
    assert_eq!(names, vec!["frame_id", "max_speed"]);
    assert!(store.has("frame_id"));
    assert!(!store.has("missing"));
}

#[test]
fn list_parameters_prefix_and_depth() {
    let mut store = ParameterStore::new();
    for name in ["foo", "foo.bar", "foo.bar.baz", "other"] {
        store.declare(name.into(), ParameterValue::Bool(true)).unwrap();
    }

    let all = store.list_parameters(&vec![], PARAMETER_DEPTH_RECURSIVE);
    assert_eq!(all.names, vec!["foo", "foo.bar", "foo.bar.baz", "other"]);
    assert!(all.prefixes.contains(&"foo".to_string()));
    assert!(all.prefixes.contains(&"foo.bar".to_string()));

    let foo = store.list_parameters(&vec!["foo".to_string()], 1);
    assert_eq!(foo.names, vec!["foo", "foo.bar"]);

    let foo_deep = store.list_parameters(&vec!["foo".to_string()], PARAMETER_DEPTH_RECURSIVE);
    assert_eq!(foo_deep.names, vec!["foo", "foo.bar", "foo.bar.baz"]);
}

#[test]
fn reject_duplicate_undeclared_and_type_mismatch() {
    let mut store = ParameterStore::new();
    store.declare("flag".into(), ParameterValue::Bool(true)).unwrap();

    assert!(matches!(
        store.declare("flag".into(), ParameterValue::Bool(false)),
        Err(BusError::ParameterAlreadyDeclared { .. })
    ));
    assert!(matches!(
        store.get("nope"),
        Err(BusError::ParameterNotDeclared { .. })
    ));
    assert!(matches!(
        store.set("flag", ParameterValue::Integer(1)),
        Err(BusError::ParameterTypeMismatch { .. })
    ));
    assert!(matches!(
        store.set("nope", ParameterValue::Bool(false)),
        Err(BusError::ParameterNotDeclared { .. })
    ));
    store.undeclare("flag").unwrap();
    assert!(!store.has("flag"));
}

#[test]
fn accessors_name_the_mismatch() {
    let p = Parameter::new("enabled", ParameterValue::Bool(true));
    assert!(p.as_bool().unwrap());
    match p.as_int() {
        Err(BusError::ParameterTypeMismatch { name, expected, got }) => {
            assert_eq!((name.as_str(), expected.as_str(), got.as_str()), ("enabled", "integer", "bool"));
        }
        _ => panic!("mismatch expected"),
    }
    assert_eq!(ParameterValue::Integer(3).as_int().unwrap(), 3);
    assert_eq!(ParameterValue::String("x".into()).as_string().unwrap(), "x");
    assert!(matches!(
        ParameterValue::String("x".into()).as_bool(),
        Err(BusError::ParameterTypeMismatch { ref name, .. }) if name.is_empty()
    ));
}

#[test]
fn load_declares_or_sets_and_lists_sorted_prefixes() {
    let mut store = ParameterStore::new();
    store.load("b.x".into(), ParameterValue::Integer(1)).unwrap();
    store.load("a.y.z".into(), ParameterValue::Integer(2)).unwrap();
    store.load("b.x".into(), ParameterValue::Integer(5)).unwrap();
    assert!(matches!(store.load("b.x".into(), ParameterValue::Bool(true)), Err(BusError::ParameterTypeMismatch { .. })));
    assert!(matches!(store.get("b.x").unwrap().value, ParameterValue::Integer(5)));
    let listed = store.list_parameters(&vec![], 0);
    assert_eq!(listed.names, vec!["a.y.z", "b.x"]);
    assert_eq!(listed.prefixes, vec!["a", "a.y", "b"]);
    let got = store.get_many(&["b.x", "a.y.z"]).unwrap();
    assert_eq!(got[1].name, "a.y.z");
    assert!(matches!(store.get_many(&["b.x", "zz", "yy"]), Err(BusError::ParameterNotDeclared { name }) if name == "zz"));
    assert!(store.set_parameter(Parameter::new("a.y.z", ParameterValue::Integer(9))).is_ok());
}

#[test]
fn prefix_matching_and_parents() {
    assert!(parameter_matches_prefix("foo.bar", "foo", 1));
    assert!(!parameter_matches_prefix("foo.bar.baz", "foo", 1));
    assert!(parameter_matches_prefix("foo.bar.baz", "foo", 2));
    assert!(!parameter_matches_prefix("foobar", "foo", 0));
    assert!(parameter_matches_prefix("a.b", "", 2));
    assert!(!parameter_matches_prefix("a.b.c", "", 2));
    assert_eq!(collect_parent_prefixes("a.b.c"), vec!["a", "a.b"]);
    assert!(collect_parent_prefixes("plain").is_empty());
}

fn yaml_node(value: &serde_yaml::Value) -> YamlNode {
    let node = match value {
        serde_yaml::Value::Null => YamlValue::Null,
        serde_yaml::Value::Bool(b) => YamlValue::Bool(*b),
        serde_yaml::Value::Number(n) => match n.as_i64() {
            Some(i) => YamlValue::Integer(i),
            None => YamlValue::Double(n.as_f64().unwrap().to_bits()),
        },
        serde_yaml::Value::String(s) => YamlValue::String(s.clone()),
        serde_yaml::Value::Mapping(m) => {
            YamlValue::Mapping(m.iter().map(|(k, v)| (yaml_node(k), yaml_node(v))).collect())
        }
        _ => YamlValue::Other,
    };
    YamlNode { value: node, debug: format!("{value:?}") }
}

fn load_yaml(store: &mut ParameterStore, yaml: &str) -> Result<(), BusError> {
    let root: serde_yaml::Value = serde_yaml::from_str(yaml).unwrap();
    store.load_document(&yaml_node(&root))
}

#[test]
fn load_flat_yaml() {
    let mut store = ParameterStore::new();
    load_yaml(
        &mut store,
        r#"
max_speed: 1.5
frame_id: base_link
enabled: true
count: 3
"#,
    )
    .unwrap();
    assert!(is_double(&store.get("max_speed").unwrap().value, 1.5));
    assert!(matches!(store.get("frame_id").unwrap().value, ParameterValue::String(ref s) if s == "base_link"));
    assert!(matches!(store.get("enabled").unwrap().value, ParameterValue::Bool(true)));
    assert!(matches!(store.get("count").unwrap().value, ParameterValue::Integer(3)));
}

#[test]
fn load_ros_parameters_yaml_and_override() {
    let mut store = ParameterStore::new();
    store.declare("max_speed".into(), double(1.0)).unwrap();
    load_yaml(
        &mut store,
        r#"
ros__parameters:
  max_speed: 2.5
  frame_id: map
"#,
    )
    .unwrap();
    assert!(is_double(&store.get("max_speed").unwrap().value, 2.5));
    assert!(matches!(store.get("frame_id").unwrap().value, ParameterValue::String(ref s) if s == "map"));
}

#[test]
fn load_wildcard_ros_parameters_yaml() {
    let mut store = ParameterStore::new();
    load_yaml(
        &mut store,
        r#"
"/**":
  ros__parameters:
    enabled: false
"#,
    )
    .unwrap();
    assert!(matches!(store.get("enabled").unwrap().value, ParameterValue::Bool(false)));
}

#[test]
fn load_yaml_rejects_nested_and_type_mismatch() {
    let mut store = ParameterStore::new();
    store.declare("flag".into(), ParameterValue::Bool(true)).unwrap();
    assert!(matches!(
        load_yaml(&mut store, "nested:\n  a: 1\n"),
        Err(BusError::ParameterYaml(_))
    ));
    assert!(matches!(
        load_yaml(&mut store, "flag: 1\n"),
        Err(BusError::ParameterTypeMismatch { .. })
    ));
}

#[test]
fn integer_double_coercion_on_set() {
    let mut store = ParameterStore::new();
    store.declare("max_speed".into(), double(1.5)).unwrap();
    store.set("max_speed", ParameterValue::Integer(2)).unwrap();
    assert!(is_double(&store.get("max_speed").unwrap().value, 2.0));

    store.declare("count".into(), ParameterValue::Integer(3)).unwrap();
    store.set("count", double(9.0)).unwrap();
    assert!(matches!(store.get("count").unwrap().value, ParameterValue::Integer(9)));
    assert!(matches!(
        store.set("count", double(1.5)),
        Err(BusError::ParameterTypeMismatch { .. })
    ));
}

#[test]
fn yaml_document_shapes_and_errors() {
    let mut store = ParameterStore::new();
    load_yaml(&mut store, "").unwrap();
    assert!(store.list_all().is_empty());
    match load_yaml(&mut store, "true") {
        Err(BusError::ParameterYaml(m)) => assert_eq!(m, "expected a YAML mapping at root, got Bool(true)"),
        _ => panic!("root scalar must be refused"),
    }
    match load_yaml(&mut store, "1: x\n") {
        Err(BusError::ParameterYaml(m)) => assert_eq!(m, "parameter name must be a string"),
        _ => panic!("number key must be refused"),
    }
    // The first refused entry stops the load; earlier entries stay.
    assert!(load_yaml(&mut store, "a: 1\nb: [1, 2]\nc: 3\n").is_err());
    assert!(store.has("a") && !store.has("b") && !store.has("c"));
    // `/**` without `ros__parameters` is an ordinary entry.
    assert!(matches!(load_yaml(&mut store, "\"/**\": {x: 1}\n"), Err(BusError::ParameterYaml(_))));
    // A whole double loads onto an integer parameter, a fraction does not.
    load_yaml(&mut store, "a: 7.0\n").unwrap();
    assert!(matches!(store.get("a").unwrap().value, ParameterValue::Integer(7)));
    assert!(load_yaml(&mut store, "a: 7.5\n").is_err());
}

#[test]
fn int_to_double_matches_the_cast() {
    let samples: [i64; 16] = [
        0, 1, -1, 2, 3, 1 << 52, (1 << 53) - 1, 1 << 53, (1 << 53) + 1, (1 << 53) + 3,
        (1 << 54) + 2, (1 << 54) + 6, i64::MAX, i64::MIN, -123_456_789_012_345_678, 987_654_321,
    ];
    for i in samples {
        assert_eq!(int_to_double(i), (i as f64).to_bits(), "{i}");
    }
    let mut x: i64 = 1;
    for _ in 0..200 {
        x = x.wrapping_mul(6364136223846793005).wrapping_add(1442695040888963407);
        assert_eq!(int_to_double(x), (x as f64).to_bits(), "{x}");
        assert_eq!(int_to_double(x >> 7), ((x >> 7) as f64).to_bits(), "{x}");
    }
}

#[test]
fn whole_to_i64_matches_the_cast() {
    let samples: [f64; 16] = [
        0.0, -0.0, 1.0, -1.0, 9.0, 1.5, -2.5, 0.25, 4503599627370496.0, 9007199254740993.0,
        9.3e18, -9.3e18, 1e300, f64::INFINITY, f64::NAN, 5e-324,
    ];
    for d in samples {
        let expected = if d.fract() == 0.0 { Some(d as i64) } else { None };
        assert_eq!(whole_to_i64(d.to_bits()), expected, "{d}");
    }
    assert_eq!(whole_to_i64((-9223372036854775808.0f64).to_bits()), Some(i64::MIN));
}

#[test]
fn whole_numbers_round_trip_through_doubles() {
    for i in [0i64, 1, -1, 12345, -(1 << 52), (1 << 53) - 1, 1 << 53, -(1 << 53)] {
        assert_eq!(whole_to_i64(int_to_double(i)), Some(i), "{i}");
    }
    // Beyond 2^53 the nearest double is another integer.
    assert_eq!(whole_to_i64(int_to_double((1 << 53) + 1)), Some(1 << 53));
}
