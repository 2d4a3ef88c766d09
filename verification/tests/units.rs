use logq::codec::{decode_value, encode_record, encode_value, Jv};
use logq::driver::OutputMode;
use logq::execution::Record;
use logq::syntax::{parse_select, Expr, Projection};
use logq::values::{empty_variables, HttpReq, Value, ValueKind};

#[test]
fn output_mode_from_str() {
    assert!(matches!(OutputMode::from_str("table"), Ok(OutputMode::Table)));
    assert!(matches!(OutputMode::from_str("csv"), Ok(OutputMode::Csv)));
    assert!(matches!(OutputMode::from_str("json"), Ok(OutputMode::Json)));
    assert_eq!(
        OutputMode::from_str("yaml"),
        Err("unknown output mode".to_string())
    );
}

#[test]
fn variables_insert_and_get() {
    let mut vars = empty_variables();
    assert!(vars.get("limit").is_none());
    vars.insert("limit".to_string(), Value::Int(7));
    assert_eq!(vars.get("limit"), Some(&Value::Int(7)));
    assert!(vars.get("offset").is_none());
}

#[test]
fn parse_select_builds_the_ast() {
    let (stmt, pos) = parse_select("SELECT a, b FROM elb WHERE a = 1 LIMIT 3").unwrap();
    assert_eq!(pos, 40);
    assert_eq!(stmt.table_name, "elb");
    match &stmt.projection {
        Projection::Columns(cols) => assert_eq!(cols, &["a".to_string(), "b".to_string()]),
        other => panic!("expected a column list, got {:?}", other),
    }
    assert_eq!(stmt.limit, Some(3));
    match &stmt.filter {
        Some(Expr::Cmp { col, lit, .. }) => {
            assert_eq!(col, "a");
            assert_eq!(lit, &Value::Int(1));
        }
        other => panic!("expected a comparison, got {:?}", other),
    }
}

#[test]
fn numeric_literals_tokenize_exactly() {
    let (stmt, _) = parse_select("SELECT a FROM t WHERE a = 1.5").unwrap();
    match &stmt.filter {
        Some(Expr::Cmp { lit, .. }) => assert_eq!(lit, &Value::Float(1_500_000)),
        other => panic!("expected a comparison, got {:?}", other),
    }
    let (stmt, _) = parse_select("SELECT a FROM t WHERE a = -0.000073").unwrap();
    match &stmt.filter {
        Some(Expr::Cmp { lit, .. }) => assert_eq!(lit, &Value::Float(-73)),
        other => panic!("expected a comparison, got {:?}", other),
    }
    let (stmt, _) = parse_select("SELECT a FROM t WHERE a = -42").unwrap();
    match &stmt.filter {
        Some(Expr::Cmp { lit, .. }) => assert_eq!(lit, &Value::Int(-42)),
        other => panic!("expected a comparison, got {:?}", other),
    }
}

#[test]
fn value_round_trip_preserves_every_variant() {
    let cases: Vec<(Value, ValueKind)> = vec![
        (Value::Boolean(true), ValueKind::Bool),
        (Value::Int(-7), ValueKind::Int),
        (Value::Float(1_500_000), ValueKind::Float),
        (Value::Str("hello".to_string()), ValueKind::Str),
        (
            Value::DateTime("2015-05-13T23:39:43.945958Z".to_string()),
            ValueKind::DateTime,
        ),
        (Value::Host("10.0.0.1:80".to_string()), ValueKind::Host),
        (
            Value::HttpRequest(HttpReq {
                method: "GET".to_string(),
                path: "/index.html".to_string(),
                protocol: "HTTP/1.1".to_string(),
            }),
            ValueKind::HttpRequest,
        ),
        (Value::Null, ValueKind::Int),
    ];
    for (v, kind) in cases {
        let encoded = encode_value(&v);
        let decoded = decode_value(&encoded, kind);
        assert_eq!(decoded, Some(v));
    }
}

#[test]
fn encoding_shapes_match_the_json_mapping() {
    assert_eq!(encode_value(&Value::Boolean(false)), Jv::Bool(false));
    assert_eq!(encode_value(&Value::Int(29)), Jv::Int(29));
    assert_eq!(encode_value(&Value::Float(73)), Jv::Float(73));
    assert_eq!(encode_value(&Value::Null), Jv::Null);
    assert_eq!(
        encode_value(&Value::Host("h:1".to_string())),
        Jv::Str("h:1".to_string())
    );
    assert_eq!(
        encode_value(&Value::HttpRequest(HttpReq {
            method: "GET".to_string(),
            path: "/".to_string(),
            protocol: "HTTP/1.1".to_string(),
        })),
        Jv::Str("GET / HTTP/1.1".to_string())
    );
}

#[test]
fn record_encoding_pairs_names_with_values() {
    let rec = Record {
        columns: vec!["elb_status_code".to_string(), "elb".to_string()],
        values: vec![Value::Int(200), Value::Str("lb".to_string())],
    };
    let pairs = encode_record(&rec);
    assert_eq!(pairs.len(), 2);
    assert_eq!(pairs[0], ("elb_status_code".to_string(), Jv::Int(200)));
    assert_eq!(pairs[1], ("elb".to_string(), Jv::Str("lb".to_string())));
}

#[test]
fn record_encoding_survives_real_json_text() {
    let rec = Record {
        columns: vec![
            "ok".to_string(),
            "n".to_string(),
            "s".to_string(),
            "missing".to_string(),
        ],
        values: vec![
            Value::Boolean(true),
            Value::Int(-3),
            Value::Str("text".to_string()),
            Value::Null,
        ],
    };
    let mut obj = json::JsonValue::new_object();
    for (name, jv) in encode_record(&rec) {
        match jv {
            Jv::Null => obj[&name] = json::Null,
            Jv::Bool(b) => obj[&name] = b.into(),
            Jv::Int(i) => obj[&name] = i.into(),
            Jv::Float(m) => obj[&name] = ((m as f64) / 1_000_000.0).into(),
            Jv::Str(s) => obj[&name] = s.into(),
        }
    }
    let text = obj.dump();
    let back = json::parse(&text).unwrap();
    assert_eq!(back["ok"], json::JsonValue::from(true));
    assert_eq!(back["n"], json::JsonValue::from(-3));
    assert_eq!(back["s"], json::JsonValue::from("text"));
    assert!(back["missing"].is_null());
}

#[test]
fn number_grammar_limits_are_errors() {
    assert!(parse_select("SELECT a FROM t WHERE a = 9999999999999999999").is_err());
    assert!(parse_select("SELECT a FROM t WHERE a = 1.1234567").is_err());
    assert!(parse_select("SELECT a FROM t WHERE a = 1.").is_err());
    assert!(parse_select("SELECT a FROM t WHERE a = -").is_err());
    assert!(parse_select("SELECT a FROM t LIMIT -1").is_err());
    assert!(parse_select("SELECT a FROM t WHERE a != 1").is_ok());
    assert!(parse_select("SELECT a FROM t WHERE a ! 1").is_err());
}

#[test]
fn record_to_tuples_pairs_names_with_values() {
    let rec = Record {
        columns: vec!["a".to_string(), "b".to_string()],
        values: vec![Value::Int(1), Value::Null],
    };
    let tuples = rec.to_tuples();
    assert_eq!(tuples.len(), 2);
    assert_eq!(tuples[0], ("a".to_string(), Value::Int(1)));
    assert_eq!(tuples[1], ("b".to_string(), Value::Null));
}
