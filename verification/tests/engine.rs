use logq::driver::{run_query, AppError};
use logq::execution::{CreateStreamError, StreamError};
use logq::logical::{LogicalNode, ParseError};
use logq::physical::{DataSource, PhysicalNode, PhysicalPlanCreator, PhysicalPlanError};
use logq::schema::format_of;
use logq::syntax::{parse_select, Projection, SelectStatement};
use logq::values::{empty_variables, Value};

fn ds(lines: &[&str]) -> DataSource {
    DataSource::bound(
        "mem".to_string(),
        lines.iter().map(|s| s.to_string()).collect(),
    )
}

const ELB_LINE: &str = "2015-05-13T23:39:43.945958Z my-loadbalancer 192.168.131.39:2817 10.0.0.1:80 0.000073 0.001048 0.000057 200 200 0 29 \"GET http://www.example.com:80/ HTTP/1.1\" \"curl/7.38.0\" - -";

const ELB_LINE_2: &str = "2015-05-13T23:39:44.945958Z my-loadbalancer 192.168.131.40:2817 10.0.0.2:80 0.000086 0.001048 0.000057 404 404 0 57 \"GET http://www.example.com:80/missing HTTP/1.1\" \"curl/7.38.0\" - -";

const ELB_BAD_LINE: &str = "2015-05-13T23:39:45.945958Z my-loadbalancer 192.168.131.41:2817 10.0.0.3:80 0.000073 0.001048 0.000057 abc 200 0 29 \"GET http://www.example.com:80/ HTTP/1.1\" \"curl/7.38.0\" - -";

#[test]
fn one_line_elb_star_limit_one() {
    let recs = run_query("SELECT * FROM elb LIMIT 1", &ds(&[ELB_LINE])).unwrap();
    assert_eq!(recs.len(), 1);
    let rec = &recs[0];
    assert_eq!(rec.columns.len(), 15);
    assert_eq!(rec.values.len(), 15);
    assert_eq!(rec.columns[0], "timestamp");
    assert_eq!(rec.columns[14], "ssl_protocol");
    assert_eq!(
        rec.values[0],
        Value::DateTime("2015-05-13T23:39:43.945958Z".to_string())
    );
    assert_eq!(rec.values[1], Value::Str("my-loadbalancer".to_string()));
    assert_eq!(rec.values[2], Value::Host("192.168.131.39:2817".to_string()));
    assert_eq!(rec.values[4], Value::Float(73));
    assert_eq!(rec.values[7], Value::Int(200));
    assert_eq!(rec.values[10], Value::Int(29));
    match &rec.values[11] {
        Value::HttpRequest(h) => {
            assert_eq!(h.method, "GET");
            assert_eq!(h.path, "http://www.example.com:80/");
            assert_eq!(h.protocol, "HTTP/1.1");
        }
        other => panic!("expected a request value, got {:?}", other),
    }
    assert_eq!(rec.values[12], Value::Str("curl/7.38.0".to_string()));
    assert_eq!(rec.values[13], Value::Null);
    assert_eq!(rec.values[14], Value::Null);
}

#[test]
fn star_projection_follows_schema_order() {
    let recs = run_query("SELECT * FROM elb", &ds(&[ELB_LINE])).unwrap();
    let expected = [
        "timestamp",
        "elb",
        "client_and_port",
        "backend_and_port",
        "request_processing_time",
        "backend_processing_time",
        "response_processing_time",
        "elb_status_code",
        "backend_status_code",
        "received_bytes",
        "sent_bytes",
        "request",
        "user_agent",
        "ssl_cipher",
        "ssl_protocol",
    ];
    assert_eq!(recs[0].columns, expected);
}

#[test]
fn unknown_column_fails_at_planning() {
    match run_query("SELECT foo FROM elb", &ds(&[ELB_LINE])) {
        Err(AppError::Parse(ParseError::UnknownColumn { column, known })) => {
            assert_eq!(column, "foo");
            assert!(known.contains(&"timestamp".to_string()));
        }
        other => panic!("expected an unknown-column error, got {:?}", other),
    }
}

#[test]
fn unknown_table_is_invalid_log_file_format() {
    match run_query("SELECT * FROM bogus", &ds(&[ELB_LINE])) {
        Err(AppError::InvalidLogFileFormat) => {}
        other => panic!("expected InvalidLogFileFormat, got {:?}", other),
    }
}

#[test]
fn trailing_garbage_is_input_not_all_consumed() {
    match run_query(
        "SELECT * FROM s3 WHERE http_status = 200 extra_garbage",
        &ds(&[]),
    ) {
        Err(AppError::InputNotAllConsumed(rest)) => {
            assert_eq!(rest, "extra_garbage");
        }
        other => panic!("expected InputNotAllConsumed, got {:?}", other),
    }
}

#[test]
fn malformed_middle_line_fails_exactly_there() {
    let source = ds(&[ELB_LINE, ELB_BAD_LINE, ELB_LINE_2]);
    match run_query("SELECT * FROM elb", &source) {
        Err(AppError::Stream(StreamError::Decode { line_number, .. })) => {
            assert_eq!(line_number, 2);
        }
        other => panic!("expected a stream decode error, got {:?}", other),
    }
    // Stopping before the malformed line avoids the error entirely.
    let recs = run_query("SELECT * FROM elb LIMIT 1", &source).unwrap();
    assert_eq!(recs.len(), 1);
}

#[test]
fn stream_yields_preceding_records_then_error_then_none() {
    let source = ds(&[ELB_LINE, ELB_BAD_LINE, ELB_LINE_2]);
    let (stmt, _) = parse_select("SELECT elb FROM elb").unwrap();
    let fmt = format_of(stmt.table_name.as_str()).unwrap();
    let lnode = logq::logical::parse_query(fmt, &stmt).unwrap();
    let mut creator = PhysicalPlanCreator::new(source.dup());
    let (pnode, vars) = lnode.physical(&mut creator).unwrap();
    let mut stream = pnode.get(&vars).unwrap();
    let first = stream.next().unwrap().unwrap();
    assert_eq!(first.values[0], Value::Str("my-loadbalancer".to_string()));
    match stream.next() {
        Err(StreamError::Decode { line_number, .. }) => assert_eq!(line_number, 2),
        other => panic!("expected a decode error, got {:?}", other),
    }
    // Once exhausted, every further pull reports exhaustion.
    assert!(stream.next().unwrap().is_none());
    assert!(stream.next().unwrap().is_none());
}

#[test]
fn limit_caps_output_and_exhaustion_is_permanent() {
    let source = ds(&[ELB_LINE, ELB_LINE_2, ELB_LINE]);
    assert_eq!(run_query("SELECT * FROM elb LIMIT 0", &source).unwrap().len(), 0);
    assert_eq!(run_query("SELECT * FROM elb LIMIT 2", &source).unwrap().len(), 2);
    assert_eq!(run_query("SELECT * FROM elb LIMIT 9", &source).unwrap().len(), 3);

    let (stmt, _) = parse_select("SELECT elb FROM elb LIMIT 2").unwrap();
    let fmt = format_of(stmt.table_name.as_str()).unwrap();
    let lnode = logq::logical::parse_query(fmt, &stmt).unwrap();
    let mut creator = PhysicalPlanCreator::new(source.dup());
    let (pnode, vars) = lnode.physical(&mut creator).unwrap();
    let mut stream = pnode.get(&vars).unwrap();
    assert!(stream.next().unwrap().is_some());
    assert!(stream.next().unwrap().is_some());
    assert!(stream.next().unwrap().is_none());
    assert!(stream.next().unwrap().is_none());
}

#[test]
fn null_comparisons_exclude_rows_in_both_directions() {
    let source = ds(&[ELB_LINE, ELB_LINE_2]);
    // ssl_cipher decodes to Null on both lines: every operator excludes.
    for q in [
        "SELECT elb FROM elb WHERE ssl_cipher = NULL",
        "SELECT elb FROM elb WHERE ssl_cipher != NULL",
        "SELECT elb FROM elb WHERE elb_status_code = NULL",
        "SELECT elb FROM elb WHERE elb_status_code != NULL",
        "SELECT elb FROM elb WHERE ssl_cipher = \"x\"",
        "SELECT elb FROM elb WHERE ssl_cipher != \"x\"",
    ] {
        let recs = run_query(q, &source).unwrap();
        assert_eq!(recs.len(), 0, "query {:?} must exclude all rows", q);
    }
}

#[test]
fn filters_compare_typed_values() {
    let source = ds(&[ELB_LINE, ELB_LINE_2]);
    let recs = run_query("SELECT sent_bytes FROM elb WHERE elb_status_code = 404", &source).unwrap();
    assert_eq!(recs.len(), 1);
    assert_eq!(recs[0].values[0], Value::Int(57));

    let recs = run_query(
        "SELECT elb FROM elb WHERE request_processing_time < 0.00008",
        &source,
    )
    .unwrap();
    assert_eq!(recs.len(), 1);

    let recs = run_query(
        "SELECT elb FROM elb WHERE elb_status_code = 200 OR elb_status_code = 404",
        &source,
    )
    .unwrap();
    assert_eq!(recs.len(), 2);

    let recs = run_query(
        "SELECT elb FROM elb WHERE elb_status_code = 200 AND sent_bytes > 100",
        &source,
    )
    .unwrap();
    assert_eq!(recs.len(), 0);

    let recs = run_query(
        "SELECT elb FROM elb WHERE (elb_status_code = 200 AND sent_bytes < 100) OR elb_status_code = 404",
        &source,
    )
    .unwrap();
    assert_eq!(recs.len(), 2);
}

#[test]
fn projection_order_is_the_requested_order() {
    let recs = run_query("SELECT sent_bytes, elb, sent_bytes FROM elb", &ds(&[ELB_LINE])).unwrap();
    assert_eq!(recs[0].columns, ["sent_bytes", "elb", "sent_bytes"]);
    assert_eq!(recs[0].values[0], Value::Int(29));
    assert_eq!(recs[0].values[1], Value::Str("my-loadbalancer".to_string()));
    assert_eq!(recs[0].values[2], Value::Int(29));
}

#[test]
fn same_query_twice_yields_identical_output() {
    let source = ds(&[ELB_LINE, ELB_LINE_2]);
    let q = "SELECT elb, elb_status_code FROM elb WHERE received_bytes = 0";
    let first = run_query(q, &source).unwrap();
    let second = run_query(q, &source).unwrap();
    assert_eq!(first, second);
    assert_eq!(first.len(), 2);
}

#[test]
fn squid_lines_decode() {
    let line = "1157689324.156 5006 10.105.21.199 TCP_MISS/200 19763 CONNECT login.yahoo.com:443 badeyek DIRECT/209.73.177.115 -";
    let recs = run_query("SELECT * FROM squid", &ds(&[line])).unwrap();
    assert_eq!(recs.len(), 1);
    assert_eq!(recs[0].columns.len(), 10);
    assert_eq!(recs[0].values[0], Value::Float(1157689324156000));
    assert_eq!(recs[0].values[1], Value::Int(5006));
    assert_eq!(recs[0].values[2], Value::Host("10.105.21.199".to_string()));
    assert_eq!(recs[0].values[9], Value::Null);

    let recs = run_query(
        "SELECT duration FROM squid WHERE timestamp = 1157689324.156",
        &ds(&[line]),
    )
    .unwrap();
    assert_eq!(recs.len(), 1);
    assert_eq!(recs[0].values[0], Value::Int(5006));
}

#[test]
fn s3_lines_decode_with_brackets_and_quotes() {
    let line = "79a59df900b949e55d96a1e698fbacedfd6e09d98eacf8f8d5218e7cd47ef2be awsexamplebucket [06/Feb/2019:00:00:38 +0000] 192.0.2.3 79a59df900b949e55d96a1e698fbaced 3E57427F3EXAMPLE REST.GET.VERSIONING awsexamplebucket \"GET /awsexamplebucket?versioning HTTP/1.1\" 200 - 113";
    let recs = run_query("SELECT * FROM s3 WHERE http_status = 200", &ds(&[line])).unwrap();
    assert_eq!(recs.len(), 1);
    assert_eq!(recs[0].columns.len(), 12);
    assert_eq!(
        recs[0].values[2],
        Value::DateTime("06/Feb/2019:00:00:38 +0000".to_string())
    );
    assert_eq!(recs[0].values[10], Value::Null);
    assert_eq!(recs[0].values[11], Value::Int(113));
}

#[test]
fn alb_lines_decode() {
    let line = "https 2018-07-02T22:23:00.186641Z app/my-loadbalancer/50dc6c495c0c9188 192.168.131.39:2817 10.0.0.1:80 0.086 0.048 0.037 200 200 34 366 \"GET https://www.example.com:443/ HTTP/2.0\" \"curl/7.46.0\" ECDHE-RSA-AES128-GCM-SHA256 TLSv1.2";
    let recs = run_query("SELECT type, elb_status_code FROM alb", &ds(&[line])).unwrap();
    assert_eq!(recs.len(), 1);
    assert_eq!(recs[0].values[0], Value::Str("https".to_string()));
    assert_eq!(recs[0].values[1], Value::Int(200));
}

#[test]
fn type_mismatch_and_out_of_range_literals() {
    let source = ds(&[ELB_LINE]);
    match run_query("SELECT elb FROM elb WHERE elb = 5", &source) {
        Err(AppError::Parse(ParseError::TypeMismatch { column, .. })) => {
            assert_eq!(column, "elb");
        }
        other => panic!("expected a type mismatch, got {:?}", other),
    }
    match run_query(
        "SELECT elb FROM elb WHERE request_processing_time = 99999999999999",
        &source,
    ) {
        Err(AppError::Parse(ParseError::LiteralOutOfRange { column })) => {
            assert_eq!(column, "request_processing_time");
        }
        other => panic!("expected an out-of-range literal, got {:?}", other),
    }
}

#[test]
fn unbound_source_fails_during_lowering() {
    let source = DataSource::unbound("missing.log".to_string());
    match run_query("SELECT * FROM elb", &source) {
        Err(AppError::PhysicalPlan(PhysicalPlanError::SourceNotBound { descriptor })) => {
            assert_eq!(descriptor, "missing.log");
        }
        other => panic!("expected a binding failure, got {:?}", other),
    }
}

#[test]
fn wrong_field_count_is_a_decode_error() {
    match run_query("SELECT * FROM elb", &ds(&["just three fields"])) {
        Err(AppError::Stream(StreamError::Decode { line_number, .. })) => {
            assert_eq!(line_number, 1);
        }
        other => panic!("expected a decode error, got {:?}", other),
    }
    // An unterminated quote is a decode error as well.
    match run_query("SELECT * FROM elb", &ds(&["\"unterminated"])) {
        Err(AppError::Stream(StreamError::Decode { line_number, .. })) => {
            assert_eq!(line_number, 1);
        }
        other => panic!("expected a decode error, got {:?}", other),
    }
}

#[test]
fn syntax_errors_carry_expectations() {
    match run_query("SELEC * FROM elb", &ds(&[])) {
        Err(AppError::Syntax(e)) => {
            assert_eq!(e.pos, 0);
            assert_eq!(e.expected, vec!["SELECT".to_string()]);
        }
        other => panic!("expected a syntax error, got {:?}", other),
    }
    match run_query("SELECT * FROM elb WHERE $", &ds(&[])) {
        Err(AppError::Syntax(e)) => {
            assert_eq!(e.pos, 24);
            assert!(e.expected.len() > 1);
        }
        other => panic!("expected a syntax error, got {:?}", other),
    }
    match run_query("SELECT * FROM elb WHERE \"never closed", &ds(&[])) {
        Err(AppError::Syntax(e)) => {
            assert_eq!(e.expected, vec!["a closing '\"'".to_string()]);
        }
        other => panic!("expected a syntax error, got {:?}", other),
    }
}

#[test]
fn empty_source_yields_no_records() {
    let recs = run_query("SELECT * FROM elb", &ds(&[])).unwrap();
    assert_eq!(recs.len(), 0);
}

#[test]
fn hand_built_statements_and_plans_are_checked() {
    // A limit too large to bind as an integer variable is a planning error.
    let stmt = SelectStatement {
        table_name: "elb".to_string(),
        projection: Projection::Star,
        filter: None,
        limit: Some(u64::MAX),
    };
    let fmt = format_of("elb").unwrap();
    match logq::logical::parse_query(fmt, &stmt) {
        Err(ParseError::LimitTooLarge) => {}
        other => panic!("expected LimitTooLarge, got {:?}", other),
    }

    // A bare scan is not a shape the planner builds.
    let plan = PhysicalNode::Scan {
        format: fmt,
        lines: vec![],
    };
    match plan.get(&empty_variables()) {
        Err(CreateStreamError::UnsupportedPlanShape) => {}
        other => panic!("expected UnsupportedPlanShape, got {:?}", other),
    }

    // A limited plan without its variable cannot be instantiated.
    let plan = PhysicalNode::Limit {
        var_name: "limit".to_string(),
        child: Box::new(PhysicalNode::Project {
            columns: vec![0],
            names: vec!["timestamp".to_string()],
            child: Box::new(PhysicalNode::Scan {
                format: fmt,
                lines: vec![],
            }),
        }),
    };
    match plan.get(&empty_variables()) {
        Err(CreateStreamError::MissingVariable { name }) => assert_eq!(name, "limit"),
        other => panic!("expected MissingVariable, got {:?}", other),
    }

    // A limit variable bound to the wrong kind of value is rejected.
    let plan = PhysicalNode::Limit {
        var_name: "limit".to_string(),
        child: Box::new(PhysicalNode::Project {
            columns: vec![0],
            names: vec!["timestamp".to_string()],
            child: Box::new(PhysicalNode::Scan {
                format: fmt,
                lines: vec![],
            }),
        }),
    };
    let mut vars = empty_variables();
    vars.insert("limit".to_string(), Value::Str("ten".to_string()));
    match plan.get(&vars) {
        Err(CreateStreamError::BadVariable { name }) => assert_eq!(name, "limit"),
        other => panic!("expected BadVariable, got {:?}", other),
    }

    // The logical tree lowers 1:1, binding the limit as a variable.
    let (stmt, _) = parse_select("SELECT timestamp FROM elb LIMIT 10").unwrap();
    let lnode = logq::logical::parse_query(fmt, &stmt).unwrap();
    assert!(matches!(lnode, LogicalNode::Limit { .. }));
    let mut creator = PhysicalPlanCreator::new(ds(&[]).dup());
    let (_pnode, vars) = lnode.physical(&mut creator).unwrap();
    assert_eq!(vars.get("limit"), Some(&Value::Int(10)));
}
