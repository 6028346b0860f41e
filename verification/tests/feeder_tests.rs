use rust_lt::feeders::{
    default_kafka_timeout,
    default_redis_db,
    CsvFeeder,
    DataRow,
    Feeder,
    FeederConfig,
    FeederError,
    FeederKind,
    FeederStrategy,
    JdbcFeeder,
    KafkaFeeder,
    RedisFeeder,
};
use rust_lt::json_feed::{json_value_to_string, JsonFeeder, JsonKind, JsonValue};
use rust_lt::string_map::StringMap;

fn row(pairs: &[(&str, &str)]) -> DataRow {
    let mut m = StringMap::new();
    for (k, v) in pairs {
        m.insert(k.to_string(), v.to_string());
    }
    m
}

fn create_test_data() -> Vec<DataRow> {
    vec![
        row(&[("name", "Alice"), ("age", "25")]),
        row(&[("name", "Bob"), ("age", "30")]),
        row(&[("name", "Charlie"), ("age", "35")]),
    ]
}

fn name_of(r: Option<DataRow>) -> String {
    r.unwrap().get("name").unwrap().clone()
}

#[test]
fn test_sequential_strategy() {
    let mut feeder = CsvFeeder {
        data: create_test_data(),
        strategy: FeederStrategy::Sequential,
        cursor: 0,
        headers: vec!["name".to_string(), "age".to_string()],
    };

    assert_eq!(name_of(feeder.next_row()), "Alice");
    assert_eq!(name_of(feeder.next_row()), "Bob");
    assert_eq!(name_of(feeder.next_row()), "Charlie");
    assert!(feeder.next_row().is_none());
}

#[test]
fn test_cyclic_strategy() {
    let mut feeder = CsvFeeder {
        data: create_test_data(),
        strategy: FeederStrategy::Cyclic,
        cursor: 0,
        headers: vec!["name".to_string(), "age".to_string()],
    };

    assert_eq!(name_of(feeder.next_row()), "Alice");
    assert_eq!(name_of(feeder.next_row()), "Bob");
    assert_eq!(name_of(feeder.next_row()), "Charlie");
    assert_eq!(name_of(feeder.next_row()), "Alice");
}

#[test]
fn test_random_strategy() {
    let mut feeder = CsvFeeder {
        data: create_test_data(),
        strategy: FeederStrategy::Random,
        cursor: 0,
        headers: vec!["name".to_string(), "age".to_string()],
    };

    for _ in 0..10 {
        assert!(feeder.next_row().is_some());
    }
}

#[test]
fn test_reset() {
    let mut feeder = CsvFeeder {
        data: create_test_data(),
        strategy: FeederStrategy::Sequential,
        cursor: 0,
        headers: vec!["name".to_string(), "age".to_string()],
    };

    feeder.next_row();
    feeder.next_row();
    assert_eq!(feeder.cursor, 2);

    feeder.reset();
    assert_eq!(feeder.cursor, 0);
    assert_eq!(name_of(feeder.next_row()), "Alice");
}

#[test]
fn csv_text_becomes_rows() {
    let feeder =
        CsvFeeder::from_csv_text("name, age\nAlice, 25\n\n  Bob,30  \n", FeederStrategy::Sequential)
            .unwrap();
    assert_eq!(feeder.get_headers(), vec!["name".to_string(), "age".to_string()]);
    assert_eq!(feeder.data.len(), 2);
    assert_eq!(feeder.data[0].get("age"), Some(&"25".to_string()));
    assert_eq!(feeder.data[1].get("name"), Some(&"Bob".to_string()));
    assert_eq!(feeder.data[1].get("age"), Some(&"30".to_string()));
}

#[test]
fn csv_errors_are_reported() {
    let e = CsvFeeder::from_csv_text("", FeederStrategy::Cyclic).err().unwrap();
    assert_eq!(e, FeederError::CsvMissingHeaders);
    assert_eq!(e.message(), "CSV file is empty or missing headers");

    let e = CsvFeeder::from_csv_text("a,b\n1,2\n3\n", FeederStrategy::Cyclic).err().unwrap();
    assert_eq!(e, FeederError::CsvColumnCount { line: 3, found: 1, expected: 2 });
    assert_eq!(e.message(), "CSV line 3 has 1 columns, expected 2");

    let e = CsvFeeder::from_csv_text("a,b\n\n", FeederStrategy::Cyclic).err().unwrap();
    assert_eq!(e.message(), "CSV file has no data rows");
}

#[test]
fn empty_feeder_gives_nothing() {
    let mut feeder = CsvFeeder {
        data: vec![],
        strategy: FeederStrategy::Cyclic,
        cursor: 0,
        headers: vec![],
    };
    assert!(feeder.next_row().is_none());
    let mut random = CsvFeeder { data: vec![], strategy: FeederStrategy::Random, cursor: 0, headers: vec![] };
    assert!(random.next_row().is_none());
}

#[test]
fn config_names_and_defaults() {
    let config = FeederConfig::Json {
        name: "users".to_string(),
        path: "users.json".to_string(),
        strategy: FeederStrategy::default(),
    };
    assert_eq!(config.name(), "users");
    assert_eq!(FeederStrategy::default(), FeederStrategy::Cyclic);
    assert_eq!(default_redis_db(), 0);
    assert_eq!(default_kafka_timeout(), 5000);
}

#[test]
fn unimplemented_sources_fail() {
    let jdbc = FeederConfig::Jdbc {
        name: "db".to_string(),
        connection_string: "c".to_string(),
        query: "q".to_string(),
        strategy: FeederStrategy::Sequential,
        username: None,
        password: None,
    };
    let e = JdbcFeeder::load(&jdbc).err().unwrap();
    assert_eq!(e, FeederError::NotImplemented(FeederKind::Jdbc));
    assert_eq!(e.message(), "JDBC feeder not yet implemented - requires database driver integration");

    let wrong = RedisFeeder::load(&jdbc).err().unwrap();
    assert_eq!(wrong.message(), "Invalid feeder config for Redis");

    let kafka = FeederConfig::Kafka {
        name: "k".to_string(),
        brokers: vec!["b".to_string()],
        topic: "t".to_string(),
        group_id: "g".to_string(),
        strategy: FeederStrategy::Random,
        timeout_ms: 10,
    };
    assert_eq!(
        KafkaFeeder::load(&kafka).err().unwrap().message(),
        "Kafka feeder not yet implemented - requires rdkafka integration"
    );
}

#[test]
fn json_values_render_as_text() {
    let text = JsonValue { kind: JsonKind::Text, text: "test".to_string() };
    assert_eq!(json_value_to_string(&text), "test");
    let number = JsonValue { kind: JsonKind::Rendered, text: "3.14".to_string() };
    assert_eq!(json_value_to_string(&number), "3.14");
    let null = JsonValue { kind: JsonKind::Null, text: "null".to_string() };
    assert_eq!(json_value_to_string(&null), "");
}

#[test]
fn json_text_becomes_rows() {
    let content = r#"[{"b": 42, "a": "x"}, {"a": null, "b": [1,2], "c": true}, {"b": 3.14}]"#;
    let feeder = JsonFeeder::from_json_text("users.json", content, FeederStrategy::Sequential).unwrap();
    assert_eq!(feeder.get_headers(), vec!["a".to_string(), "b".to_string()]);
    assert_eq!(feeder.data.len(), 3);
    assert_eq!(feeder.data[0].get("a"), Some(&"x".to_string()));
    assert_eq!(feeder.data[0].get("b"), Some(&"42".to_string()));
    assert_eq!(feeder.data[1].get("a"), Some(&"".to_string()));
    assert_eq!(feeder.data[1].get("b"), Some(&"[1,2]".to_string()));
    assert!(feeder.data[1].get("c").is_none());
    assert_eq!(feeder.data[2].get("a"), Some(&"".to_string()));
    assert_eq!(feeder.data[2].get("b"), Some(&"3.14".to_string()));
}

#[test]
fn json_errors_are_reported() {
    let e = JsonFeeder::from_json_text("p.json", "[]", FeederStrategy::Cyclic).err().unwrap();
    assert_eq!(e.message(), "JSON file contains empty array");
    let e = JsonFeeder::from_json_text("p.json", "[1, {}]", FeederStrategy::Cyclic).err().unwrap();
    assert_eq!(e.message(), "JSON array must contain objects");
    let e = JsonFeeder::from_json_text("p.json", r#"[{"a":1}, 2, "x"]"#, FeederStrategy::Cyclic)
        .err()
        .unwrap();
    assert_eq!(e, FeederError::JsonElementNotObject { index: 1 });
    assert_eq!(e.message(), "JSON array element 1 is not an object");
    let e = JsonFeeder::from_json_text("p.json", "{", FeederStrategy::Cyclic).err().unwrap();
    assert!(e.message().starts_with("Failed to parse JSON file p.json: "));
    let e = JsonFeeder::from_json_text("p.json", r#"{"a": 1}"#, FeederStrategy::Cyclic).err().unwrap();
    assert!(matches!(e, FeederError::JsonSyntax { .. }));
}

#[test]
fn json_feeder_strategies() {
    let content = r#"[{"name": "Alice"}, {"name": "Bob"}]"#;
    let mut seq = JsonFeeder::from_json_text("p", content, FeederStrategy::Sequential).unwrap();
    assert_eq!(name_of(seq.next_row()), "Alice");
    assert_eq!(name_of(seq.next_row()), "Bob");
    assert!(seq.next_row().is_none());
    assert!(seq.next_row().is_none());
    assert_eq!(seq.cursor, 4);
    seq.reset();
    assert_eq!(name_of(seq.next_row()), "Alice");

    let mut cyc = JsonFeeder::from_json_text("p", content, FeederStrategy::Cyclic).unwrap();
    assert_eq!(name_of(cyc.next_row()), "Alice");
    assert_eq!(name_of(cyc.next_row()), "Bob");
    assert_eq!(name_of(cyc.next_row()), "Alice");

    let mut rnd = JsonFeeder::from_json_text("p", content, FeederStrategy::Random).unwrap();
    for _ in 0..10 {
        let n = name_of(rnd.next_row());
        assert!(n == "Alice" || n == "Bob");
    }
    assert_eq!(rnd.cursor, 0);
    assert!(JsonFeeder::source(&FeederConfig::Csv {
        name: "c".to_string(),
        path: "c.csv".to_string(),
        strategy: FeederStrategy::Cyclic,
    })
    .is_err());
}
