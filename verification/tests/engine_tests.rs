//! End-to-end tests of the ingestion engine against the real embedded
//! store: schema derivation, loading, listing, detail and autocomplete.

use logparser::config::Config;
use logparser::db::DbError;
use logparser::engine::{detail_query, distinct_query, Engine};

fn config_of(pairs: &[(&str, &str)]) -> Config {
    let mut fields = Vec::new();
    for (k, v) in pairs {
        fields.push((k.to_string(), v.to_string()));
    }
    Config { fields }
}

fn lines_of(texts: &[&str]) -> Vec<String> {
    texts.iter().map(|t| t.to_string()).collect()
}

#[test]
fn empty_config_builds_id_raw_schema() {
    let engine = Engine::new(config_of(&[])).unwrap();
    let cols = engine.columns();
    assert_eq!(cols.len(), 2);
    assert_eq!(cols[0], "id");
    assert_eq!(cols[1], "raw");
}

#[test]
fn reserved_names_fail_construction() {
    assert!(matches!(
        Engine::new(config_of(&[("ID", "$lineno")])),
        Err(DbError::Reserved(_))
    ));
    assert!(matches!(
        Engine::new(config_of(&[("Raw", "$line")])),
        Err(DbError::Reserved(_))
    ));
    assert!(matches!(
        Engine::new(config_of(&[("ok", "$lineno"), ("raw", "$line")])),
        Err(DbError::Reserved(_))
    ));
}

#[test]
fn columns_are_sorted_after_id_raw() {
    let engine = Engine::new(config_of(&[("zeta", "$lineno"), ("alpha", "$lineno")])).unwrap();
    let cols = engine.columns();
    assert_eq!(cols, vec!["id", "raw", "alpha", "zeta"]);
}

#[test]
fn load_keeps_raw_and_lineno_for_malformed_lines() {
    let mut engine = Engine::new(config_of(&[
        ("msg", "$line.msg"),
        ("num", "$lineno"),
        ("orig", "$line"),
    ]))
    .unwrap();
    let lines = lines_of(&[
        "{\"msg\":\"hello\"}",
        "   ",
        "not json at all",
        "",
        "{\"msg\":\"world\"}",
    ]);
    let stats = engine.load_lines(&lines).unwrap();
    assert_eq!(stats.inserted_lines, 3);

    let page = engine.list("", "", 100, 0).unwrap();
    assert_eq!(page.total_count, 3);
    assert_eq!(page.logs.len(), 3);

    let field = |i: usize, name: &str| -> String {
        page.logs[i]
            .fields
            .iter()
            .find(|(k, _)| k == name)
            .map(|(_, v)| v.clone())
            .unwrap()
    };
    // Blank lines are skipped but still counted in the line numbers.
    assert_eq!(field(0, "num"), "1");
    assert_eq!(field(1, "num"), "3");
    assert_eq!(field(2, "num"), "5");
    assert_eq!(field(0, "msg"), "hello");
    assert_eq!(field(1, "msg"), "");
    assert_eq!(field(2, "msg"), "world");
    assert_eq!(field(0, "orig"), "{\"msg\":\"hello\"}");
    assert_eq!(field(1, "orig"), "not json at all");

    // Detail returns the original line text for every listed id.
    let raw0 = engine.detail(page.logs[0].id).unwrap().unwrap();
    let raw1 = engine.detail(page.logs[1].id).unwrap().unwrap();
    let raw2 = engine.detail(page.logs[2].id).unwrap().unwrap();
    assert_eq!(raw0, "{\"msg\":\"hello\"}");
    assert_eq!(raw1, "not json at all");
    assert_eq!(raw2, "{\"msg\":\"world\"}");
    assert_eq!(engine.detail(999_999).unwrap(), None);
}

#[test]
fn total_count_equals_nonblank_lines() {
    let mut engine = Engine::new(config_of(&[("n", "$lineno")])).unwrap();
    let lines = lines_of(&["a", "", "b", " \t ", "c", "d"]);
    let stats = engine.load_lines(&lines).unwrap();
    assert_eq!(stats.inserted_lines, 4);
    assert_eq!(
        stats.read_duration,
        stats.total_duration.saturating_sub(stats.db_duration)
    );
    assert!(stats.fts_duration <= stats.db_duration);
    let page = engine.list("", "", 2, 0).unwrap();
    assert_eq!(page.total_count, 4);
    assert_eq!(page.logs.len(), 2);
}

#[test]
fn fulltext_finds_contiguous_substrings() {
    let mut engine = Engine::new(config_of(&[("n", "$lineno")])).unwrap();
    let lines = lines_of(&["alpha bravo", "bravado east", "charlie delta"]);
    engine.load_lines(&lines).unwrap();

    let page = engine.list("", "rav", 100, 0).unwrap();
    assert_eq!(page.total_count, 2);
    let mut raws = Vec::new();
    for log in &page.logs {
        raws.push(engine.detail(log.id).unwrap().unwrap());
    }
    assert!(raws.contains(&"alpha bravo".to_string()));
    assert!(raws.contains(&"bravado east".to_string()));

    // A substring spanning a word boundary is still found.
    let page = engine.list("", "a b", 100, 0).unwrap();
    assert_eq!(page.total_count, 1);

    // The compact index the store builds (no per-row detail) refuses
    // phrases of more than one trigram; the error is surfaced, never
    // retried or corrected.
    assert!(matches!(engine.list("", "ravo", 100, 0), Err(DbError::Storage(_))));

    let page = engine.list("", "zzz", 100, 0).unwrap();
    assert_eq!(page.total_count, 0);
    assert_eq!(page.logs.len(), 0);
}

#[test]
fn lineno_columns_round_trip_in_order() {
    let mut engine = Engine::new(config_of(&[("n", "$lineno")])).unwrap();
    let lines = lines_of(&["a", "b", "c", "d", "e"]);
    engine.load_lines(&lines).unwrap();
    let page = engine.list("", "", 100, 0).unwrap();
    assert_eq!(page.logs.len(), 5);
    for (i, log) in page.logs.iter().enumerate() {
        let n = log.fields.iter().find(|(k, _)| k == "n").map(|(_, v)| v.clone()).unwrap();
        assert_eq!(n, (i + 1).to_string());
    }
}

#[test]
fn filter_fragment_is_applied_verbatim() {
    let mut engine = Engine::new(config_of(&[("n", "$lineno")])).unwrap();
    engine.load_lines(&lines_of(&["a", "b", "c"])).unwrap();
    let page = engine.list("n = '2'", "", 100, 0).unwrap();
    assert_eq!(page.total_count, 1);
    assert_eq!(
        page.logs[0].fields.iter().find(|(k, _)| k == "n").map(|(_, v)| v.clone()).unwrap(),
        "2"
    );
    let bad = engine.list("no_such_column = 1", "", 100, 0);
    assert!(matches!(bad, Err(DbError::Storage(_))));
}

#[test]
fn distinct_values_are_ordered_and_filtered() {
    let mut engine = Engine::new(config_of(&[("tag", "$line.tag")])).unwrap();
    let lines = lines_of(&[
        "{\"tag\":\"beta\"}",
        "{\"tag\":\"alpha\"}",
        "{\"tag\":\"beta\"}",
        "{\"tag\":\"gamma\"}",
    ]);
    engine.load_lines(&lines).unwrap();

    let all = engine.distinct_values("tag", "", 100, 0).unwrap();
    assert_eq!(all, vec!["alpha", "beta", "gamma"]);

    let filtered = engine.distinct_values("tag", "et", 100, 0).unwrap();
    assert_eq!(filtered, vec!["beta"]);

    let paged = engine.distinct_values("tag", "", 1, 1).unwrap();
    assert_eq!(paged, vec!["beta"]);

    let none = engine.distinct_values("", "x", 100, 0).unwrap();
    assert!(none.is_empty());
}

#[test]
fn execute_query_renders_values_and_null() {
    let mut engine = Engine::new(config_of(&[("n", "$lineno")])).unwrap();
    engine.load_lines(&lines_of(&["x", "y"])).unwrap();
    let res = engine.execute_query("SELECT COUNT(*) FROM logs").unwrap();
    assert_eq!(res.rows, vec![vec!["2".to_string()]]);
    let res = engine.execute_query("SELECT NULL, id FROM logs").unwrap();
    assert_eq!(res.rows.len(), 2);
    assert_eq!(res.rows[0][0], "NULL");
    assert_eq!(res.rows[0][1], "1");
    let err = engine.execute_query("SELECT nothing FROM nowhere");
    assert!(matches!(err, Err(DbError::Storage(_))));
}

#[test]
fn json_leaves_render_canonically() {
    let mut engine = Engine::new(config_of(&[
        ("b", "$line.b"),
        ("nil", "$line.nil"),
        ("num", "$line.num"),
        ("arr", "$line.arr"),
        ("deep", "$line.a.b"),
    ]))
    .unwrap();
    let lines = lines_of(&["{\"b\":true,\"nil\":null,\"num\":5,\"arr\":[1,2],\"a\":{\"b\":\"v\"}}"]);
    engine.load_lines(&lines).unwrap();
    let page = engine.list("", "", 10, 0).unwrap();
    let field = |name: &str| -> String {
        page.logs[0]
            .fields
            .iter()
            .find(|(k, _)| k == name)
            .map(|(_, v)| v.clone())
            .unwrap()
    };
    assert_eq!(field("b"), "true");
    assert_eq!(field("nil"), "");
    assert_eq!(field("num"), "5");
    assert_eq!(field("arr"), "[1,2]");
    assert_eq!(field("deep"), "v");
}

#[test]
fn query_builders_produce_exact_sql() {
    assert_eq!(detail_query(7), "SELECT raw FROM logs WHERE id = 7");
    assert_eq!(detail_query(0), "SELECT raw FROM logs WHERE id = 0");
    assert_eq!(
        distinct_query("tag", "", 10, 5),
        "SELECT DISTINCT \"tag\" FROM logs  ORDER BY \"tag\" LIMIT 10 OFFSET 5"
    );
    assert_eq!(
        distinct_query("tag", "a'b", 3, 0),
        "SELECT DISTINCT \"tag\" FROM logs WHERE \"tag\" LIKE '%a''b%' ORDER BY \"tag\" LIMIT 3 OFFSET 0"
    );

    let engine = Engine::new(config_of(&[("n", "$lineno")])).unwrap();
    let (count_sql, data_sql) = engine.list_queries("n = '1'", "abc", 5, 2);
    let expected_where =
        "WHERE id IN (SELECT rowid FROM logs_fts WHERE logs_fts MATCH '\"abc\"') AND (n = '1')";
    assert_eq!(count_sql, format!("SELECT COUNT(*) FROM logs {}", expected_where));
    assert_eq!(
        data_sql,
        format!("SELECT id, n FROM logs {} LIMIT 5 OFFSET 2", expected_where)
    );
}
