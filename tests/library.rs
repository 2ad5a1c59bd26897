use opsis_agent::clock::decimal_text;
use opsis_agent::health::{build_health_scores, build_patterns, build_proactive_actions, get_health_data, resource_display_name, score_for, trend_for};
use opsis_agent::json::JsonValue;
use opsis_agent::paths::{choose_data_dir, DataDir};
use opsis_agent::settings::{get_settings, update_settings, SettingsUpdate};
use opsis_agent::stats::{get_stats, Stats};
use opsis_agent::tickets::{
    add_manual_ticket, clear_old_tickets, current_retention_cutoff, get_tickets, retention_cutoff, submit_manual_ticket,
    text_lt, ManualTicket, RETENTION_NANOS,
};

fn s(t: &str) -> JsonValue {
    JsonValue::Str(t.to_string())
}

fn obj(members: Vec<(&str, JsonValue)>) -> JsonValue {
    JsonValue::Object(members.into_iter().map(|(k, v)| (k.to_string(), v)).collect())
}

fn member<'a>(v: &'a JsonValue, key: &str) -> Option<&'a JsonValue> {
    match v {
        JsonValue::Object(m) => m.iter().find(|(k, _)| k == key).map(|(_, v)| v),
        _ => None,
    }
}

fn tickets_of(v: &JsonValue) -> &Vec<JsonValue> {
    match member(v, "tickets") {
        Some(JsonValue::Array(a)) => a,
        _ => panic!("no tickets array"),
    }
}

fn doc_with(tickets: Vec<JsonValue>) -> JsonValue {
    obj(vec![("tickets", JsonValue::Array(tickets))])
}

fn zero() -> Stats {
    Stats { issues_detected: 0, active_tickets: 0, issues_escalated: 0, success_rate: 0 }
}

#[test]
fn stats_count_each_kind() {
    let doc = doc_with(vec![
        obj(vec![("status", s("resolved")), ("result", s("success")), ("escalated", JsonValue::Int(1))]),
        obj(vec![("status", s("open")), ("result", s("failure")), ("escalated", JsonValue::Bool(true))]),
        obj(vec![("status", s("open"))]),
        obj(vec![("status", s("open")), ("result", s("success")), ("escalated", JsonValue::Int(2))]),
    ]);
    let st = get_stats(Some(&doc));
    assert_eq!(st, Stats { issues_detected: 4, active_tickets: 2, issues_escalated: 2, success_rate: 66 });
}

#[test]
fn stats_bounds_hold() {
    let doc = doc_with(vec![obj(vec![("result", s("success"))]), obj(vec![("result", s("success"))])]);
    let st = get_stats(Some(&doc));
    assert!(st.active_tickets <= st.issues_detected);
    assert!(st.success_rate >= 0 && st.success_rate <= 100);
    assert_eq!(st.success_rate, 100);
    assert_eq!(st.active_tickets, 0);
}

#[test]
fn stats_missing_file_is_zero() {
    assert_eq!(get_stats(None), zero());
}

#[test]
fn stats_without_tickets_array_is_zero() {
    assert_eq!(get_stats(Some(&obj(vec![("tickets", s("x"))]))), zero());
    assert_eq!(get_stats(Some(&JsonValue::Array(vec![]))), zero());
}

#[test]
fn stats_no_result_gives_zero_rate() {
    let st = get_stats(Some(&doc_with(vec![obj(vec![("status", s("open"))])])));
    assert_eq!(st, Stats { issues_detected: 1, active_tickets: 1, issues_escalated: 0, success_rate: 0 });
}

#[test]
fn tickets_listing_caps_at_one_hundred_in_order() {
    let ts: Vec<JsonValue> = (0..150).map(JsonValue::Int).collect();
    let out = get_tickets(Some(doc_with(ts)));
    assert_eq!(out.len(), 100);
    for (i, t) in out.iter().enumerate() {
        assert_eq!(*t, JsonValue::Int(i as i64));
    }
}

#[test]
fn tickets_listing_short_and_missing() {
    let out = get_tickets(Some(doc_with(vec![JsonValue::Int(1), JsonValue::Int(2)])));
    assert_eq!(out, vec![JsonValue::Int(1), JsonValue::Int(2)]);
    assert!(get_tickets(None).is_empty());
    assert!(get_tickets(Some(obj(vec![]))).is_empty());
}

#[test]
fn clear_drops_exactly_older_tickets() {
    let doc = obj(vec![
        ("version", JsonValue::Int(3)),
        (
            "tickets",
            JsonValue::Array(vec![
                obj(vec![("ticket_id", s("a")), ("timestamp", s("2024-01-02T00:00:00+00:00"))]),
                obj(vec![("ticket_id", s("b")), ("timestamp", s("2024-01-01T00:00:00+00:00"))]),
                obj(vec![("ticket_id", s("c")), ("created_at", s("2024-01-03T00:00:00+00:00"))]),
                obj(vec![("ticket_id", s("d"))]),
                obj(vec![("ticket_id", s("e")), ("timestamp", JsonValue::Null), ("created_at", s("2030"))]),
            ]),
        ),
    ]);
    let (d, n) = clear_old_tickets(doc, "2024-01-01T12:00:00+00:00").unwrap();
    assert_eq!(n, 3);
    let ids: Vec<&JsonValue> = tickets_of(&d).iter().map(|t| member(t, "ticket_id").unwrap()).collect();
    assert_eq!(ids, vec![&s("a"), &s("c")]);
    assert_eq!(member(&d, "version"), Some(&JsonValue::Int(3)));
    let (d2, n2) = clear_old_tickets(d, "2024-01-01T12:00:00+00:00").unwrap();
    assert_eq!(n2, 0);
    assert_eq!(tickets_of(&d2).len(), 2);
}

#[test]
fn clear_without_tickets_writes_nothing() {
    assert!(clear_old_tickets(obj(vec![("other", JsonValue::Int(1))]), "2024").is_none());
    assert!(clear_old_tickets(JsonValue::Null, "2024").is_none());
}

#[test]
fn text_order_matches_str_order() {
    let pairs = [("", "a"), ("a", ""), ("ab", "abc"), ("abd", "abc"), ("2024-01-01", "2024-01-02"), ("é", "z"), ("same", "same")];
    for (a, b) in pairs {
        assert_eq!(text_lt(a, b), a < b, "{a} {b}");
    }
}

#[test]
fn cutoff_is_one_day_before() {
    assert_eq!(retention_cutoff(RETENTION_NANOS).unwrap(), "1970-01-01T00:00:00+00:00");
    assert_eq!(retention_cutoff(RETENTION_NANOS + 1_500_000_000).unwrap(), "1970-01-01T00:00:01.500+00:00");
    assert!(retention_cutoff(i64::MIN).is_none());
    let now = current_retention_cutoff().unwrap();
    assert!(now.starts_with("20"));
}

fn manual() -> ManualTicket {
    ManualTicket {
        server_name: "srv-1".to_string(),
        category: "disk".to_string(),
        description: "disk full".to_string(),
        priority: "high".to_string(),
        submitted_at: "2024-05-01T10:00:00Z".to_string(),
    }
}

#[test]
fn manual_ticket_is_prepended() {
    let doc = doc_with(vec![JsonValue::Int(1), JsonValue::Int(2)]);
    let r = add_manual_ticket(Some(doc), manual(), 1234);
    let ts = tickets_of(&r);
    assert_eq!(ts.len(), 3);
    assert_eq!(ts[1], JsonValue::Int(1));
    assert_eq!(ts[2], JsonValue::Int(2));
    assert_eq!(
        ts[0],
        obj(vec![
            ("ticket_id", s("manual-1234")),
            ("timestamp", s("2024-05-01T10:00:00Z")),
            ("type", s("manual-review")),
            ("issue_type", s("disk")),
            ("description", s("disk full")),
            ("priority", s("high")),
            ("status", s("open")),
            ("source", s("manual")),
            ("computer_name", s("srv-1")),
        ])
    );
}

#[test]
fn manual_ticket_negative_stamp_and_fresh_file() {
    let r = add_manual_ticket(None, manual(), -5);
    let ts = tickets_of(&r);
    assert_eq!(ts.len(), 1);
    assert_eq!(member(&ts[0], "ticket_id"), Some(&s("manual--5")));
}

#[test]
fn manual_ticket_creates_missing_array() {
    let doc = obj(vec![("other", JsonValue::Int(1))]);
    let r = add_manual_ticket(Some(doc), manual(), 7);
    match &r {
        JsonValue::Object(m) => assert_eq!(m.len(), 2),
        other => panic!("{other:?}"),
    }
    assert_eq!(member(&r, "other"), Some(&JsonValue::Int(1)));
    let ts = tickets_of(&r);
    assert_eq!(ts.len(), 1);
    assert_eq!(member(&ts[0], "ticket_id"), Some(&s("manual-7")));
}

#[test]
fn manual_ticket_fresh_document_holds_tickets_alone() {
    let r = add_manual_ticket(None, manual(), 42);
    match &r {
        JsonValue::Object(m) => {
            assert_eq!(m.len(), 1);
            assert_eq!(m[0].0, "tickets");
        }
        other => panic!("{other:?}"),
    }
}

#[test]
fn decimal_text_of_edges() {
    assert_eq!(decimal_text(0), "0");
    assert_eq!(decimal_text(1234), "1234");
    assert_eq!(decimal_text(-5), "-5");
    assert_eq!(decimal_text(i64::MIN), i64::MIN.to_string());
    assert_eq!(decimal_text(i64::MAX), i64::MAX.to_string());
}

#[test]
fn manual_ticket_leaves_other_shapes() {
    let doc = obj(vec![("tickets", s("x"))]);
    let r = add_manual_ticket(Some(doc), manual(), 1);
    assert_eq!(r, obj(vec![("tickets", s("x"))]));
    let r = add_manual_ticket(Some(JsonValue::Int(4)), manual(), 1);
    assert_eq!(r, JsonValue::Int(4));
}

#[test]
fn submit_uses_current_time() {
    let r = submit_manual_ticket(Some(doc_with(vec![JsonValue::Int(9)])), manual());
    let ts = tickets_of(&r);
    assert_eq!(ts.len(), 2);
    assert_eq!(ts[1], JsonValue::Int(9));
    match member(&ts[0], "ticket_id") {
        Some(JsonValue::Str(id)) => {
            assert!(id.starts_with("manual-"));
            assert!(id["manual-".len()..].parse::<i64>().unwrap() > 1_600_000_000_000);
        }
        other => panic!("{other:?}"),
    }
    assert_eq!(member(&ts[0], "status"), Some(&s("open")));
}

#[test]
fn settings_update_then_read() {
    let stored = obj(vec![("alertEmail", s("ops@example.com")), ("custom", JsonValue::Bool(true))]);
    let upd = SettingsUpdate { monitor_interval: Some(30), ..Default::default() };
    let r = get_settings(Some(update_settings(Some(stored), upd)));
    assert_eq!(member(&r, "monitorInterval"), Some(&JsonValue::Int(30)));
    assert_eq!(member(&r, "alertEmail"), Some(&s("ops@example.com")));
    assert_eq!(member(&r, "custom"), Some(&JsonValue::Bool(true)));
}

#[test]
fn settings_replace_in_place_and_start_empty() {
    let stored = obj(vec![("serverUrl", s("http://old")), ("logRetention", JsonValue::Int(7))]);
    let upd = SettingsUpdate {
        server_url: Some("http://new".to_string()),
        alert_email: Some("a@b".to_string()),
        confidence_threshold: Some(80),
        ..Default::default()
    };
    let r = update_settings(Some(stored), upd);
    assert_eq!(
        r,
        obj(vec![
            ("serverUrl", s("http://new")),
            ("logRetention", JsonValue::Int(7)),
            ("alertEmail", s("a@b")),
            ("confidenceThreshold", JsonValue::Int(80)),
        ])
    );
    let r = update_settings(Some(JsonValue::Array(vec![])), SettingsUpdate { log_retention: Some(3), ..Default::default() });
    assert_eq!(r, obj(vec![("logRetention", JsonValue::Int(3))]));
    assert_eq!(get_settings(None), obj(vec![]));
}

#[test]
fn health_score_for_cpu_load() {
    let state = obj(vec![(
        "resources",
        obj(vec![("cpu:load", obj(vec![("severityLevel", s("critical")), ("currentState", s("critical"))]))]),
    )]);
    let scores = build_health_scores(Some(&state));
    assert_eq!(scores, obj(vec![("load", obj(vec![("score", JsonValue::Int(20)), ("trend", s("degrading"))]))]));
}

#[test]
fn health_scores_last_entry_wins_and_defaults() {
    let state = obj(vec![(
        "resources",
        obj(vec![
            ("disk:c", obj(vec![("severityLevel", s("warning")), ("currentState", s("warning"))])),
            ("mem:c:extra", obj(vec![("severityLevel", s("error")), ("currentState", s("error"))])),
            ("plain", obj(vec![])),
        ]),
    )]);
    let scores = build_health_scores(Some(&state));
    assert_eq!(
        scores,
        obj(vec![
            ("c", obj(vec![("score", JsonValue::Int(40)), ("trend", s("degrading"))])),
            ("plain", obj(vec![("score", JsonValue::Int(100)), ("trend", s("improving"))])),
        ])
    );
    assert_eq!(build_health_scores(None), obj(vec![]));
}

#[test]
fn display_names_and_labels() {
    assert_eq!(resource_display_name("cpu:load"), "load");
    assert_eq!(resource_display_name("a:b:c"), "b");
    assert_eq!(resource_display_name("a:"), "");
    assert_eq!(resource_display_name("solo"), "solo");
    assert_eq!(score_for("critical"), 20);
    assert_eq!(score_for("error"), 40);
    assert_eq!(score_for("warning"), 65);
    assert_eq!(score_for("info"), 100);
    assert_eq!(trend_for("error"), "degrading");
    assert_eq!(trend_for("warning"), "stable");
    assert_eq!(trend_for("ok"), "improving");
}

#[test]
fn patterns_missing_or_empty() {
    assert!(build_patterns(None).is_empty());
    assert!(build_patterns(Some(&obj(vec![("patterns", obj(vec![]))]))).is_empty());
    assert!(build_patterns(Some(&obj(vec![]))).is_empty());
}

#[test]
fn patterns_are_reshaped_and_capped() {
    let ps: Vec<(String, JsonValue)> = (0..25)
        .map(|i| (format!("p{i}"), obj(vec![("occurrenceCount", JsonValue::Int(i)), ("trend", s("rising"))])))
        .collect();
    let doc = obj(vec![("patterns", JsonValue::Object(ps))]);
    let out = build_patterns(Some(&doc));
    assert_eq!(out.len(), 20);
    assert_eq!(
        out[3],
        obj(vec![
            ("patternId", s("p3")),
            ("signalId", s("p3")),
            ("occurrenceCount", JsonValue::Int(3)),
            ("trend", s("rising")),
            ("frequency", JsonValue::Decimal("0.0".to_string())),
            ("urgency", s("low")),
            ("recommendation", s("")),
        ])
    );
}

#[test]
fn actions_are_reshaped_and_capped() {
    let acts: Vec<JsonValue> = (0..12)
        .map(|i| {
            obj(vec![
                ("signature_id", s(&format!("sig{i}"))),
                ("signature", obj(vec![("severity", s("high"))])),
                ("server_message", s("restart it")),
            ])
        })
        .collect();
    let doc = obj(vec![("pending_actions", JsonValue::Array(acts))]);
    let out = build_proactive_actions(Some(&doc));
    assert_eq!(out.len(), 10);
    assert_eq!(out[9], obj(vec![("title", s("sig9")), ("urgency", s("high")), ("reasoning", s("restart it"))]));
    let bare = obj(vec![("pending_actions", JsonValue::Array(vec![obj(vec![])]))]);
    assert_eq!(
        build_proactive_actions(Some(&bare)),
        vec![obj(vec![("title", s("Action")), ("urgency", s("low")), ("reasoning", s(""))])]
    );
}

#[test]
fn health_data_with_no_files() {
    let h = get_health_data(None, None, None);
    assert_eq!(h.health_scores, obj(vec![]));
    assert_eq!(h.correlations, obj(vec![]));
    assert!(h.patterns.is_empty());
    assert!(h.proactive_actions.is_empty());
}

#[test]
fn data_dir_precedence() {
    assert_eq!(choose_data_dir(true, true), DataDir::BesideExe);
    assert_eq!(choose_data_dir(false, true), DataDir::ProjectRoot);
    assert_eq!(choose_data_dir(false, false), DataDir::WorkingDir);
}
