use diagnostics::metrics::{AgentCounts, MemorySample, PressureBand};
use diagnostics::plugin::{
    home_pane_payload, tone_for, ui_state_set, ui_state_set_line, Thresholds,
};
use serde_json::Value;

const HEADROOM_WARN: f64 = 0.70;
const HEADROOM_CRITICAL: f64 = 0.90;

fn thresholds() -> Thresholds {
    Thresholds { warn: Value::from(HEADROOM_WARN), critical: Value::from(HEADROOM_CRITICAL) }
}

fn band_at(used_fraction: f64) -> PressureBand {
    if used_fraction >= HEADROOM_CRITICAL {
        PressureBand::Critical
    } else if used_fraction >= HEADROOM_WARN {
        PressureBand::Warn
    } else {
        PressureBand::Normal
    }
}

fn mem_at(used_fraction: f64) -> MemorySample {
    MemorySample {
        total_bytes: 1000,
        used_bytes: 1000 - (1000.0 * (1.0 - used_fraction)).round() as u64,
        used_percent: (used_fraction * 100.0).round() as u32,
        band: band_at(used_fraction),
    }
}

fn unknown_memory() -> MemorySample {
    MemorySample { total_bytes: 0, used_bytes: 0, used_percent: 0, band: PressureBand::Normal }
}

fn object(entries: &[(&str, Value)]) -> Value {
    entries.iter().cloned().collect()
}

fn samples(fractions: &[f64]) -> Vec<Value> {
    fractions.iter().map(|f| Value::from(*f)).collect()
}

#[test]
fn payload_carries_sparkline_history_and_count_rows() {
    let counts = AgentCounts { agents: 3, procs: 24 };
    let payload = home_pane_payload(&samples(&[0.1, 0.2, 0.3]), &mem_at(0.3), &counts, &thresholds());
    let blocks = payload["blocks"].as_array().unwrap();

    assert_eq!(blocks[0]["kind"], "sparkline");
    assert_eq!(blocks[0]["values"], Value::from(vec![0.1, 0.2, 0.3]));
    assert_eq!(blocks[0]["max"], 1.0);
    // Banded at the shared warn/critical headroom thresholds.
    assert_eq!(blocks[0]["bands"][0]["at"], HEADROOM_WARN);
    assert_eq!(blocks[0]["bands"][1]["at"], HEADROOM_CRITICAL);
    assert_eq!(blocks[0]["caption"], "30% RAM in use");

    assert_eq!(
        blocks[1],
        object(&[
            ("kind", Value::from("row")),
            ("label", Value::from("agents")),
            ("value", Value::from("3")),
        ])
    );
    assert_eq!(
        blocks[2],
        object(&[
            ("kind", Value::from("row")),
            ("label", Value::from("processes")),
            ("value", Value::from("24")),
        ])
    );
}

#[test]
fn sparkline_tone_tracks_pressure() {
    let cases = [(0.30, "success"), (0.75, "warn"), (0.95, "danger")];
    for (frac, expected) in cases {
        let payload =
            home_pane_payload(&samples(&[frac]), &mem_at(frac), &AgentCounts::default(), &thresholds());
        assert_eq!(payload["blocks"][0]["tone"], expected, "fraction {frac}");
    }
}

#[test]
fn caption_reports_unavailable_when_ram_unknown() {
    let payload =
        home_pane_payload(&samples(&[0.0]), &unknown_memory(), &AgentCounts::default(), &thresholds());
    assert_eq!(payload["blocks"][0]["caption"], "memory unavailable");
}

#[test]
fn emits_a_ui_state_set_notification_without_an_id() {
    let line = ui_state_set_line("home-pane", "memory", object(&[("title", Value::from("System"))]));
    let parsed: Value = serde_json::from_str(&line).unwrap();
    assert_eq!(parsed["jsonrpc"], "2.0");
    assert_eq!(parsed["method"], "ui.state.set");
    assert!(parsed.get("id").is_none(), "notification carries no id");
    assert_eq!(parsed["params"]["slot"], "home-pane");
    assert_eq!(parsed["params"]["id"], "memory");
}

#[test]
fn notification_carries_the_payload_it_was_given() {
    let payload = object(&[("title", Value::from("System")), ("n", Value::from(0.25))]);
    let message = ui_state_set("slot a", "entry b", payload.clone());
    assert_eq!(
        message,
        object(&[
            ("jsonrpc", Value::from("2.0")),
            ("method", Value::from("ui.state.set")),
            (
                "params",
                object(&[
                    ("slot", Value::from("slot a")),
                    ("id", Value::from("entry b")),
                    ("payload", payload),
                ])
            ),
        ])
    );
}

#[test]
fn line_is_the_compact_text_of_the_notification() {
    let line = ui_state_set_line("s", "i", Value::from(vec![Value::from(1.5), Value::Null]));
    assert_eq!(
        line,
        "{\"jsonrpc\":\"2.0\",\"method\":\"ui.state.set\",\"params\":{\"id\":\"i\",\"payload\":[1.5,null],\"slot\":\"s\"}}"
    );
}

#[test]
fn line_holds_no_line_break() {
    let payload = object(&[("two\r\nlines", Value::from("a\r\nb\rc"))]);
    let line = ui_state_set_line("slot\n", "id\r", payload.clone());
    assert!(!line.contains('\n'));
    assert!(!line.contains('\r'));
    let parsed: Value = serde_json::from_str(&line).unwrap();
    assert_eq!(parsed["params"]["payload"], payload);
    assert_eq!(parsed["params"]["slot"], "slot\n");
}

#[test]
fn whole_payload_is_exact() {
    let counts = AgentCounts { agents: 0, procs: 1207 };
    let payload = home_pane_payload(&samples(&[0.95]), &mem_at(0.95), &counts, &thresholds());
    assert_eq!(
        payload.to_string(),
        "{\"blocks\":[{\"bands\":[{\"at\":0.7,\"tone\":\"warn\"},{\"at\":0.9,\"tone\":\"danger\"}],\
         \"caption\":\"95% RAM in use\",\"kind\":\"sparkline\",\"max\":1.0,\"tone\":\"danger\",\
         \"values\":[0.95]},{\"kind\":\"row\",\"label\":\"agents\",\"value\":\"0\"},\
         {\"kind\":\"row\",\"label\":\"processes\",\"value\":\"1207\"}],\"title\":\"System\"}"
    );
}

#[test]
fn empty_history_is_an_empty_plot() {
    let payload = home_pane_payload(&[], &unknown_memory(), &AgentCounts::default(), &thresholds());
    assert_eq!(payload["blocks"][0]["values"], Value::Array(Vec::new()));
    assert_eq!(payload["blocks"][1]["value"], "0");
}

#[test]
fn tones_of_the_bands() {
    assert_eq!(tone_for(PressureBand::Normal), "success");
    assert_eq!(tone_for(PressureBand::Warn), "warn");
    assert_eq!(tone_for(PressureBand::Critical), "danger");
}

#[test]
fn caption_percent_is_written_out() {
    for (percent, expected) in
        [(0, "0% RAM in use"), (100, "100% RAM in use"), (u32::MAX, "4294967295% RAM in use")]
    {
        let mem = MemorySample { used_percent: percent, ..mem_at(0.5) };
        let payload = home_pane_payload(&[], &mem, &AgentCounts::default(), &thresholds());
        assert_eq!(payload["blocks"][0]["caption"], expected);
    }
}
