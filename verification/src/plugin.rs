//! The diagnostics worker's side of the plugin protocol.
//!
//! The worker samples system memory and the counts of managed agents and processes on a timer,
//! and pushes them to the global `home-pane` slot as a memory-over-time sparkline plus a two-line
//! count readout.
use crate::json::{
    copy_value, entries_view, field, fields, json, json_text, jsons, list_value, object_value,
    text_value, whole_float_value, write_json, Json,
};
use crate::metrics::{AgentCounts, MemorySample, PressureBand};
use crate::text::{
    decimal, decimal_is_made_of_digits, decimal_reads_back, decimal_value, push_decimal,
};
use serde_json::Value;
use vstd::prelude::*;

verus! {

/// The slot that the worker fills.
pub open spec fn home_pane_slot() -> Seq<char> {
    "home-pane"@
}

/// The worker's entry in the slot.
pub open spec fn memory_entry() -> Seq<char> {
    "memory"@
}

/// The shares of memory in use from which pressure is a warning, and from which it is critical,
/// as JSON numbers.
pub struct Thresholds {
    pub warn: Value,
    pub critical: Value,
}

/// The tone that stands for a pressure band.
pub open spec fn tone(band: PressureBand) -> Seq<char> {
    match band {
        PressureBand::Normal => "success"@,
        PressureBand::Warn => "warn"@,
        PressureBand::Critical => "danger"@,
    }
}

/// The tone that stands for a pressure band.
pub fn tone_for(band: PressureBand) -> (name: &'static str)
    ensures
        name@ == tone(band),
        band is Normal ==> name@ == "success"@,
        band is Warn ==> name@ == "warn"@,
        band is Critical ==> name@ == "danger"@,
{
    match band {
        PressureBand::Normal => "success",
        PressureBand::Warn => "warn",
        PressureBand::Critical => "danger",
    }
}

/// What is written under the sparkline.
pub open spec fn caption(mem: MemorySample) -> Seq<char> {
    if mem.total_bytes == 0 {
        "memory unavailable"@
    } else {
        decimal(mem.used_percent as nat) + "% RAM in use"@
    }
}

/// A line across the plot, from which on it has another tone.
pub open spec fn band_json(at: Json, tone: Seq<char>) -> Json {
    Json::Object(fields(seq![("at"@, at), ("tone"@, Json::Text(tone))]))
}

/// The plot of `values` on a scale from zero to one.
pub open spec fn sparkline_json(
    values: Seq<Json>,
    mem: MemorySample,
    warn: Json,
    critical: Json,
) -> Json {
    Json::Object(
        fields(
            seq![
                ("kind"@, Json::Text("sparkline"@)),
                ("values"@, Json::List(values)),
                ("max"@, Json::Float(1)),
                ("tone"@, Json::Text(tone(mem.band))),
                (
                    "bands"@,
                    Json::List(
                        seq![band_json(warn, "warn"@), band_json(critical, "danger"@)],
                    ),
                ),
                ("caption"@, Json::Text(caption(mem))),
            ],
        ),
    )
}

/// A labelled count.
pub open spec fn row_json(label: Seq<char>, count: nat) -> Json {
    Json::Object(
        fields(
            seq![
                ("kind"@, Json::Text("row"@)),
                ("label"@, Json::Text(label)),
                ("value"@, Json::Text(decimal(count))),
            ],
        ),
    )
}

/// The whole pane: the plot over one row each for the agents and the processes.
pub open spec fn home_pane_json(
    values: Seq<Json>,
    mem: MemorySample,
    counts: AgentCounts,
    warn: Json,
    critical: Json,
) -> Json {
    Json::Object(
        fields(
            seq![
                ("title"@, Json::Text("System"@)),
                (
                    "blocks"@,
                    Json::List(
                        seq![
                            sparkline_json(values, mem, warn, critical),
                            row_json("agents"@, counts.agents as nat),
                            row_json("processes"@, counts.procs as nat),
                        ],
                    ),
                ),
            ],
        ),
    )
}

/// The keys of a band differ.
proof fn lemma_band_keys()
    ensures
        "at"@ != "tone"@,
{
    reveal_strlit("at");
    reveal_strlit("tone");
    assert("at"@.len() == 2 && "tone"@.len() == 4);
}

/// The keys of a row differ.
proof fn lemma_row_keys()
    ensures
        "kind"@ != "label"@,
        "kind"@ != "value"@,
        "label"@ != "value"@,
{
    reveal_strlit("kind");
    reveal_strlit("label");
    reveal_strlit("value");
    assert("kind"@.len() == 4 && "label"@.len() == 5 && "value"@.len() == 5);
    assert("label"@[0] == 'l' && "value"@[0] == 'v');
}

/// The keys of the plot differ.
proof fn lemma_plot_keys()
    ensures
        "kind"@ != "values"@,
        "kind"@ != "max"@,
        "kind"@ != "tone"@,
        "kind"@ != "bands"@,
        "kind"@ != "caption"@,
        "values"@ != "max"@,
        "values"@ != "tone"@,
        "values"@ != "bands"@,
        "values"@ != "caption"@,
        "max"@ != "tone"@,
        "max"@ != "bands"@,
        "max"@ != "caption"@,
        "tone"@ != "bands"@,
        "tone"@ != "caption"@,
        "bands"@ != "caption"@,
{
    reveal_strlit("kind");
    reveal_strlit("values");
    reveal_strlit("max");
    reveal_strlit("tone");
    reveal_strlit("bands");
    reveal_strlit("caption");
    assert("kind"@.len() == 4 && "values"@.len() == 6 && "max"@.len() == 3);
    assert("tone"@.len() == 4 && "bands"@.len() == 5 && "caption"@.len() == 7);
    assert("kind"@[0] == 'k' && "tone"@[0] == 't');
}

/// The keys of the pane differ.
proof fn lemma_pane_keys()
    ensures
        "title"@ != "blocks"@,
{
    reveal_strlit("title");
    reveal_strlit("blocks");
    assert("title"@.len() == 5 && "blocks"@.len() == 6);
}

/// The keys of a notification and of its parameters differ; none of a notification is `id`.
proof fn lemma_message_keys()
    ensures
        "jsonrpc"@ != "method"@,
        "jsonrpc"@ != "params"@,
        "method"@ != "params"@,
        "id"@ != "jsonrpc"@,
        "id"@ != "method"@,
        "id"@ != "params"@,
        "slot"@ != "id"@,
        "slot"@ != "payload"@,
        "id"@ != "payload"@,
{
    reveal_strlit("jsonrpc");
    reveal_strlit("method");
    reveal_strlit("params");
    reveal_strlit("slot");
    reveal_strlit("id");
    reveal_strlit("payload");
    assert("jsonrpc"@.len() == 7 && "method"@.len() == 6 && "params"@.len() == 6);
    assert("slot"@.len() == 4 && "id"@.len() == 2 && "payload"@.len() == 7);
    assert("method"@[0] == 'm' && "params"@[0] == 'p');
}

/// A band of the plot.
fn band_value(at: &Value, tone: &'static str) -> (value: Value)
    ensures
        json(value) == band_json(json(*at), tone@),
{
    proof {
        lemma_band_keys();
    }
    let mut entries: Vec<(&'static str, Value)> = Vec::new();
    entries.push(("at", copy_value(at)));
    entries.push(("tone", text_value(tone)));
    assert(entries_view(entries@) =~= seq![("at"@, json(*at)), ("tone"@, Json::Text(tone@))]);
    object_value(entries)
}

/// A labelled count.
fn row_value(label: &'static str, count: usize) -> (value: Value)
    ensures
        json(value) == row_json(label@, count as nat),
{
    proof {
        lemma_row_keys();
    }
    let mut text = String::new();
    push_decimal(&mut text, count as u64);
    assert(text@ =~= decimal(count as nat));
    let mut entries: Vec<(&'static str, Value)> = Vec::new();
    entries.push(("kind", text_value("row")));
    entries.push(("label", text_value(label)));
    entries.push(("value", text_value(text.as_str())));
    assert(entries_view(entries@) =~= seq![
        ("kind"@, Json::Text("row"@)),
        ("label"@, Json::Text(label@)),
        ("value"@, Json::Text(decimal(count as nat))),
    ]);
    object_value(entries)
}

/// What is written under the sparkline.
fn caption_text(mem: &MemorySample) -> (text: String)
    ensures
        text@ == caption(*mem),
{
    let mut text = String::new();
    if mem.total_bytes == 0 {
        text.append("memory unavailable");
    } else {
        push_decimal(&mut text, mem.used_percent as u64);
        text.append("% RAM in use");
    }
    assert(text@ =~= caption(*mem));
    text
}

/// The plot of `history`.
fn sparkline_value(history: &[Value], mem: &MemorySample, thresholds: &Thresholds) -> (value: Value)
    ensures
        json(value) == sparkline_json(
            jsons(history@),
            *mem,
            json(thresholds.warn),
            json(thresholds.critical),
        ),
{
    proof {
        lemma_plot_keys();
    }
    let ghost warn = band_json(json(thresholds.warn), "warn"@);
    let ghost critical = band_json(json(thresholds.critical), "danger"@);
    let mut bands: Vec<Value> = Vec::new();
    bands.push(band_value(&thresholds.warn, "warn"));
    bands.push(band_value(&thresholds.critical, "danger"));
    assert(jsons(bands@) =~= seq![warn, critical]);
    let caption_text = caption_text(mem);
    let mut entries: Vec<(&'static str, Value)> = Vec::new();
    entries.push(("kind", text_value("sparkline")));
    entries.push(("values", list_value(history)));
    entries.push(("max", whole_float_value(1)));
    entries.push(("tone", text_value(tone_for(mem.band))));
    entries.push(("bands", list_value(bands.as_slice())));
    entries.push(("caption", text_value(caption_text.as_str())));
    assert(entries_view(entries@) =~= seq![
        ("kind"@, Json::Text("sparkline"@)),
        ("values"@, Json::List(jsons(history@))),
        ("max"@, Json::Float(1)),
        ("tone"@, Json::Text(tone(mem.band))),
        ("bands"@, Json::List(seq![warn, critical])),
        ("caption"@, Json::Text(caption(*mem))),
    ]);
    object_value(entries)
}

/// Builds the `home-pane` payload: a memory-headroom sparkline banded at the same warn/critical
/// thresholds that the pressure classification uses, plus one row each for the live agent and
/// process counts.
pub fn home_pane_payload(
    history: &[Value],
    mem: &MemorySample,
    counts: &AgentCounts,
    thresholds: &Thresholds,
) -> (payload: Value)
    ensures
        json(payload) == home_pane_json(
            jsons(history@),
            *mem,
            *counts,
            json(thresholds.warn),
            json(thresholds.critical),
        ),
{
    proof {
        lemma_pane_keys();
    }
    let ghost plot = sparkline_json(
        jsons(history@),
        *mem,
        json(thresholds.warn),
        json(thresholds.critical),
    );
    let mut blocks: Vec<Value> = Vec::new();
    blocks.push(sparkline_value(history, mem, thresholds));
    blocks.push(row_value("agents", counts.agents));
    blocks.push(row_value("processes", counts.procs));
    let ghost shown = seq![
        plot,
        row_json("agents"@, counts.agents as nat),
        row_json("processes"@, counts.procs as nat),
    ];
    assert(jsons(blocks@) =~= shown);
    let mut entries: Vec<(&'static str, Value)> = Vec::new();
    entries.push(("title", text_value("System")));
    entries.push(("blocks", list_value(blocks.as_slice())));
    assert(entries_view(entries@) =~= seq![
        ("title"@, Json::Text("System"@)),
        ("blocks"@, Json::List(shown)),
    ]);
    object_value(entries)
}

/// A `ui.state.set` JSON-RPC notification: it has no `id`, so the host runs it and sends nothing
/// back.
pub open spec fn ui_state_set_json(slot: Seq<char>, id: Seq<char>, payload: Json) -> Json {
    Json::Object(
        fields(
            seq![
                ("jsonrpc"@, Json::Text("2.0"@)),
                ("method"@, Json::Text("ui.state.set"@)),
                (
                    "params"@,
                    Json::Object(
                        fields(
                            seq![
                                ("slot"@, Json::Text(slot)),
                                ("id"@, Json::Text(id)),
                                ("payload"@, payload),
                            ],
                        ),
                    ),
                ),
            ],
        ),
    )
}

/// The `ui.state.set` notification that sets the entry `id` of `slot` to `payload`.
pub fn ui_state_set(slot: &str, id: &str, payload: Value) -> (notification: Value)
    ensures
        json(notification) == ui_state_set_json(slot@, id@, json(payload)),
{
    proof {
        lemma_message_keys();
    }
    let mut params: Vec<(&'static str, Value)> = Vec::new();
    params.push(("slot", text_value(slot)));
    params.push(("id", text_value(id)));
    params.push(("payload", payload));
    let ghost filled = seq![
        ("slot"@, Json::Text(slot@)),
        ("id"@, Json::Text(id@)),
        ("payload"@, json(payload)),
    ];
    assert(entries_view(params@) =~= filled);
    let mut entries: Vec<(&'static str, Value)> = Vec::new();
    entries.push(("jsonrpc", text_value("2.0")));
    entries.push(("method", text_value("ui.state.set")));
    entries.push(("params", object_value(params)));
    assert(entries_view(entries@) =~= seq![
        ("jsonrpc"@, Json::Text("2.0"@)),
        ("method"@, Json::Text("ui.state.set"@)),
        ("params"@, Json::Object(fields(filled))),
    ]);
    object_value(entries)
}

/// A `ui.state.set` notification as the one line that goes to the host, without its line break.
/// Whatever the strings in it hold, it has no line feed and no carriage return, so that with one
/// line break behind it, it is exactly one message.
pub fn ui_state_set_line(slot: &str, id: &str, payload: Value) -> (line: String)
    ensures
        line@ == json_text(ui_state_set_json(slot@, id@, json(payload))),
        !line@.contains('\n'),
        !line@.contains('\r'),
{
    write_json(&ui_state_set(slot, id, payload))
}

/// A `ui.state.set` message is a JSON-RPC 2.0 notification: it names its method and carries no
/// `id` of its own. Its parameters are the slot, the entry and the payload, as they were given.
pub proof fn notification_carries_no_id(slot: Seq<char>, id: Seq<char>, payload: Json)
    ensures
        ({
            let message = ui_state_set_json(slot, id, payload);
            let params = field(message, "params"@);
            &&& field(message, "id"@) is None
            &&& field(message, "jsonrpc"@) == Some(Json::Text("2.0"@))
            &&& field(message, "method"@) == Some(Json::Text("ui.state.set"@))
            &&& params is Some
            &&& field(params->0, "slot"@) == Some(Json::Text(slot))
            &&& field(params->0, "id"@) == Some(Json::Text(id))
            &&& field(params->0, "payload"@) == Some(payload)
        }),
{
    lemma_message_keys();
    let inner = seq![
        ("slot"@, Json::Text(slot)),
        ("id"@, Json::Text(id)),
        ("payload"@, payload),
    ];
    let outer = seq![
        ("jsonrpc"@, Json::Text("2.0"@)),
        ("method"@, Json::Text("ui.state.set"@)),
        ("params"@, Json::Object(fields(inner))),
    ];
    lemma_fields_of_three(inner[0], inner[1], inner[2]);
    lemma_fields_of_three(outer[0], outer[1], outer[2]);
}

/// The fields of three entries.
proof fn lemma_fields_of_three(a: (Seq<char>, Json), b: (Seq<char>, Json), c: (Seq<char>, Json))
    ensures
        fields(seq![a, b, c]) == Map::<Seq<char>, Json>::empty().insert(a.0, a.1).insert(
            b.0,
            b.1,
        ).insert(c.0, c.1),
{
    reveal_with_fuel(fields, 4);
    assert(seq![a, b, c].drop_last() =~= seq![a, b]);
    assert(seq![a, b].drop_last() =~= seq![a]);
    assert(seq![a].drop_last() =~= Seq::empty());
}

/// The fields of two entries.
proof fn lemma_fields_of_two(a: (Seq<char>, Json), b: (Seq<char>, Json))
    ensures
        fields(seq![a, b]) == Map::<Seq<char>, Json>::empty().insert(a.0, a.1).insert(b.0, b.1),
{
    reveal_with_fuel(fields, 3);
    assert(seq![a, b].drop_last() =~= seq![a]);
    assert(seq![a].drop_last() =~= Seq::empty());
}

/// A labelled count reads as a row with that label and that count.
pub proof fn row_reads_as_a_count(label: Seq<char>, count: nat)
    ensures
        field(row_json(label, count), "kind"@) == Some(Json::Text("row"@)),
        field(row_json(label, count), "label"@) == Some(Json::Text(label)),
        field(row_json(label, count), "value"@) == Some(Json::Text(decimal(count))),
{
    lemma_row_keys();
    lemma_fields_of_three(
        ("kind"@, Json::Text("row"@)),
        ("label"@, Json::Text(label)),
        ("value"@, Json::Text(decimal(count))),
    );
}

/// The plot shows the samples as they are, on a scale that ends at one whatever they are; its
/// tone is that of the pressure band, and it is banded at the two thresholds.
pub proof fn plot_is_banded_at_the_thresholds(
    values: Seq<Json>,
    mem: MemorySample,
    warn: Json,
    critical: Json,
)
    ensures
        ({
            let plot = sparkline_json(values, mem, warn, critical);
            let warn_band = band_json(warn, "warn"@);
            let critical_band = band_json(critical, "danger"@);
            &&& field(plot, "kind"@) == Some(Json::Text("sparkline"@))
            &&& field(plot, "values"@) == Some(Json::List(values))
            &&& field(plot, "max"@) == Some(Json::Float(1))
            &&& field(plot, "tone"@) == Some(Json::Text(tone(mem.band)))
            &&& field(plot, "bands"@) == Some(Json::List(seq![warn_band, critical_band]))
            &&& field(plot, "caption"@) == Some(Json::Text(caption(mem)))
            &&& field(warn_band, "at"@) == Some(warn)
            &&& field(warn_band, "tone"@) == Some(Json::Text(tone(PressureBand::Warn)))
            &&& field(critical_band, "at"@) == Some(critical)
            &&& field(critical_band, "tone"@) == Some(Json::Text(tone(PressureBand::Critical)))
        }),
{
    lemma_band_keys();
    lemma_plot_keys();
    lemma_fields_of_two(("at"@, warn), ("tone"@, Json::Text("warn"@)));
    lemma_fields_of_two(("at"@, critical), ("tone"@, Json::Text("danger"@)));
    let bands = Json::List(seq![band_json(warn, "warn"@), band_json(critical, "danger"@)]);
    let three = seq![
        ("kind"@, Json::Text("sparkline"@)),
        ("values"@, Json::List(values)),
        ("max"@, Json::Float(1)),
    ];
    let four = three.push(("tone"@, Json::Text(tone(mem.band))));
    let five = four.push(("bands"@, bands));
    let six = five.push(("caption"@, Json::Text(caption(mem))));
    lemma_fields_of_three(three[0], three[1], three[2]);
    assert(three =~= seq![three[0], three[1], three[2]]);
    assert(four.drop_last() =~= three);
    assert(five.drop_last() =~= four);
    assert(six.drop_last() =~= five);
    assert(six =~= seq![six[0], six[1], six[2], six[3], six[4], six[5]]);
    assert(fields(four) == fields(three).insert("tone"@, four[3].1));
    assert(fields(five) == fields(four).insert("bands"@, bands));
    assert(fields(six) == fields(five).insert("caption"@, six[5].1));
    assert(sparkline_json(values, mem, warn, critical) == Json::Object(fields(six)));
}

/// The pane is the plot over the row of the agents and the row of the processes.
pub proof fn pane_is_the_plot_over_the_counts(
    values: Seq<Json>,
    mem: MemorySample,
    counts: AgentCounts,
    warn: Json,
    critical: Json,
)
    ensures
        ({
            let pane = home_pane_json(values, mem, counts, warn, critical);
            &&& field(pane, "title"@) == Some(Json::Text("System"@))
            &&& field(pane, "blocks"@) == Some(
                Json::List(
                    seq![
                        sparkline_json(values, mem, warn, critical),
                        row_json("agents"@, counts.agents as nat),
                        row_json("processes"@, counts.procs as nat),
                    ],
                ),
            )
        }),
{
    lemma_pane_keys();
    lemma_fields_of_two(
        ("title"@, Json::Text("System"@)),
        (
            "blocks"@,
            Json::List(
                seq![
                    sparkline_json(values, mem, warn, critical),
                    row_json("agents"@, counts.agents as nat),
                    row_json("processes"@, counts.procs as nat),
                ],
            ),
        ),
    );
}

/// The tone tells the pressure bands apart.
pub proof fn tone_tracks_pressure(a: PressureBand, b: PressureBand)
    ensures
        tone(a) == tone(b) <==> a == b,
{
    reveal_strlit("success");
    reveal_strlit("warn");
    reveal_strlit("danger");
    assert("success"@.len() == 7 && "warn"@.len() == 4 && "danger"@.len() == 6);
}

/// The caption says that memory is unavailable exactly where its size is unknown; no percentage
/// reads so.
pub proof fn caption_tells_unknown_memory(mem: MemorySample)
    ensures
        caption(mem) == "memory unavailable"@ <==> mem.total_bytes == 0,
{
    reveal_strlit("memory unavailable");
    reveal_strlit("% RAM in use");
    decimal_is_made_of_digits(mem.used_percent as nat);
    if mem.total_bytes != 0 {
        assert(caption(mem)[0] == decimal(mem.used_percent as nat)[0]);
        assert("memory unavailable"@[0] == 'm');
    }
}

/// The tone is success, warn or danger, as memory is well, tight or short.
pub proof fn tone_names_the_band(band: PressureBand)
    ensures
        band is Normal ==> tone(band) == "success"@,
        band is Warn ==> tone(band) == "warn"@,
        band is Critical ==> tone(band) == "danger"@,
{
}

/// Where memory is known, the caption is a number and then `% RAM in use`, and the number reads
/// back as the share in use.
pub proof fn caption_reads_back(mem: MemorySample)
    requires
        mem.total_bytes != 0,
    ensures
        ({
            let number = caption(mem).take(caption(mem).len() - "% RAM in use"@.len());
            &&& caption(mem) == number + "% RAM in use"@
            &&& number.len() >= 1
            &&& forall|i: int| 0 <= i < number.len() ==> '0' <= #[trigger] number[i] <= '9'
            &&& decimal_value(number) == mem.used_percent
            &&& number == decimal(mem.used_percent as nat)
        }),
{
    let number = caption(mem).take(caption(mem).len() - "% RAM in use"@.len());
    decimal_is_made_of_digits(mem.used_percent as nat);
    decimal_reads_back(mem.used_percent as nat);
    assert(number =~= decimal(mem.used_percent as nat));
}

/// Unknown memory is said to be unavailable.
pub proof fn caption_of_unknown_memory(mem: MemorySample)
    requires
        mem.total_bytes == 0,
    ensures
        caption(mem) == "memory unavailable"@,
{
}

/// The whole notification, key by key. It has these three fields and no other.
pub proof fn notification_key_by_key(slot: Seq<char>, id: Seq<char>, payload: Json)
    ensures
        ui_state_set_json(slot, id, payload) == Json::Object(
            map![
                "jsonrpc"@ => Json::Text("2.0"@),
                "method"@ => Json::Text("ui.state.set"@),
                "params"@ => Json::Object(
                    map![
                        "slot"@ => Json::Text(slot),
                        "id"@ => Json::Text(id),
                        "payload"@ => payload,
                    ],
                ),
            ],
        ),
{
    let inner = Json::Object(
        map!["slot"@ => Json::Text(slot), "id"@ => Json::Text(id), "payload"@ => payload],
    );
    lemma_fields_of_three(
        ("slot"@, Json::Text(slot)),
        ("id"@, Json::Text(id)),
        ("payload"@, payload),
    );
    lemma_fields_of_three(
        ("jsonrpc"@, Json::Text("2.0"@)),
        ("method"@, Json::Text("ui.state.set"@)),
        ("params"@, inner),
    );
}

/// The whole pane, key by key: over the rows of the agents and of the processes stands the plot
/// of the samples, with a band of tone `warn` at the warn threshold and a band of tone `danger`
/// at the critical one.
pub proof fn pane_key_by_key(
    values: Seq<Json>,
    mem: MemorySample,
    counts: AgentCounts,
    warn: Json,
    critical: Json,
)
    ensures
        home_pane_json(values, mem, counts, warn, critical) == Json::Object(
            map![
                "title"@ => Json::Text("System"@),
                "blocks"@ => Json::List(
                    seq![
                        Json::Object(
                            map![
                                "kind"@ => Json::Text("sparkline"@),
                                "values"@ => Json::List(values),
                                "max"@ => Json::Float(1),
                                "tone"@ => Json::Text(tone(mem.band)),
                                "bands"@ => Json::List(
                                    seq![
                                        Json::Object(
                                            map![
                                                "at"@ => warn,
                                                "tone"@ => Json::Text("warn"@),
                                            ],
                                        ),
                                        Json::Object(
                                            map![
                                                "at"@ => critical,
                                                "tone"@ => Json::Text("danger"@),
                                            ],
                                        ),
                                    ],
                                ),
                                "caption"@ => Json::Text(caption(mem)),
                            ],
                        ),
                        Json::Object(
                            map![
                                "kind"@ => Json::Text("row"@),
                                "label"@ => Json::Text("agents"@),
                                "value"@ => Json::Text(decimal(counts.agents as nat)),
                            ],
                        ),
                        Json::Object(
                            map![
                                "kind"@ => Json::Text("row"@),
                                "label"@ => Json::Text("processes"@),
                                "value"@ => Json::Text(decimal(counts.procs as nat)),
                            ],
                        ),
                    ],
                ),
            ],
        ),
{
    let warn_band = Json::Object(map!["at"@ => warn, "tone"@ => Json::Text("warn"@)]);
    let critical_band = Json::Object(map!["at"@ => critical, "tone"@ => Json::Text("danger"@)]);
    lemma_fields_of_two(("at"@, warn), ("tone"@, Json::Text("warn"@)));
    lemma_fields_of_two(("at"@, critical), ("tone"@, Json::Text("danger"@)));
    let bands = Json::List(seq![warn_band, critical_band]);
    let kind = ("kind"@, Json::Text("sparkline"@));
    let plotted = ("values"@, Json::List(values));
    let scale = ("max"@, Json::Float(1));
    let four = seq![kind, plotted, scale, ("tone"@, Json::Text(tone(mem.band)))];
    let five = four.push(("bands"@, bands));
    let six = five.push(("caption"@, Json::Text(caption(mem))));
    lemma_fields_of_three(kind, plotted, scale);
    assert(four.drop_last() =~= seq![kind, plotted, scale]);
    assert(five.drop_last() =~= four);
    assert(six.drop_last() =~= five);
    assert(fields(five) == fields(four).insert("bands"@, bands));
    assert(fields(six) == fields(five).insert("caption"@, six[5].1));
    assert(six =~= seq![six[0], six[1], six[2], six[3], six[4], six[5]]);
    let plot = sparkline_json(values, mem, warn, critical);
    assert(plot == Json::Object(fields(six)));
    let agents = Json::Text(decimal(counts.agents as nat));
    let procs = Json::Text(decimal(counts.procs as nat));
    let row = ("kind"@, Json::Text("row"@));
    lemma_fields_of_three(row, ("label"@, Json::Text("agents"@)), ("value"@, agents));
    lemma_fields_of_three(row, ("label"@, Json::Text("processes"@)), ("value"@, procs));
    lemma_fields_of_two(
        ("title"@, Json::Text("System"@)),
        (
            "blocks"@,
            Json::List(
                seq![
                    plot,
                    row_json("agents"@, counts.agents as nat),
                    row_json("processes"@, counts.procs as nat),
                ],
            ),
        ),
    );
}

} // verus!
