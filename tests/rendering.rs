use medfiles::pipeline::{conduct_summary, note_summary, process_note, report_page};
use medfiles::reconcile::{ChangeRecord, Timestamp};
use medfiles::report::{
    ansi_to_html, generate_changes_section, generate_complete_html, generate_html_footer,
    generate_html_header, generate_recipe_section, generate_timeline_section,
    parse_prescription_to_list, recipe_blob, returns_markup,
};
use medfiles::store::MedicationStore;
use medfiles::timeline::{
    graph_text, medication_names, parse_times, prescription_graphs, prescription_graphs_html,
};

fn change(med: &str, ts: &str, field: &str, old: &str, new: &str, cmd: &str) -> ChangeRecord {
    ChangeRecord {
        medication: med.to_string(),
        timestamp: ts.to_string(),
        field: field.to_string(),
        old_value: old.to_string(),
        new_value: new.to_string(),
        command: cmd.to_string(),
    }
}

fn ledger() -> Vec<ChangeRecord> {
    vec![
        change("B", "2024-01-02 10:00:00", "initial", "", "1 CP", "PRESCRIBE"),
        change("A", "2024-02-10 08:00:00", "dosage", "1", "2", "INCREASE"),
        change("A", "2024-01-05 09:00:00", "initial", "", "1 CP", "PRESCRIBE"),
        change("A", "2024-02-10 08:00:00", "posologia", "x", "y", "INCREASE"),
    ]
}

#[test]
fn empty_ledger_renders_nothing() {
    assert_eq!(prescription_graphs(&vec![]), "");
    assert_eq!(prescription_graphs_html(&vec![]), "");
}

#[test]
fn text_track_layout() {
    let expected = format!("Prescription timeline:\nA: 05/01●{}10/02▲\nB: 02/01●\n", "─".repeat(72));
    assert_eq!(prescription_graphs(&ledger()), expected);
}

#[test]
fn three_events_are_spread_evenly() {
    let h = vec![
        change("M", "2024-03-01 00:00:00", "initial", "", "1", "PRESCRIBE"),
        change("M", "2024-03-02 00:00:00", "dosage", "1", "2", "INCREASE"),
        change("M", "2024-03-03 00:00:00", "dosage", "2", "1", "DECREASE"),
    ];
    let rule = "─".repeat(32);
    let expected = format!("Prescription timeline:\nM: 01/03●{}02/03▲{}03/03▼\n", rule, rule);
    assert_eq!(prescription_graphs(&h), expected);
}

#[test]
fn rendering_is_deterministic_and_ordered_by_name() {
    let mut reversed = ledger();
    reversed.reverse();
    let a = prescription_graphs(&ledger());
    let b = prescription_graphs(&ledger());
    assert_eq!(a, b);
    let names: Vec<String> = medication_names(&reversed);
    assert_eq!(names, vec!["A".to_string(), "B".to_string()]);
    assert_eq!(medication_names(&ledger()), names);
    assert_eq!(prescription_graphs(&reversed), a);
}

#[test]
fn malformed_timestamp_falls_back_to_epoch() {
    let h = vec![change("X", "not a date", "initial", "", "1", "PRESCRIBE")];
    assert_eq!(prescription_graphs(&h), "Prescription timeline:\nX: 01/01●\n");
    let times = parse_times(&h);
    assert_eq!(times, vec![(0, 1, 1)]);
    let parsed = parse_times(&vec![change("X", "1970-01-02 00:00:01", "", "", "", "")]);
    assert_eq!(parsed, vec![(86401, 2, 1)]);
}

#[test]
fn text_from_given_times() {
    let h = vec![
        change("X", "a", "initial", "", "1", "PRESCRIBE"),
        change("X", "b", "initial", "", "1", "PRESCRIBE"),
    ];
    let text = graph_text(&h, &vec![(10, 3, 4), (5, 1, 2)]);
    assert_eq!(text, format!("Prescription timeline:\nX: 01/02●{}03/04●\n", "─".repeat(72)));
}

#[test]
fn markup_timeline() {
    let h = vec![
        change("A", "2024-01-05 09:00:00", "initial", "", "1 CP", "PRESCRIBE"),
        change("A", "2024-02-10 08:00:00", "dosage", "1", "2", "INCREASE"),
        change("A", "2024-02-10 08:00:00", "posologia", "x", "y", "INCREASE"),
    ];
    let expected = [
        "<div class=\"prescription-timeline\"><h3>A</h3><div class=\"timeline\">",
        "<div class=\"timeline-item\"><div class=\"timeline-marker initial\">●</div>",
        "<div class=\"timeline-content\"><strong>05/01</strong> - Initial prescription</div></div>",
        "<div class=\"timeline-item\"><div class=\"timeline-marker increase\">▲</div>",
        "<div class=\"timeline-content\"><strong>10/02</strong> - Increase - 1 → 2</div></div>",
        "</div></div>",
    ]
    .concat();
    assert_eq!(prescription_graphs_html(&h), expected);
}

#[test]
fn markup_other_command() {
    let h = vec![change("Z", "2024-01-05 09:00:00", "dosage", "3", "4", "TAPER")];
    let html = prescription_graphs_html(&h);
    assert!(html.contains("timeline-marker other\">●"));
    assert!(html.contains("TAPER - 3 → 4"));
}

#[test]
fn colour_codes_become_spans() {
    assert_eq!(
        ansi_to_html("x\x1b[31m- a\x1b[0m\n\x1b[32m+ b\x1b[0m"),
        "x<span class=\"removed\">- a</span>\n<span class=\"added\">+ b</span>"
    );
    assert_eq!(returns_markup(&vec![]), "No changes found.");
    assert_eq!(
        returns_markup(&vec!["a\x1b[0m".to_string(), "b".to_string()]),
        "a</span>\nb"
    );
}

#[test]
fn recipe_list_markup() {
    let blob = recipe_blob(&vec!["DIPIRONA 500MG\n1 CP 6/6H".to_string(), "AAS\n1 UNIT 1X".to_string()]);
    assert_eq!(blob, "DIPIRONA 500MG\n1 CP 6/6H\n\nAAS\n1 UNIT 1X");
    assert_eq!(
        parse_prescription_to_list(&blob),
        "<ol class=\"prescription-list\"><li><strong>DIPIRONA 500MG</strong><br>1 CP 6/6H</li><li><strong>AAS</strong><br>1 UNIT 1X</li></ol>"
    );
    assert_eq!(parse_prescription_to_list("one line only"), "<ol class=\"prescription-list\"></ol>");
}

#[test]
fn page_sections() {
    let header = generate_html_header("T");
    assert!(header.starts_with("<!DOCTYPE html>\n<html>\n<head>\n    <title>T</title>"));
    assert!(header.ends_with("<h1>T</h1>\n"));
    assert_eq!(
        generate_recipe_section("L"),
        "\n    <div class=\"prescription\">\n        <h2>Prescription</h2>\n        L\n    </div>\n"
    );
    assert_eq!(
        generate_changes_section("C"),
        "\n    <div class=\"prescription changes\">\n        <h2>Changes</h2>\n        <pre>C</pre>\n    </div>\n"
    );
    assert_eq!(
        generate_timeline_section("G"),
        "\n    <div class=\"prescription\">\n        <h2>Prescription timeline</h2>\n        G\n    </div>\n"
    );
    assert_eq!(generate_html_footer(), "\n</body>\n</html>");
    let page = generate_complete_html("L", "C", "G");
    assert_eq!(
        page,
        format!(
            "{}{}{}{}{}",
            generate_html_header("Medical prescription"),
            generate_recipe_section("L"),
            generate_changes_section("C"),
            generate_timeline_section("G"),
            generate_html_footer()
        )
    );
}

#[test]
fn report_page_assembles_parts() {
    let page = report_page("A\nB", &vec!["m".to_string()], &vec![]);
    assert!(page.contains("<li><strong>A</strong><br>B</li>"));
    assert!(page.contains("<pre>m</pre>"));
}

#[test]
fn note_is_processed_end_to_end() {
    let mut store = MedicationStore::new();
    let t = Timestamp::from_parts(2024, 6, 1, 12, 0, 0).unwrap();
    let note = "[QUEIXA]\n!PRESCREVO FORA\n[CONDUTA]\n!PRESCREVO \"VITAMINA D\" [500 UI] 1X/DIA;\norientacoes\n!AUMENTO \"VITAMINA D\" [1000 UI] 1X/DIA;\n[FIM]\n";
    let (output, messages, recipes, changes) = process_note(note, &mut store, &t);
    assert_eq!(messages.len(), 2);
    assert_eq!(output, format!("{}\n{}", messages[0], messages[1]));
    assert_eq!(messages[0], "ADDED VITAMINA D, 1 UNIT, : 500 UI 1X/DIA to the active medication list;");
    assert_eq!(recipes, vec!["VITAMINA D\n500 UI 1X/DIA".to_string()]);
    assert_eq!(changes.len(), 2);
    assert_eq!(changes[1].field, "dosage_observations");
    assert_eq!(changes[1].timestamp, "2024-06-01 12:00:00");
    assert_eq!(store.get("VITAMINA D").unwrap().dosage_observations, "1000 UI");
    assert!(store.get("FORA").is_none());
}

#[test]
fn run_summary_text() {
    let t = Timestamp::from_parts(2024, 6, 1, 12, 0, 0).unwrap();
    let block = note_summary("a.med", &t, "out");
    assert_eq!(block, "File: a.med (modified: 01/06/2024)\nout");
    assert_eq!(
        conduct_summary("G", &vec![block.clone(), "x".to_string()]),
        format!("G\n{}\n---\nx", block)
    );
}
