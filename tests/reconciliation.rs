use medfiles::directive::{medication_list_tokenizer, Command, Prescription};
use medfiles::reconcile::{
    append_history, extract_medication_from_return, format_timestamp, generate_diff,
    latest_returns, prescription_finalizer, recipe_text, ChangeRecord, Timestamp,
};
use medfiles::store::{MedicationRecord, MedicationStore};

fn stamp() -> Timestamp {
    Timestamp::from_parts(2024, 3, 5, 7, 8, 9).unwrap()
}

fn record(dosage: &str, obs: &str, posologia: &str, pos_obs: &str) -> MedicationRecord {
    MedicationRecord {
        dosage: dosage.to_string(),
        dosage_observations: obs.to_string(),
        posologia: posologia.to_string(),
        posology_observations: pos_obs.to_string(),
    }
}

fn directive(command: Command, med: &str, dosage: &str, obs: &str, posologia: &str, pos_obs: &str) -> Prescription {
    Prescription {
        command,
        medication: med.to_string(),
        dosage: dosage.to_string(),
        dosage_observations: obs.to_string(),
        posologia: posologia.to_string(),
        posology_observations: pos_obs.to_string(),
        objective: String::new(),
    }
}

fn change(med: &str, ts: &str, field: &str, old: &str, new: &str, cmd: &str) -> ChangeRecord {
    ChangeRecord {
        medication: med.to_string(),
        timestamp: ts.to_string(),
        field: field.to_string(),
        old_value: old.to_string(),
        new_value: new.to_string(),
        command: cmd.to_string(),
    }
}

fn tuple(c: &ChangeRecord) -> (String, String, String, String, String, String) {
    (
        c.medication.clone(),
        c.timestamp.clone(),
        c.field.clone(),
        c.old_value.clone(),
        c.new_value.clone(),
        c.command.clone(),
    )
}

#[test]
fn timestamp_is_formatted() {
    assert_eq!(format_timestamp(&stamp()), "2024-03-05 07:08:09");
    let early = Timestamp::from_parts(5, 12, 31, 23, 59, 0).unwrap();
    assert_eq!(format_timestamp(&early), "0005-12-31 23:59:00");
}

#[test]
fn invalid_timestamps_are_refused() {
    assert!(Timestamp::from_parts(2024, 13, 1, 0, 0, 0).is_none());
    assert!(Timestamp::from_parts(2024, 1, 0, 0, 0, 0).is_none());
    assert!(Timestamp::from_parts(10000, 1, 1, 0, 0, 0).is_none());
    assert!(Timestamp::from_parts(2024, 1, 1, 24, 0, 0).is_none());
}

#[test]
fn prescribe_adds_message_recipe_and_change() {
    let mut store = MedicationStore::new();
    let item = medication_list_tokenizer("!PRESCREVO DIPIRONA 500MG [1 COMPRIMIDO] 6/6H;");
    let (messages, recipes, changes) = prescription_finalizer(vec![item], &mut store, &stamp());
    assert_eq!(messages, vec!["ADDED DIPIRONA, 500MG, : 1 COMPRIMIDO 6/6H to the active medication list;".to_string()]);
    assert_eq!(recipes, vec!["DIPIRONA 500MG\n1 COMPRIMIDO 6/6H".to_string()]);
    assert_eq!(changes.len(), 1);
    assert_eq!(
        tuple(&changes[0]),
        tuple(&change("DIPIRONA", "2024-03-05 07:08:09", "initial", "", "1 COMPRIMIDO", "PRESCRIBE"))
    );
    let rec = store.get("DIPIRONA").unwrap();
    assert_eq!(rec.dosage, "500MG");
    assert_eq!(rec.dosage_observations, "1 COMPRIMIDO");
    assert_eq!(rec.posologia, "6/6H");
    assert_eq!(rec.posology_observations, "");
}

#[test]
fn recipe_uses_defaults_and_upper_case() {
    let item = directive(Command::Prescribe, "dipirona", "1 UNIT", "", "6/6H", "7 DIAS");
    assert_eq!(recipe_text(&item), "DIPIRONA\n1 UNIT 6/6H, for 7 DIAS");
    let item = directive(Command::Prescribe, "ação", "2MG", "meio", "1X", "");
    assert_eq!(recipe_text(&item), "AÇÃO 2MG\nmeio 1X");
}

#[test]
fn prescribe_twice_keeps_last_record_and_both_changes() {
    let mut store = MedicationStore::new();
    let line = "!PRESCREVO AAS 100MG [1 CP] 1X/DIA;";
    let items = vec![medication_list_tokenizer(line), medication_list_tokenizer(line)];
    let (messages, recipes, changes) = prescription_finalizer(items, &mut store, &stamp());
    assert_eq!(store.len(), 1);
    assert_eq!(store.get("AAS").unwrap().dosage_observations, "1 CP");
    assert_eq!(messages.len(), 2);
    assert_eq!(recipes.len(), 2);
    assert_eq!(changes.len(), 2);
    assert_eq!(changes[0].field, "initial");
    assert_eq!(changes[1].field, "initial");
    assert_eq!(tuple(&changes[0]), tuple(&changes[1]));
}

#[test]
fn increase_of_unknown_medication_is_dropped() {
    let mut store = MedicationStore::new();
    let item = directive(Command::Increase, "ASPIRINA", "1 UNIT", "2 TABLETS", "", "");
    let (messages, recipes, changes) = prescription_finalizer(vec![item], &mut store, &stamp());
    assert!(messages.is_empty());
    assert!(recipes.is_empty());
    assert!(changes.is_empty());
    assert_eq!(store.len(), 0);
}

#[test]
fn increase_records_the_changed_field() {
    let mut store = MedicationStore::new();
    store.insert("ASPIRINA".to_string(), record("1 UNIT", "1 TABLET", "1X", ""));
    let item = directive(Command::Increase, "ASPIRINA", "1 UNIT", "2 TABLETS", "1X", "");
    let (messages, recipes, changes) = prescription_finalizer(vec![item], &mut store, &stamp());
    assert_eq!(changes.len(), 1);
    assert_eq!(
        tuple(&changes[0]),
        tuple(&change("ASPIRINA", "2024-03-05 07:08:09", "dosage_observations", "1 TABLET", "2 TABLETS", "INCREASE"))
    );
    assert_eq!(
        messages,
        vec!["Changes for ASPIRINA:\n\x1b[31m- dosage_observations: 1 TABLET\x1b[0m\n\x1b[32m+ dosage_observations: 2 TABLETS\x1b[0m".to_string()]
    );
    assert!(recipes.is_empty());
    assert_eq!(store.get("ASPIRINA").unwrap().dosage_observations, "2 TABLETS");
}

#[test]
fn increase_without_difference_says_so() {
    let mut store = MedicationStore::new();
    store.insert("ASPIRINA".to_string(), record("1 UNIT", "1 TABLET", "1X", ""));
    let item = directive(Command::Increase, "ASPIRINA", "1 UNIT", "1 TABLET", "1X", "");
    let (messages, _, changes) = prescription_finalizer(vec![item], &mut store, &stamp());
    assert_eq!(messages, vec!["No change detected for ASPIRINA".to_string()]);
    assert!(changes.is_empty());
    assert_eq!(store.len(), 1);
}

#[test]
fn increase_diffs_every_field_in_order() {
    let prev = record("1", "A", "B", "C");
    let now = directive(Command::Increase, "M", "2", "A", "D", "E");
    let expected = "Changes for M:\n\x1b[31m- dosage: 1\x1b[0m\n\x1b[32m+ dosage: 2\x1b[0m\n\x1b[31m- posologia: B\x1b[0m\n\x1b[32m+ posologia: D\x1b[0m\n\x1b[31m- posology_observations: C\x1b[0m\n\x1b[32m+ posology_observations: E\x1b[0m";
    assert_eq!(generate_diff("M", &prev, &now), expected);
    let mut store = MedicationStore::new();
    store.insert("M".to_string(), prev);
    let (_, _, changes) = prescription_finalizer(vec![now], &mut store, &stamp());
    let fields: Vec<String> = changes.iter().map(|c| c.field.clone()).collect();
    assert_eq!(fields, vec!["dosage", "posologia", "posology_observations"]);
}

#[test]
fn decrease_and_suspend_change_nothing() {
    let mut store = MedicationStore::new();
    store.insert("M".to_string(), record("1", "A", "B", ""));
    let items = vec![
        directive(Command::Decrease, "M", "0", "", "", ""),
        directive(Command::Suspend, "M", "0", "", "", ""),
        directive(Command::Other("DESMAME".to_string()), "M", "0", "", "", ""),
    ];
    let (messages, recipes, changes) = prescription_finalizer(items, &mut store, &stamp());
    assert!(messages.is_empty() && recipes.is_empty() && changes.is_empty());
    assert_eq!(store.get("M").unwrap().dosage, "1");
}

#[test]
fn store_overwrites_by_name() {
    let mut store = MedicationStore::new();
    store.insert("A".to_string(), record("1", "", "", ""));
    store.insert("B".to_string(), record("2", "", "", ""));
    store.insert("A".to_string(), record("3", "", "", ""));
    assert_eq!(store.len(), 2);
    assert_eq!(store.get("A").unwrap().dosage, "3");
    assert!(store.get("a").is_none());
    assert_eq!(store.entries().len(), 2);
}

#[test]
fn medication_is_read_back_from_messages() {
    assert_eq!(
        extract_medication_from_return("ADDED DIPIRONA, 500MG, : 1 CP 6/6H to the active medication list;"),
        Some("DIPIRONA".to_string())
    );
    assert_eq!(
        extract_medication_from_return("Changes for VITAMINA D:\n\x1b[31m- dosage: 1\x1b[0m"),
        Some("VITAMINA D".to_string())
    );
    assert_eq!(extract_medication_from_return("No change detected for X"), None);
    assert_eq!(extract_medication_from_return("ADDED nothing here"), None);
    assert_eq!(extract_medication_from_return("other"), None);
}

#[test]
fn latest_message_per_medication() {
    let messages = vec![
        "ADDED A, 1, : x y to the active medication list;".to_string(),
        "ADDED B, 1, : x y to the active medication list;".to_string(),
        "Changes for A:\nsomething".to_string(),
        "No change detected for B".to_string(),
    ];
    assert_eq!(
        latest_returns(&messages),
        vec!["Changes for A:\nsomething".to_string(), "ADDED B, 1, : x y to the active medication list;".to_string()]
    );
}

#[test]
fn ledger_appends_without_rewriting() {
    let old = vec![change("A", "t1", "initial", "", "1", "PRESCRIBE")];
    let first = vec![change("B", "t2", "initial", "", "2", "PRESCRIBE")];
    let second = vec![
        change("A", "t3", "dosage", "1", "2", "INCREASE"),
        change("A", "t3", "posologia", "x", "y", "INCREASE"),
    ];
    let ledger = append_history(old, first);
    let ledger = append_history(ledger, second);
    assert_eq!(ledger.len(), 1 + 1 + 2);
    assert_eq!(tuple(&ledger[0]), tuple(&change("A", "t1", "initial", "", "1", "PRESCRIBE")));
    assert_eq!(tuple(&ledger[1]), tuple(&change("B", "t2", "initial", "", "2", "PRESCRIBE")));
    assert_eq!(ledger[3].field, "posologia");
}
