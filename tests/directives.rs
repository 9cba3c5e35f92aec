use medfiles::directive::{
    is_prescription, medication_json_populator, medication_list_tokenizer, prescription_grabber,
    section_lines, tokenize_words, Command,
};

fn words(ws: &[&str]) -> Vec<String> {
    ws.iter().map(|w| w.to_string()).collect()
}

#[test]
fn bare_directive_gets_defaults() {
    let p = medication_list_tokenizer("!PRESCREVO DIPIRONA;");
    assert!(matches!(p.command, Command::Prescribe));
    assert_eq!(p.medication, "DIPIRONA");
    assert_eq!(p.dosage, "1 UNIT");
    assert_eq!(p.dosage_observations, "");
    assert_eq!(p.posologia, "");
    assert_eq!(p.posology_observations, "");
    assert_eq!(p.objective, "");
}

#[test]
fn quoted_name_with_space() {
    let p = medication_list_tokenizer("!PRESCREVO \"VITAMINA D\" [500 UI] 1X/DIA;");
    assert!(matches!(p.command, Command::Prescribe));
    assert_eq!(p.medication, "VITAMINA D");
    assert_eq!(p.dosage, "1 UNIT");
    assert_eq!(p.dosage_observations, "500 UI");
    assert_eq!(p.posologia, "1X/DIA");
    assert_eq!(p.posology_observations, "");
    assert_eq!(p.objective, "");
}

#[test]
fn single_quoted_name() {
    let p = medication_list_tokenizer("!PRESCREVO 'ACIDO ACETIL SALICILICO' 100MG;");
    assert_eq!(p.medication, "ACIDO ACETIL SALICILICO");
    assert_eq!(p.dosage, "100MG");
}

#[test]
fn every_field_filled() {
    let p = medication_list_tokenizer(
        "!AUMENTO LOSARTANA 50MG [1 COMPRIMIDO] 2X AO_DIA [7_DIAS] >> CONTROLE PRESSORICO;",
    );
    assert!(matches!(p.command, Command::Increase));
    assert_eq!(p.medication, "LOSARTANA");
    assert_eq!(p.dosage, "50MG");
    assert_eq!(p.dosage_observations, "1 COMPRIMIDO");
    assert_eq!(p.posologia, "2X AO_DIA");
    assert_eq!(p.posology_observations, "7_DIAS");
    assert_eq!(p.objective, "CONTROLE PRESSORICO");
}

#[test]
fn objective_stops_posology() {
    let p = medication_list_tokenizer("!PRESCREVO X [2 CP] 8/8H >> DOR;");
    assert_eq!(p.dosage, "1 UNIT");
    assert_eq!(p.dosage_observations, "2 CP");
    assert_eq!(p.posologia, "8/8H");
    assert_eq!(p.posology_observations, "");
    assert_eq!(p.objective, "DOR");
}

#[test]
fn unclosed_bracket_takes_the_rest() {
    let p = medication_list_tokenizer("!PRESCREVO X [2 CP AO DIA");
    assert_eq!(p.dosage_observations, "2 CP AO DIA");
    assert_eq!(p.posologia, "");
}

#[test]
fn posology_observation_takes_one_word() {
    let p = medication_list_tokenizer("!PRESCREVO X 1 2X DIA [POR 7 DIAS]");
    assert_eq!(p.dosage, "1");
    assert_eq!(p.dosage_observations, "");
    assert_eq!(p.posologia, "2X DIA");
    assert_eq!(p.posology_observations, "POR");
    assert_eq!(p.objective, "");
    let q = medication_list_tokenizer("!PRESCREVO X 1 2 [POR 7 DIAS]");
    assert_eq!(q.posologia, "2 [POR");
    assert_eq!(q.posology_observations, "");
}

#[test]
fn command_words_map_to_commands() {
    assert!(matches!(medication_list_tokenizer("!REDUZO X").command, Command::Decrease));
    assert!(matches!(medication_list_tokenizer("!SUSPENDO X").command, Command::Suspend));
    match medication_list_tokenizer("!DESMAME X").command {
        Command::Other(w) => assert_eq!(w, "DESMAME"),
        _ => panic!("expected a passthrough command"),
    }
}

#[test]
fn empty_line_yields_empty_fields() {
    let p = medication_list_tokenizer("!;");
    match p.command {
        Command::Other(w) => assert_eq!(w, ""),
        _ => panic!("expected an empty passthrough command"),
    }
    assert_eq!(p.medication, "");
    assert_eq!(p.dosage, "1 UNIT");
}

#[test]
fn words_tokenize_positionally() {
    let p = tokenize_words(&words(&["PRESCREVO", "\"A", "B\"", "10MG", ">>", "X", "Y"]));
    assert_eq!(p.medication, "A B");
    assert_eq!(p.dosage, "10MG");
    assert_eq!(p.posologia, "");
    assert_eq!(p.objective, "X Y");
}

#[test]
fn populator_matches_tokenizer() {
    let p = medication_json_populator("  !PRESCREVO AAS 100MG 1X/DIA;");
    assert_eq!(p.medication, "AAS");
    assert_eq!(p.dosage, "100MG");
    assert_eq!(p.posologia, "1X/DIA");
}

#[test]
fn classifier_prefixes() {
    assert!(is_prescription("!PRESCREVO X"));
    assert!(is_prescription("   !AUMENTO X  "));
    assert!(is_prescription("!INCREMENTO X"));
    assert!(is_prescription("!DECREMENTO X"));
    assert!(is_prescription("!SUSPENDO X"));
    assert!(is_prescription("!DESMAME X"));
    assert!(!is_prescription("!REDUZO X"));
    assert!(!is_prescription("PRESCREVO X"));
    assert!(!is_prescription(""));
}

#[test]
fn grabber_keeps_directives_in_order() {
    let kept = prescription_grabber(words(&["nota", "!PRESCREVO A", "outra", " !AUMENTO B"]));
    assert_eq!(kept, words(&["!PRESCREVO A", " !AUMENTO B"]));
}

#[test]
fn section_is_scoped() {
    let note = "[HISTORIA]\n!PRESCREVO FORA\n[CONDUTA]\n!PRESCREVO A\ntexto\n[EXAMES]\n!PRESCREVO B\n";
    assert_eq!(section_lines(note), words(&["!PRESCREVO A", "texto"]));
    assert_eq!(section_lines("sem secao\n!PRESCREVO A"), Vec::<String>::new());
    assert_eq!(section_lines("  [CONDUTA]  \r\n!AUMENTO A\r\n"), words(&["!AUMENTO A"]));
}
