//! One run over a note: its directive section is read, its directives
//! parsed and applied to the store; and the texts that the run reports.

use vstd::prelude::*;
use vstd::string::*;
use crate::directive::{
    directive_body, directive_of, keep_directives, lines_of, medication_json_populator,
    prescription_grabber, section_lines, section_scan, words_of, words_view, PrescriptionModel,
    Prescription,
};
use crate::reconcile::{
    changes_view, digits, prescription_finalizer, prescriptions_view, push_digits, reconcile,
    stamp_text, ChangeRecord, Timestamp,
};
use crate::report::{
    generate_complete_html, join, joined, messages_markup, page, parse_prescription_to_list,
    recipe_list, returns_markup,
};
use crate::store::MedicationStore;
use crate::timeline::{event_times, prescription_graphs_html, timeline_markup};

verus! {

/// The directive that each line spells, in order.
pub open spec fn parsed_lines(ls: Seq<Seq<char>>) -> Seq<PrescriptionModel> {
    ls.map_values(|l: Seq<char>| directive_of(words_of(directive_body(l))))
}

/// The directive lines of a note's directive section.
pub open spec fn note_directives(content: Seq<char>) -> Seq<Seq<char>> {
    keep_directives(section_scan(lines_of(content)).0)
}

/// Parses the directive lines and applies them in order to the store, with
/// `file_time` as the time of their changes; gives the messages joined by
/// line breaks, the messages, the recipe blocks and the change records.
pub fn prescription_handler(
    prescriptions: Vec<String>,
    medications: &mut MedicationStore,
    file_time: &Timestamp,
) -> (r: (String, Vec<String>, Vec<String>, Vec<ChangeRecord>))
    requires
        old(medications).wf(),
    ensures
        final(medications).wf(),
        ({
            let out = reconcile(parsed_lines(words_view(prescriptions@)), old(medications)@, stamp_text(*file_time));
            &&& final(medications)@ == out.store
            &&& r.0@ == joined(out.messages, "\n"@)
            &&& words_view(r.1@) == out.messages
            &&& words_view(r.2@) == out.recipes
            &&& changes_view(r.3@) == out.changes
        }),
{
    let ghost ls = words_view(prescriptions@);
    let mut processed: Vec<Prescription> = Vec::new();
    let mut i: usize = 0;
    while i < prescriptions.len()
        invariant
            i <= prescriptions.len(),
            ls == words_view(prescriptions@),
            prescriptions_view(processed@) == parsed_lines(ls).subrange(0, i as int),
        decreases prescriptions.len() - i,
    {
        let ghost before = prescriptions_view(processed@);
        processed.push(medication_json_populator(prescriptions[i].as_str()));
        assert(prescriptions_view(processed@) =~= before.push(parsed_lines(ls)[i as int]));
        assert(parsed_lines(ls).subrange(0, i + 1) =~= parsed_lines(ls).subrange(0, i as int).push(parsed_lines(ls)[i as int]));
        i = i + 1;
    }
    assert(prescriptions_view(processed@) =~= parsed_lines(ls));
    let (messages, recipes, changes) = prescription_finalizer(processed, medications, file_time);
    let output = join(&messages, "\n");
    (output, messages, recipes, changes)
}

/// Reads a note's directive section, keeps its directive lines and applies
/// them to the store as [`prescription_handler`] does.
pub fn process_note(
    content: &str,
    medications: &mut MedicationStore,
    file_time: &Timestamp,
) -> (r: (String, Vec<String>, Vec<String>, Vec<ChangeRecord>))
    requires
        old(medications).wf(),
    ensures
        final(medications).wf(),
        ({
            let out = reconcile(parsed_lines(note_directives(content@)), old(medications)@, stamp_text(*file_time));
            &&& final(medications)@ == out.store
            &&& r.0@ == joined(out.messages, "\n"@)
            &&& words_view(r.1@) == out.messages
            &&& words_view(r.2@) == out.recipes
            &&& changes_view(r.3@) == out.changes
        }),
{
    let section = section_lines(content);
    let lines = prescription_grabber(section);
    prescription_handler(lines, medications, file_time)
}

/// A note's date as `DD/MM/YYYY`.
pub open spec fn day_text(t: Timestamp) -> Seq<char> {
    digits(t.day as nat, 2) + "/"@ + digits(t.month as nat, 2) + "/"@ + digits(t.year as nat, 4)
}

/// The block that reports one note: its name, its date and its messages.
pub open spec fn note_block(name: Seq<char>, t: Timestamp, output: Seq<char>) -> Seq<char> {
    "File: "@ + name + " (modified: "@ + day_text(t) + ")\n"@ + output
}

/// Builds the block that reports one note.
pub fn note_summary(name: &str, file_time: &Timestamp, output: &str) -> (r: String)
    ensures
        r@ == note_block(name@, *file_time, output@),
{
    let mut s = String::from_str("File: ");
    s.append(name);
    s.append(" (modified: ");
    let ghost head = s@;
    push_digits(&mut s, file_time.day, 2);
    s.append("/");
    push_digits(&mut s, file_time.month, 2);
    s.append("/");
    push_digits(&mut s, file_time.year, 4);
    assert(s@ =~= head + day_text(*file_time));
    s.append(")\n");
    s.append(output);
    s
}

/// The report of a run: the timeline, then the notes' blocks separated by rules.
pub open spec fn run_summary(graph: Seq<char>, blocks: Seq<Seq<char>>) -> Seq<char> {
    graph + "\n"@ + joined(blocks, "\n---\n"@)
}

/// Builds the report of a run from the timeline text and the notes' blocks.
pub fn conduct_summary(graph: &str, blocks: &Vec<String>) -> (r: String)
    ensures
        r@ == run_summary(graph@, words_view(blocks@)),
{
    let mut s = String::from_str(graph);
    s.append("\n");
    s.append(join(blocks, "\n---\n").as_str());
    s
}

/// Builds the printable report page from the recipe text, the messages and
/// the ledger.
pub fn report_page(recipe_content: &str, messages: &Vec<String>, history: &Vec<ChangeRecord>) -> (r: String)
    ensures
        r@ == page(
            recipe_list(recipe_content@),
            messages_markup(words_view(messages@)),
            timeline_markup(changes_view(history@), event_times(changes_view(history@))),
        ),
{
    let list = parse_prescription_to_list(recipe_content);
    let changes = returns_markup(messages);
    let graph = prescription_graphs_html(history);
    generate_complete_html(list.as_str(), changes.as_str(), graph.as_str())
}

} // verus!
