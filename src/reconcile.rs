//! Applying directives to the medication store: return messages, recipe
//! text and the change records that the history ledger keeps.

use vstd::prelude::*;
use vstd::string::*;
use crate::directive::{
    default_dosage, Command, CommandModel, Prescription, PrescriptionModel, DEFAULT_DOSAGE, words_view,
};
use crate::store::{MedicationRecord, MedicationStore, RecordModel};
use crate::text::{has_prefix, push_spaced, spaced, starts_with, str_eq, trim, trimmed};

verus! {

/// A moment of a source note's modification, as calendar fields.
#[derive(Clone, Copy)]
pub struct Timestamp {
    pub year: u32,
    pub month: u32,
    pub day: u32,
    pub hour: u32,
    pub minute: u32,
    pub second: u32,
}

impl Timestamp {
    /// Each field is within its calendar range, and the year has at most four digits.
    pub open spec fn valid(&self) -> bool {
        self.year <= 9999 && 1 <= self.month <= 12 && 1 <= self.day <= 31 && self.hour < 24
            && self.minute < 60 && self.second < 61
    }

    /// A timestamp of the given fields, when they are [`Timestamp::valid`].
    pub fn from_parts(year: u32, month: u32, day: u32, hour: u32, minute: u32, second: u32) -> (r:
        Option<Timestamp>)
        ensures
            r matches Some(t) ==> t.valid() && t == (Timestamp { year, month, day, hour, minute, second }),
            r is None <==> !(Timestamp { year, month, day, hour, minute, second }).valid(),
    {
        let t = Timestamp { year, month, day, hour, minute, second };
        if year <= 9999 && 1 <= month && month <= 12 && 1 <= day && day <= 31 && hour < 24
            && minute < 60 && second < 61 {
            Some(t)
        } else {
            None
        }
    }
}

/// The decimal digit `d` as a character.
pub open spec fn digit_char(d: nat) -> char {
    if d == 0 {
        '0'
    } else if d == 1 {
        '1'
    } else if d == 2 {
        '2'
    } else if d == 3 {
        '3'
    } else if d == 4 {
        '4'
    } else if d == 5 {
        '5'
    } else if d == 6 {
        '6'
    } else if d == 7 {
        '7'
    } else if d == 8 {
        '8'
    } else {
        '9'
    }
}

/// The last `w` decimal digits of `n`, zero-padded.
pub open spec fn digits(n: nat, w: nat) -> Seq<char>
    decreases w,
{
    if w == 0 {
        seq![]
    } else {
        digits(n / 10, (w - 1) as nat).push(digit_char(n % 10))
    }
}

fn push_digit(s: &mut String, d: u32)
    requires
        d < 10,
    ensures
        final(s)@ == old(s)@.push(digit_char(d as nat)),
{
    proof {
        reveal_strlit("0");
        reveal_strlit("1");
        reveal_strlit("2");
        reveal_strlit("3");
        reveal_strlit("4");
        reveal_strlit("5");
        reveal_strlit("6");
        reveal_strlit("7");
        reveal_strlit("8");
        reveal_strlit("9");
    }
    let ghost before = s@;
    if d == 0 {
        s.append("0");
    } else if d == 1 {
        s.append("1");
    } else if d == 2 {
        s.append("2");
    } else if d == 3 {
        s.append("3");
    } else if d == 4 {
        s.append("4");
    } else if d == 5 {
        s.append("5");
    } else if d == 6 {
        s.append("6");
    } else if d == 7 {
        s.append("7");
    } else if d == 8 {
        s.append("8");
    } else {
        s.append("9");
    }
    assert(s@ =~= before.push(digit_char(d as nat)));
}

/// Appends the last `w` decimal digits of `n`, zero-padded.
pub fn push_digits(s: &mut String, n: u32, w: u32)
    ensures
        final(s)@ == old(s)@ + digits(n as nat, w as nat),
    decreases w,
{
    if w > 0 {
        let ghost before = s@;
        push_digits(s, n / 10, w - 1);
        push_digit(s, n % 10);
        assert(s@ =~= before + digits(n as nat, w as nat));
    } else {
        assert(s@ =~= s@ + digits(n as nat, w as nat));
    }
}

/// A timestamp written as `YYYY-MM-DD HH:MM:SS`.
pub open spec fn stamp_text(t: Timestamp) -> Seq<char> {
    digits(t.year as nat, 4) + "-"@ + digits(t.month as nat, 2) + "-"@ + digits(t.day as nat, 2)
        + " "@ + digits(t.hour as nat, 2) + ":"@ + digits(t.minute as nat, 2) + ":"@
        + digits(t.second as nat, 2)
}

/// Writes a timestamp as `YYYY-MM-DD HH:MM:SS`.
pub fn format_timestamp(t: &Timestamp) -> (r: String)
    ensures
        r@ == stamp_text(*t),
{
    let mut s = String::new();
    push_digits(&mut s, t.year, 4);
    s.append("-");
    push_digits(&mut s, t.month, 2);
    s.append("-");
    push_digits(&mut s, t.day, 2);
    s.append(" ");
    push_digits(&mut s, t.hour, 2);
    s.append(":");
    push_digits(&mut s, t.minute, 2);
    s.append(":");
    push_digits(&mut s, t.second, 2);
    assert(s@ =~= stamp_text(*t));
    s
}

/// One change to one medication, as the history ledger keeps it.
pub struct ChangeRecord {
    pub medication: String,
    /// When the change was written, as `YYYY-MM-DD HH:MM:SS`.
    pub timestamp: String,
    /// The field that changed, or `initial` for a first prescription.
    pub field: String,
    pub old_value: String,
    pub new_value: String,
    /// The command that made the change, such as `PRESCRIBE` or `INCREASE`.
    pub command: String,
}

/// The mathematical model of a [`ChangeRecord`].
pub struct ChangeModel {
    pub medication: Seq<char>,
    pub timestamp: Seq<char>,
    pub field: Seq<char>,
    pub old_value: Seq<char>,
    pub new_value: Seq<char>,
    pub command: Seq<char>,
}

impl View for ChangeRecord {
    type V = ChangeModel;

    open spec fn view(&self) -> ChangeModel {
        ChangeModel {
            medication: self.medication@,
            timestamp: self.timestamp@,
            field: self.field@,
            old_value: self.old_value@,
            new_value: self.new_value@,
            command: self.command@,
        }
    }
}

impl ChangeRecord {
    /// A field-by-field copy.
    pub fn copied(&self) -> (r: ChangeRecord)
        ensures
            r@ == self@,
    {
        ChangeRecord {
            medication: self.medication.clone(),
            timestamp: self.timestamp.clone(),
            field: self.field.clone(),
            old_value: self.old_value.clone(),
            new_value: self.new_value.clone(),
            command: self.command.clone(),
        }
    }
}

/// The models of a sequence of change records.
pub open spec fn changes_view(v: Seq<ChangeRecord>) -> Seq<ChangeModel> {
    v.map_values(|c: ChangeRecord| c@)
}

/// The models of a sequence of prescriptions.
pub open spec fn prescriptions_view(v: Seq<Prescription>) -> Seq<PrescriptionModel> {
    v.map_values(|p: Prescription| p@)
}

/// The terminal code that opens a removed line.
pub const RED: &'static str = "\x1b[31m";

/// The terminal code that opens an added line.
pub const GREEN: &'static str = "\x1b[32m";

/// The terminal code that closes a coloured line.
pub const RESET: &'static str = "\x1b[0m";

/// The record that a directive leaves in the store.
pub open spec fn record_of(p: PrescriptionModel) -> RecordModel {
    RecordModel {
        dosage: p.dosage,
        dosage_observations: p.dosage_observations,
        posologia: p.posologia,
        posology_observations: p.posology_observations,
    }
}

/// The message for a prescribed medication.
pub open spec fn added_message(p: PrescriptionModel) -> Seq<char> {
    "ADDED "@ + p.medication + ", "@ + p.dosage + ", : "@ + p.dosage_observations + " "@
        + p.posologia + " to the active medication list;"@
}

/// The two-line recipe block for a prescribed medication, given its name in
/// upper case.
pub open spec fn recipe_block(upper: Seq<char>, p: PrescriptionModel) -> Seq<char> {
    let line1 = if p.dosage == default_dosage() {
        upper
    } else {
        spaced(upper, p.dosage)
    };
    let amount = if p.dosage_observations.len() == 0 {
        default_dosage()
    } else {
        p.dosage_observations
    };
    let line2 = if p.posology_observations.len() == 0 {
        spaced(amount, p.posologia)
    } else {
        spaced(amount, p.posologia) + ", for "@ + p.posology_observations
    };
    line1 + "\n"@ + line2
}

/// A text in upper case, as `str::to_uppercase` gives it.
pub uninterp spec fn upper_of(s: Seq<char>) -> Seq<char>;

/// Relies on `str::to_uppercase`: the Unicode upper case of `s`.
#[verifier::external_body]
fn to_upper(s: &str) -> (r: String)
    ensures
        r@ == upper_of(s@),
{
    s.to_uppercase()
}

/// The change record of a first prescription.
pub open spec fn initial_change(p: PrescriptionModel, ts: Seq<char>) -> ChangeModel {
    ChangeModel {
        medication: p.medication,
        timestamp: ts,
        field: "initial"@,
        old_value: seq![],
        new_value: p.dosage_observations,
        command: "PRESCRIBE"@,
    }
}

/// The removed and added lines for one field, when its value changed.
pub open spec fn diff_part(field: Seq<char>, was: Seq<char>, now: Seq<char>) -> Seq<char> {
    if was != now {
        "\n"@ + RED@ + "- "@ + field + ": "@ + was + RESET@ + "\n"@ + GREEN@ + "+ "@ + field + ": "@
            + now + RESET@
    } else {
        seq![]
    }
}

/// The removed and added lines for every field that changed, in field order.
pub open spec fn diff_body(prev: RecordModel, p: PrescriptionModel) -> Seq<char> {
    diff_part("dosage"@, prev.dosage, p.dosage) + diff_part(
        "dosage_observations"@,
        prev.dosage_observations,
        p.dosage_observations,
    ) + diff_part("posologia"@, prev.posologia, p.posologia) + diff_part(
        "posology_observations"@,
        prev.posology_observations,
        p.posology_observations,
    )
}

/// The message for a change of a stored medication.
pub open spec fn diff_message(medication: Seq<char>, prev: RecordModel, p: PrescriptionModel) -> Seq<char> {
    let body = diff_body(prev, p);
    if body.len() == 0 {
        "No change detected for "@ + medication
    } else {
        "Changes for "@ + medication + ":"@ + body
    }
}

/// The change record for one field, when its value changed.
pub open spec fn field_change(
    medication: Seq<char>,
    ts: Seq<char>,
    field: Seq<char>,
    was: Seq<char>,
    now: Seq<char>,
) -> Seq<ChangeModel> {
    if was != now {
        seq![
            ChangeModel {
                medication,
                timestamp: ts,
                field,
                old_value: was,
                new_value: now,
                command: "INCREASE"@,
            },
        ]
    } else {
        seq![]
    }
}

/// The change records of every field that changed, in field order.
pub open spec fn field_changes(prev: RecordModel, p: PrescriptionModel, ts: Seq<char>) -> Seq<ChangeModel> {
    let m = p.medication;
    field_change(m, ts, "dosage"@, prev.dosage, p.dosage) + field_change(
        m,
        ts,
        "dosage_observations"@,
        prev.dosage_observations,
        p.dosage_observations,
    ) + field_change(m, ts, "posologia"@, prev.posologia, p.posologia) + field_change(
        m,
        ts,
        "posology_observations"@,
        prev.posology_observations,
        p.posology_observations,
    )
}

/// What a batch of directives has produced so far.
pub struct Reconciled {
    pub store: Map<Seq<char>, RecordModel>,
    pub messages: Seq<Seq<char>>,
    pub recipes: Seq<Seq<char>>,
    pub changes: Seq<ChangeModel>,
}

/// The effect of one directive: a prescription overwrites the store and
/// yields a message, a recipe block and an `initial` change; an increase of a
/// stored medication yields a diff message and one change per changed field,
/// then overwrites the store; anything else changes nothing.
pub open spec fn apply_directive(s: Reconciled, p: PrescriptionModel, ts: Seq<char>) -> Reconciled {
    match p.command {
        CommandModel::Prescribe => Reconciled {
            store: s.store.insert(p.medication, record_of(p)),
            messages: s.messages.push(added_message(p)),
            recipes: s.recipes.push(recipe_block(upper_of(p.medication), p)),
            changes: s.changes.push(initial_change(p, ts)),
        },
        CommandModel::Increase => {
            if s.store.contains_key(p.medication) {
                let prev = s.store[p.medication];
                Reconciled {
                    store: s.store.insert(p.medication, record_of(p)),
                    messages: s.messages.push(diff_message(p.medication, prev, p)),
                    recipes: s.recipes,
                    changes: s.changes + field_changes(prev, p, ts),
                }
            } else {
                s
            }
        },
        _ => s,
    }
}

/// The effect of a batch of directives, applied in order to `store`.
pub open spec fn reconcile(items: Seq<PrescriptionModel>, store: Map<Seq<char>, RecordModel>, ts: Seq<char>) -> Reconciled
    decreases items.len(),
{
    if items.len() == 0 {
        Reconciled { store, messages: seq![], recipes: seq![], changes: seq![] }
    } else {
        apply_directive(reconcile(items.drop_last(), store, ts), items.last(), ts)
    }
}


/// Builds the message for a prescribed medication.
pub fn added_return(p: &Prescription) -> (r: String)
    ensures
        r@ == added_message(p@),
{
    let mut s = String::from_str("ADDED ");
    s.append(p.medication.as_str());
    s.append(", ");
    s.append(p.dosage.as_str());
    s.append(", : ");
    s.append(p.dosage_observations.as_str());
    s.append(" ");
    s.append(p.posologia.as_str());
    s.append(" to the active medication list;");
    s
}

/// Builds the recipe block of `p`, given its medication name in upper case.
pub fn recipe_from(upper: &str, p: &Prescription) -> (r: String)
    ensures
        r@ == recipe_block(upper@, p@),
{
    let mut s = String::from_str(upper);
    if !str_eq(p.dosage.as_str(), DEFAULT_DOSAGE) {
        push_spaced(&mut s, p.dosage.as_str());
    }
    s.append("\n");
    if p.dosage_observations.as_str().unicode_len() == 0 {
        s.append(DEFAULT_DOSAGE);
    } else {
        s.append(p.dosage_observations.as_str());
    }
    let ghost amount = if p.dosage_observations@.len() == 0 {
        default_dosage()
    } else {
        p.dosage_observations@
    };
    let ghost line1 = if p.dosage@ == default_dosage() {
        upper@
    } else {
        spaced(upper@, p.dosage@)
    };
    assert(s@ =~= line1 + "\n"@ + amount);
    push_spaced(&mut s, p.posologia.as_str());
    assert(s@ =~= line1 + "\n"@ + spaced(amount, p.posologia@));
    if p.posology_observations.as_str().unicode_len() != 0 {
        s.append(", for ");
        s.append(p.posology_observations.as_str());
        assert(s@ =~= line1 + "\n"@ + (spaced(amount, p.posologia@) + ", for "@
            + p.posology_observations@));
    }
    s
}

/// Builds the recipe block of a prescribed medication: its name in upper
/// case (with the dosage unless it is the default), then the amount, the
/// posology and any posology observation.
pub fn recipe_text(p: &Prescription) -> (r: String)
    ensures
        r@ == recipe_block(upper_of(p.medication@), p@),
{
    let upper = to_upper(p.medication.as_str());
    recipe_from(upper.as_str(), p)
}

fn push_diff_part(body: &mut String, field: &str, was: &str, now: &str)
    ensures
        final(body)@ == old(body)@ + diff_part(field@, was@, now@),
{
    if !str_eq(was, now) {
        let mut part = String::from_str("\n");
        part.append(RED);
        part.append("- ");
        part.append(field);
        part.append(": ");
        part.append(was);
        part.append(RESET);
        part.append("\n");
        part.append(GREEN);
        part.append("+ ");
        part.append(field);
        part.append(": ");
        part.append(now);
        part.append(RESET);
        body.append(part.as_str());
    } else {
        assert(body@ =~= body@ + diff_part(field@, was@, now@));
    }
}

/// Builds the diff message for a stored medication and a directive: a
/// removed and an added line for every field whose value changed, or a
/// no-change message when none did.
pub fn generate_diff(medication: &str, prev: &MedicationRecord, current: &Prescription) -> (r: String)
    ensures
        r@ == diff_message(medication@, prev@, current@),
{
    let mut body = String::new();
    push_diff_part(&mut body, "dosage", prev.dosage.as_str(), current.dosage.as_str());
    push_diff_part(
        &mut body,
        "dosage_observations",
        prev.dosage_observations.as_str(),
        current.dosage_observations.as_str(),
    );
    push_diff_part(&mut body, "posologia", prev.posologia.as_str(), current.posologia.as_str());
    push_diff_part(
        &mut body,
        "posology_observations",
        prev.posology_observations.as_str(),
        current.posology_observations.as_str(),
    );
    assert(body@ =~= diff_body(prev@, current@));
    if body.as_str().unicode_len() == 0 {
        let mut s = String::from_str("No change detected for ");
        s.append(medication);
        s
    } else {
        let mut s = String::from_str("Changes for ");
        s.append(medication);
        s.append(":");
        s.append(body.as_str());
        s
    }
}

fn push_field_change(
    changes: &mut Vec<ChangeRecord>,
    medication: &str,
    ts: &str,
    field: &str,
    was: &str,
    now: &str,
)
    ensures
        changes_view(final(changes)@) == changes_view(old(changes)@) + field_change(
            medication@,
            ts@,
            field@,
            was@,
            now@,
        ),
{
    let ghost before = changes@;
    if !str_eq(was, now) {
        proof {
            reveal_strlit("INCREASE");
        }
        changes.push(
            ChangeRecord {
                medication: String::from_str(medication),
                timestamp: String::from_str(ts),
                field: String::from_str(field),
                old_value: String::from_str(was),
                new_value: String::from_str(now),
                command: String::from_str("INCREASE"),
            },
        );
    }
    assert(changes_view(changes@) =~= changes_view(before) + field_change(
        medication@,
        ts@,
        field@,
        was@,
        now@,
    ));
}

fn push_field_changes(changes: &mut Vec<ChangeRecord>, prev: &MedicationRecord, p: &Prescription, ts: &str)
    ensures
        changes_view(final(changes)@) == changes_view(old(changes)@) + field_changes(prev@, p@, ts@),
{
    let ghost before = changes_view(changes@);
    let m = p.medication.as_str();
    push_field_change(changes, m, ts, "dosage", prev.dosage.as_str(), p.dosage.as_str());
    push_field_change(
        changes,
        m,
        ts,
        "dosage_observations",
        prev.dosage_observations.as_str(),
        p.dosage_observations.as_str(),
    );
    push_field_change(changes, m, ts, "posologia", prev.posologia.as_str(), p.posologia.as_str());
    push_field_change(
        changes,
        m,
        ts,
        "posology_observations",
        prev.posology_observations.as_str(),
        p.posology_observations.as_str(),
    );
    assert(changes_view(changes@) =~= before + field_changes(prev@, p@, ts@));
}

fn record_from(p: &Prescription) -> (r: MedicationRecord)
    ensures
        r@ == record_of(p@),
{
    MedicationRecord {
        dosage: p.dosage.clone(),
        dosage_observations: p.dosage_observations.clone(),
        posologia: p.posologia.clone(),
        posology_observations: p.posology_observations.clone(),
    }
}

/// Applies the directives in order to the store, with `file_time` as the
/// time of every change; messages the messages, the recipe blocks and the
/// change records, in the order the directives produced them.
pub fn prescription_finalizer(
    items: Vec<Prescription>,
    medications: &mut MedicationStore,
    file_time: &Timestamp,
) -> (r: (Vec<String>, Vec<String>, Vec<ChangeRecord>))
    requires
        old(medications).wf(),
    ensures
        final(medications).wf(),
        ({
            let out = reconcile(prescriptions_view(items@), old(medications)@, stamp_text(*file_time));
            &&& final(medications)@ == out.store
            &&& words_view(r.0@) == out.messages
            &&& words_view(r.1@) == out.recipes
            &&& changes_view(r.2@) == out.changes
        }),
{
    let ghost ps = prescriptions_view(items@);
    let ghost start = medications@;
    let ts = format_timestamp(file_time);
    let mut messages: Vec<String> = Vec::new();
    let mut recipes: Vec<String> = Vec::new();
    let mut changes: Vec<ChangeRecord> = Vec::new();
    let mut i: usize = 0;
    assert(ps.subrange(0, 0) =~= Seq::<PrescriptionModel>::empty());
    assert(words_view(messages@) =~= Seq::<Seq<char>>::empty());
    assert(words_view(recipes@) =~= Seq::<Seq<char>>::empty());
    assert(changes_view(changes@) =~= Seq::<ChangeModel>::empty());
    while i < items.len()
        invariant
            i <= items.len(),
            ps == prescriptions_view(items@),
            ts@ == stamp_text(*file_time),
            medications.wf(),
            ({
                let out = reconcile(ps.subrange(0, i as int), start, ts@);
                &&& medications@ == out.store
                &&& words_view(messages@) == out.messages
                &&& words_view(recipes@) == out.recipes
                &&& changes_view(changes@) == out.changes
            }),
        decreases items.len() - i,
    {
        assert(ps.subrange(0, i + 1).drop_last() =~= ps.subrange(0, i as int));
        let item = &items[i];
        let ghost r0 = words_view(messages@);
        let ghost c0 = words_view(recipes@);
        let ghost h0 = changes_view(changes@);
        match &item.command {
            Command::Prescribe => {
                messages.push(added_return(item));
                recipes.push(recipe_text(item));
                medications.insert(item.medication.clone(), record_from(item));
                proof {
                    reveal_strlit("initial");
                    reveal_strlit("PRESCRIBE");
                }
                changes.push(
                    ChangeRecord {
                        medication: item.medication.clone(),
                        timestamp: ts.clone(),
                        field: String::from_str("initial"),
                        old_value: String::new(),
                        new_value: item.dosage_observations.clone(),
                        command: String::from_str("PRESCRIBE"),
                    },
                );
                assert(words_view(messages@) =~= r0.push(added_message(item@)));
                assert(words_view(recipes@) =~= c0.push(recipe_block(upper_of(item@.medication), item@)));
                assert(changes_view(changes@) =~= h0.push(initial_change(item@, ts@)));
            },
            Command::Increase => {
                let found = match medications.get(item.medication.as_str()) {
                    Some(prev) => {
                        messages.push(generate_diff(item.medication.as_str(), prev, item));
                        push_field_changes(&mut changes, prev, item, ts.as_str());
                        assert(words_view(messages@) =~= r0.push(
                            diff_message(item@.medication, prev@, item@),
                        ));
                        true
                    },
                    None => false,
                };
                if found {
                    medications.insert(item.medication.clone(), record_from(item));
                }
            },
            _ => {},
        }
        i = i + 1;
    }
    assert(ps.subrange(0, i as int) =~= ps);
    (messages, recipes, changes)
}


/// Prescribing the same directive twice leaves the store as prescribing it
/// once does, and records two `initial` changes: the ledger keeps both.
pub proof fn lemma_prescribe_twice(p: PrescriptionModel, store: Map<Seq<char>, RecordModel>, ts: Seq<char>)
    requires
        p.command is Prescribe,
    ensures
        reconcile(seq![p, p], store, ts).store == reconcile(seq![p], store, ts).store,
        reconcile(seq![p, p], store, ts).store[p.medication] == record_of(p),
        reconcile(seq![p, p], store, ts).changes == seq![initial_change(p, ts), initial_change(p, ts)],
        reconcile(seq![p, p], store, ts).changes[0].field == "initial"@,
        reconcile(seq![p, p], store, ts).changes[1].field == "initial"@,
{
    assert(seq![p, p].drop_last() =~= seq![p]);
    assert(seq![p].drop_last() =~= Seq::<PrescriptionModel>::empty());
    let start = reconcile(Seq::<PrescriptionModel>::empty(), store, ts);
    let once = reconcile(seq![p], store, ts);
    assert(once == apply_directive(start, p, ts));
    assert(reconcile(seq![p, p], store, ts) == apply_directive(once, p, ts));
    assert(once.changes =~= seq![initial_change(p, ts)]);
    assert(once.store.insert(p.medication, record_of(p)) =~= once.store);
    assert(reconcile(seq![p, p], store, ts).changes =~= seq![initial_change(p, ts), initial_change(p, ts)]);
}

/// An increase of a medication that the store does not hold yields no
/// message, no recipe and no change, and leaves the store as it was.
pub proof fn lemma_increase_unknown(p: PrescriptionModel, store: Map<Seq<char>, RecordModel>, ts: Seq<char>)
    requires
        p.command is Increase,
        !store.contains_key(p.medication),
    ensures
        reconcile(seq![p], store, ts).messages.len() == 0,
        reconcile(seq![p], store, ts).changes.len() == 0,
        reconcile(seq![p], store, ts).recipes.len() == 0,
        reconcile(seq![p], store, ts).store == store,
{
    assert(seq![p].drop_last() =~= Seq::<PrescriptionModel>::empty());
    let start = reconcile(Seq::<PrescriptionModel>::empty(), store, ts);
    assert(reconcile(seq![p], store, ts) == apply_directive(start, p, ts));
}

/// An increase that changes only the dosage observations of a stored
/// medication records exactly one change, for that field, with the old and
/// the new value, and the store then holds the new value.
pub proof fn lemma_increase_one_field(p: PrescriptionModel, store: Map<Seq<char>, RecordModel>, ts: Seq<char>)
    requires
        p.command is Increase,
        store.contains_key(p.medication),
        store[p.medication].dosage == p.dosage,
        store[p.medication].dosage_observations != p.dosage_observations,
        store[p.medication].posologia == p.posologia,
        store[p.medication].posology_observations == p.posology_observations,
    ensures
        reconcile(seq![p], store, ts).changes == seq![
            ChangeModel {
                medication: p.medication,
                timestamp: ts,
                field: "dosage_observations"@,
                old_value: store[p.medication].dosage_observations,
                new_value: p.dosage_observations,
                command: "INCREASE"@,
            },
        ],
        reconcile(seq![p], store, ts).store == store.insert(p.medication, record_of(p)),
        reconcile(seq![p], store, ts).store[p.medication].dosage_observations == p.dosage_observations,
{
    assert(seq![p].drop_last() =~= Seq::<PrescriptionModel>::empty());
    let start = reconcile(Seq::<PrescriptionModel>::empty(), store, ts);
    assert(start.store == store);
    assert(reconcile(seq![p], store, ts) == apply_directive(start, p, ts));
    let prev = store[p.medication];
    assert(field_changes(prev, p, ts) =~= seq![
        ChangeModel {
            medication: p.medication,
            timestamp: ts,
            field: "dosage_observations"@,
            old_value: prev.dosage_observations,
            new_value: p.dosage_observations,
            command: "INCREASE"@,
        },
    ]);
    assert(start.changes + field_changes(prev, p, ts) =~= field_changes(prev, p, ts));
}

/// The ledger after appending each batch of change records in turn.
pub open spec fn ledger_after(base: Seq<ChangeModel>, batches: Seq<Seq<ChangeModel>>) -> Seq<ChangeModel>
    decreases batches.len(),
{
    if batches.len() == 0 {
        base
    } else {
        ledger_after(base, batches.drop_last()) + batches.last()
    }
}

/// The number of change records in all the batches.
pub open spec fn total_len(batches: Seq<Seq<ChangeModel>>) -> nat
    decreases batches.len(),
{
    if batches.len() == 0 {
        0
    } else {
        total_len(batches.drop_last()) + batches.last().len()
    }
}

/// Appending batches to a ledger grows it by exactly the number of records
/// they hold, and every record it held stays where and as it was.
pub proof fn lemma_ledger_grows(base: Seq<ChangeModel>, batches: Seq<Seq<ChangeModel>>)
    ensures
        ledger_after(base, batches).len() == base.len() + total_len(batches),
        forall|i: int| 0 <= i < base.len() ==> #[trigger] ledger_after(base, batches)[i] == base[i],
    decreases batches.len(),
{
    if batches.len() > 0 {
        lemma_ledger_grows(base, batches.drop_last());
    }
}

/// Extends the ledger with new change records: a plain concatenation that
/// keeps every earlier record as it was.
pub fn append_history(existing: Vec<ChangeRecord>, added: Vec<ChangeRecord>) -> (r: Vec<ChangeRecord>)
    ensures
        changes_view(r@) == changes_view(existing@) + changes_view(added@),
{
    let mut out = existing;
    let mut more = added;
    let ghost a = out@;
    let ghost b = more@;
    out.append(&mut more);
    assert(changes_view(out@) =~= changes_view(a) + changes_view(b));
    out
}

/// The position of the first `c` in `s` at or after `from`, or -1.
pub open spec fn find_char(s: Seq<char>, c: char, from: int) -> int
    decreases s.len() - from,
{
    if from < 0 || from >= s.len() {
        -1
    } else if s[from] == c {
        from
    } else {
        find_char(s, c, from + 1)
    }
}

/// The medication that a return message is about: the name between the
/// added-message prefix and the first comma, or between the diff-message
/// prefix and the first colon, trimmed.
pub open spec fn medication_of_return(m: Seq<char>) -> Option<Seq<char>> {
    if has_prefix(m, "ADDED "@) {
        let k = find_char(m, ',', 0);
        if k >= 0 {
            Some(trimmed(m.subrange(6, k)))
        } else {
            None
        }
    } else if has_prefix(m, "Changes for "@) {
        let k = find_char(m, ':', 0);
        if k >= 0 {
            Some(trimmed(m.subrange(12, k)))
        } else {
            None
        }
    } else {
        None
    }
}

fn find_char_exec(s: &str, c: char) -> (r: Option<usize>)
    ensures
        match r {
            Some(k) => k as int == find_char(s@, c, 0) && k < s@.len() && s@[k as int] == c
                && forall|j: int| 0 <= j < k ==> s@[j] != c,
            None => find_char(s@, c, 0) == -1,
        },
{
    let n = s.unicode_len();
    let mut i: usize = 0;
    while i < n
        invariant
            n == s@.len(),
            i <= n,
            find_char(s@, c, 0) == find_char(s@, c, i as int),
            forall|j: int| 0 <= j < i ==> s@[j] != c,
        decreases n - i,
    {
        if s.get_char(i) == c {
            return Some(i);
        }
        i = i + 1;
    }
    None
}

/// The medication that a return message is about, if it is an added or a
/// diff message.
pub fn extract_medication_from_return(return_msg: &str) -> (r: Option<String>)
    ensures
        match r {
            Some(s) => medication_of_return(return_msg@) == Some(s@),
            None => medication_of_return(return_msg@) is None,
        },
{
    proof {
        reveal_strlit("ADDED ");
        reveal_strlit("Changes for ");
    }
    if starts_with(return_msg, "ADDED ") {
        match find_char_exec(return_msg, ',') {
            Some(k) => {
                if k < 6 {
                    assert(return_msg@.subrange(0, 6)[k as int] == "ADDED "@[k as int]);
                    return None;
                }
                Some(String::from_str(trim(return_msg.substring_char(6, k))))
            },
            None => None,
        }
    } else if starts_with(return_msg, "Changes for ") {
        match find_char_exec(return_msg, ':') {
            Some(k) => {
                if k < 12 {
                    assert(return_msg@.subrange(0, 12)[k as int] == "Changes for "@[k as int]);
                    return None;
                }
                Some(String::from_str(trim(return_msg.substring_char(12, k))))
            },
            None => None,
        }
    } else {
        None
    }
}

/// The position of the first `m` in `ns` at or after `from`, or -1.
pub open spec fn position(ns: Seq<Seq<char>>, m: Seq<char>, from: int) -> int
    decreases ns.len() - from,
{
    if from < 0 || from >= ns.len() {
        -1
    } else if ns[from] == m {
        from
    } else {
        position(ns, m, from + 1)
    }
}

/// The medications that the messages speak of, in order of first mention,
/// and for each the last message about it.
pub open spec fn latest_by_medication(ms: Seq<Seq<char>>) -> (Seq<Seq<char>>, Seq<Seq<char>>)
    decreases ms.len(),
{
    if ms.len() == 0 {
        (seq![], seq![])
    } else {
        let (ns, os) = latest_by_medication(ms.drop_last());
        let x = ms.last();
        match medication_of_return(x) {
            Some(m) => {
                let k = position(ns, m, 0);
                if k >= 0 {
                    (ns, os.update(k, x))
                } else {
                    (ns.push(m), os.push(x))
                }
            },
            None => (ns, os),
        }
    }
}

/// For each medication that the messages speak of, the last message about
/// it, in the order the medications are first mentioned.
pub fn latest_returns(messages: &Vec<String>) -> (r: Vec<String>)
    ensures
        words_view(r@) == latest_by_medication(words_view(messages@)).1,
{
    let ghost ms = words_view(messages@);
    let mut names: Vec<String> = Vec::new();
    let mut out: Vec<String> = Vec::new();
    let mut i: usize = 0;
    assert(ms.subrange(0, 0) =~= Seq::<Seq<char>>::empty());
    assert(words_view(names@) =~= Seq::<Seq<char>>::empty());
    assert(words_view(out@) =~= Seq::<Seq<char>>::empty());
    while i < messages.len()
        invariant
            i <= messages.len(),
            ms == words_view(messages@),
            latest_by_medication(ms.subrange(0, i as int)) == (words_view(names@), words_view(out@)),
            names@.len() == out@.len(),
        decreases messages.len() - i,
    {
        assert(ms.subrange(0, i + 1).drop_last() =~= ms.subrange(0, i as int));
        let ghost ns = words_view(names@);
        let ghost os = words_view(out@);
        match extract_medication_from_return(messages[i].as_str()) {
            Some(m) => {
                let mut k: usize = 0;
                while k < names.len() && !str_eq(names[k].as_str(), m.as_str())
                    invariant
                        k <= names.len(),
                        ns == words_view(names@),
                        position(ns, m@, 0) == position(ns, m@, k as int),
                    decreases names.len() - k,
                {
                    k = k + 1;
                }
                if k < names.len() {
                    out.set(k, messages[i].clone());
                    assert(words_view(out@) =~= os.update(k as int, ms[i as int]));
                } else {
                    names.push(m);
                    out.push(messages[i].clone());
                    assert(words_view(names@) =~= ns.push(m@));
                    assert(words_view(out@) =~= os.push(ms[i as int]));
                }
            },
            None => {},
        }
        i = i + 1;
    }
    assert(ms.subrange(0, i as int) =~= ms);
    out
}

} // verus!
