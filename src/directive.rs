//! Directive lines: which lines are directives, and how one line is split
//! into the fields of a prescription.

use vstd::prelude::*;
use vstd::string::*;
use crate::text::{
    begins_with, ends_in, ends_with_char, has_infix, has_prefix, push_spaced, spaced,
    starts_with, starts_with_char, str_eq, strip_lead, strip_leading, strip_trail,
    strip_trailing, contains, trim, trimmed,
};

verus! {

/// What a directive asks for.
pub enum Command {
    Prescribe,
    Increase,
    Decrease,
    Suspend,
    /// A command word outside the known vocabulary, kept as written.
    Other(String),
}

/// The mathematical model of a [`Command`].
pub enum CommandModel {
    Prescribe,
    Increase,
    Decrease,
    Suspend,
    Other(Seq<char>),
}

impl View for Command {
    type V = CommandModel;

    open spec fn view(&self) -> CommandModel {
        match self {
            Command::Prescribe => CommandModel::Prescribe,
            Command::Increase => CommandModel::Increase,
            Command::Decrease => CommandModel::Decrease,
            Command::Suspend => CommandModel::Suspend,
            Command::Other(s) => CommandModel::Other(s@),
        }
    }
}

/// One parsed directive line.
pub struct Prescription {
    pub command: Command,
    pub medication: String,
    pub dosage: String,
    pub dosage_observations: String,
    pub posologia: String,
    pub posology_observations: String,
    pub objective: String,
}

/// The mathematical model of a [`Prescription`].
pub struct PrescriptionModel {
    pub command: CommandModel,
    pub medication: Seq<char>,
    pub dosage: Seq<char>,
    pub dosage_observations: Seq<char>,
    pub posologia: Seq<char>,
    pub posology_observations: Seq<char>,
    pub objective: Seq<char>,
}

impl View for Prescription {
    type V = PrescriptionModel;

    open spec fn view(&self) -> PrescriptionModel {
        PrescriptionModel {
            command: self.command@,
            medication: self.medication@,
            dosage: self.dosage@,
            dosage_observations: self.dosage_observations@,
            posologia: self.posologia@,
            posology_observations: self.posology_observations@,
            objective: self.objective@,
        }
    }
}

/// The dosage a directive gets when it names none.
pub const DEFAULT_DOSAGE: &'static str = "1 UNIT";

/// The marker that introduces a directive's objective.
pub const OBJECTIVE_MARK: &'static str = ">>";

/// The default dosage, as characters.
pub open spec fn default_dosage() -> Seq<char> {
    DEFAULT_DOSAGE@
}

/// The objective marker, as characters.
pub open spec fn objective_mark() -> Seq<char> {
    OBJECTIVE_MARK@
}

/// The characters of each string in `v`.
pub open spec fn words_view(v: Seq<String>) -> Seq<Seq<char>> {
    v.map_values(|w: String| w@)
}

/// The command that a command word stands for.
pub open spec fn command_of(w: Seq<char>) -> CommandModel {
    if w == "PRESCREVO"@ {
        CommandModel::Prescribe
    } else if w == "AUMENTO"@ {
        CommandModel::Increase
    } else if w == "REDUZO"@ {
        CommandModel::Decrease
    } else if w == "SUSPENDO"@ {
        CommandModel::Suspend
    } else {
        CommandModel::Other(w)
    }
}

/// Joins words onto `acc`, from the one after `i` on, until `acc` ends with
/// the quote `q` or the words run out; gives the text and the last index used.
pub open spec fn quoted_join(ws: Seq<Seq<char>>, i: int, acc: Seq<char>, q: char) -> (Seq<char>, int)
    decreases ws.len() - i,
{
    if 0 <= i && i + 1 < ws.len() && !ends_in(acc, q) {
        quoted_join(ws, i + 1, spaced(acc, ws[i + 1]), q)
    } else {
        (acc, i)
    }
}

/// The medication name at word `i`, and the index after it.
pub open spec fn medication_at(ws: Seq<Seq<char>>, i: int) -> (Seq<char>, int) {
    if 0 <= i < ws.len() {
        let w = ws[i];
        if begins_with(w, '"') || begins_with(w, '\'') {
            let q = w[0];
            let (acc, j) = quoted_join(ws, i, strip_lead(w, q), q);
            (strip_trail(acc, q), j + 1)
        } else {
            (w, i + 1)
        }
    } else {
        (seq![], i)
    }
}

/// The dosage at word `i`, and the index after it.
pub open spec fn dosage_at(ws: Seq<Seq<char>>, i: int) -> (Seq<char>, int) {
    if 0 <= i < ws.len() && !begins_with(ws[i], '[') && !has_infix(ws[i], objective_mark()) {
        (ws[i], i + 1)
    } else {
        (default_dosage(), i)
    }
}

/// Joins words onto `acc` from index `j` on until `acc` ends with `]` or the
/// words run out; gives the text and the next index.
pub open spec fn bracket_join(ws: Seq<Seq<char>>, j: int, acc: Seq<char>) -> (Seq<char>, int)
    decreases ws.len() - j,
{
    if 0 <= j < ws.len() && !ends_in(acc, ']') {
        bracket_join(ws, j + 1, spaced(acc, ws[j]))
    } else {
        (acc, j)
    }
}

/// `s` without its enclosing brackets.
pub open spec fn unbracket(s: Seq<char>) -> Seq<char> {
    strip_trail(strip_lead(s, '['), ']')
}

/// The bracketed dosage observations at word `i`, and the index after them.
pub open spec fn dosage_observations_at(ws: Seq<Seq<char>>, i: int) -> (Seq<char>, int) {
    if 0 <= i < ws.len() && begins_with(ws[i], '[') {
        let (acc, j) = bracket_join(ws, i + 1, ws[i]);
        (unbracket(acc), j)
    } else {
        (seq![], i)
    }
}

/// The posology (one or two words) at word `i`, and the index after it.
pub open spec fn posology_at(ws: Seq<Seq<char>>, i: int) -> (Seq<char>, int) {
    if 0 <= i < ws.len() && !has_infix(ws[i], objective_mark()) {
        if i + 1 < ws.len() && !has_infix(ws[i + 1], objective_mark()) {
            (spaced(ws[i], ws[i + 1]), i + 2)
        } else {
            (ws[i], i + 1)
        }
    } else {
        (seq![], i)
    }
}

/// The single bracketed posology observation at word `i`, and the index after it.
pub open spec fn posology_observations_at(ws: Seq<Seq<char>>, i: int) -> (Seq<char>, int) {
    if 0 <= i < ws.len() && begins_with(ws[i], '[') {
        (unbracket(ws[i]), i + 1)
    } else {
        (seq![], i)
    }
}

/// The words joined by single spaces, an empty text taking no separator.
pub open spec fn objective_join(ws: Seq<Seq<char>>) -> Seq<char>
    decreases ws.len(),
{
    if ws.len() == 0 {
        seq![]
    } else {
        let acc = objective_join(ws.drop_last());
        if acc.len() == 0 {
            ws.last()
        } else {
            spaced(acc, ws.last())
        }
    }
}

/// The objective: everything after a `>>` word at index `i`.
pub open spec fn objective_at(ws: Seq<Seq<char>>, i: int) -> Seq<char> {
    if 0 <= i < ws.len() && ws[i] == objective_mark() {
        objective_join(ws.subrange(i + 1, ws.len() as int))
    } else {
        seq![]
    }
}

/// The directive that a sequence of words spells, field by field in order.
pub open spec fn directive_of(ws: Seq<Seq<char>>) -> PrescriptionModel {
    let command = if ws.len() > 0 {
        command_of(ws[0])
    } else {
        CommandModel::Other(seq![])
    };
    let i0: int = if ws.len() > 0 {
        1
    } else {
        0
    };
    let (medication, i1) = medication_at(ws, i0);
    let (dosage, i2) = dosage_at(ws, i1);
    let (dosage_observations, i3) = dosage_observations_at(ws, i2);
    let (posologia, i4) = posology_at(ws, i3);
    let (posology_observations, i5) = posology_observations_at(ws, i4);
    PrescriptionModel {
        command,
        medication,
        dosage,
        dosage_observations,
        posologia,
        posology_observations,
        objective: objective_at(ws, i5),
    }
}

/// A directive whose words stop at its medication name gets the default
/// dosage and empty observations, posology and objective.
pub proof fn lemma_no_optional_fields(ws: Seq<Seq<char>>)
    requires
        ws.len() >= 2,
        medication_at(ws, 1).1 == ws.len(),
    ensures
        directive_of(ws) == (PrescriptionModel {
            command: command_of(ws[0]),
            medication: medication_at(ws, 1).0,
            dosage: default_dosage(),
            dosage_observations: seq![],
            posologia: seq![],
            posology_observations: seq![],
            objective: seq![],
        }),
{
}

/// The words of a text, as `str::split_whitespace` yields them.
pub uninterp spec fn words_of(s: Seq<char>) -> Seq<Seq<char>>;

/// Relies on `str::split_whitespace`: the maximal runs of non-whitespace
/// characters of `s`, in order.
#[verifier::external_body]
fn split_words(s: &str) -> (r: Vec<String>)
    ensures
        words_view(r@) == words_of(s@),
{
    s.split_whitespace().map(|w| w.to_string()).collect()
}

/// A line with its leading `!` marks and trailing `;` terminators removed.
pub open spec fn directive_body(line: Seq<char>) -> Seq<char> {
    strip_trail(strip_lead(line, '!'), ';')
}

/// The command a command word stands for.
pub fn map_command(w: &str) -> (r: Command)
    ensures
        r@ == command_of(w@),
{
    proof {
        reveal_strlit("PRESCREVO");
        reveal_strlit("AUMENTO");
        reveal_strlit("REDUZO");
        reveal_strlit("SUSPENDO");
    }
    if str_eq(w, "PRESCREVO") {
        Command::Prescribe
    } else if str_eq(w, "AUMENTO") {
        Command::Increase
    } else if str_eq(w, "REDUZO") {
        Command::Decrease
    } else if str_eq(w, "SUSPENDO") {
        Command::Suspend
    } else {
        Command::Other(String::from_str(w))
    }
}


fn medication_step(parts: &Vec<String>, i: usize) -> (r: (String, usize))
    requires
        i <= parts.len(),
    ensures
        (r.0@, r.1 as int) == medication_at(words_view(parts@), i as int),
        r.1 <= parts.len(),
{
    let ghost ws = words_view(parts@);
    if i < parts.len() {
        let w = parts[i].as_str();
        if starts_with_char(w, '"') || starts_with_char(w, '\'') {
            let q = w.get_char(0);
            let mut acc = strip_leading(w, q);
            let mut j: usize = i;
            while j + 1 < parts.len() && !ends_with_char(acc.as_str(), q)
                invariant
                    i <= j < parts.len(),
                    ws == words_view(parts@),
                    quoted_join(ws, j as int, acc@, q) == quoted_join(ws, i as int, strip_lead(ws[i as int], q), q),
                decreases parts.len() - j,
            {
                j = j + 1;
                push_spaced(&mut acc, parts[j].as_str());
            }
            (strip_trailing(acc.as_str(), q), j + 1)
        } else {
            (parts[i].clone(), i + 1)
        }
    } else {
        (String::new(), i)
    }
}

fn dosage_step(parts: &Vec<String>, i: usize) -> (r: (String, usize))
    requires
        i <= parts.len(),
    ensures
        (r.0@, r.1 as int) == dosage_at(words_view(parts@), i as int),
        r.1 <= parts.len(),
{
    if i < parts.len() && !starts_with_char(parts[i].as_str(), '[') && !contains(parts[i].as_str(), OBJECTIVE_MARK) {
        (parts[i].clone(), i + 1)
    } else {
        (String::from_str(DEFAULT_DOSAGE), i)
    }
}

fn dosage_observations_step(parts: &Vec<String>, i: usize) -> (r: (String, usize))
    requires
        i <= parts.len(),
    ensures
        (r.0@, r.1 as int) == dosage_observations_at(words_view(parts@), i as int),
        r.1 <= parts.len(),
{
    let ghost ws = words_view(parts@);
    if i < parts.len() && starts_with_char(parts[i].as_str(), '[') {
        let mut acc = parts[i].clone();
        let mut j: usize = i + 1;
        while j < parts.len() && !ends_with_char(acc.as_str(), ']')
            invariant
                i < j <= parts.len(),
                ws == words_view(parts@),
                bracket_join(ws, j as int, acc@) == bracket_join(ws, i + 1, ws[i as int]),
            decreases parts.len() - j,
        {
            push_spaced(&mut acc, parts[j].as_str());
            j = j + 1;
        }
        let opened = strip_leading(acc.as_str(), '[');
        (strip_trailing(opened.as_str(), ']'), j)
    } else {
        (String::new(), i)
    }
}

fn posology_step(parts: &Vec<String>, i: usize) -> (r: (String, usize))
    requires
        i <= parts.len(),
    ensures
        (r.0@, r.1 as int) == posology_at(words_view(parts@), i as int),
        r.1 <= parts.len(),
{
    if i < parts.len() && !contains(parts[i].as_str(), OBJECTIVE_MARK) {
        let mut p = parts[i].clone();
        if i + 1 < parts.len() && !contains(parts[i + 1].as_str(), OBJECTIVE_MARK) {
            push_spaced(&mut p, parts[i + 1].as_str());
            (p, i + 2)
        } else {
            (p, i + 1)
        }
    } else {
        (String::new(), i)
    }
}

fn posology_observations_step(parts: &Vec<String>, i: usize) -> (r: (String, usize))
    requires
        i <= parts.len(),
    ensures
        (r.0@, r.1 as int) == posology_observations_at(words_view(parts@), i as int),
        r.1 <= parts.len(),
{
    if i < parts.len() && starts_with_char(parts[i].as_str(), '[') {
        let opened = strip_leading(parts[i].as_str(), '[');
        (strip_trailing(opened.as_str(), ']'), i + 1)
    } else {
        (String::new(), i)
    }
}

fn objective_step(parts: &Vec<String>, i: usize) -> (r: String)
    requires
        i <= parts.len(),
    ensures
        r@ == objective_at(words_view(parts@), i as int),
{
    let ghost ws = words_view(parts@);
    let mut acc = String::new();
    if i < parts.len() && str_eq(parts[i].as_str(), OBJECTIVE_MARK) {
        let mut k: usize = i + 1;
        assert(ws.subrange(i + 1, k as int) =~= Seq::<Seq<char>>::empty());
        while k < parts.len()
            invariant
                i < k <= parts.len(),
                ws == words_view(parts@),
                acc@ == objective_join(ws.subrange(i + 1, k as int)),
            decreases parts.len() - k,
        {
            assert(ws.subrange(i + 1, k + 1).drop_last() =~= ws.subrange(i + 1, k as int));
            if acc.as_str().unicode_len() == 0 {
                acc = parts[k].clone();
            } else {
                push_spaced(&mut acc, parts[k].as_str());
            }
            k = k + 1;
        }
    }
    acc
}

/// Reads the fields of a directive from its words, in order: command,
/// medication, dosage, dosage observations, posology, posology observations
/// and objective.
pub fn tokenize_words(parts: &Vec<String>) -> (r: Prescription)
    ensures
        r@ == directive_of(words_view(parts@)),
{
    let mut idx: usize = 0;
    let command = if parts.len() > 0 {
        idx = 1;
        map_command(parts[0].as_str())
    } else {
        Command::Other(String::new())
    };
    let (medication, i1) = medication_step(parts, idx);
    let (dosage, i2) = dosage_step(parts, i1);
    let (dosage_observations, i3) = dosage_observations_step(parts, i2);
    let (posologia, i4) = posology_step(parts, i3);
    let (posology_observations, i5) = posology_observations_step(parts, i4);
    let objective = objective_step(parts, i5);
    Prescription {
        command,
        medication,
        dosage,
        dosage_observations,
        posologia,
        posology_observations,
        objective,
    }
}

/// Parses one directive line: the leading `!` marks and trailing `;` are
/// dropped, the rest is split at whitespace and read field by field.
pub fn medication_list_tokenizer(line: &str) -> (r: Prescription)
    ensures
        r@ == directive_of(words_of(directive_body(line@))),
{
    let opened = strip_leading(line, '!');
    let body = strip_trailing(opened.as_str(), ';');
    let parts = split_words(body.as_str());
    tokenize_words(&parts)
}


/// Parses one directive line into a prescription.
pub fn medication_json_populator(line: &str) -> (r: Prescription)
    ensures
        r@ == directive_of(words_of(directive_body(line@))),
{
    medication_list_tokenizer(line)
}

/// Whether a trimmed line opens with one of the directive prefixes.
pub open spec fn is_directive_text(t: Seq<char>) -> bool {
    has_prefix(t, "!PRESCREVO"@) || has_prefix(t, "!AUMENTO"@) || has_prefix(t, "!INCREMENTO"@)
        || has_prefix(t, "!DECREMENTO"@) || has_prefix(t, "!SUSPENDO"@) || has_prefix(t, "!DESMAME"@)
}

/// Tests whether a line, once trimmed, is a directive.
pub fn is_prescription(line: &str) -> (r: bool)
    ensures
        r == is_directive_text(trimmed(line@)),
{
    let t = trim(line);
    starts_with(t, "!PRESCREVO") || starts_with(t, "!AUMENTO") || starts_with(t, "!INCREMENTO")
        || starts_with(t, "!DECREMENTO") || starts_with(t, "!SUSPENDO") || starts_with(t, "!DESMAME")
}

/// The directive lines of `ls`, in order.
pub open spec fn keep_directives(ls: Seq<Seq<char>>) -> Seq<Seq<char>>
    decreases ls.len(),
{
    if ls.len() == 0 {
        seq![]
    } else {
        let kept = keep_directives(ls.drop_last());
        if is_directive_text(trimmed(ls.last())) {
            kept.push(ls.last())
        } else {
            kept
        }
    }
}

/// Keeps the lines that are directives, in their order.
pub fn prescription_grabber(conduta_lines: Vec<String>) -> (r: Vec<String>)
    ensures
        words_view(r@) == keep_directives(words_view(conduta_lines@)),
{
    let ghost ls = words_view(conduta_lines@);
    let mut out: Vec<String> = Vec::new();
    let mut i: usize = 0;
    assert(ls.subrange(0, 0) =~= Seq::<Seq<char>>::empty());
    assert(words_view(out@) =~= Seq::<Seq<char>>::empty());
    while i < conduta_lines.len()
        invariant
            i <= conduta_lines.len(),
            ls == words_view(conduta_lines@),
            words_view(out@) == keep_directives(ls.subrange(0, i as int)),
        decreases conduta_lines.len() - i,
    {
        assert(ls.subrange(0, i + 1).drop_last() =~= ls.subrange(0, i as int));
        if is_prescription(conduta_lines[i].as_str()) {
            out.push(conduta_lines[i].clone());
            assert(words_view(out@) =~= keep_directives(ls.subrange(0, i as int)).push(ls[i as int]));
        }
        i = i + 1;
    }
    assert(ls.subrange(0, i as int) =~= ls);
    out
}

/// The line that opens the section that holds directives.
pub const SECTION_MARK: &'static str = "[CONDUTA]";

/// Where a scan of a note's lines stands: the lines kept, whether it is
/// inside the directive section, and whether that section has closed.
pub open spec fn section_scan(ls: Seq<Seq<char>>) -> (Seq<Seq<char>>, bool, bool)
    decreases ls.len(),
{
    if ls.len() == 0 {
        (seq![], false, false)
    } else {
        let (kept, inside, closed) = section_scan(ls.drop_last());
        let t = trimmed(ls.last());
        if closed {
            (kept, inside, closed)
        } else if t == SECTION_MARK@ {
            (kept, true, false)
        } else if inside && begins_with(t, '[') {
            (kept, inside, true)
        } else if inside {
            (kept.push(ls.last()), inside, false)
        } else {
            (kept, inside, false)
        }
    }
}

/// The lines of a text, as `str::lines` gives them.
pub uninterp spec fn lines_of(s: Seq<char>) -> Seq<Seq<char>>;

/// Relies on `str::lines`: the lines of `s`, split at `\n` or `\r\n`, without
/// the line endings.
#[verifier::external_body]
pub(crate) fn split_lines(s: &str) -> (r: Vec<String>)
    ensures
        words_view(r@) == lines_of(s@),
{
    s.lines().map(|l| l.to_string()).collect()
}

/// The lines of the directive section of `lines`: those after a line that
/// trims to the section mark, up to the next line that opens with `[`.
pub fn section_lines_of(lines: &Vec<String>) -> (r: Vec<String>)
    ensures
        words_view(r@) == section_scan(words_view(lines@)).0,
{
    let ghost ls = words_view(lines@);
    let mut out: Vec<String> = Vec::new();
    let mut inside = false;
    let mut closed = false;
    let mut i: usize = 0;
    assert(ls.subrange(0, 0) =~= Seq::<Seq<char>>::empty());
    assert(words_view(out@) =~= Seq::<Seq<char>>::empty());
    while i < lines.len()
        invariant
            i <= lines.len(),
            ls == words_view(lines@),
            section_scan(ls.subrange(0, i as int)) == (words_view(out@), inside, closed),
        decreases lines.len() - i,
    {
        assert(ls.subrange(0, i + 1).drop_last() =~= ls.subrange(0, i as int));
        if !closed {
            let t = trim(lines[i].as_str());
            proof {
                reveal_strlit("[CONDUTA]");
            }
            if str_eq(t, SECTION_MARK) {
                inside = true;
            } else if inside && starts_with_char(t, '[') {
                closed = true;
            } else if inside {
                let ghost before = words_view(out@);
                out.push(lines[i].clone());
                assert(words_view(out@) =~= before.push(ls[i as int]));
            }
        }
        i = i + 1;
    }
    assert(ls.subrange(0, i as int) =~= ls);
    out
}

/// The lines of the directive section of a note.
pub fn section_lines(content: &str) -> (r: Vec<String>)
    ensures
        words_view(r@) == section_scan(lines_of(content@)).0,
{
    let lines = split_lines(content);
    section_lines_of(&lines)
}

} // verus!
