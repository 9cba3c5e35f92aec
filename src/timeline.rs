//! Rendering the change history: one timeline per medication, as a text
//! track and as markup.

use vstd::prelude::*;
use vstd::string::*;
use chrono::Datelike;
use crate::directive::words_view;
use crate::reconcile::{changes_view, digits, push_digits, ChangeModel, ChangeRecord};
use crate::text::str_eq;

verus! {

/// Whether `a` comes strictly before `b` in lexicographic order of code points.
pub open spec fn seq_less(a: Seq<char>, b: Seq<char>) -> bool
    decreases a.len(),
{
    if a.len() == 0 {
        b.len() > 0
    } else if b.len() == 0 {
        false
    } else if a[0] != b[0] {
        (a[0] as u32) < (b[0] as u32)
    } else {
        seq_less(a.drop_first(), b.drop_first())
    }
}

/// Tests whether `a` comes strictly before `b` in lexicographic order.
pub fn less(a: &str, b: &str) -> (r: bool)
    ensures
        r == seq_less(a@, b@),
{
    let la = a.unicode_len();
    let lb = b.unicode_len();
    let mut i: usize = 0;
    assert(a@.subrange(0, la as int) =~= a@);
    assert(b@.subrange(0, lb as int) =~= b@);
    while i < la && i < lb
        invariant
            la == a@.len(),
            lb == b@.len(),
            i <= la,
            i <= lb,
            seq_less(a@, b@) == seq_less(a@.subrange(i as int, la as int), b@.subrange(i as int, lb as int)),
        decreases la - i,
    {
        let x = a.get_char(i);
        let y = b.get_char(i);
        if x != y {
            return (x as u32) < (y as u32);
        }
        assert(a@.subrange(i as int, la as int).drop_first() =~= a@.subrange(i + 1, la as int));
        assert(b@.subrange(i as int, lb as int).drop_first() =~= b@.subrange(i + 1, lb as int));
        i = i + 1;
    }
    i < lb
}

/// `x` put into the sorted `ns` after every name that comes before it.
pub open spec fn insert_sorted(ns: Seq<Seq<char>>, x: Seq<char>) -> Seq<Seq<char>>
    decreases ns.len(),
{
    if ns.len() == 0 {
        seq![x]
    } else if seq_less(ns.last(), x) {
        ns.push(x)
    } else {
        insert_sorted(ns.drop_last(), x).push(ns.last())
    }
}

/// The distinct medication names of a ledger, in lexicographic order.
pub open spec fn sorted_names(h: Seq<ChangeModel>) -> Seq<Seq<char>>
    decreases h.len(),
{
    if h.len() == 0 {
        seq![]
    } else {
        let ns = sorted_names(h.drop_last());
        let x = h.last().medication;
        if ns.contains(x) {
            ns
        } else {
            insert_sorted(ns, x)
        }
    }
}

proof fn lemma_less_irreflexive(a: Seq<char>)
    ensures
        !seq_less(a, a),
    decreases a.len(),
{
    if a.len() > 0 {
        lemma_less_irreflexive(a.drop_first());
    }
}

proof fn lemma_less_total(a: Seq<char>, b: Seq<char>)
    requires
        a != b,
    ensures
        seq_less(a, b) || seq_less(b, a),
    decreases a.len(),
{
    if a.len() > 0 && b.len() > 0 && a[0] == b[0] {
        if a.drop_first() == b.drop_first() {
            assert(a =~= seq![a[0]] + a.drop_first());
            assert(b =~= seq![b[0]] + b.drop_first());
        }
        lemma_less_total(a.drop_first(), b.drop_first());
    } else if a.len() > 0 && b.len() > 0 {
        if a[0] as u32 == b[0] as u32 {
            vstd::utf8::char_u32_cast(a[0], a[0] as u32);
            vstd::utf8::char_u32_cast(b[0], b[0] as u32);
        }
    } else if a.len() == 0 && b.len() == 0 {
        assert(a =~= b);
    }
}

proof fn lemma_less_transitive(a: Seq<char>, b: Seq<char>, c: Seq<char>)
    requires
        seq_less(a, b),
        seq_less(b, c),
    ensures
        seq_less(a, c),
    decreases a.len(),
{
    if a.len() > 0 && a[0] == b[0] && b[0] == c[0] {
        lemma_less_transitive(a.drop_first(), b.drop_first(), c.drop_first());
    }
}

proof fn lemma_less_asymmetric(a: Seq<char>, b: Seq<char>)
    requires
        seq_less(a, b),
    ensures
        !seq_less(b, a),
{
    if seq_less(b, a) {
        lemma_less_transitive(a, b, a);
        lemma_less_irreflexive(a);
    }
}

/// Each name comes strictly before the next.
pub open spec fn strictly_sorted(ns: Seq<Seq<char>>) -> bool {
    forall|i: int| 0 <= i < ns.len() - 1 ==> seq_less(#[trigger] ns[i], ns[i + 1])
}

proof fn lemma_insert_sorted(ns: Seq<Seq<char>>, x: Seq<char>)
    requires
        strictly_sorted(ns),
        !ns.contains(x),
    ensures
        strictly_sorted(insert_sorted(ns, x)),
        insert_sorted(ns, x).len() == ns.len() + 1,
        forall|y: Seq<char>| #[trigger] insert_sorted(ns, x).contains(y) <==> ns.contains(y) || y == x,
        ns.len() == 0 ==> insert_sorted(ns, x).last() == x,
        ns.len() > 0 ==> insert_sorted(ns, x).last() == x || insert_sorted(ns, x).last() == ns.last(),
    decreases ns.len(),
{
    let r = insert_sorted(ns, x);
    if ns.len() == 0 {
        assert(r =~= seq![x]);
        assert forall|y: Seq<char>| #[trigger] r.contains(y) <==> ns.contains(y) || y == x by {
            if r.contains(y) {
                let i = choose|i: int| 0 <= i < r.len() && r[i] == y;
                assert(i == 0);
            }
            if y == x {
                assert(r[0] == x);
            }
        }
    } else if seq_less(ns.last(), x) {
        assert forall|y: Seq<char>| #[trigger] r.contains(y) <==> ns.contains(y) || y == x by {
            if r.contains(y) {
                let i = choose|i: int| 0 <= i < r.len() && r[i] == y;
                if i < ns.len() {
                    assert(ns[i] == y);
                }
            }
            if ns.contains(y) {
                let i = choose|i: int| 0 <= i < ns.len() && ns[i] == y;
                assert(r[i] == y);
            }
            if y == x {
                assert(r[ns.len() as int] == x);
            }
        }
    } else {
        let d = ns.drop_last();
        assert(strictly_sorted(d));
        assert(!d.contains(x)) by {
            if d.contains(x) {
                let i = choose|i: int| 0 <= i < d.len() && d[i] == x;
                assert(ns[i] == x);
            }
        }
        lemma_insert_sorted(d, x);
        let m = insert_sorted(d, x);
        assert(x != ns.last()) by {
            assert(ns[ns.len() - 1] == ns.last());
        }
        lemma_less_total(x, ns.last());
        if d.len() > 0 {
            assert(seq_less(d.last(), ns.last())) by {
                assert(ns[ns.len() - 2] == d.last());
            }
        }
        assert(seq_less(m.last(), ns.last()));
        assert(r == m.push(ns.last()));
        assert(strictly_sorted(r)) by {
            assert forall|i: int| 0 <= i < r.len() - 1 implies seq_less(#[trigger] r[i], r[i + 1]) by {
                if i < m.len() - 1 {
                    assert(r[i] == m[i] && r[i + 1] == m[i + 1]);
                } else {
                    assert(r[i] == m.last());
                }
            }
        }
        assert forall|y: Seq<char>| #[trigger] r.contains(y) <==> ns.contains(y) || y == x by {
            if r.contains(y) {
                let i = choose|i: int| 0 <= i < r.len() && r[i] == y;
                if i < m.len() {
                    assert(m[i] == y);
                    assert(m.contains(y));
                    if d.contains(y) {
                        let j = choose|j: int| 0 <= j < d.len() && d[j] == y;
                        assert(ns[j] == y);
                    }
                } else {
                    assert(ns[ns.len() - 1] == y);
                }
            }
            if ns.contains(y) {
                let i = choose|i: int| 0 <= i < ns.len() && ns[i] == y;
                if i < d.len() {
                    assert(d[i] == y);
                    assert(m.contains(y));
                    let j = choose|j: int| 0 <= j < m.len() && m[j] == y;
                    assert(r[j] == y);
                } else {
                    assert(r[r.len() - 1] == y);
                }
            }
            if y == x {
                assert(m.contains(x));
                let j = choose|j: int| 0 <= j < m.len() && m[j] == x;
                assert(r[j] == x);
            }
        }
    }
}

/// Whether some record of the ledger is about medication `y`.
pub open spec fn names_in(h: Seq<ChangeModel>, y: Seq<char>) -> bool {
    exists|i: int| 0 <= i < h.len() && h[i].medication == y
}

/// The medications of a rendering come in strict lexicographic order, and
/// they are exactly the medications that the ledger speaks of.
pub proof fn lemma_sorted_names(h: Seq<ChangeModel>)
    ensures
        strictly_sorted(sorted_names(h)),
        forall|y: Seq<char>| #[trigger] sorted_names(h).contains(y) <==> names_in(h, y),
    decreases h.len(),
{
    if h.len() > 0 {
        let d = h.drop_last();
        lemma_sorted_names(d);
        let ns = sorted_names(d);
        let x = h.last();
        if !ns.contains(x.medication) {
            lemma_insert_sorted(ns, x.medication);
        }
        assert forall|y: Seq<char>| #[trigger] sorted_names(h).contains(y) <==> names_in(h, y) by {
            if names_in(d, y) {
                let i = choose|i: int| 0 <= i < d.len() && d[i].medication == y;
                assert(h[i].medication == y);
            }
            if names_in(h, y) {
                let i = choose|i: int| 0 <= i < h.len() && h[i].medication == y;
                if i < d.len() {
                    assert(d[i].medication == y);
                } else {
                    assert(y == x.medication);
                }
            }
            if y == x.medication {
                assert(h[h.len() - 1].medication == y);
            }
        }
    }
}

proof fn lemma_sorted_pairwise(ns: Seq<Seq<char>>, i: int, j: int)
    requires
        strictly_sorted(ns),
        0 <= i < j < ns.len(),
    ensures
        seq_less(ns[i], ns[j]),
    decreases j - i,
{
    if j > i + 1 {
        lemma_sorted_pairwise(ns, i, j - 1);
        lemma_less_transitive(ns[i], ns[j - 1], ns[j]);
    }
}

proof fn lemma_sorted_unique(s: Seq<Seq<char>>, t: Seq<Seq<char>>)
    requires
        strictly_sorted(s),
        strictly_sorted(t),
        forall|y: Seq<char>| s.contains(y) <==> t.contains(y),
    ensures
        s == t,
    decreases s.len(),
{
    if s.len() == 0 {
        if t.len() > 0 {
            assert(t.contains(t[0]));
        }
        assert(s =~= t);
    } else {
        assert(s.contains(s[0]));
        assert(t.len() > 0);
        assert(t.contains(t[0]));
        if s[0] != t[0] {
            let k = choose|k: int| 0 <= k < s.len() && s[k] == t[0];
            let m = choose|m: int| 0 <= m < t.len() && t[m] == s[0];
            if k == 0 {
                assert(false);
            }
            if m == 0 {
                assert(false);
            }
            lemma_sorted_pairwise(s, 0, k);
            lemma_sorted_pairwise(t, 0, m);
            lemma_less_asymmetric(s[0], t[0]);
        }
        let s1 = s.drop_first();
        let t1 = t.drop_first();
        assert(strictly_sorted(s1)) by {
            assert forall|i: int| 0 <= i < s1.len() - 1 implies seq_less(#[trigger] s1[i], s1[i + 1]) by {
                assert(s1[i] == s[i + 1] && s1[i + 1] == s[i + 2]);
            }
        }
        assert(strictly_sorted(t1)) by {
            assert forall|i: int| 0 <= i < t1.len() - 1 implies seq_less(#[trigger] t1[i], t1[i + 1]) by {
                assert(t1[i] == t[i + 1] && t1[i + 1] == t[i + 2]);
            }
        }
        assert forall|y: Seq<char>| s1.contains(y) <==> t1.contains(y) by {
            if s1.contains(y) {
                let i = choose|i: int| 0 <= i < s1.len() && s1[i] == y;
                assert(s[i + 1] == y);
                assert(s.contains(y));
                let j = choose|j: int| 0 <= j < t.len() && t[j] == y;
                if j == 0 {
                    lemma_sorted_pairwise(s, 0, i + 1);
                    lemma_less_irreflexive(y);
                }
                assert(t1[j - 1] == y);
            }
            if t1.contains(y) {
                let i = choose|i: int| 0 <= i < t1.len() && t1[i] == y;
                assert(t[i + 1] == y);
                assert(t.contains(y));
                let j = choose|j: int| 0 <= j < s.len() && s[j] == y;
                if j == 0 {
                    lemma_sorted_pairwise(t, 0, i + 1);
                    lemma_less_irreflexive(y);
                }
                assert(s1[j - 1] == y);
            }
        }
        lemma_sorted_unique(s1, t1);
        assert(s =~= seq![s[0]] + s1);
        assert(t =~= seq![t[0]] + t1);
    }
}

/// Two ledgers that speak of the same medications, in whatever order and
/// number of records, lay their medications out in the same order.
pub proof fn lemma_name_order_independent(h1: Seq<ChangeModel>, h2: Seq<ChangeModel>)
    requires
        forall|y: Seq<char>| names_in(h1, y) <==> names_in(h2, y),
    ensures
        sorted_names(h1) == sorted_names(h2),
{
    lemma_sorted_names(h1);
    lemma_sorted_names(h2);
    assert forall|y: Seq<char>| sorted_names(h1).contains(y) <==> sorted_names(h2).contains(y) by {
        assert(sorted_names(h1).contains(y) <==> names_in(h1, y));
        assert(sorted_names(h2).contains(y) <==> names_in(h2, y));
    }
    lemma_sorted_unique(sorted_names(h1), sorted_names(h2));
}

fn insert_name(v: &mut Vec<String>, x: String)
    ensures
        words_view(final(v)@) == insert_sorted(words_view(old(v)@), x@),
    decreases old(v)@.len(),
{
    let ghost before = words_view(v@);
    let n = v.len();
    if n == 0 || less(v[n - 1].as_str(), x.as_str()) {
        v.push(x);
        assert(words_view(v@) =~= before.push(x@));
    } else {
        let last = v.pop();
        match last {
            Some(last) => {
                assert(words_view(v@) =~= before.drop_last());
                insert_name(v, x);
                let ghost mid = words_view(v@);
                v.push(last);
                assert(words_view(v@) =~= mid.push(last@));
            },
            None => {},
        }
    }
}

fn holds_name(v: &Vec<String>, x: &str) -> (r: bool)
    ensures
        r == words_view(v@).contains(x@),
{
    let mut i: usize = 0;
    while i < v.len()
        invariant
            i <= v.len(),
            forall|j: int| 0 <= j < i ==> v@[j]@ != x@,
        decreases v.len() - i,
    {
        if str_eq(v[i].as_str(), x) {
            assert(words_view(v@)[i as int] == x@);
            return true;
        }
        i = i + 1;
    }
    false
}

/// The distinct medication names of the ledger, in lexicographic order.
pub fn medication_names(changes: &Vec<ChangeRecord>) -> (r: Vec<String>)
    ensures
        words_view(r@) == sorted_names(changes_view(changes@)),
{
    let ghost h = changes_view(changes@);
    let mut names: Vec<String> = Vec::new();
    let mut k: usize = 0;
    assert(h.subrange(0, 0) =~= Seq::<ChangeModel>::empty());
    assert(words_view(names@) =~= Seq::<Seq<char>>::empty());
    while k < changes.len()
        invariant
            k <= changes.len(),
            h == changes_view(changes@),
            words_view(names@) == sorted_names(h.subrange(0, k as int)),
        decreases changes.len() - k,
    {
        assert(h.subrange(0, k + 1).drop_last() =~= h.subrange(0, k as int));
        let m = changes[k].medication.as_str();
        if !holds_name(&names, m) {
            insert_name(&mut names, changes[k].medication.clone());
        }
        k = k + 1;
    }
    assert(h.subrange(0, k as int) =~= h);
    names
}

/// When an event happened: seconds since the Unix epoch, day and month.
pub type EventTime = (i64, u32, u32);

/// `k` put into the time-ordered `evs` after every event that is not later.
pub open spec fn insert_event(evs: Seq<usize>, t: Seq<EventTime>, k: usize) -> Seq<usize>
    decreases evs.len(),
{
    if evs.len() == 0 {
        seq![k]
    } else if t[evs.last() as int].0 <= t[k as int].0 {
        evs.push(k)
    } else {
        insert_event(evs.drop_last(), t, k).push(evs.last())
    }
}

/// Whether `evs` already holds an event at the time and with the command of record `k`.
pub open spec fn has_twin(evs: Seq<usize>, h: Seq<ChangeModel>, t: Seq<EventTime>, k: usize) -> bool {
    exists|j: int|
        0 <= j < evs.len() && t[evs[j] as int].0 == t[k as int].0 && h[evs[j] as int].command
            == h[k as int].command
}

/// The events of medication `m` among the first `n` records: the first record
/// of each distinct time and command, ordered by time, ties in ledger order.
pub open spec fn med_events(h: Seq<ChangeModel>, t: Seq<EventTime>, m: Seq<char>, n: nat) -> Seq<usize>
    decreases n,
{
    if n == 0 {
        seq![]
    } else {
        let evs = med_events(h, t, m, (n - 1) as nat);
        let k = (n - 1) as usize;
        if h[k as int].medication == m && !has_twin(evs, h, t, k) {
            insert_event(evs, t, k)
        } else {
            evs
        }
    }
}

fn insert_event_exec(v: &mut Vec<usize>, times: &Vec<EventTime>, k: usize)
    requires
        k < times.len(),
        forall|j: int| 0 <= j < old(v)@.len() ==> old(v)@[j] < times.len(),
    ensures
        final(v)@ == insert_event(old(v)@, times@, k),
        forall|j: int| 0 <= j < final(v)@.len() ==> final(v)@[j] < times.len(),
    decreases old(v)@.len(),
{
    let n = v.len();
    if n == 0 || times[v[n - 1]].0 <= times[k].0 {
        v.push(k);
    } else {
        let last = v.pop();
        match last {
            Some(last) => {
                insert_event_exec(v, times, k);
                v.push(last);
            },
            None => {},
        }
    }
}

fn twin_in(evs: &Vec<usize>, changes: &Vec<ChangeRecord>, times: &Vec<EventTime>, k: usize) -> (r: bool)
    requires
        k < changes.len(),
        times.len() == changes.len(),
        forall|j: int| 0 <= j < evs@.len() ==> evs@[j] < changes.len(),
    ensures
        r == has_twin(evs@, changes_view(changes@), times@, k),
{
    let mut j: usize = 0;
    while j < evs.len()
        invariant
            k < changes.len(),
            times.len() == changes.len(),
            forall|l: int| 0 <= l < evs@.len() ==> evs@[l] < changes.len(),
            j <= evs.len(),
            forall|l: int|
                0 <= l < j ==> !(times@[evs@[l] as int].0 == times@[k as int].0
                    && changes@[evs@[l] as int].command@ == changes@[k as int].command@),
        decreases evs.len() - j,
    {
        let e = evs[j];
        if times[e].0 == times[k].0 && str_eq(changes[e].command.as_str(), changes[k].command.as_str()) {
            return true;
        }
        j = j + 1;
    }
    false
}

/// The events of medication `m`: indices into the ledger of the first record
/// of each distinct time and command, ordered by time, ties in ledger order.
pub fn medication_events(changes: &Vec<ChangeRecord>, times: &Vec<EventTime>, m: &str) -> (r: Vec<usize>)
    requires
        times.len() == changes.len(),
    ensures
        r@ == med_events(changes_view(changes@), times@, m@, changes@.len()),
        forall|j: int| 0 <= j < r@.len() ==> r@[j] < changes@.len(),
{
    let ghost h = changes_view(changes@);
    let mut evs: Vec<usize> = Vec::new();
    let mut k: usize = 0;
    while k < changes.len()
        invariant
            k <= changes.len(),
            times.len() == changes.len(),
            h == changes_view(changes@),
            evs@ == med_events(h, times@, m@, k as nat),
            forall|j: int| 0 <= j < evs@.len() ==> evs@[j] < changes@.len(),
        decreases changes.len() - k,
    {
        if str_eq(changes[k].medication.as_str(), m) && !twin_in(&evs, changes, times, k) {
            insert_event_exec(&mut evs, times, k);
        }
        k = k + 1;
    }
    evs
}


/// Columns over which a medication's events are spread.
pub const TRACK_WIDTH: usize = 80;

/// Spacing used when a medication has a single event.
pub const LONE_SPACING: usize = 10;

/// The width a label takes on the track, counted in bytes as the track
/// counts it: five for the date and three for the symbol's UTF-8 encoding.
pub const LABEL_WIDTH: usize = 8;

/// The distance between the starts of consecutive labels, for `n` events.
pub open spec fn spacing(n: nat) -> nat {
    if n > 1 {
        TRACK_WIDTH as nat / (n - 1) as nat
    } else {
        LONE_SPACING as nat
    }
}

/// The symbol of a command on the text track.
pub open spec fn track_symbol(command: Seq<char>) -> Seq<char> {
    if command == "INCREASE"@ {
        "▲"@
    } else if command == "DECREASE"@ {
        "▼"@
    } else {
        "●"@
    }
}

/// An event's date as `DD/MM`.
pub open spec fn short_date(t: EventTime) -> Seq<char> {
    digits(t.1 as nat, 2) + "/"@ + digits(t.2 as nat, 2)
}

/// `k` copies of the horizontal rule glyph.
pub open spec fn rule(k: int) -> Seq<char>
    decreases k,
{
    if k <= 0 {
        seq![]
    } else {
        rule(k - 1) + "─"@
    }
}

/// The track after its first `n` events, and the position where it ends:
/// event `i` starts at `i * spacing`, preceded by rule glyphs from where the
/// previous label ended.
pub open spec fn track(h: Seq<ChangeModel>, t: Seq<EventTime>, evs: Seq<usize>, n: nat) -> (Seq<char>, int)
    decreases n,
{
    if n == 0 {
        (seq![], 0)
    } else {
        let (s, last) = track(h, t, evs, (n - 1) as nat);
        let pos = (n - 1) * spacing(evs.len());
        let k = evs[n - 1] as int;
        (s + rule(pos - last) + short_date(t[k]) + track_symbol(h[k].command), pos + LABEL_WIDTH)
    }
}

/// The text track of medication `m`.
pub open spec fn med_track(h: Seq<ChangeModel>, t: Seq<EventTime>, m: Seq<char>) -> Seq<char> {
    let evs = med_events(h, t, m, h.len());
    track(h, t, evs, evs.len()).0
}

/// One line per medication of `ns`, in order: the name, a colon and its track.
pub open spec fn track_lines(h: Seq<ChangeModel>, t: Seq<EventTime>, ns: Seq<Seq<char>>) -> Seq<char>
    decreases ns.len(),
{
    if ns.len() == 0 {
        seq![]
    } else {
        track_lines(h, t, ns.drop_last()) + ns.last() + ": "@ + med_track(h, t, ns.last()) + "\n"@
    }
}

/// The text rendering of a ledger whose record `i` happened at `t[i]`:
/// empty for an empty ledger, else a heading and one track per medication in
/// name order.
pub open spec fn timeline_text(h: Seq<ChangeModel>, t: Seq<EventTime>) -> Seq<char> {
    if h.len() == 0 {
        seq![]
    } else {
        "Prescription timeline:\n"@ + track_lines(h, t, sorted_names(h))
    }
}

proof fn lemma_position_bound(i: nat, n: nat)
    requires
        i < n,
    ensures
        i * spacing(n) <= TRACK_WIDTH,
{
    if n > 1 {
        let s = 80nat / (n - 1) as nat;
        assert(((n - 1) as nat) * s <= 80) by (nonlinear_arith)
            requires
                s == 80nat / (n - 1) as nat,
                n > 1,
        ;
        assert(i * s <= ((n - 1) as nat) * s) by (nonlinear_arith)
            requires
                i <= n - 1,
        ;
        assert(spacing(n) == s);
    } else {
        assert(i == 0);
        assert(i * spacing(n) == 0);
    }
}

fn push_short_date(s: &mut String, t: EventTime)
    ensures
        final(s)@ == old(s)@ + short_date(t),
{
    let ghost before = s@;
    push_digits(s, t.1, 2);
    s.append("/");
    push_digits(s, t.2, 2);
    assert(s@ =~= before + short_date(t));
}

fn render_track(changes: &Vec<ChangeRecord>, times: &Vec<EventTime>, evs: &Vec<usize>) -> (r: String)
    requires
        times.len() == changes.len(),
        forall|j: int| 0 <= j < evs@.len() ==> evs@[j] < changes@.len(),
    ensures
        r@ == track(changes_view(changes@), times@, evs@, evs@.len()).0,
{
    let ghost h = changes_view(changes@);
    let n = evs.len();
    let step: usize = if n > 1 {
        TRACK_WIDTH / (n - 1)
    } else {
        LONE_SPACING
    };
    let mut line = String::new();
    let mut last: usize = 0;
    let mut i: usize = 0;
    while i < n
        invariant
            n == evs@.len(),
            times.len() == changes.len(),
            h == changes_view(changes@),
            forall|j: int| 0 <= j < evs@.len() ==> evs@[j] < changes@.len(),
            step == spacing(n as nat),
            i <= n,
            last <= TRACK_WIDTH + LABEL_WIDTH,
            track(h, times@, evs@, i as nat) == (line@, last as int),
        decreases n - i,
    {
        proof {
            lemma_position_bound(i as nat, n as nat);
        }
        let pos: usize = i * step;
        let ghost base = line@;
        let ghost last0 = last as int;
        let mut at: usize = last;
        assert(line@ =~= base + rule(0));
        while at < pos
            invariant
                last0 <= at,
                at <= pos || at == last0,
                line@ == base + rule(at - last0),
            decreases pos - at,
        {
            line.append("─");
            at = at + 1;
            assert(line@ =~= base + rule(at - last0));
        }
        assert(rule(at - last0) == rule(pos - last0)) by {
            if pos < last0 {
                assert(at == last0);
            }
        }
        let k = evs[i];
        push_short_date(&mut line, times[k]);
        let c = changes[k].command.as_str();
        proof {
            reveal_strlit("INCREASE");
            reveal_strlit("DECREASE");
        }
        if str_eq(c, "INCREASE") {
            line.append("▲");
        } else if str_eq(c, "DECREASE") {
            line.append("▼");
        } else {
            line.append("●");
        }
        last = pos + LABEL_WIDTH;
        i = i + 1;
    }
    line
}

/// The text rendering of a ledger whose record `i` happened at `times[i]`.
pub fn graph_text(changes: &Vec<ChangeRecord>, times: &Vec<EventTime>) -> (r: String)
    requires
        times.len() == changes.len(),
    ensures
        r@ == timeline_text(changes_view(changes@), times@),
{
    let ghost h = changes_view(changes@);
    if changes.len() == 0 {
        return String::new();
    }
    let names = medication_names(changes);
    let ghost ns = words_view(names@);
    let mut out = String::from_str("Prescription timeline:\n");
    let mut i: usize = 0;
    assert(ns.subrange(0, 0) =~= Seq::<Seq<char>>::empty());
    while i < names.len()
        invariant
            i <= names.len(),
            times.len() == changes.len(),
            h == changes_view(changes@),
            ns == words_view(names@),
            out@ == "Prescription timeline:\n"@ + track_lines(h, times@, ns.subrange(0, i as int)),
        decreases names.len() - i,
    {
        assert(ns.subrange(0, i + 1).drop_last() =~= ns.subrange(0, i as int));
        let evs = medication_events(changes, times, names[i].as_str());
        let t = render_track(changes, times, &evs);
        out.append(names[i].as_str());
        out.append(": ");
        out.append(t.as_str());
        out.append("\n");
        assert(out@ =~= "Prescription timeline:\n"@ + track_lines(h, times@, ns.subrange(0, i + 1)));
        i = i + 1;
    }
    assert(ns.subrange(0, i as int) =~= ns);
    out
}

/// What `NaiveDateTime::parse_from_str` makes of a ledger timestamp, as
/// seconds since the Unix epoch, day and month.
pub uninterp spec fn parsed_time(s: Seq<char>) -> Option<EventTime>;

/// Relies on chrono's `NaiveDateTime::parse_from_str` with the format
/// `%Y-%m-%d %H:%M:%S`; on success gives `and_utc().timestamp()`, `day()`
/// and `month()` of the parsed value.
#[verifier::external_body]
fn parse_stamp(s: &str) -> (r: Option<EventTime>)
    ensures
        r == parsed_time(s@),
        r matches Some(t) ==> 1 <= t.1 <= 31 && 1 <= t.2 <= 12,
{
    match chrono::NaiveDateTime::parse_from_str(s, "%Y-%m-%d %H:%M:%S") {
        Ok(t) => Some((t.and_utc().timestamp(), t.day(), t.month())),
        Err(_) => None,
    }
}

/// The time of a ledger timestamp; one that does not parse stands at the
/// Unix epoch, 1970-01-01 00:00:00.
pub open spec fn event_time(s: Seq<char>) -> EventTime {
    match parsed_time(s) {
        Some(t) => t,
        None => (0, 1, 1),
    }
}

/// The time of each record of a ledger.
pub open spec fn event_times(h: Seq<ChangeModel>) -> Seq<EventTime> {
    h.map_values(|c: ChangeModel| event_time(c.timestamp))
}

/// The time of each record of the ledger, in ledger order.
pub fn parse_times(changes: &Vec<ChangeRecord>) -> (r: Vec<EventTime>)
    ensures
        r@ == event_times(changes_view(changes@)),
{
    let mut out: Vec<EventTime> = Vec::new();
    let mut k: usize = 0;
    while k < changes.len()
        invariant
            k <= changes.len(),
            out@ == event_times(changes_view(changes@)).subrange(0, k as int),
        decreases changes.len() - k,
    {
        let t = match parse_stamp(changes[k].timestamp.as_str()) {
            Some(t) => t,
            None => (0, 1, 1),
        };
        out.push(t);
        assert(out@ =~= event_times(changes_view(changes@)).subrange(0, k + 1));
        k = k + 1;
    }
    assert(out@ =~= event_times(changes_view(changes@)));
    out
}

/// Renders the ledger as text: a heading, then for each medication in name
/// order its events along a track of rule glyphs, each as a date and a symbol.
pub fn prescription_graphs(changes: &Vec<ChangeRecord>) -> (r: String)
    ensures
        r@ == timeline_text(changes_view(changes@), event_times(changes_view(changes@))),
{
    let times = parse_times(changes);
    graph_text(changes, &times)
}


/// The marker class and symbol of a command in markup.
pub open spec fn marker(command: Seq<char>) -> (Seq<char>, Seq<char>) {
    if command == "PRESCRIBE"@ {
        ("initial"@, "●"@)
    } else if command == "INCREASE"@ {
        ("increase"@, "▲"@)
    } else if command == "DECREASE"@ {
        ("decrease"@, "▼"@)
    } else {
        ("other"@, "●"@)
    }
}

/// The description of an event: what the command did, with the old and new
/// values of a field-level change.
pub open spec fn describe(c: ChangeModel) -> Seq<char> {
    let details = c.old_value + " → "@ + c.new_value;
    if c.command == "PRESCRIBE"@ {
        "Initial prescription"@
    } else if c.command == "INCREASE"@ {
        "Increase - "@ + details
    } else if c.command == "DECREASE"@ {
        "Decrease - "@ + details
    } else {
        c.command + " - "@ + details
    }
}

/// One event of the markup timeline.
pub open spec fn markup_item(c: ChangeModel, t: EventTime) -> Seq<char> {
    "<div class=\"timeline-item\"><div class=\"timeline-marker "@ + marker(c.command).0 + "\">"@
        + marker(c.command).1 + "</div><div class=\"timeline-content\"><strong>"@ + short_date(t)
        + "</strong> - "@ + describe(c) + "</div></div>"@
}

/// The markup of the first `n` events of `evs`.
pub open spec fn markup_items(h: Seq<ChangeModel>, t: Seq<EventTime>, evs: Seq<usize>, n: nat) -> Seq<char>
    decreases n,
{
    if n == 0 {
        seq![]
    } else {
        let k = evs[n - 1] as int;
        markup_items(h, t, evs, (n - 1) as nat) + markup_item(h[k], t[k])
    }
}

/// The markup section of medication `m`: a heading and its events.
pub open spec fn markup_section(h: Seq<ChangeModel>, t: Seq<EventTime>, m: Seq<char>) -> Seq<char> {
    let evs = med_events(h, t, m, h.len());
    "<h3>"@ + m + "</h3><div class=\"timeline\">"@ + markup_items(h, t, evs, evs.len()) + "</div>"@
}

/// The markup sections of the medications of `ns`, in order.
pub open spec fn markup_sections(h: Seq<ChangeModel>, t: Seq<EventTime>, ns: Seq<Seq<char>>) -> Seq<char>
    decreases ns.len(),
{
    if ns.len() == 0 {
        seq![]
    } else {
        markup_sections(h, t, ns.drop_last()) + markup_section(h, t, ns.last())
    }
}

/// The markup rendering of a ledger whose record `i` happened at `t[i]`:
/// empty for an empty ledger, else one section per medication in name order.
pub open spec fn timeline_markup(h: Seq<ChangeModel>, t: Seq<EventTime>) -> Seq<char> {
    if h.len() == 0 {
        seq![]
    } else {
        "<div class=\"prescription-timeline\">"@ + markup_sections(h, t, sorted_names(h)) + "</div>"@
    }
}

fn push_item(out: &mut String, c: &ChangeRecord, t: EventTime)
    ensures
        final(out)@ == old(out)@ + markup_item(c@, t),
{
    let ghost before = out@;
    proof {
        reveal_strlit("PRESCRIBE");
        reveal_strlit("INCREASE");
        reveal_strlit("DECREASE");
    }
    let cmd = c.command.as_str();
    let mut s = String::from_str("<div class=\"timeline-item\"><div class=\"timeline-marker ");
    let (class, symbol, label) = if str_eq(cmd, "PRESCRIBE") {
        ("initial", "●", "")
    } else if str_eq(cmd, "INCREASE") {
        ("increase", "▲", "Increase - ")
    } else if str_eq(cmd, "DECREASE") {
        ("decrease", "▼", "Decrease - ")
    } else {
        ("other", "●", "")
    };
    s.append(class);
    s.append("\">");
    s.append(symbol);
    s.append("</div><div class=\"timeline-content\"><strong>");
    push_short_date(&mut s, t);
    s.append("</strong> - ");
    let ghost head = s@;
    if str_eq(cmd, "PRESCRIBE") {
        s.append("Initial prescription");
    } else {
        if str_eq(cmd, "INCREASE") || str_eq(cmd, "DECREASE") {
            s.append(label);
        } else {
            s.append(cmd);
            s.append(" - ");
        }
        s.append(c.old_value.as_str());
        s.append(" → ");
        s.append(c.new_value.as_str());
    }
    assert(s@ =~= head + describe(c@));
    s.append("</div></div>");
    out.append(s.as_str());
    assert(out@ =~= before + markup_item(c@, t));
}

/// The markup rendering of a ledger whose record `i` happened at `times[i]`.
pub fn graph_markup(changes: &Vec<ChangeRecord>, times: &Vec<EventTime>) -> (r: String)
    requires
        times.len() == changes.len(),
    ensures
        r@ == timeline_markup(changes_view(changes@), times@),
{
    let ghost h = changes_view(changes@);
    if changes.len() == 0 {
        return String::new();
    }
    let names = medication_names(changes);
    let ghost ns = words_view(names@);
    let mut out = String::from_str("<div class=\"prescription-timeline\">");
    let mut i: usize = 0;
    assert(ns.subrange(0, 0) =~= Seq::<Seq<char>>::empty());
    assert(out@ =~= "<div class=\"prescription-timeline\">"@ + markup_sections(h, times@, ns.subrange(0, 0)));
    while i < names.len()
        invariant
            i <= names.len(),
            times.len() == changes.len(),
            h == changes_view(changes@),
            ns == words_view(names@),
            out@ == "<div class=\"prescription-timeline\">"@ + markup_sections(h, times@, ns.subrange(0, i as int)),
        decreases names.len() - i,
    {
        assert(ns.subrange(0, i + 1).drop_last() =~= ns.subrange(0, i as int));
        let ghost before = out@;
        let evs = medication_events(changes, times, names[i].as_str());
        out.append("<h3>");
        out.append(names[i].as_str());
        out.append("</h3><div class=\"timeline\">");
        let ghost head = out@;
        let mut j: usize = 0;
        while j < evs.len()
            invariant
                j <= evs.len(),
                times.len() == changes.len(),
                h == changes_view(changes@),
                forall|l: int| 0 <= l < evs@.len() ==> evs@[l] < changes@.len(),
                out@ == head + markup_items(h, times@, evs@, j as nat),
            decreases evs.len() - j,
        {
            let k = evs[j];
            push_item(&mut out, &changes[k], times[k]);
            assert(out@ =~= head + markup_items(h, times@, evs@, (j + 1) as nat));
            j = j + 1;
        }
        out.append("</div>");
        assert(out@ =~= before + markup_section(h, times@, ns[i as int]));
        assert(out@ =~= "<div class=\"prescription-timeline\">"@ + markup_sections(h, times@, ns.subrange(0, i + 1)));
        i = i + 1;
    }
    assert(ns.subrange(0, i as int) =~= ns);
    out.append("</div>");
    out
}

/// Renders the ledger as markup: for each medication in name order, a
/// heading and its events, each with a marker, a date and a description.
pub fn prescription_graphs_html(changes: &Vec<ChangeRecord>) -> (r: String)
    ensures
        r@ == timeline_markup(changes_view(changes@), event_times(changes_view(changes@))),
{
    let times = parse_times(changes);
    graph_markup(changes, &times)
}

} // verus!
