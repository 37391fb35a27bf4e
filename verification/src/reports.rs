//! Report rendering: report and format selection, cell formatting, CSV, and
//! the text lines of the PDF export.

use vstd::prelude::*;
use crate::decimal::{decimal_text, decimal_to_string, money, rounded, Amount};
use crate::text::{
    ascii_upper, char_to_upper, chars_of, push_char, push_str, split_words, str_eq,
    take_chars, to_owned_string, trim, trimmed, whitespace_words, lemma_whitespace_words_nonempty,
};

verus! {

/// The views of a sequence of strings.
pub open spec fn views(v: Seq<String>) -> Seq<Seq<char>> {
    v.map_values(|s: String| s@)
}

/// The views of a table of strings.
pub open spec fn table_views(rows: Seq<Vec<String>>) -> Seq<Seq<Seq<char>>> {
    rows.map_values(|r: Vec<String>| views(r@))
}

/// `parts` joined with `sep` between consecutive parts.
pub open spec fn join(parts: Seq<Seq<char>>, sep: Seq<char>) -> Seq<char>
    decreases parts.len(),
{
    if parts.len() == 0 {
        Seq::empty()
    } else if parts.len() == 1 {
        parts[0]
    } else {
        join(parts.drop_last(), sep) + sep + parts.last()
    }
}

/// A CSV cell must be quoted when it holds a comma, a double quote or a line
/// break.
pub open spec fn needs_csv_quotes(s: Seq<char>) -> bool {
    s.contains(',') || s.contains('"') || s.contains('\n')
}

/// `s` with every double quote doubled.
pub open spec fn double_quotes(s: Seq<char>) -> Seq<char>
    decreases s.len(),
{
    if s.len() == 0 {
        Seq::empty()
    } else {
        double_quotes(s.drop_last()) + (if s.last() == '"' {
            seq!['"', '"']
        } else {
            seq![s.last()]
        })
    }
}

/// A CSV cell: quoted, with inner quotes doubled, when it needs quoting;
/// unchanged otherwise.
pub open spec fn spec_csv_escape(s: Seq<char>) -> Seq<char> {
    if needs_csv_quotes(s) {
        seq!['"'] + double_quotes(s) + seq!['"']
    } else {
        s
    }
}

/// The cells of a CSV line, escaped and separated by commas.
pub open spec fn csv_line(cells: Seq<Seq<char>>) -> Seq<char> {
    join(cells.map_values(|c: Seq<char>| spec_csv_escape(c)), seq![','])
}

/// The CSV lines of the rows, each ended by a line break.
pub open spec fn csv_rows(rows: Seq<Seq<Seq<char>>>) -> Seq<char>
    decreases rows.len(),
{
    if rows.len() == 0 {
        Seq::empty()
    } else {
        csv_rows(rows.drop_last()) + csv_line(rows.last()) + seq!['\n']
    }
}

/// A CSV document: the header line, then one line per row.
pub open spec fn spec_to_csv(headers: Seq<Seq<char>>, rows: Seq<Seq<Seq<char>>>) -> Seq<char> {
    csv_line(headers) + seq!['\n'] + csv_rows(rows)
}

/// What a CSV reader holds: the finished records, the fields read so far of
/// the record being read, the field being read, and where it stands (0
/// outside quotes, 1 inside a quoted field, 2 just after a quote inside a
/// quoted field).
pub type CsvState = (Seq<Seq<Seq<char>>>, Seq<Seq<char>>, Seq<char>, int);

/// One character read as RFC 4180 describes CSV, with `\n` ending each
/// record: a comma ends a field and a line break a record, except inside
/// quotes; a quote at the start of a field opens quotes; inside quotes a
/// doubled quote stands for one quote and a single quote closes them.
pub open spec fn csv_read_char(state: CsvState, c: char) -> CsvState {
    let records = state.0;
    let fields = state.1;
    let field = state.2;
    let mode = state.3;
    if mode == 1 {
        if c == '"' {
            (records, fields, field, 2)
        } else {
            (records, fields, field.push(c), 1)
        }
    } else if c == ',' {
        (records, fields.push(field), Seq::empty(), 0)
    } else if c == '\n' {
        (records.push(fields.push(field)), Seq::empty(), Seq::empty(), 0)
    } else if c == '"' && mode == 2 {
        (records, fields, field.push('"'), 1)
    } else if c == '"' && field.len() == 0 {
        (records, fields, field, 1)
    } else {
        (records, fields, field.push(c), 0)
    }
}

/// The characters of `text` read one after another.
pub open spec fn csv_read(state: CsvState, text: Seq<char>) -> CsvState
    decreases text.len(),
{
    if text.len() == 0 {
        state
    } else {
        csv_read(csv_read_char(state, text[0]), text.drop_first())
    }
}

/// The records of a CSV text that a line break ends, each a sequence of
/// fields.
pub open spec fn parse_csv(text: Seq<char>) -> Seq<Seq<Seq<char>>> {
    csv_read((Seq::empty(), Seq::empty(), Seq::empty(), 0), text).0
}

/// Reading two texts one after the other is reading them joined.
proof fn lemma_csv_read_concat(state: CsvState, a: Seq<char>, b: Seq<char>)
    ensures
        csv_read(state, a + b) == csv_read(csv_read(state, a), b),
    decreases a.len(),
{
    if a.len() == 0 {
        assert(a + b =~= b);
    } else {
        assert((a + b)[0] == a[0]);
        assert((a + b).drop_first() =~= a.drop_first() + b);
        lemma_csv_read_concat(csv_read_char(state, a[0]), a.drop_first(), b);
    }
}

/// Reading one more character.
proof fn lemma_csv_read_push(state: CsvState, a: Seq<char>, c: char)
    ensures
        csv_read(state, a.push(c)) == csv_read_char(csv_read(state, a), c),
{
    lemma_csv_read_concat(state, a, seq![c]);
    assert(a + seq![c] =~= a.push(c));
    let mid = csv_read(state, a);
    assert(seq![c][0] == c);
    assert(seq![c].drop_first() =~= Seq::<char>::empty());
    assert(csv_read(csv_read_char(mid, c), Seq::<char>::empty()) == csv_read_char(mid, c));
    assert(csv_read(mid, seq![c]) == csv_read(csv_read_char(mid, c), seq![c].drop_first()));
}

/// A cell without commas, quotes or line breaks is read as it is.
proof fn lemma_csv_read_plain(records: Seq<Seq<Seq<char>>>, fields: Seq<Seq<char>>, c: Seq<char>)
    requires
        forall|i: int| 0 <= i < c.len() ==> c[i] != ',' && c[i] != '"' && c[i] != '\n',
    ensures
        csv_read((records, fields, Seq::empty(), 0), c) == (records, fields, c, 0int),
    decreases c.len(),
{
    if c.len() > 0 {
        let init = c.drop_last();
        assert(c == init.push(c.last()));
        assert(c.last() == c[c.len() - 1]);
        lemma_csv_read_plain(records, fields, init);
        lemma_csv_read_push((records, fields, Seq::empty(), 0), init, c.last());
    }
}

/// The doubled quotes of a cell are read back, inside quotes, as the cell.
proof fn lemma_csv_read_doubled(
    records: Seq<Seq<Seq<char>>>,
    fields: Seq<Seq<char>>,
    c: Seq<char>,
)
    ensures
        csv_read((records, fields, Seq::empty(), 1), double_quotes(c)) == (records, fields, c, 1int),
    decreases c.len(),
{
    let start: CsvState = (records, fields, Seq::empty(), 1);
    if c.len() > 0 {
        let init = c.drop_last();
        let last = c.last();
        assert(c == init.push(last));
        lemma_csv_read_doubled(records, fields, init);
        if last == '"' {
            lemma_csv_read_concat(start, double_quotes(init), seq!['"', '"']);
            assert(seq!['"', '"'] == seq!['"'].push('"'));
            lemma_csv_read_push((records, fields, init, 1), seq!['"'], '"');
            lemma_csv_read_push((records, fields, init, 1), Seq::empty(), '"');
            assert(Seq::<char>::empty().push('"') == seq!['"']);
        } else {
            lemma_csv_read_concat(start, double_quotes(init), seq![last]);
            lemma_csv_read_push((records, fields, init, 1), Seq::empty(), last);
            assert(Seq::<char>::empty().push(last) == seq![last]);
        }
    }
}

/// An escaped cell is read back as the cell, the reader then outside quotes or
/// just after the closing quote.
proof fn lemma_csv_read_cell(records: Seq<Seq<Seq<char>>>, fields: Seq<Seq<char>>, c: Seq<char>)
    ensures
        ({
            let after = csv_read((records, fields, Seq::empty(), 0), spec_csv_escape(c));
            &&& after.0 == records
            &&& after.1 == fields
            &&& after.2 == c
            &&& (after.3 == 0 || after.3 == 2)
        }),
{
    let start: CsvState = (records, fields, Seq::empty(), 0);
    if needs_csv_quotes(c) {
        let open = seq!['"'];
        lemma_csv_read_concat(start, open + double_quotes(c), seq!['"']);
        lemma_csv_read_concat(start, open, double_quotes(c));
        lemma_csv_read_push(start, Seq::empty(), '"');
        assert(Seq::<char>::empty().push('"') == open);
        lemma_csv_read_doubled(records, fields, c);
        lemma_csv_read_push((records, fields, c, 1), Seq::empty(), '"');
        assert(Seq::<char>::empty().push('"') == seq!['"']);
    } else {
        lemma_csv_read_plain(records, fields, c);
    }
}

/// The escaped cells of a non-empty record joined by commas are read as the
/// fields before the last cell and, being read, the last cell.
proof fn lemma_csv_read_cells(records: Seq<Seq<Seq<char>>>, cells: Seq<Seq<char>>)
    requires
        cells.len() >= 1,
    ensures
        ({
            let after = csv_read(
                (records, Seq::empty(), Seq::empty(), 0),
                join(cells.map_values(|c: Seq<char>| spec_csv_escape(c)), seq![',']),
            );
            &&& after.0 == records
            &&& after.1 == cells.drop_last()
            &&& after.2 == cells.last()
            &&& (after.3 == 0 || after.3 == 2)
        }),
    decreases cells.len(),
{
    let escaped = cells.map_values(|c: Seq<char>| spec_csv_escape(c));
    let start: CsvState = (records, Seq::empty(), Seq::empty(), 0);
    if cells.len() == 1 {
        assert(escaped[0] == spec_csv_escape(cells[0]));
        lemma_csv_read_cell(records, Seq::empty(), cells[0]);
        assert(cells.drop_last() =~= Seq::<Seq<char>>::empty());
    } else {
        let init = cells.drop_last();
        assert(escaped.drop_last() =~= init.map_values(|c: Seq<char>| spec_csv_escape(c)));
        assert(escaped.last() == spec_csv_escape(cells.last()));
        lemma_csv_read_cells(records, init);
        let head = join(escaped.drop_last(), seq![',']);
        assert(join(escaped, seq![',']) == head + seq![','] + escaped.last());
        lemma_csv_read_concat(start, head + seq![','], escaped.last());
        lemma_csv_read_push(start, head, ',');
        assert(head + seq![','] =~= head.push(','));
        let mid = csv_read(start, head);
        assert(init.drop_last().push(init.last()) =~= init);
        lemma_csv_read_cell(records, init, cells.last());
        assert(mid.1.push(mid.2) == init);
    }
}

/// A CSV line of a non-empty record and its line break are read as one more
/// record.
proof fn lemma_csv_read_line(records: Seq<Seq<Seq<char>>>, cells: Seq<Seq<char>>)
    requires
        cells.len() >= 1,
    ensures
        csv_read((records, Seq::empty(), Seq::empty(), 0), csv_line(cells) + seq!['\n']) == (
            records.push(cells),
            Seq::<Seq<char>>::empty(),
            Seq::<char>::empty(),
            0int,
        ),
{
    let start: CsvState = (records, Seq::empty(), Seq::empty(), 0);
    lemma_csv_read_cells(records, cells);
    lemma_csv_read_push(start, csv_line(cells), '\n');
    assert(csv_line(cells) + seq!['\n'] =~= csv_line(cells).push('\n'));
    assert(cells.drop_last().push(cells.last()) =~= cells);
}

/// The CSV lines of non-empty records are read as those records.
proof fn lemma_csv_read_rows(records: Seq<Seq<Seq<char>>>, rows: Seq<Seq<Seq<char>>>)
    requires
        forall|i: int| 0 <= i < rows.len() ==> (#[trigger] rows[i]).len() >= 1,
    ensures
        csv_read((records, Seq::empty(), Seq::empty(), 0), csv_rows(rows)) == (
            records + rows,
            Seq::<Seq<char>>::empty(),
            Seq::<char>::empty(),
            0int,
        ),
    decreases rows.len(),
{
    let start: CsvState = (records, Seq::empty(), Seq::empty(), 0);
    if rows.len() == 0 {
        assert(records + rows =~= records);
    } else {
        let init = rows.drop_last();
        assert forall|i: int| 0 <= i < init.len() implies (#[trigger] init[i]).len() >= 1 by {
            assert(init[i] == rows[i]);
        }
        lemma_csv_read_rows(records, init);
        assert(rows.last() == rows[rows.len() - 1]);
        lemma_csv_read_concat(start, csv_rows(init), csv_line(rows.last()) + seq!['\n']);
        assert(csv_rows(rows) == csv_rows(init) + (csv_line(rows.last()) + seq!['\n']));
        lemma_csv_read_line(records + init, rows.last());
        assert((records + init).push(rows.last()) =~= records + rows);
    }
}

/// Reading the CSV text of a table as RFC 4180 describes it gives back its
/// header line and its rows, when the header and every row have at least one
/// cell.
pub proof fn lemma_csv_round_trip(headers: Seq<Seq<char>>, rows: Seq<Seq<Seq<char>>>)
    requires
        headers.len() >= 1,
        forall|i: int| 0 <= i < rows.len() ==> (#[trigger] rows[i]).len() >= 1,
    ensures
        parse_csv(spec_to_csv(headers, rows)) == seq![headers] + rows,
{
    let start: CsvState = (Seq::empty(), Seq::empty(), Seq::empty(), 0);
    lemma_csv_read_line(Seq::empty(), headers);
    lemma_csv_read_concat(start, csv_line(headers) + seq!['\n'], csv_rows(rows));
    lemma_csv_read_rows(seq![headers], rows);
    assert(Seq::<Seq<Seq<char>>>::empty().push(headers) == seq![headers]);
}

/// Whether `s` holds the character `c`.
fn holds_char(s: &Vec<char>, c: char) -> (r: bool)
    ensures
        r == s@.contains(c),
{
    let mut i: usize = 0;
    while i < s.len()
        invariant
            i <= s.len(),
            forall|j: int| 0 <= j < i ==> s@[j] != c,
        decreases s.len() - i,
    {
        if s[i] == c {
            assert(s@[i as int] == c);
            return true;
        }
        i = i + 1;
    }
    false
}

/// Quotes a CSV cell when it holds a comma, a double quote or a line break,
/// doubling its double quotes.
pub fn csv_escape(value: &str) -> (r: String)
    ensures
        r@ == spec_csv_escape(value@),
{
    let chars = chars_of(value);
    if holds_char(&chars, ',') || holds_char(&chars, '"') || holds_char(&chars, '\n') {
        let mut out = String::new();
        push_char(&mut out, '"');
        let mut i: usize = 0;
        while i < chars.len()
            invariant
                i <= chars.len(),
                chars@ == value@,
                out@ == seq!['"'] + double_quotes(value@.subrange(0, i as int)),
            decreases chars.len() - i,
        {
            let c = chars[i];
            assert(value@.subrange(0, (i + 1) as int).drop_last() == value@.subrange(0, i as int));
            if c == '"' {
                push_char(&mut out, '"');
                push_char(&mut out, '"');
            } else {
                push_char(&mut out, c);
            }
            i = i + 1;
        }
        assert(value@.subrange(0, value@.len() as int) == value@);
        push_char(&mut out, '"');
        out
    } else {
        to_owned_string(value)
    }
}

/// Appends the CSV line of `cells` to `out`.
fn push_csv_line(out: &mut String, cells: &Vec<String>)
    ensures
        final(out)@ == old(out)@ + csv_line(views(cells@)),
{
    let ghost escaped = views(cells@).map_values(|c: Seq<char>| spec_csv_escape(c));
    let mut i: usize = 0;
    while i < cells.len()
        invariant
            i <= cells.len(),
            escaped == views(cells@).map_values(|c: Seq<char>| spec_csv_escape(c)),
            out@ == old(out)@ + join(escaped.subrange(0, i as int), seq![',']),
        decreases cells.len() - i,
    {
        let ghost before = out@;
        if i > 0 {
            push_char(out, ',');
        }
        let cell = csv_escape(cells[i].as_str());
        push_str(out, cell.as_str());
        proof {
            let sub = escaped.subrange(0, (i + 1) as int);
            assert(sub.drop_last() == escaped.subrange(0, i as int));
            assert(sub.last() == escaped[i as int]);
            assert(escaped[i as int] == spec_csv_escape(cells@[i as int]@));
            if i == 0 {
                assert(join(escaped.subrange(0, 0), seq![',']) == Seq::<char>::empty());
                assert(sub.len() == 1);
                assert(join(sub, seq![',']) == sub[0]);
            }
        }
        i = i + 1;
    }
    assert(escaped.subrange(0, cells.len() as int) == escaped);
}

/// Renders a table as CSV: the header line, then one line per row, each
/// ended by a line break, cells escaped and separated by commas.
pub fn to_csv(headers: &Vec<String>, rows: &Vec<Vec<String>>) -> (r: String)
    ensures
        r@ == spec_to_csv(views(headers@), table_views(rows@)),
{
    let mut out = String::new();
    push_csv_line(&mut out, headers);
    push_char(&mut out, '\n');
    let ghost head = out@;
    let mut i: usize = 0;
    while i < rows.len()
        invariant
            i <= rows.len(),
            out@ == head + csv_rows(table_views(rows@).subrange(0, i as int)),
        decreases rows.len() - i,
    {
        push_csv_line(&mut out, &rows[i]);
        push_char(&mut out, '\n');
        proof {
            let sub = table_views(rows@).subrange(0, (i + 1) as int);
            assert(sub.drop_last() == table_views(rows@).subrange(0, i as int));
            assert(sub.last() == views(rows@[i as int]@));
        }
        i = i + 1;
    }
    assert(table_views(rows@).subrange(0, rows.len() as int) == table_views(rows@));
    out
}

/// The view of an optional string slice.
pub open spec fn opt_view(value: Option<&str>) -> Option<Seq<char>> {
    match value {
        Some(v) => Some(v@),
        None => None,
    }
}

/// The text of an amount rounded to cents.
pub open spec fn spec_money_text(value: Amount) -> Seq<char> {
    decimal_text(rounded(value, 2).mantissa as int, rounded(value, 2).scale as nat)
}

/// The text of an optional amount rounded to cents, `0.00` when absent.
pub open spec fn spec_money_opt_text(value: Option<Amount>) -> Seq<char> {
    match value {
        Some(v) => spec_money_text(v),
        None => "0.00"@,
    }
}

/// `value.round_dp(2).to_string()`: the amount in cents as text.
pub fn money_text(value: Amount) -> (r: String)
    requires
        value.wf(),
    ensures
        r@ == spec_money_text(value),
{
    decimal_to_string(money(value))
}

/// An optional amount in cents as text, `0.00` when absent.
pub fn money_opt_text(value: Option<Amount>) -> (r: String)
    requires
        value matches Some(v) ==> v.wf(),
    ensures
        r@ == spec_money_opt_text(value),
{
    match value {
        Some(v) => money_text(v),
        None => to_owned_string("0.00"),
    }
}

/// A report filter that applies: the trimmed text, unless it is empty or
/// `all`.
pub open spec fn spec_normalized_filter(value: Option<Seq<char>>) -> Option<Seq<char>> {
    match value {
        Some(v) => if trimmed(v).len() > 0 && trimmed(v) != "all"@ {
            Some(trimmed(v))
        } else {
            None
        },
        None => None,
    }
}

/// Reads an optional report filter: surrounding whitespace is dropped, and an
/// empty filter or `all` means no filter.
pub fn normalized_filter(value: Option<&str>) -> (r: Option<String>)
    ensures
        r is Some == spec_normalized_filter(opt_view(value)) is Some,
        r matches Some(f) ==> spec_normalized_filter(opt_view(value)) == Some(f@),
{
    match value {
        Some(v) => {
            let t = trim(v);
            let chars = chars_of(t.as_str());
            if chars.len() > 0 && !str_eq(t.as_str(), "all") {
                Some(t)
            } else {
                None
            }
        },
        None => None,
    }
}

/// The character at position `i` of an event name shown in words: an
/// underscore becomes a space, and the first character of each underscore
/// separated part is upper-cased (ASCII letters only).
pub open spec fn humanized_char(s: Seq<char>, i: int) -> char {
    if s[i] == '_' {
        ' '
    } else if i == 0 || s[i - 1] == '_' {
        ascii_upper(s[i])
    } else {
        s[i]
    }
}

/// An event name in words, e.g. `payroll_paid` as `Payroll Paid`; `Payroll
/// Event` when the name is absent or blank.
pub open spec fn spec_humanize_event_name(value: Option<Seq<char>>) -> Seq<char> {
    match value {
        Some(e) => if trimmed(e).len() > 0 {
            Seq::new(e.len(), |i: int| humanized_char(e, i))
        } else {
            "Payroll Event"@
        },
        None => "Payroll Event"@,
    }
}

/// Shows an audit event name in words.
pub fn humanize_event_name(value: Option<&str>) -> (r: String)
    ensures
        r@ == spec_humanize_event_name(opt_view(value)),
{
    match value {
        Some(event) => {
            let t = trim(event);
            let tc = chars_of(t.as_str());
            if tc.len() == 0 {
                return to_owned_string("Payroll Event");
            }
            let chars = chars_of(event);
            let mut out = String::new();
            let mut i: usize = 0;
            while i < chars.len()
                invariant
                    i <= chars.len(),
                    chars@ == event@,
                    out@ == Seq::new(i as nat, |k: int| humanized_char(event@, k)),
                decreases chars.len() - i,
            {
                let c = chars[i];
                let shown = if c == '_' {
                    ' '
                } else if i == 0 || chars[i - 1] == '_' {
                    char_to_upper(c)
                } else {
                    c
                };
                push_char(&mut out, shown);
                assert(out@ == Seq::new((i + 1) as nat, |k: int| humanized_char(event@, k)));
                i = i + 1;
            }
            out
        },
        None => to_owned_string("Payroll Event"),
    }
}

/// `s` with backslashes and parentheses escaped for a PDF string.
pub open spec fn spec_escape_pdf_text(s: Seq<char>) -> Seq<char>
    decreases s.len(),
{
    if s.len() == 0 {
        Seq::empty()
    } else {
        spec_escape_pdf_text(s.drop_last()) + (if s.last() == '\\' {
            seq!['\\', '\\']
        } else if s.last() == '(' {
            seq!['\\', '(']
        } else if s.last() == ')' {
            seq!['\\', ')']
        } else {
            seq![s.last()]
        })
    }
}

/// Escapes text for a PDF string literal: a backslash before each backslash
/// and parenthesis.
pub fn escape_pdf_text(value: &str) -> (r: String)
    ensures
        r@ == spec_escape_pdf_text(value@),
{
    let chars = chars_of(value);
    let mut escaped = String::new();
    let mut i: usize = 0;
    while i < chars.len()
        invariant
            i <= chars.len(),
            chars@ == value@,
            escaped@ == spec_escape_pdf_text(value@.subrange(0, i as int)),
        decreases chars.len() - i,
    {
        let ch = chars[i];
        assert(value@.subrange(0, (i + 1) as int).drop_last() == value@.subrange(0, i as int));
        if ch == '\\' {
            push_char(&mut escaped, '\\');
            push_char(&mut escaped, '\\');
        } else if ch == '(' {
            push_char(&mut escaped, '\\');
            push_char(&mut escaped, '(');
        } else if ch == ')' {
            push_char(&mut escaped, '\\');
            push_char(&mut escaped, ')');
        } else {
            push_char(&mut escaped, ch);
        }
        i = i + 1;
    }
    assert(value@.subrange(0, value@.len() as int) == value@);
    escaped
}

/// The greedy wrapping state: the finished lines and the line being filled.
pub open spec fn wrap_step(
    state: (Seq<Seq<char>>, Seq<char>),
    token: Seq<char>,
    max: int,
) -> (Seq<Seq<char>>, Seq<char>) {
    let lines = state.0;
    let current = state.1;
    if current.len() == 0 {
        if token.len() > max {
            (lines.push(token.take(max)), current)
        } else {
            (lines, token)
        }
    } else if current.len() + 1 + token.len() > max {
        if token.len() > max {
            (lines.push(current).push(token.take(max)), Seq::empty())
        } else {
            (lines.push(current), token)
        }
    } else {
        (lines, current + seq![' '] + token)
    }
}

/// Words placed greedily on lines of at most `max` characters, separated by
/// single spaces; a word longer than a line is cut to the line length.
pub open spec fn wrap_words(words: Seq<Seq<char>>, max: int) -> (Seq<Seq<char>>, Seq<char>)
    decreases words.len(),
{
    if words.len() == 0 {
        (Seq::empty(), Seq::empty())
    } else {
        wrap_step(wrap_words(words.drop_last(), max), words.last(), max)
    }
}

/// A line wrapped to at most `max` characters: unchanged when it fits,
/// otherwise its whitespace-separated words wrapped greedily (at least one,
/// possibly empty, line).
pub open spec fn spec_wrap_line(line: Seq<char>, words: Seq<Seq<char>>, max: int) -> Seq<Seq<char>> {
    if line.len() <= max {
        seq![line]
    } else {
        let state = wrap_words(words, max);
        let lines = if state.1.len() > 0 {
            state.0.push(state.1)
        } else {
            state.0
        };
        if lines.len() == 0 {
            seq![Seq::empty()]
        } else {
            lines
        }
    }
}

/// Wrapping keeps every line, finished or being filled, within `max`
/// characters.
pub proof fn lemma_wrap_words_fit(words: Seq<Seq<char>>, max: int)
    requires
        max >= 0,
    ensures
        wrap_words(words, max).1.len() <= max,
        forall|i: int|
            0 <= i < wrap_words(words, max).0.len() ==> (#[trigger] wrap_words(words, max).0[i]).len()
                <= max,
    decreases words.len(),
{
    if words.len() > 0 {
        lemma_wrap_words_fit(words.drop_last(), max);
        let prev = wrap_words(words.drop_last(), max);
        let t = words.last();
        let next = wrap_step(prev, t, max);
        assert forall|i: int| 0 <= i < next.0.len() implies (#[trigger] next.0[i]).len() <= max by {
            if i < prev.0.len() {
                assert(next.0[i] == prev.0[i]);
            }
        }
    }
}

/// Every line that wrapping produces has at most `max` characters.
pub proof fn lemma_wrap_line_fits(line: Seq<char>, words: Seq<Seq<char>>, max: int)
    requires
        max >= 0,
    ensures
        forall|i: int|
            0 <= i < spec_wrap_line(line, words, max).len() ==> (#[trigger] spec_wrap_line(
                line,
                words,
                max,
            )[i]).len() <= max,
{
    lemma_wrap_words_fit(words, max);
    let state = wrap_words(words, max);
    if line.len() > max && state.1.len() > 0 {
        let lines = state.0.push(state.1);
        assert forall|i: int| 0 <= i < lines.len() implies (#[trigger] lines[i]).len() <= max by {
            if i < state.0.len() {
                assert(lines[i] == state.0[i]);
            }
        }
    }
}

/// A word as wrapping keeps it: cut to its first `max` characters.
pub open spec fn cut_word(w: Seq<char>, max: int) -> Seq<char> {
    if w.len() > max {
        w.take(max)
    } else {
        w
    }
}

/// Words joined by single spaces.
pub open spec fn space_join(words: Seq<Seq<char>>) -> Seq<char> {
    join(words, seq![' '])
}

/// One step of wrapping, kept as groups of words: the finished groups and the
/// group being filled. It follows [`wrap_step`] decision for decision.
pub open spec fn group_step(
    state: (Seq<Seq<Seq<char>>>, Seq<Seq<char>>),
    token: Seq<char>,
    max: int,
) -> (Seq<Seq<Seq<char>>>, Seq<Seq<char>>) {
    let groups = state.0;
    let current = state.1;
    if current.len() == 0 {
        if token.len() > max {
            (groups.push(seq![token.take(max)]), Seq::empty())
        } else {
            (groups, seq![token])
        }
    } else if space_join(current).len() + 1 + token.len() > max {
        if token.len() > max {
            (groups.push(current).push(seq![token.take(max)]), Seq::empty())
        } else {
            (groups.push(current), seq![token])
        }
    } else {
        (groups, current.push(token))
    }
}

/// Wrapping kept as groups of words.
pub open spec fn group_words(words: Seq<Seq<char>>, max: int) -> (
    Seq<Seq<Seq<char>>>,
    Seq<Seq<char>>,
)
    decreases words.len(),
{
    if words.len() == 0 {
        (Seq::empty(), Seq::empty())
    } else {
        group_step(group_words(words.drop_last(), max), words.last(), max)
    }
}

/// The groups of words of the lines of a wrapped long line.
pub open spec fn wrap_groups(words: Seq<Seq<char>>, max: int) -> Seq<Seq<Seq<char>>> {
    let state = group_words(words, max);
    if state.1.len() > 0 {
        state.0.push(state.1)
    } else {
        state.0
    }
}

proof fn lemma_join_nonempty(words: Seq<Seq<char>>)
    requires
        words.len() > 0,
        forall|j: int| 0 <= j < words.len() ==> (#[trigger] words[j]).len() > 0,
    ensures
        space_join(words).len() > 0,
{
    if words.len() > 1 {
        assert(words.last() == words[words.len() - 1]);
    } else {
        assert(words[0].len() > 0);
    }
}

proof fn lemma_group_words(words: Seq<Seq<char>>, max: int)
    requires
        max >= 0,
        forall|j: int| 0 <= j < words.len() ==> (#[trigger] words[j]).len() > 0,
    ensures
        wrap_words(words, max).0 == group_words(words, max).0.map_values(
            |g: Seq<Seq<char>>| space_join(g),
        ),
        wrap_words(words, max).1 == space_join(group_words(words, max).1),
        forall|j: int|
            0 <= j < group_words(words, max).1.len() ==> (#[trigger] group_words(
                words,
                max,
            ).1[j]).len() > 0,
        group_words(words, max).0.flatten() + group_words(words, max).1 == words.map_values(
            |w: Seq<char>| cut_word(w, max),
        ),
    decreases words.len(),
{
    broadcast use Seq::lemma_flatten_push, Seq::lemma_push_map_commute;

    let f = |g: Seq<Seq<char>>| space_join(g);
    let cw = |w: Seq<char>| cut_word(w, max);
    if words.len() == 0 {
        assert(group_words(words, max).0.map_values(f) =~= Seq::<Seq<char>>::empty());
        assert(Seq::<Seq<Seq<char>>>::empty().flatten() =~= Seq::<Seq<char>>::empty());
        assert(words.map_values(cw) =~= Seq::<Seq<char>>::empty());
        assert(Seq::<Seq<char>>::empty() + Seq::<Seq<char>>::empty() =~= Seq::<Seq<char>>::empty());
    } else {
        let init = words.drop_last();
        assert forall|j: int| 0 <= j < init.len() implies (#[trigger] init[j]).len() > 0 by {
            assert(init[j] == words[j]);
        }
        lemma_group_words(init, max);
        let t = words.last();
        assert(t == words[words.len() - 1]);
        let gs = group_words(init, max).0;
        let cur = group_words(init, max).1;
        let ls = wrap_words(init, max).0;
        let cs = wrap_words(init, max).1;
        assert(words.map_values(cw) =~= init.map_values(cw).push(cut_word(t, max))) by {
            assert(init.push(t) == words);
        }
        if cur.len() > 0 {
            lemma_join_nonempty(cur);
        } else {
            assert(cs == space_join(cur));
            assert(cs.len() == 0);
        }
        let gs2 = group_words(words, max).0;
        let cur2 = group_words(words, max).1;
        if cur.len() == 0 {
            if t.len() > max {
                assert(gs2 == gs.push(seq![t.take(max)]));
                assert(space_join(seq![t.take(max)]) == t.take(max));
                assert(gs.flatten() + cur =~= gs.flatten());
                assert(gs2.flatten() + cur2 =~= gs.flatten() + seq![t.take(max)]);
            } else {
                assert(space_join(seq![t]) == t);
                assert(gs.flatten() + cur =~= gs.flatten());
                assert(gs2.flatten() + cur2 =~= gs.flatten() + seq![t]);
            }
        } else if space_join(cur).len() + 1 + t.len() > max {
            if t.len() > max {
                assert(space_join(seq![t.take(max)]) == t.take(max));
                assert(gs2.flatten() + cur2 =~= (gs.flatten() + cur) + seq![t.take(max)]);
            } else {
                assert(space_join(seq![t]) == t);
                assert(gs2.flatten() + cur2 =~= (gs.flatten() + cur) + seq![t]);
            }
        } else {
            assert(space_join(cur.push(t)) == space_join(cur) + seq![' '] + t) by {
                assert(cur.push(t).drop_last() == cur);
            }
            assert(cs + seq![' '] + t == cs + seq![' '] + t);
            assert(gs2.flatten() + cur2 =~= (gs.flatten() + cur) + seq![t]);
        }
    }
}

/// Wrapping a line longer than `max` keeps its words in order and cuts each
/// to its first `max` characters: every line is the words of one group joined
/// by single spaces, and the groups hold, in order, exactly the words of the
/// line so cut.
pub proof fn lemma_wrap_line_keeps_words(line: Seq<char>, max: int)
    requires
        max >= 0,
        line.len() > max,
    ensures
        wrap_groups(whitespace_words(line), max).flatten() == whitespace_words(line).map_values(
            |w: Seq<char>| cut_word(w, max),
        ),
        spec_wrap_line(line, whitespace_words(line), max) == (if wrap_groups(
            whitespace_words(line),
            max,
        ).len() == 0 {
            seq![Seq::<char>::empty()]
        } else {
            wrap_groups(whitespace_words(line), max).map_values(
                |g: Seq<Seq<char>>| space_join(g),
            )
        }),
{
    broadcast use Seq::lemma_flatten_push, Seq::lemma_push_map_commute;

    let words = whitespace_words(line);
    lemma_whitespace_words_nonempty(line);
    lemma_group_words(words, max);
    let gs = group_words(words, max).0;
    let cur = group_words(words, max).1;
    if cur.len() > 0 {
        lemma_join_nonempty(cur);
    } else {
        assert(gs.flatten() + cur =~= gs.flatten());
    }
}

/// Line `i` of the groups could not also have taken the first word of line
/// `i + 1`: with a space between, it would be longer than `max`.
pub open spec fn breaks_before(groups: Seq<Seq<Seq<char>>>, i: int, max: int) -> bool {
    space_join(groups[i]).len() + 1 + groups[i + 1][0].len() > max
}

/// The finished groups are non-empty and each breaks before the next; the
/// last one breaks before the group being filled, or, when none is being
/// filled, is already full.
spec fn greedy_state(state: (Seq<Seq<Seq<char>>>, Seq<Seq<char>>), max: int) -> bool {
    let groups = state.0;
    let current = state.1;
    &&& forall|i: int| 0 <= i < groups.len() ==> (#[trigger] groups[i]).len() > 0
    &&& forall|i: int| 0 <= i < groups.len() - 1 ==> #[trigger] breaks_before(groups, i, max)
    &&& groups.len() > 0 && current.len() > 0 ==> space_join(groups.last()).len() + 1
        + current[0].len() > max
    &&& groups.len() > 0 && current.len() == 0 ==> space_join(groups.last()).len() >= max
}

/// Closing a non-empty group that the last finished group breaks before keeps
/// every finished group breaking before the next.
proof fn lemma_push_group(groups: Seq<Seq<Seq<char>>>, g: Seq<Seq<char>>, max: int)
    requires
        forall|i: int| 0 <= i < groups.len() ==> (#[trigger] groups[i]).len() > 0,
        forall|i: int| 0 <= i < groups.len() - 1 ==> #[trigger] breaks_before(groups, i, max),
        groups.len() > 0 ==> space_join(groups.last()).len() + 1 + g[0].len() > max,
        g.len() > 0,
    ensures
        forall|i: int| 0 <= i < groups.push(g).len() ==> (#[trigger] groups.push(g)[i]).len() > 0,
        forall|i: int|
            0 <= i < groups.push(g).len() - 1 ==> #[trigger] breaks_before(groups.push(g), i, max),
        groups.push(g).last() == g,
{
    let next = groups.push(g);
    assert forall|i: int| 0 <= i < next.len() - 1 implies #[trigger] breaks_before(
        next,
        i,
        max,
    ) by {
        assert(next[i] == groups[i]);
        if i < groups.len() - 1 {
            assert(breaks_before(groups, i, max));
            assert(next[i + 1] == groups[i + 1]);
        } else {
            assert(groups.last() == groups[i]);
            assert(next[i + 1] == g);
        }
    }
    assert forall|i: int| 0 <= i < next.len() implies (#[trigger] next[i]).len() > 0 by {
        if i < groups.len() {
            assert(next[i] == groups[i]);
        }
    }
}

/// Each step of grouping keeps the groups greedy.
proof fn lemma_group_words_greedy(words: Seq<Seq<char>>, max: int)
    requires
        max >= 0,
    ensures
        greedy_state(group_words(words, max), max),
    decreases words.len(),
{
    if words.len() > 0 {
        let init = words.drop_last();
        let t = words.last();
        lemma_group_words_greedy(init, max);
        let groups = group_words(init, max).0;
        let current = group_words(init, max).1;
        let cut = seq![t.take(max)];
        assert(space_join(cut) == t.take(max));
        if current.len() == 0 {
            if t.len() > max {
                lemma_push_group(groups, cut, max);
            } else {
                assert(seq![t][0] == t);
            }
        } else if space_join(current).len() + 1 + t.len() > max {
            if t.len() > max {
                lemma_push_group(groups, current, max);
                lemma_push_group(groups.push(current), cut, max);
            } else {
                lemma_push_group(groups, current, max);
                assert(seq![t][0] == t);
            }
        } else {
            assert(current.push(t)[0] == current[0]);
        }
    }
}

/// Wrapping is greedy: each line of a wrapped long line holds at least one
/// word, and no line could also have taken the first word of the line after
/// it without going over `max` characters.
pub proof fn lemma_wrap_line_is_greedy(line: Seq<char>, max: int)
    requires
        max >= 0,
        line.len() > max,
    ensures
        forall|i: int|
            0 <= i < wrap_groups(whitespace_words(line), max).len() ==> (#[trigger] wrap_groups(
                whitespace_words(line),
                max,
            )[i]).len() > 0,
        forall|i: int|
            0 <= i < wrap_groups(whitespace_words(line), max).len() - 1 ==> #[trigger] breaks_before(
                wrap_groups(whitespace_words(line), max),
                i,
                max,
            ),
{
    let words = whitespace_words(line);
    lemma_group_words_greedy(words, max);
    let groups = group_words(words, max).0;
    let current = group_words(words, max).1;
    if current.len() > 0 {
        lemma_push_group(groups, current, max);
    }
}

/// Wraps a line of text to at most `max_chars` characters per line.
pub fn wrap_line(line: &str, max_chars: usize) -> (r: Vec<String>)
    ensures
        views(r@) == spec_wrap_line(line@, whitespace_words(line@), max_chars as int),
        forall|i: int| 0 <= i < r@.len() ==> (#[trigger] r@[i])@.len() <= max_chars,
{
    proof {
        lemma_wrap_line_fits(line@, whitespace_words(line@), max_chars as int);
    }
    let line_chars = chars_of(line);
    if line_chars.len() <= max_chars {
        let mut single = Vec::new();
        single.push(to_owned_string(line));
        assert(views(single@) == seq![line@]);
        assert forall|i: int| 0 <= i < single@.len() implies (#[trigger] single@[i])@.len()
            <= max_chars by {
            assert(views(single@)[i] == single@[i]@);
        }
        return single;
    }
    let words = split_words(line);
    let ghost ws = whitespace_words(line@);
    let mut out: Vec<String> = Vec::new();
    let mut current = String::new();
    let mut current_len: usize = 0;
    let mut k: usize = 0;
    while k < words.len()
        invariant
            k <= words.len(),
            ws == views(words@),
            current_len == current@.len(),
            current_len <= max_chars,
            (views(out@), current@) == wrap_words(ws.subrange(0, k as int), max_chars as int),
        decreases words.len() - k,
    {
        proof {
            lemma_wrap_words_fit(ws.subrange(0, k as int), max_chars as int);
        }
        let token: &str = words[k].as_str();
        let token_len = chars_of(token).len();
        let ghost prev = (views(out@), current@);
        assert(ws.subrange(0, (k + 1) as int).drop_last() == ws.subrange(0, k as int));
        assert(ws.subrange(0, (k + 1) as int).last() == token@);
        if current_len == 0 {
            if token_len > max_chars {
                out.push(take_chars(token, max_chars));
                assert(views(out@) == prev.0.push(token@.take(max_chars as int)));
            } else {
                current = to_owned_string(token);
                current_len = token_len;
            }
        } else {
            if current_len >= max_chars || token_len > max_chars - current_len - 1 {
                out.push(current);
                if token_len > max_chars {
                    out.push(take_chars(token, max_chars));
                    current = String::new();
                    current_len = 0;
                    assert(views(out@) == prev.0.push(prev.1).push(token@.take(max_chars as int)));
                } else {
                    current = to_owned_string(token);
                    current_len = token_len;
                    assert(views(out@) == prev.0.push(prev.1));
                }
            } else {
                push_char(&mut current, ' ');
                push_str(&mut current, token);
                current_len = current_len + 1 + token_len;
            }
        }
        k = k + 1;
    }
    assert(ws.subrange(0, words.len() as int) == ws);
    let ghost before = views(out@);
    if current_len > 0 {
        out.push(current);
        assert(views(out@) == before.push(current@));
    }
    if out.len() == 0 {
        out.push(String::new());
        assert(views(out@) == seq![Seq::<char>::empty()]);
    }
    assert(views(out@) == spec_wrap_line(line@, ws, max_chars as int));
    assert forall|i: int| 0 <= i < out@.len() implies (#[trigger] out@[i])@.len() <= max_chars by {
        assert(views(out@)[i] == out@[i]@);
        assert(spec_wrap_line(line@, ws, max_chars as int)[i].len() <= max_chars);
    }
    out
}

} // verus!
