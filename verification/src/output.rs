//! How dply responses read on a terminal: a list payload as an aligned
//! table, a single object as a two-column detail block, and every scalar key
//! of an object. Each returns the lines to print; `--json` output is the
//! caller's part.

use vstd::prelude::*;

use crate::json::{cell, cell_of, cell_text, first_field, rows, rows_of, Json};
use crate::text::{dec, from_chars, join, push_str, to_chars, trim_end, utf8_len, views};

verus! {

/// `n` copies of `c`.
pub open spec fn repeated(c: char, n: nat) -> Seq<char> {
    Seq::new(n, |i: int| c)
}

/// `s` padded on the right with spaces to `w` characters (`{:<w$}`).
pub open spec fn pad_right(s: Seq<char>, w: nat) -> Seq<char> {
    if s.len() >= w {
        s
    } else {
        s + repeated(' ', (w - s.len()) as nat)
    }
}

/// A table row: the cells joined by two spaces, every cell but the last
/// padded to its column's width, trailing whitespace trimmed.
pub open spec fn row_line(cells: Seq<Seq<char>>, widths: Seq<nat>) -> Seq<char> {
    trim_end(
        join(
            Seq::new(cells.len(), |i: int| if i + 1 < cells.len() { pad_right(cells[i], widths[i]) } else { cells[i] }),
            "  "@,
        ),
    )
}

/// The field names of each column.
pub open spec fn column_names(columns: Seq<(&str, &[&str])>) -> Seq<Seq<Seq<char>>> {
    columns.map_values(|c: (&str, &[&str])| c.1@.map_values(|n: &str| n@))
}

/// The cells of one row, column by column.
pub open spec fn row_cells(row: Json, names: Seq<Seq<Seq<char>>>) -> Seq<Seq<char>> {
    names.map_values(|ns: Seq<Seq<char>>| cell_text(first_field(row, ns)))
}

/// The widest of a header (in bytes) and a column's cells (in characters)
/// over the first `n` rows.
pub open spec fn column_width(header: Seq<char>, cells: Seq<Seq<Seq<char>>>, c: int, n: int) -> nat
    decreases n,
{
    if n <= 0 {
        utf8_len(header)
    } else {
        let w = column_width(header, cells, c, n - 1);
        let l = cells[n - 1][c].len();
        if l > w {
            l
        } else {
            w
        }
    }
}

/// A list payload as an aligned table: the header row, a rule of dashes,
/// then one row per element; `(none)` for an empty payload.
pub open spec fn table_lines(value: Json, columns: Seq<(&str, &[&str])>) -> Seq<Seq<char>> {
    let rs = rows_of(value);
    if rs.len() == 0 {
        seq!["(none)"@]
    } else {
        let names = column_names(columns);
        let headers = columns.map_values(|c: (&str, &[&str])| c.0@);
        let cells = rs.map_values(|r: Json| row_cells(r, names));
        let widths = Seq::new(columns.len(), |c: int| column_width(headers[c], cells, c, cells.len() as int));
        seq![
            row_line(headers, widths),
            join(Seq::new(columns.len(), |c: int| repeated('-', widths[c])), "  "@),
        ] + cells.map_values(|cs: Seq<Seq<char>>| row_line(cs, widths))
    }
}

/// The widest of some labels, in bytes.
pub open spec fn label_width(labels: Seq<Seq<char>>) -> nat
    decreases labels.len(),
{
    if labels.len() == 0 {
        0
    } else {
        let w = label_width(labels.drop_last());
        if utf8_len(labels.last()) > w {
            utf8_len(labels.last())
        } else {
            w
        }
    }
}

/// The detail lines of the fields among `fields` whose value is not empty:
/// the label padded to the widest label, two spaces, the value.
pub open spec fn detail_lines_upto(value: Json, fields: Seq<(&str, &[&str])>, w: nat, n: int) -> Seq<Seq<char>>
    decreases n,
{
    if n <= 0 {
        Seq::empty()
    } else {
        let rest = detail_lines_upto(value, fields, w, n - 1);
        let f = fields[n - 1];
        let v = cell_text(first_field(value, f.1@.map_values(|x: &str| x@)));
        if v.len() == 0 {
            rest
        } else {
            rest.push(pad_right(f.0@, w) + "  "@ + v)
        }
    }
}

/// A single object as a `label  value` block.
pub open spec fn detail_lines(value: Json, fields: Seq<(&str, &[&str])>) -> Seq<Seq<char>> {
    detail_lines_upto(value, fields, label_width(fields.map_values(|f: (&str, &[&str])| f.0@)), fields.len() as int)
}

/// How `dump` renders one member's value: an array by its length, an object
/// as compact JSON, anything else as a cell.
pub open spec fn dumped(v: Json) -> Seq<char> {
    match v {
        Json::Array(vs, _) => "("@ + dec(vs@.len()) + " items)"@,
        Json::Object(_, t) => t@,
        _ => cell_text(Some(v)),
    }
}

/// Every member of an object as `key  value`; `None` for anything else.
pub open spec fn dump_lines(value: Json) -> Option<Seq<Seq<char>>> {
    match value {
        Json::Object(ms, _) => {
            let w = label_width(ms@.map_values(|m: (String, Json)| m.0@));
            Some(ms@.map_values(|m: (String, Json)| pad_right(m.0@, w) + "  "@ + dumped(m.1)))
        },
        _ => None,
    }
}

/// `s` padded with spaces to `w` characters (`{:<w}`).
pub fn pad_to(s: &str, w: usize) -> (r: String)
    ensures
        r@ == pad_right(s@, w as nat),
{
    let n = to_chars(s).len();
    let mut out = String::from_str(s);
    if n < w {
        let mut k: usize = 0;
        while k < w - n
            invariant
                n < w,
                k <= w - n,
                out@ == s@ + repeated(' ', k as nat),
            decreases w - n - k,
        {
            out.push(' ');
            k = k + 1;
            assert(out@ =~= s@ + repeated(' ', k as nat));
        }
    } else {
        assert(out@ =~= s@);
    }
    out
}

pub(crate) fn byte_len(s: &str) -> (r: usize)
    ensures
        r == utf8_len(s@),
{
    proof {
        crate::text::lemma_encode_len(s@);
    }
    s.as_bytes().len()
}

fn row_text(cells: &Vec<String>, widths: &Vec<usize>) -> (r: String)
    requires
        widths@.len() == cells@.len(),
    ensures
        r@ == row_line(crate::text::str_views(cells@), widths@.map_values(|w: usize| w as nat)),
{
    let ghost cv = crate::text::str_views(cells@);
    let ghost wv = widths@.map_values(|w: usize| w as nat);
    let ghost target = Seq::new(cv.len(), |i: int| if i + 1 < cv.len() { pad_right(cv[i], wv[i]) } else { cv[i] });
    let mut parts: Vec<Vec<char>> = Vec::new();
    let mut i: usize = 0;
    while i < cells.len()
        invariant
            i <= cells.len(),
            widths@.len() == cells@.len(),
            cv == crate::text::str_views(cells@),
            wv == widths@.map_values(|w: usize| w as nat),
            target == Seq::new(cv.len(), |i: int| if i + 1 < cv.len() { pad_right(cv[i], wv[i]) } else { cv[i] }),
            views(parts@) == target.take(i as int),
        decreases cells.len() - i,
    {
        let ghost before = views(parts@);
        let part = if i + 1 < cells.len() {
            pad_to(cells[i].as_str(), widths[i])
        } else {
            String::from_str(cells[i].as_str())
        };
        parts.push(to_chars(part.as_str()));
        assert(views(parts@) =~= before.push(target[i as int]));
        assert(target.take(i + 1) =~= target.take(i as int).push(target[i as int]));
        i = i + 1;
    }
    assert(target.take(cells.len() as int) =~= target);
    let joined = crate::text::join_chars(&parts, &to_chars("  "));
    let t = crate::text::trim_end_str(from_chars(&joined).as_str());
    t
}

fn dashes(n: usize) -> (r: Vec<char>)
    ensures
        r@ == repeated('-', n as nat),
{
    let mut out: Vec<char> = Vec::new();
    let mut k: usize = 0;
    while k < n
        invariant
            k <= n,
            out@ == repeated('-', k as nat),
        decreases n - k,
    {
        out.push('-');
        k = k + 1;
        assert(out@ =~= repeated('-', k as nat));
    }
    out
}


fn char_len(s: &str) -> (r: usize)
    ensures
        r == s@.len(),
{
    to_chars(s).len()
}

/// The cells of a row, column by column.
fn cells_of_row(row: &Json, columns: &[(&str, &[&str])]) -> (r: Vec<String>)
    ensures
        crate::text::str_views(r@) == row_cells(*row, column_names(columns@)),
{
    let ghost names = column_names(columns@);
    let mut out: Vec<String> = Vec::new();
    let mut c: usize = 0;
    while c < columns.len()
        invariant
            c <= columns.len(),
            names == column_names(columns@),
            crate::text::str_views(out@) == row_cells(*row, names).take(c as int),
        decreases columns.len() - c,
    {
        let ghost before = crate::text::str_views(out@);
        let v = cell_of(row, columns[c].1);
        let ghost vv = v@;
        out.push(v);
        assert(names[c as int] == columns@[c as int].1@.map_values(|n: &str| n@));
        assert(crate::text::str_views(out@) =~= before.push(vv));
        assert(row_cells(*row, names).take(c + 1) =~= row_cells(*row, names).take(c as int).push(vv));
        c = c + 1;
    }
    assert(row_cells(*row, names).take(columns.len() as int) =~= row_cells(*row, names));
    out
}

/// A list payload as an aligned table (see [`table_lines`]).
pub fn table(value: &Json, columns: &[(&str, &[&str])]) -> (r: Vec<String>)
    ensures
        crate::text::str_views(r@) == table_lines(*value, columns@),
{
    let rs = rows(value);
    let ghost rv = rows_of(*value);
    if rs.len() == 0 {
        let r = vec![String::from_str("(none)")];
        assert(crate::text::str_views(r@) =~= seq!["(none)"@]);
        return r;
    }
    let ghost names = column_names(columns@);
    let ghost headers = columns@.map_values(|c: (&str, &[&str])| c.0@);
    let ghost cellsv = rv.map_values(|r: Json| row_cells(r, names));
    // The cells, row by row.
    let mut cells: Vec<Vec<String>> = Vec::new();
    let mut r: usize = 0;
    while r < rs.len()
        invariant
            r <= rs.len(),
            rs@.len() == rv.len(),
            forall|i: int| 0 <= i < rs@.len() ==> *(#[trigger] rs@[i]) == rv[i],
            names == column_names(columns@),
            cellsv == rv.map_values(|r: Json| row_cells(r, names)),
            cells@.len() == r,
            forall|i: int| 0 <= i < r ==> crate::text::str_views((#[trigger] cells@[i])@) == cellsv[i],
        decreases rs.len() - r,
    {
        cells.push(cells_of_row(rs[r], columns));
        r = r + 1;
    }
    // Each column's width.
    let mut widths: Vec<usize> = Vec::new();
    let mut c: usize = 0;
    while c < columns.len()
        invariant
            c <= columns.len(),
            cells@.len() == cellsv.len(),
            forall|i: int| 0 <= i < cells@.len() ==> crate::text::str_views((#[trigger] cells@[i])@) == cellsv[i],
            forall|i: int| 0 <= i < cellsv.len() ==> (#[trigger] cellsv[i]).len() == columns@.len(),
            headers == columns@.map_values(|c: (&str, &[&str])| c.0@),
            widths@.len() == c,
            forall|k: int| 0 <= k < c ==> (#[trigger] widths@[k]) as nat == column_width(headers[k], cellsv, k, cellsv.len() as int),
        decreases columns.len() - c,
    {
        let mut w = byte_len(columns[c].0);
        let mut k: usize = 0;
        while k < cells.len()
            invariant
                k <= cells.len(),
                c < columns.len(),
                cells@.len() == cellsv.len(),
                forall|i: int| 0 <= i < cells@.len() ==> crate::text::str_views((#[trigger] cells@[i])@) == cellsv[i],
                forall|i: int| 0 <= i < cellsv.len() ==> (#[trigger] cellsv[i]).len() == columns@.len(),
                headers == columns@.map_values(|c: (&str, &[&str])| c.0@),
                w as nat == column_width(headers[c as int], cellsv, c as int, k as int),
            decreases cells.len() - k,
        {
            assert(cells@[k as int]@.len() == columns@.len()) by {
                assert(crate::text::str_views(cells@[k as int]@).len() == cellsv[k as int].len());
            }
            let l = char_len(cells[k][c].as_str());
            assert(l == cellsv[k as int][c as int].len()) by {
                assert(crate::text::str_views(cells@[k as int]@)[c as int] == cells@[k as int]@[c as int]@);
            }
            if l > w {
                w = l;
            }
            k = k + 1;
        }
        widths.push(w);
        c = c + 1;
    }
    let ghost wv = widths@.map_values(|w: usize| w as nat);
    assert(wv =~= Seq::new(columns@.len(), |c: int| column_width(headers[c], cellsv, c, cellsv.len() as int)));
    // The header row and the rule.
    let mut head: Vec<String> = Vec::new();
    let mut rule: Vec<Vec<char>> = Vec::new();
    let mut c: usize = 0;
    while c < columns.len()
        invariant
            c <= columns.len(),
            widths@.len() == columns@.len(),
            headers == columns@.map_values(|c: (&str, &[&str])| c.0@),
            wv == widths@.map_values(|w: usize| w as nat),
            crate::text::str_views(head@) == headers.take(c as int),
            views(rule@) == Seq::new(columns@.len(), |c: int| repeated('-', wv[c])).take(c as int),
        decreases columns.len() - c,
    {
        let ghost h0 = crate::text::str_views(head@);
        let ghost r0 = views(rule@);
        head.push(String::from_str(columns[c].0));
        rule.push(dashes(widths[c]));
        assert(crate::text::str_views(head@) =~= h0.push(headers[c as int]));
        assert(headers.take(c + 1) =~= headers.take(c as int).push(headers[c as int]));
        assert(views(rule@) =~= r0.push(repeated('-', wv[c as int])));
        assert(Seq::new(columns@.len(), |c: int| repeated('-', wv[c])).take(c + 1) =~= Seq::new(
            columns@.len(),
            |c: int| repeated('-', wv[c]),
        ).take(c as int).push(repeated('-', wv[c as int])));
        c = c + 1;
    }
    assert(headers.take(columns.len() as int) =~= headers);
    assert(Seq::new(columns@.len(), |c: int| repeated('-', wv[c])).take(columns.len() as int) =~= Seq::new(
        columns@.len(),
        |c: int| repeated('-', wv[c]),
    ));
    let mut out: Vec<String> = Vec::new();
    out.push(row_text(&head, &widths));
    out.push(from_chars(&crate::text::join_chars(&rule, &to_chars("  "))));
    let ghost top = crate::text::str_views(out@);
    let mut k: usize = 0;
    while k < cells.len()
        invariant
            k <= cells.len(),
            widths@.len() == columns@.len(),
            wv == widths@.map_values(|w: usize| w as nat),
            cells@.len() == cellsv.len(),
            forall|i: int| 0 <= i < cells@.len() ==> crate::text::str_views((#[trigger] cells@[i])@) == cellsv[i],
            forall|i: int| 0 <= i < cellsv.len() ==> (#[trigger] cellsv[i]).len() == columns@.len(),
            crate::text::str_views(out@) == top + cellsv.take(k as int).map_values(|cs: Seq<Seq<char>>| row_line(cs, wv)),
        decreases cells.len() - k,
    {
        let ghost o0 = crate::text::str_views(out@);
        assert(cells@[k as int]@.len() == widths@.len()) by {
            assert(crate::text::str_views(cells@[k as int]@).len() == cellsv[k as int].len());
        }
        let line = row_text(&cells[k], &widths);
        let ghost lv = line@;
        out.push(line);
        assert(crate::text::str_views(out@) =~= o0.push(lv));
        assert(cellsv.take(k + 1).map_values(|cs: Seq<Seq<char>>| row_line(cs, wv)) =~= cellsv.take(k as int).map_values(
            |cs: Seq<Seq<char>>| row_line(cs, wv),
        ).push(row_line(cellsv[k as int], wv)));
        k = k + 1;
    }
    assert(cellsv.take(cells.len() as int) =~= cellsv);
    assert(crate::text::str_views(out@) =~= table_lines(*value, columns@));
    out
}

pub(crate) fn widest(labels: &Vec<String>) -> (r: usize)
    ensures
        r as nat == label_width(crate::text::str_views(labels@)),
{
    let ghost lv = crate::text::str_views(labels@);
    let mut w: usize = 0;
    let mut i: usize = 0;
    assert(lv.take(0) =~= Seq::<Seq<char>>::empty());
    while i < labels.len()
        invariant
            i <= labels.len(),
            lv == crate::text::str_views(labels@),
            w as nat == label_width(lv.take(i as int)),
        decreases labels.len() - i,
    {
        assert(lv.take(i + 1).drop_last() =~= lv.take(i as int));
        assert(lv.take(i + 1).last() == labels@[i as int]@);
        let l = byte_len(labels[i].as_str());
        if l > w {
            w = l;
        }
        i = i + 1;
    }
    assert(lv.take(labels.len() as int) =~= lv);
    w
}

/// A single object as a `label  value` block (see [`detail_lines`]).
pub fn detail(value: &Json, fields: &[(&str, &[&str])]) -> (r: Vec<String>)
    ensures
        crate::text::str_views(r@) == detail_lines(*value, fields@),
{
    let mut labels: Vec<String> = Vec::new();
    let mut i: usize = 0;
    while i < fields.len()
        invariant
            i <= fields.len(),
            crate::text::str_views(labels@) == fields@.map_values(|f: (&str, &[&str])| f.0@).take(i as int),
        decreases fields.len() - i,
    {
        let ghost l0 = crate::text::str_views(labels@);
        labels.push(String::from_str(fields[i].0));
        assert(crate::text::str_views(labels@) =~= l0.push(fields@[i as int].0@));
        assert(fields@.map_values(|f: (&str, &[&str])| f.0@).take(i + 1) =~= fields@.map_values(
            |f: (&str, &[&str])| f.0@,
        ).take(i as int).push(fields@[i as int].0@));
        i = i + 1;
    }
    assert(fields@.map_values(|f: (&str, &[&str])| f.0@).take(fields.len() as int) =~= fields@.map_values(
        |f: (&str, &[&str])| f.0@,
    ));
    let w = widest(&labels);
    let mut out: Vec<String> = Vec::new();
    let mut k: usize = 0;
    assert(crate::text::str_views(out@) =~= Seq::<Seq<char>>::empty());
    while k < fields.len()
        invariant
            k <= fields.len(),
            w as nat == label_width(fields@.map_values(|f: (&str, &[&str])| f.0@)),
            crate::text::str_views(out@) == detail_lines_upto(*value, fields@, w as nat, k as int),
        decreases fields.len() - k,
    {
        let v = cell_of(value, fields[k].1);
        if !crate::text::str_is_empty(v.as_str()) {
            let ghost o0 = crate::text::str_views(out@);
            let mut line = pad_to(fields[k].0, w);
            push_str(&mut line, "  ");
            push_str(&mut line, v.as_str());
            let ghost lv = line@;
            out.push(line);
            assert(crate::text::str_views(out@) =~= o0.push(lv));
        }
        k = k + 1;
    }
    out
}

/// Every member of an object as `key  value` (see [`dump_lines`]); `None`
/// for anything that is not an object.
pub fn dump(value: &Json) -> (r: Option<Vec<String>>)
    ensures
        match r {
            Some(ls) => dump_lines(*value) == Some(crate::text::str_views(ls@)),
            None => dump_lines(*value) is None,
        },
{
    match value {
        Json::Object(ms, _) => {
            let mut keys: Vec<String> = Vec::new();
            let mut i: usize = 0;
            while i < ms.len()
                invariant
                    i <= ms.len(),
                    crate::text::str_views(keys@) == ms@.map_values(|m: (String, Json)| m.0@).take(i as int),
                decreases ms.len() - i,
            {
                let ghost k0 = crate::text::str_views(keys@);
                keys.push(String::from_str(ms[i].0.as_str()));
                assert(crate::text::str_views(keys@) =~= k0.push(ms@[i as int].0@));
                assert(ms@.map_values(|m: (String, Json)| m.0@).take(i + 1) =~= ms@.map_values(
                    |m: (String, Json)| m.0@,
                ).take(i as int).push(ms@[i as int].0@));
                i = i + 1;
            }
            assert(ms@.map_values(|m: (String, Json)| m.0@).take(ms.len() as int) =~= ms@.map_values(
                |m: (String, Json)| m.0@,
            ));
            let w = widest(&keys);
            let ghost target = ms@.map_values(|m: (String, Json)| pad_right(m.0@, w as nat) + "  "@ + dumped(m.1));
            let mut out: Vec<String> = Vec::new();
            let mut k: usize = 0;
            while k < ms.len()
                invariant
                    k <= ms.len(),
                    target == ms@.map_values(|m: (String, Json)| pad_right(m.0@, w as nat) + "  "@ + dumped(m.1)),
                    crate::text::str_views(out@) == target.take(k as int),
                decreases ms.len() - k,
            {
                let ghost o0 = crate::text::str_views(out@);
                let rendered = match &ms[k].1 {
                    Json::Array(vs, _) => {
                        let mut t = String::from_str("(");
                        push_str(&mut t, crate::text::dec_string(vs.len() as u64).as_str());
                        push_str(&mut t, " items)");
                        t
                    },
                    Json::Object(_, t) => String::from_str(t.as_str()),
                    other => cell(Some(other)),
                };
                let mut line = pad_to(ms[k].0.as_str(), w);
                push_str(&mut line, "  ");
                push_str(&mut line, rendered.as_str());
                let ghost lv = line@;
                out.push(line);
                assert(crate::text::str_views(out@) =~= o0.push(lv));
                assert(target.take(k + 1) =~= target.take(k as int).push(target[k as int]));
                k = k + 1;
            }
            assert(target.take(ms.len() as int) =~= target);
            Some(out)
        },
        _ => None,
    }
}


// ------------------------------------------------------------ by column views

/// Columns (or fields) as plain values: each header and its field names.
pub open spec fn col_views(cs: Seq<(&str, &[&str])>) -> Seq<(Seq<char>, Seq<Seq<char>>)> {
    cs.map_values(|c: (&str, &[&str])| (c.0@, c.1@.map_values(|n: &str| n@)))
}

/// [`table_lines`] over columns given as plain values.
pub open spec fn table_text(value: Json, cv: Seq<(Seq<char>, Seq<Seq<char>>)>) -> Seq<Seq<char>> {
    let rs = rows_of(value);
    if rs.len() == 0 {
        seq!["(none)"@]
    } else {
        let names = cv.map_values(|c: (Seq<char>, Seq<Seq<char>>)| c.1);
        let headers = cv.map_values(|c: (Seq<char>, Seq<Seq<char>>)| c.0);
        let cells = rs.map_values(|r: Json| row_cells(r, names));
        let widths = Seq::new(cv.len(), |c: int| column_width(headers[c], cells, c, cells.len() as int));
        seq![
            row_line(headers, widths),
            join(Seq::new(cv.len(), |c: int| repeated('-', widths[c])), "  "@),
        ] + cells.map_values(|cs: Seq<Seq<char>>| row_line(cs, widths))
    }
}

/// [`detail_lines_upto`] over fields given as plain values.
pub open spec fn detail_text_upto(value: Json, fv: Seq<(Seq<char>, Seq<Seq<char>>)>, w: nat, n: int) -> Seq<Seq<char>>
    decreases n,
{
    if n <= 0 {
        Seq::empty()
    } else {
        let rest = detail_text_upto(value, fv, w, n - 1);
        let v = cell_text(first_field(value, fv[n - 1].1));
        if v.len() == 0 {
            rest
        } else {
            rest.push(pad_right(fv[n - 1].0, w) + "  "@ + v)
        }
    }
}

/// [`detail_lines`] over fields given as plain values.
pub open spec fn detail_text(value: Json, fv: Seq<(Seq<char>, Seq<Seq<char>>)>) -> Seq<Seq<char>> {
    detail_text_upto(value, fv, label_width(fv.map_values(|f: (Seq<char>, Seq<Seq<char>>)| f.0)), fv.len() as int)
}

proof fn lemma_detail_upto(value: Json, fields: Seq<(&str, &[&str])>, w: nat, n: int)
    requires
        n <= fields.len(),
    ensures
        detail_lines_upto(value, fields, w, n) == detail_text_upto(value, col_views(fields), w, n),
    decreases n,
{
    if n > 0 {
        lemma_detail_upto(value, fields, w, n - 1);
    }
}

/// A table reads the same whether its columns are given as strings or as
/// plain values.
pub fn table_by(value: &Json, columns: &[(&str, &[&str])]) -> (r: Vec<String>)
    ensures
        crate::text::str_views(r@) == table_text(*value, col_views(columns@)),
{
    let r = table(value, columns);
    let ghost cv = col_views(columns@);
    assert(column_names(columns@) =~= cv.map_values(|c: (Seq<char>, Seq<Seq<char>>)| c.1));
    assert(columns@.map_values(|c: (&str, &[&str])| c.0@) =~= cv.map_values(|c: (Seq<char>, Seq<Seq<char>>)| c.0));
    r
}

/// A detail block reads the same whether its fields are given as strings or
/// as plain values.
pub fn detail_by(value: &Json, fields: &[(&str, &[&str])]) -> (r: Vec<String>)
    ensures
        crate::text::str_views(r@) == detail_text(*value, col_views(fields@)),
{
    let r = detail(value, fields);
    proof {
        let fv = col_views(fields@);
        assert(fields@.map_values(|f: (&str, &[&str])| f.0@) =~= fv.map_values(|f: (Seq<char>, Seq<Seq<char>>)| f.0));
        lemma_detail_upto(*value, fields@, label_width(fv.map_values(|f: (Seq<char>, Seq<Seq<char>>)| f.0)), fields@.len() as int);
    }
    r
}
} // verus!
