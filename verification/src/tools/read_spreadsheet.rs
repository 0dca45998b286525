//! Spreadsheet reading: CSV parsing into typed cells, and the tables,
//! sheet choice and format choice around Excel workbooks.

use vstd::prelude::*;
use vstd::utf8::{decode_utf8, valid_utf8};
use crate::json::{JsonNumber, JsonValue, JsonView};
use crate::schema::{
    entries_view, object_schema, object_schema_exec, prop, prop_view, prop_with, push_entry, with_entry,
};
use crate::tool::ToolDef;
use crate::text::{
    ascii_lower, chars_of, concat, decimal, ends_with, ends_with_str, eq_ignore_ascii_case, eq_ignore_case, join,
    join_strings, lines, split_at_char, split_char, split_lines, string_from_range, string_of,
    str_eq, sviews, trim, trim_bounds, u64_to_string, vec_range, vviews,
};

verus! {

/// The value of a CSV field: empty, an integer, a boolean, or text (which
/// the caller reads as a floating-point number where it is one).
#[derive(Debug, Clone)]
pub enum CsvCell {
    Null,
    Int(i64),
    Bool(bool),
    Text(String),
}

/// The mathematical content of a [`CsvCell`].
pub enum CellView {
    Null,
    Int(i64),
    Bool(bool),
    Text(Seq<char>),
}

impl View for CsvCell {
    type V = CellView;

    open spec fn view(&self) -> CellView {
        match self {
            CsvCell::Null => CellView::Null,
            CsvCell::Int(n) => CellView::Int(*n),
            CsvCell::Bool(b) => CellView::Bool(*b),
            CsvCell::Text(s) => CellView::Text(s@),
        }
    }
}

/// Whether `c` is an ASCII digit.
pub open spec fn is_digit(c: char) -> bool {
    '0' <= c && c <= '9'
}

/// The value of the decimal digits `d`.
pub open spec fn digits_value(d: Seq<char>) -> int
    decreases d.len(),
{
    if d.len() == 0 {
        0
    } else {
        digits_value(d.drop_last()) * 10 + ((d.last() as int) - 48)
    }
}

/// Whether every character of `d` is an ASCII digit.
pub open spec fn all_digits(d: Seq<char>) -> bool {
    forall|i: int| 0 <= i < d.len() ==> is_digit(#[trigger] d[i])
}

/// `s` without a leading `+` or `-`.
pub open spec fn unsigned_part(s: Seq<char>) -> Seq<char> {
    if s.len() > 0 && (s[0] == '-' || s[0] == '+') {
        s.drop_first()
    } else {
        s
    }
}

/// The `i64` that `s` denotes (`i64::from_str`): an optional `+` or `-`,
/// then one or more ASCII digits, with the value in range.
pub open spec fn parse_i64(s: Seq<char>) -> Option<i64> {
    if s.len() == 0 {
        None
    } else {
        let neg = s[0] == '-';
        let d = unsigned_part(s);
        if d.len() == 0 || !all_digits(d) {
            None
        } else {
            let v = if neg {
                -digits_value(d)
            } else {
                digits_value(d)
            };
            if i64::MIN <= v <= i64::MAX {
                Some(v as i64)
            } else {
                None
            }
        }
    }
}

/// What a trimmed CSV field holds: nothing when empty, else an integer,
/// else `true`/`false` in any ASCII case, else text.
pub open spec fn classify(f: Seq<char>) -> CellView {
    if f.len() == 0 {
        CellView::Null
    } else {
        match parse_i64(f) {
            Some(n) => CellView::Int(n),
            None => if eq_ignore_ascii_case(f, "true"@) {
                CellView::Bool(true)
            } else if eq_ignore_ascii_case(f, "false"@) {
                CellView::Bool(false)
            } else {
                CellView::Text(f)
            },
        }
    }
}

proof fn lemma_digits_value_step(d: Seq<char>, k: int)
    requires
        0 <= k < d.len(),
    ensures
        digits_value(d.take(k + 1)) == digits_value(d.take(k)) * 10 + ((d[k] as int) - 48),
{
    assert(d.take(k + 1).drop_last() =~= d.take(k));
}

/// The `i64` that `v[from..to]` denotes (see [`parse_i64`]).
#[verifier::loop_isolation(false)]
pub fn parse_i64_range(v: &Vec<char>, from: usize, to: usize) -> (r: Option<i64>)
    requires
        from <= to <= v@.len(),
    ensures
        r == parse_i64(v@.subrange(from as int, to as int)),
{
    let ghost s = v@.subrange(from as int, to as int);
    if from == to {
        return None;
    }
    let mut k = from;
    let neg = v[k] == '-';
    if v[k] == '-' || v[k] == '+' {
        k = k + 1;
    }
    let ghost d = v@.subrange(k as int, to as int);
    proof {
        if s[0] == '-' || s[0] == '+' {
            assert(d =~= s.drop_first());
        } else {
            assert(d =~= s);
        }
    }
    if k == to {
        return None;
    }
    let start = k;
    let limit: u128 = 9223372036854775808u128;
    let mut acc: u64 = 0;
    let mut over = false;
    while k < to
        invariant
            from <= start <= k <= to <= v@.len(),
            start < to,
            d == v@.subrange(start as int, to as int),
            forall|i: int| 0 <= i < k - start ==> is_digit(#[trigger] d[i]),
            !over ==> acc == digits_value(d.take(k - start)) && acc <= limit,
            over ==> digits_value(d.take(k - start)) > limit,
            digits_value(d.take(k - start)) >= 0,
        decreases to - k,
    {
        let c = v[k];
        if !('0' <= c && c <= '9') {
            assert(d[k - start] == c);
            assert(!is_digit(d[k - start]));
            return None;
        }
        proof {
            lemma_digits_value_step(d, k - start);
            assert(d[k - start] == c);
        }
        let dv: u128 = ((c as u32) - 48) as u128;
        assert(dv == (c as int) - 48);
        if !over {
            let nv: u128 = (acc as u128) * 10 + dv;
            if nv > limit {
                over = true;
            } else {
                acc = nv as u64;
            }
        }
        k += 1;
    }
    assert(d.take(d.len() as int) =~= d);
    if over {
        return None;
    }
    if neg {
        if acc == 9223372036854775808u64 {
            Some(i64::MIN)
        } else {
            Some(-(acc as i64))
        }
    } else {
        if acc <= 9223372036854775807u64 {
            Some(acc as i64)
        } else {
            None
        }
    }
}

/// What the trimmed field `v[from..to]` holds (see [`classify`]).
pub fn classify_field(v: &Vec<char>, from: usize, to: usize) -> (r: CsvCell)
    requires
        from <= to <= v@.len(),
    ensures
        r@ == classify(v@.subrange(from as int, to as int)),
{
    if from == to {
        return CsvCell::Null;
    }
    match parse_i64_range(v, from, to) {
        Some(n) => CsvCell::Int(n),
        None => {
            let f = vec_range(v, from, to);
            if eq_ignore_case(&f, "true") {
                CsvCell::Bool(true)
            } else if eq_ignore_case(&f, "false") {
                CsvCell::Bool(false)
            } else {
                CsvCell::Text(string_of(&f))
            }
        },
    }
}

/// The index of the first entry of `es` whose key is `k`.
pub open spec fn key_index<V>(es: Seq<(Seq<char>, V)>, k: Seq<char>) -> Option<int>
    decreases es.len(),
{
    if es.len() == 0 {
        None
    } else if es[0].0 == k {
        Some(0)
    } else {
        match key_index(es.drop_first(), k) {
            Some(i) => Some(i + 1),
            None => None,
        }
    }
}

/// `es` with `(k, v)` inserted as into a map: the value of the first
/// entry with key `k` replaced, or the entry appended.
pub open spec fn entries_insert<V>(es: Seq<(Seq<char>, V)>, k: Seq<char>, v: V) -> Seq<(Seq<char>, V)> {
    match key_index(es, k) {
        Some(i) => es.update(i, (k, v)),
        None => es.push((k, v)),
    }
}

pub proof fn lemma_key_index_bounds<V>(es: Seq<(Seq<char>, V)>, k: Seq<char>)
    ensures
        key_index(es, k) matches Some(i) ==> 0 <= i < es.len(),
    decreases es.len(),
{
    if es.len() > 0 {
        lemma_key_index_bounds(es.drop_first(), k);
    }
}

pub proof fn lemma_key_index_found<V>(es: Seq<(Seq<char>, V)>, k: Seq<char>, i: int)
    requires
        0 <= i <= es.len(),
        forall|j: int| 0 <= j < i ==> (#[trigger] es[j]).0 != k,
        i == es.len() || es[i].0 == k,
    ensures
        key_index(es, k) == (if i < es.len() {
            Some(i)
        } else {
            None::<int>
        }),
    decreases i,
{
    if i > 0 {
        lemma_key_index_found(es.drop_first(), k, i - 1);
    }
}

/// The entries of `row` with their keys as character sequences.
pub open spec fn keyed<C>(row: Seq<(String, C)>) -> Seq<(Seq<char>, C)> {
    Seq::new(row.len(), |i: int| (row[i].0@, row[i].1))
}

/// Inserts `(key, value)` into `row` as into a map (see [`entries_insert`]).
pub fn insert_entry<C>(row: &mut Vec<(String, C)>, key: String, value: C)
    ensures
        keyed(final(row)@) == entries_insert(keyed(old(row)@), key@, value),
{
    let ghost before = keyed(row@);
    let mut i: usize = 0;
    while i < row.len()
        invariant
            before == keyed(row@),
            row@ == old(row)@,
            0 <= i <= row@.len(),
            forall|j: int| 0 <= j < i ==> (#[trigger] before[j]).0 != key@,
        decreases row@.len() - i,
    {
        if str_eq(row[i].0.as_str(), key.as_str()) {
            proof {
                assert(before[i as int].0 == key@);
                lemma_key_index_found(before, key@, i as int);
                assert(entries_insert(before, key@, value) == before.update(i as int, (key@, value)));
            }
            let ghost r0 = row@;
            let ghost kv = key@;
            row.set(i, (key, value));
            assert(row@[i as int].0@ == kv);
            proof {
                assert forall|j: int| 0 <= j < row@.len() implies keyed(row@)[j] == before.update(i as int, (key@, value))[j] by {
                    if j != i {
                        assert(row@[j] == r0[j]);
                    }
                }
                assert(keyed(row@) =~= before.update(i as int, (key@, value)));
            }
            return;
        }
        i += 1;
    }
    proof {
        lemma_key_index_found(before, key@, i as int);
    }
    let ghost r0 = row@;
    row.push((key, value));
    proof {
        assert forall|j: int| 0 <= j < row@.len() implies keyed(row@)[j] == before.push((key@, value))[j] by {
            if j < r0.len() {
                assert(row@[j] == r0[j]);
            }
        }
        assert(keyed(row@) =~= before.push((key@, value)));
    }
}

/// The key of column `i`: its header, or `column_<i>` past the headers.
pub open spec fn column_key(headers: Seq<Seq<char>>, i: nat) -> Seq<char> {
    if i < headers.len() {
        headers[i as int]
    } else {
        "column_"@ + decimal(i)
    }
}

/// The key of column `i` (see [`column_key`]).
pub fn column_key_exec(headers: &Vec<String>, i: usize) -> (r: String)
    ensures
        r@ == column_key(crate::text::sviews(headers@), i as nat),
{
    if i < headers.len() {
        headers[i].clone()
    } else {
        concat("column_", u64_to_string(i as u64).as_str())
    }
}

/// The cells of a row, by view.
pub open spec fn cell_views(es: Seq<(Seq<char>, CsvCell)>) -> Seq<(Seq<char>, CellView)> {
    Seq::new(es.len(), |i: int| (es[i].0, es[i].1@))
}

pub proof fn lemma_key_index_views(es: Seq<(Seq<char>, CsvCell)>, k: Seq<char>)
    ensures
        key_index(cell_views(es), k) == key_index(es, k),
    decreases es.len(),
{
    if es.len() > 0 {
        assert(cell_views(es).drop_first() =~= cell_views(es.drop_first()));
        lemma_key_index_views(es.drop_first(), k);
    }
}

pub proof fn lemma_insert_views(es: Seq<(Seq<char>, CsvCell)>, k: Seq<char>, c: CsvCell)
    ensures
        cell_views(entries_insert(es, k, c)) == entries_insert(cell_views(es), k, c@),
{
    lemma_key_index_views(es, k);
    lemma_key_index_bounds(es, k);
    match key_index(es, k) {
        Some(i) => {
            assert(cell_views(es.update(i, (k, c))) =~= cell_views(es).update(i, (k, c@)));
        },
        None => {
            assert(cell_views(es.push((k, c))) =~= cell_views(es).push((k, c@)));
        },
    }
}

/// The row read from the fields `fields[..n]`: each trimmed field
/// classified and inserted under its column's key.
pub open spec fn row_state(headers: Seq<Seq<char>>, fields: Seq<Seq<char>>, n: nat) -> Seq<(Seq<char>, CellView)>
    decreases n,
{
    if n == 0 || n > fields.len() {
        seq![]
    } else {
        entries_insert(
            row_state(headers, fields, (n - 1) as nat),
            column_key(headers, (n - 1) as nat),
            classify(trim(fields[n - 1])),
        )
    }
}

/// The row that the CSV line `line` gives.
pub open spec fn csv_row(headers: Seq<Seq<char>>, line: Seq<char>) -> Seq<(Seq<char>, CellView)> {
    let fields = split_char(line, ',');
    row_state(headers, fields, fields.len())
}

proof fn lemma_digits_value_nonneg(d: Seq<char>)
    requires
        all_digits(d),
    ensures
        digits_value(d) >= 0,
    decreases d.len(),
{
    if d.len() > 0 {
        assert(is_digit(d[d.len() - 1]));
        assert forall|i: int| 0 <= i < d.drop_last().len() implies is_digit(#[trigger] d.drop_last()[i]) by {
            assert(is_digit(d[i]));
        }
        lemma_digits_value_nonneg(d.drop_last());
    }
}

/// What a trimmed CSV field reads as: an empty field is `Null`; one or
/// more ASCII digits, alone or after a `-` or `+`, are the integer they
/// denote (when it fits in an `i64`); `true` and `false`, in any ASCII
/// case, are booleans.
pub proof fn law_csv_cell_kinds(d: Seq<char>, s: Seq<char>)
    ensures
        classify(seq![]) == CellView::Null,
        d.len() > 0 && all_digits(d) && digits_value(d) <= i64::MAX ==> {
            &&& classify(d) == CellView::Int(digits_value(d) as i64)
            &&& classify(seq!['+'] + d) == CellView::Int(digits_value(d) as i64)
            &&& classify(seq!['-'] + d) == CellView::Int((-digits_value(d)) as i64)
        },
        eq_ignore_ascii_case(s, "true"@) ==> classify(s) == CellView::Bool(true),
        eq_ignore_ascii_case(s, "false"@) ==> classify(s) == CellView::Bool(false),
{
    if d.len() > 0 && all_digits(d) && digits_value(d) <= i64::MAX {
        lemma_digits_value_nonneg(d);
        assert(is_digit(d[0]));
        assert(unsigned_part(d) == d);
        assert((seq!['+'] + d).drop_first() =~= d);
        assert((seq!['-'] + d).drop_first() =~= d);
    }
    reveal_strlit("true");
    reveal_strlit("false");
    if eq_ignore_ascii_case(s, "true"@) {
        assert(ascii_lower(s[0]) == ascii_lower("true"@[0]));
        assert(!is_digit(s[0]));
        assert(unsigned_part(s) == s);
        assert(parse_i64(s) is None);
    }
    if eq_ignore_ascii_case(s, "false"@) {
        assert(ascii_lower(s[0]) == ascii_lower("false"@[0]));
        assert(!is_digit(s[0]));
        assert(unsigned_part(s) == s);
        assert(parse_i64(s) is None);
        assert(!eq_ignore_ascii_case(s, "true"@));
    }
}

proof fn lemma_row_state_same_trims(headers: Seq<Seq<char>>, fa: Seq<Seq<char>>, fb: Seq<Seq<char>>, n: nat)
    requires
        fa.len() == fb.len(),
        forall|i: int| 0 <= i < fa.len() ==> trim(#[trigger] fa[i]) == trim(fb[i]),
    ensures
        row_state(headers, fa, n) == row_state(headers, fb, n),
    decreases n,
{
    if n > 0 && n <= fa.len() {
        lemma_row_state_same_trims(headers, fa, fb, (n - 1) as nat);
        assert(trim(fa[n - 1]) == trim(fb[n - 1]));
    }
}

/// A CSV line's cells depend only on its fields with the surrounding
/// whitespace removed: two lines whose comma-separated fields trim to the
/// same texts give the same row.
pub proof fn law_csv_row_reads_trimmed_fields(headers: Seq<Seq<char>>, a: Seq<char>, b: Seq<char>)
    requires
        split_char(a, ',').len() == split_char(b, ',').len(),
        forall|i: int| 0 <= i < split_char(a, ',').len() ==> trim(#[trigger] split_char(a, ',')[i]) == trim(split_char(b, ',')[i]),
    ensures
        csv_row(headers, a) == csv_row(headers, b),
{
    let fa = split_char(a, ',');
    let fb = split_char(b, ',');
    lemma_row_state_same_trims(headers, fa, fb, fa.len());
}

/// Padding a field with whitespace does not change the row: after the
/// fields `left` and a comma, the field `pre + f + post`, with `pre` and
/// `post` made of whitespace, reads as the field `f` (a text without a
/// comma that neither starts nor ends with whitespace, or nothing: a
/// field of only whitespace reads as an empty one).
pub proof fn law_csv_padded_field(headers: Seq<Seq<char>>, left: Seq<char>, pre: Seq<char>, f: Seq<char>, post: Seq<char>)
    requires
        forall|i: int| 0 <= i < pre.len() ==> crate::text::is_ws(#[trigger] pre[i]),
        forall|i: int| 0 <= i < post.len() ==> crate::text::is_ws(#[trigger] post[i]),
        forall|i: int| 0 <= i < f.len() ==> #[trigger] f[i] != ',',
        f.len() == 0 || (!crate::text::is_ws(f[0]) && !crate::text::is_ws(f.last())),
    ensures
        csv_row(headers, left + seq![','] + (pre + f + post)) == csv_row(headers, left + seq![','] + f),
{
    let padded = pre + f + post;
    assert forall|i: int| 0 <= i < padded.len() implies #[trigger] padded[i] != ',' by {
        if i < pre.len() {
            assert(crate::text::is_ws(pre[i]));
        } else if i >= pre.len() + f.len() {
            assert(crate::text::is_ws(post[i - pre.len() - f.len()]));
        } else {
            assert(padded[i] == f[i - pre.len()]);
        }
    }
    crate::text::lemma_split_char_join(left, padded, ',');
    crate::text::lemma_split_char_join(left, f, ',');
    crate::text::lemma_split_char_single(padded, ',');
    crate::text::lemma_split_char_single(f, ',');
    // the padded field trims to `f`
    crate::text::lemma_trim_start_skip(padded, pre.len() as int);
    assert(padded.subrange(pre.len() as int, padded.len() as int) =~= f + post);
    if f.len() == 0 {
        assert(f + post =~= post);
        crate::text::lemma_trim_start_skip(post, post.len() as int);
        assert(post.subrange(post.len() as int, post.len() as int) =~= Seq::<char>::empty());
        assert(trim(padded) =~= trim(f));
    } else {
        let fp = f + post;
        assert(crate::text::trim_start(fp) == fp);
        crate::text::lemma_trim_end_take(fp, f.len() as int);
        assert(fp.subrange(0, f.len() as int) =~= f);
        crate::text::lemma_trim_fixed(f);
        assert(trim(padded) == trim(f));
    }
    let fa = split_char(left + seq![','] + padded, ',');
    let fb = split_char(left + seq![','] + f, ',');
    let n = split_char(left, ',').len();
    assert forall|i: int| 0 <= i < fa.len() implies trim(#[trigger] fa[i]) == trim(fb[i]) by {
        if i < n {
            assert(fa[i] == split_char(left, ',')[i]);
            assert(fb[i] == split_char(left, ',')[i]);
        } else {
            assert(fa[i] == padded);
            assert(fb[i] == f);
        }
    }
    law_csv_row_reads_trimmed_fields(headers, left + seq![','] + padded, left + seq![','] + f);
}

/// The rows read from `ls[i..]` when `count` rows were read before:
/// blank lines are skipped, and reading stops, truncated, at a further
/// row once `max` rows were read.
pub open spec fn csv_rows(ls: Seq<Seq<char>>, headers: Seq<Seq<char>>, max: nat, i: nat, count: nat) -> (Seq<Seq<(Seq<char>, CellView)>>, bool)
    decreases ls.len() - i,
{
    if i >= ls.len() {
        (seq![], false)
    } else if trim(ls[i as int]).len() == 0 {
        csv_rows(ls, headers, max, i + 1, count)
    } else if count >= max {
        (seq![], true)
    } else {
        let (rest, t) = csv_rows(ls, headers, max, i + 1, count + 1);
        (seq![csv_row(headers, ls[i as int])] + rest, t)
    }
}

/// The headers of a CSV text: the trimmed fields of its first line.
pub open spec fn csv_headers(ls: Seq<Seq<char>>) -> Seq<Seq<char>> {
    if ls.len() == 0 {
        seq![]
    } else {
        split_char(ls[0], ',').map_values(|f: Seq<char>| trim(f))
    }
}

/// The rows of a CSV text and whether they were truncated at `max`.
pub open spec fn csv_body(text: Seq<char>, max: nat) -> (Seq<Seq<(Seq<char>, CellView)>>, bool) {
    let ls = lines(text);
    if ls.len() == 0 {
        (seq![], false)
    } else {
        csv_rows(ls, csv_headers(ls), max, 1, 0)
    }
}

/// The row built from one CSV line (see [`csv_row`]).
pub fn read_csv_row(headers: &Vec<String>, line: &Vec<char>) -> (r: Vec<(String, CsvCell)>)
    ensures
        cell_views(keyed(r@)) == csv_row(crate::text::sviews(headers@), line@),
{
    let ghost hv = crate::text::sviews(headers@);
    let fields = split_at_char(line, ',');
    let ghost fv = split_char(line@, ',');
    let mut row: Vec<(String, CsvCell)> = Vec::new();
    let mut i: usize = 0;
    assert(cell_views(keyed(row@)) =~= row_state(hv, fv, 0));
    while i < fields.len()
        invariant
            hv == crate::text::sviews(headers@),
            vviews(fields@) == fv,
            0 <= i <= fields@.len(),
            cell_views(keyed(row@)) == row_state(hv, fv, i as nat),
        decreases fields@.len() - i,
    {
        let (a, b) = trim_bounds(&fields[i], 0, fields[i].len());
        assert(fields@[i as int]@.subrange(0, fields@[i as int]@.len() as int) =~= fields@[i as int]@);
        assert(fv[i as int] == fields@[i as int]@);
        let cell = classify_field(&fields[i], a, b);
        let key = column_key_exec(headers, i);
        let ghost before = keyed(row@);
        proof {
            lemma_insert_views(before, key@, cell);
        }
        insert_entry(&mut row, key, cell);
        i += 1;
    }
    row
}


/// The rows of `rows`, by view.
pub open spec fn rows_view(rows: Seq<Vec<(String, CsvCell)>>) -> Seq<Seq<(Seq<char>, CellView)>> {
    Seq::new(rows.len(), |i: int| cell_views(keyed(rows[i]@)))
}

/// The trimmed comma-separated fields of `line` (see [`csv_headers`]).
pub fn read_csv_headers(line: &Vec<char>) -> (r: Vec<String>)
    ensures
        sviews(r@) == split_char(line@, ',').map_values(|f: Seq<char>| trim(f)),
{
    let fields = split_at_char(line, ',');
    let ghost fv = split_char(line@, ',');
    let mut out: Vec<String> = Vec::new();
    let mut i: usize = 0;
    while i < fields.len()
        invariant
            0 <= i <= fields@.len(),
            vviews(fields@) == fv,
            sviews(out@) == fv.take(i as int).map_values(|f: Seq<char>| trim(f)),
        decreases fields@.len() - i,
    {
        let (a, b) = trim_bounds(&fields[i], 0, fields[i].len());
        assert(fields@[i as int]@.subrange(0, fields@[i as int]@.len() as int) =~= fields@[i as int]@);
        assert(fv[i as int] == fields@[i as int]@);
        let ghost before = sviews(out@);
        let h = string_from_range(&fields[i], a, b);
        out.push(h);
        proof {
            assert(fv.take(i as int + 1).map_values(|f: Seq<char>| trim(f)) =~= before.push(trim(fv[i as int])));
            assert(sviews(out@) =~= before.push(h@));
        }
        i += 1;
    }
    assert(fv.take(fv.len() as int) =~= fv);
    out
}

/// The data rows of the lines `ls[1..]` under `headers` (see [`csv_rows`]).
pub fn read_csv_rows(ls: &Vec<Vec<char>>, headers: &Vec<String>, max: usize) -> (r: (Vec<Vec<(String, CsvCell)>>, bool))
    ensures
        (rows_view(r.0@), r.1) == csv_rows(vviews(ls@), sviews(headers@), max as nat, 1, 0),
        r.0@.len() <= max,
{
    let ghost lv = vviews(ls@);
    let ghost hv = sviews(headers@);
    let ghost target = csv_rows(lv, hv, max as nat, 1, 0);
    let mut rows: Vec<Vec<(String, CsvCell)>> = Vec::new();
    let mut truncated = false;
    let mut i: usize = 1;
    while i < ls.len()
        invariant
            lv == vviews(ls@),
            hv == sviews(headers@),
            target == csv_rows(lv, hv, max as nat, 1, 0),
            1 <= i,
            rows@.len() <= max,
            !truncated ==> target == (rows_view(rows@) + csv_rows(lv, hv, max as nat, i as nat, rows@.len()).0,
                csv_rows(lv, hv, max as nat, i as nat, rows@.len()).1),
            truncated ==> i >= ls@.len() && target == (rows_view(rows@), true),
        decreases ls@.len() - i,
    {
        let ghost before = rows_view(rows@);
        let ghost count = rows@.len();
        let (a, b) = trim_bounds(&ls[i], 0, ls[i].len());
        assert(ls@[i as int]@.subrange(0, ls@[i as int]@.len() as int) =~= ls@[i as int]@);
        assert(lv[i as int] == ls@[i as int]@);
        if a == b {
            i += 1;
        } else if rows.len() >= max {
            truncated = true;
            assert(before + Seq::<Seq<(Seq<char>, CellView)>>::empty() =~= before);
            i = ls.len();
        } else {
            let row = read_csv_row(headers, &ls[i]);
            rows.push(row);
            proof {
                let rest = csv_rows(lv, hv, max as nat, (i + 1) as nat, count + 1);
                assert(rows_view(rows@) =~= before.push(cell_views(keyed(row@))));
                assert(before + (seq![csv_row(hv, lv[i as int])] + rest.0) =~= rows_view(rows@) + rest.0);
            }
            i += 1;
        }
    }
    if !truncated {
        assert(rows_view(rows@) + Seq::<Seq<(Seq<char>, CellView)>>::empty() =~= rows_view(rows@));
    }
    (rows, truncated)
}

/// What a spreadsheet read gives: the file, the sheet, the header row,
/// and the data rows as maps from column key to cell, at most the
/// requested number of them.
#[derive(Debug)]
pub struct ReadSpreadsheetOutput<C> {
    pub path: String,
    pub sheet: String,
    pub headers: Vec<String>,
    pub row_count: usize,
    pub truncated: bool,
    pub rows: Vec<Vec<(String, C)>>,
}

/// The message `std::str::from_utf8` gives for the invalid UTF-8 `bytes`.
pub uninterp spec fn utf8_error_text(bytes: Seq<u8>) -> Seq<char>;

/// `std::str::from_utf8`: the text that `bytes` encode when they are
/// valid UTF-8, else the error's message.
#[verifier::external_body]
fn utf8_text(bytes: &[u8]) -> (r: Result<&str, String>)
    ensures
        r is Ok <==> valid_utf8(bytes@),
        r matches Ok(s) ==> s@ == decode_utf8(bytes@),
        r matches Err(m) ==> m@ == utf8_error_text(bytes@),
{
    std::str::from_utf8(bytes).map_err(|e| e.to_string())
}

/// Reads CSV bytes: the trimmed fields of the first line are the headers,
/// and each further non-blank line, up to `max_rows` of them, a row.
pub fn parse_csv(bytes: &[u8], max_rows: usize, path: &str) -> (r: Result<ReadSpreadsheetOutput<CsvCell>, String>)
    ensures
        r is Ok <==> valid_utf8(bytes@),
        r matches Err(m) ==> m@ == "Invalid UTF-8 in CSV: "@ + utf8_error_text(bytes@),
        r matches Ok(out) ==> {
            let text = decode_utf8(bytes@);
            &&& out.path@ == path@
            &&& out.sheet@ == "csv"@
            &&& sviews(out.headers@) == csv_headers(lines(text))
            &&& (rows_view(out.rows@), out.truncated) == csv_body(text, max_rows as nat)
            &&& out.row_count == out.rows@.len()
            &&& out.row_count <= max_rows
        },
{
    let text = match utf8_text(bytes) {
        Ok(t) => t,
        Err(e) => {
            return Err(concat("Invalid UTF-8 in CSV: ", e.as_str()));
        },
    };
    let chars = chars_of(text);
    let ls = split_lines(&chars);
    if ls.len() == 0 {
        return Ok(ReadSpreadsheetOutput {
            path: path.to_string(),
            sheet: "csv".to_string(),
            headers: Vec::new(),
            row_count: 0,
            truncated: false,
            rows: Vec::new(),
        });
    }
    let headers = read_csv_headers(&ls[0]);
    assert(vviews(ls@)[0] == ls@[0]@);
    let (rows, truncated) = read_csv_rows(&ls, &headers, max_rows);
    let n = rows.len();
    Ok(ReadSpreadsheetOutput {
        path: path.to_string(),
        sheet: "csv".to_string(),
        headers,
        row_count: n,
        truncated,
        rows,
    })
}


/// The row built from the cells `cells[..n]` of a sheet: each cell
/// inserted under its column's key.
pub open spec fn range_row<C>(headers: Seq<Seq<char>>, cells: Seq<C>, n: nat) -> Seq<(Seq<char>, C)>
    decreases n,
{
    if n == 0 || n > cells.len() {
        seq![]
    } else {
        entries_insert(range_row(headers, cells, (n - 1) as nat), column_key(headers, (n - 1) as nat), cells[n - 1])
    }
}

/// The row built from the cells of one sheet row (see [`range_row`]).
pub fn read_range_row<C>(headers: &Vec<String>, cells: Vec<C>) -> (r: Vec<(String, C)>)
    ensures
        keyed(r@) == range_row(sviews(headers@), cells@, cells@.len()),
{
    let ghost hv = sviews(headers@);
    let ghost cv = cells@;
    let mut row: Vec<(String, C)> = Vec::new();
    let mut i: usize = 0;
    let n = cells.len();
    assert(keyed(row@) =~= range_row(hv, cv, 0));
    for cell in it: cells.into_iter()
        invariant
            hv == sviews(headers@),
            cv.len() == n,
            it.seq() == cv,
            i == it.index(),
            keyed(row@) == range_row(hv, cv, i as nat),
    {
        let key = column_key_exec(headers, i);
        insert_entry(&mut row, key, cell);
        i += 1;
    }
    row
}

/// Builds the output for one sheet: the first row gives the headers, and
/// the rows after it, up to `max_rows` of them, the data.
pub fn parse_range<C>(header_row: Option<Vec<String>>, body: Vec<Vec<C>>, sheet_name: &str, max_rows: usize, path: &str) -> (r: Result<ReadSpreadsheetOutput<C>, String>)
    ensures
        r matches Ok(out) && out.path@ == path@ && out.sheet@ == sheet_name@ && out.row_count == out.rows@.len()
            && match header_row {
            None => out.headers@.len() == 0 && out.rows@.len() == 0 && !out.truncated,
            Some(h) => {
                &&& out.headers@ == h@
                &&& out.truncated == (body@.len() > max_rows)
                &&& out.rows@.len() == (if body@.len() > max_rows { max_rows as int } else { body@.len() as int })
                &&& forall|j: int| 0 <= j < out.rows@.len() ==> keyed(#[trigger] out.rows@[j]@) == range_row(sviews(h@), body@[j]@, body@[j]@.len())
            },
        },
{
    let headers = match header_row {
        None => {
            return Ok(ReadSpreadsheetOutput {
                path: path.to_string(),
                sheet: sheet_name.to_string(),
                headers: Vec::new(),
                row_count: 0,
                truncated: false,
                rows: Vec::new(),
            });
        },
        Some(h) => h,
    };
    let total = body.len();
    let take = if total < max_rows { total } else { max_rows };
    let truncated = total > max_rows;
    let ghost bv = body@;
    let ghost hv = sviews(headers@);
    let mut rows: Vec<Vec<(String, C)>> = Vec::new();
    for cells in it: body.into_iter()
        invariant
            it.seq() == bv,
            hv == sviews(headers@),
            take <= bv.len(),
            rows@.len() == (if it.index() < take { it.index() as int } else { take as int }),
            forall|j: int| 0 <= j < rows@.len() ==> keyed(#[trigger] rows@[j]@) == range_row(hv, bv[j]@, bv[j]@.len()),
    {
        if rows.len() < take {
            let ghost k = rows@.len();
            let ghost r0 = rows@;
            let row = read_range_row(&headers, cells);
            rows.push(row);
            proof {
                assert forall|j: int| 0 <= j < rows@.len() implies keyed(#[trigger] rows@[j]@) == range_row(hv, bv[j]@, bv[j]@.len()) by {
                    if j < k {
                        assert(rows@[j] == r0[j]);
                    }
                }
            }
        }
    }
    let n = rows.len();
    Ok(ReadSpreadsheetOutput {
        path: path.to_string(),
        sheet: sheet_name.to_string(),
        headers,
        row_count: n,
        truncated,
        rows,
    })
}


/// The number of data rows returned when the caller names no limit.
pub const DEFAULT_MAX_ROWS: usize = 500;

pub const UNSUPPORTED_FORMAT: &'static str = "Unsupported file format. Supported formats: .xlsx, .xls, .csv";
pub const NO_SHEETS: &'static str = "Workbook contains no sheets";

/// The kinds of file that the spreadsheet reader takes.
#[derive(Debug, Clone, Copy, PartialEq, Eq, Structural)]
pub enum SheetFormat {
    Csv,
    Xlsx,
    Xls,
}

/// The kind of file whose lower-cased path is `lower`, by its extension.
pub open spec fn format_for(lower: Seq<char>) -> Option<SheetFormat> {
    if ends_with(lower, ".csv"@) {
        Some(SheetFormat::Csv)
    } else if ends_with(lower, ".xlsx"@) {
        Some(SheetFormat::Xlsx)
    } else if ends_with(lower, ".xls"@) {
        Some(SheetFormat::Xls)
    } else {
        None
    }
}

/// What `str::to_lowercase` gives for `s`.
pub uninterp spec fn lowercase(s: Seq<char>) -> Seq<char>;

/// `str::to_lowercase`: the lower-case form of `s`, by Unicode's mapping.
#[verifier::external_body]
fn to_lowercase(s: &str) -> (r: String)
    ensures
        r@ == lowercase(s@),
{
    s.to_lowercase()
}

/// The kind of file whose lower-cased path is `lower` (see [`format_for`]).
pub fn format_of_lowered(lower: &str) -> (r: Option<SheetFormat>)
    ensures
        r == format_for(lower@),
{
    if ends_with_str(lower, ".csv") {
        Some(SheetFormat::Csv)
    } else if ends_with_str(lower, ".xlsx") {
        Some(SheetFormat::Xlsx)
    } else if ends_with_str(lower, ".xls") {
        Some(SheetFormat::Xls)
    } else {
        None
    }
}

/// The kind of file at `path`, by its extension in any case.
pub fn spreadsheet_format(path: &str) -> (r: Option<SheetFormat>)
    ensures
        r == format_for(lowercase(path@)),
{
    let lower = to_lowercase(path);
    format_of_lowered(lower.as_str())
}

/// How to read the file at `path`: its kind, by extension in any case,
/// and the row limit (the one given, else [`DEFAULT_MAX_ROWS`]); an error
/// for a kind the reader does not take.
pub open spec fn read_request(path: Seq<char>, max_rows: Option<usize>) -> Result<(SheetFormat, usize), Seq<char>> {
    match format_for(lowercase(path)) {
        Some(f) => Ok(
            (
                f,
                match max_rows {
                    Some(m) => m,
                    None => DEFAULT_MAX_ROWS,
                },
            ),
        ),
        None => Err(UNSUPPORTED_FORMAT@),
    }
}

/// How to read the file at `path` (see [`read_request`]).
pub fn spreadsheet_request(path: &str, max_rows: Option<usize>) -> (r: Result<(SheetFormat, usize), String>)
    ensures
        read_request(path@, max_rows) == match r {
            Ok(p) => Ok::<(SheetFormat, usize), Seq<char>>(p),
            Err(e) => Err::<(SheetFormat, usize), Seq<char>>(e@),
        },
{
    let limit = match max_rows {
        Some(m) => m,
        None => DEFAULT_MAX_ROWS,
    };
    match spreadsheet_format(path) {
        Some(f) => Ok((f, limit)),
        None => Err(UNSUPPORTED_FORMAT.to_string()),
    }
}

/// The sheet to read from a workbook with the sheets `names`: the one
/// requested, else the first; an error when the workbook has none or
/// lacks the one requested.
pub open spec fn sheet_choice(names: Seq<Seq<char>>, requested: Option<Seq<char>>) -> Result<Seq<char>, Seq<char>> {
    if names.len() == 0 {
        Err(NO_SHEETS@)
    } else {
        match requested {
            None => Ok(names[0]),
            Some(n) => if names.contains(n) {
                Ok(n)
            } else {
                Err("Sheet '"@ + n + "' not found. Available sheets: "@ + join(names, ", "@))
            },
        }
    }
}

/// Chooses the sheet to read (see [`sheet_choice`]).
pub fn select_sheet(names: &Vec<String>, requested: Option<&str>) -> (r: Result<String, String>)
    ensures
        r matches Ok(s) ==> sheet_choice(sviews(names@), opt_view(requested)) == Ok::<Seq<char>, Seq<char>>(s@),
        r matches Err(e) ==> sheet_choice(sviews(names@), opt_view(requested)) == Err::<Seq<char>, Seq<char>>(e@),
{
    let ghost nv = sviews(names@);
    if names.len() == 0 {
        return Err(NO_SHEETS.to_string());
    }
    match requested {
        None => {
            assert(nv[0] == names@[0]@);
            Ok(names[0].clone())
        },
        Some(name) => {
            let mut i: usize = 0;
            while i < names.len()
                invariant
                    nv == sviews(names@),
                    requested == Some(name),
                    names@.len() > 0,
                    0 <= i <= names@.len(),
                    forall|j: int| 0 <= j < i ==> nv[j] != name@,
                decreases names@.len() - i,
            {
                if str_eq(names[i].as_str(), name) {
                    assert(nv[i as int] == name@);
                    assert(nv.contains(name@));
                    return Ok(name.to_string());
                }
                i += 1;
            }
            let mut msg = concat("Sheet '", name);
            msg.append("' not found. Available sheets: ");
            msg.append(join_strings(names, ", ").as_str());
            Err(msg)
        },
    }
}

/// The view of an optional string.
pub open spec fn opt_view(o: Option<&str>) -> Option<Seq<char>> {
    match o {
        Some(s) => Some(s@),
        None => None,
    }
}

/// The message for a workbook that could not be opened.
pub fn open_failed(format: SheetFormat, error: &str) -> (r: String)
    ensures
        r@ == (if format == SheetFormat::Xls { "Failed to open xls: "@ } else { "Failed to open xlsx: "@ }) + error@,
{
    if format == SheetFormat::Xls {
        concat("Failed to open xls: ", error)
    } else {
        concat("Failed to open xlsx: ", error)
    }
}

/// The message for a sheet that could not be read.
pub fn sheet_read_failed(sheet: &str, error: &str) -> (r: String)
    ensures
        r@ == "Failed to read sheet '"@ + sheet@ + "': "@ + error@,
{
    let mut r = concat("Failed to read sheet '", sheet);
    r.append("': ");
    r.append(error);
    r
}

/// The start of the message for a workbook of the format that could not
/// be opened.
pub open spec fn open_message(format: SheetFormat) -> Seq<char> {
    if format == SheetFormat::Xls {
        "Failed to open xls: "@
    } else {
        "Failed to open xlsx: "@
    }
}

/// The sheet to read from a workbook whose opening gave `opened` (its
/// sheet names, or the error's message): the opening error, else the
/// sheet chosen by [`sheet_choice`].
pub open spec fn workbook_choice(format: SheetFormat, opened: Result<Seq<Seq<char>>, Seq<char>>, requested: Option<Seq<char>>) -> Result<Seq<char>, Seq<char>> {
    match opened {
        Err(e) => Err(open_message(format) + e),
        Ok(names) => sheet_choice(names, requested),
    }
}

/// The view of what opening a workbook gave.
pub open spec fn opened_view(opened: Result<Vec<String>, String>) -> Result<Seq<Seq<char>>, Seq<char>> {
    match opened {
        Ok(names) => Ok(sviews(names@)),
        Err(e) => Err(e@),
    }
}

/// The sheet to read from a workbook whose opening gave `opened` (see
/// [`workbook_choice`]).
pub fn choose_workbook_sheet(format: SheetFormat, opened: Result<Vec<String>, String>, requested: Option<&str>) -> (r: Result<String, String>)
    ensures
        r matches Ok(s) ==> workbook_choice(format, opened_view(opened), opt_view(requested)) == Ok::<Seq<char>, Seq<char>>(s@),
        r matches Err(e) ==> workbook_choice(format, opened_view(opened), opt_view(requested)) == Err::<Seq<char>, Seq<char>>(e@),
{
    match opened {
        Err(e) => Err(open_failed(format, e.as_str())),
        Ok(names) => select_sheet(&names, requested),
    }
}

pub const READ_SPREADSHEET_DESCRIPTION: &'static str = "Read an Excel (.xlsx/.xls) or CSV file. Uses the first row as column headers and returns a JSON array of row objects. Supports optional sheet selection and row limit (default: 500).";
pub const RS_PATH_DESCRIPTION: &'static str = "The path to the spreadsheet file (e.g. 'data.xlsx', 'report.csv')";
pub const RS_SHEET_DESCRIPTION: &'static str = "The name of the sheet to read (Excel only). Defaults to the first sheet.";
pub const RS_MAX_ROWS_DESCRIPTION: &'static str = "Maximum number of data rows to return (excluding header). Defaults to 500.";

/// The input schema of the spreadsheet reader.
pub open spec fn read_spreadsheet_schema() -> JsonView {
    object_schema(
        seq![
            ("path"@, prop_view("string"@, RS_PATH_DESCRIPTION@)),
            ("sheet"@, prop_view("string"@, RS_SHEET_DESCRIPTION@)),
            ("max_rows"@, with_entry(prop_view("integer"@, RS_MAX_ROWS_DESCRIPTION@), "default"@, JsonView::Number(JsonNumber::PosInt(500)))),
        ],
        seq!["path"@],
    )
}

/// A tool that reads Excel (.xlsx/.xls) and CSV files, returning structured
/// JSON with the first row used as column headers.
pub struct ReadSpreadsheetTool;

impl ReadSpreadsheetTool {
    pub fn new() -> (r: Self) {
        ReadSpreadsheetTool
    }

    /// The tool's definition: its name, description and input schema.
    pub fn def(&self) -> (r: ToolDef)
        ensures
            r.name@ == "read_spreadsheet"@,
            r.description@ == READ_SPREADSHEET_DESCRIPTION@,
            r.input_schema@ == read_spreadsheet_schema(),
    {
        let mut props: Vec<(String, JsonValue)> = Vec::new();
        push_entry(&mut props, "path", prop("string", RS_PATH_DESCRIPTION));
        push_entry(&mut props, "sheet", prop("string", RS_SHEET_DESCRIPTION));
        push_entry(
            &mut props,
            "max_rows",
            prop_with(prop("integer", RS_MAX_ROWS_DESCRIPTION), "default", JsonValue::Number(JsonNumber::PosInt(500))),
        );
        let ghost pv = entries_view(props);
        let schema = object_schema_exec(props, &["path"]);
        proof {
            assert(pv =~= read_spreadsheet_schema()->Object_0[1].1->Object_0);
            assert(crate::schema::strs_view(["path"]@) =~= seq!["path"@]);
        }
        ToolDef { name: "read_spreadsheet".to_string(), description: READ_SPREADSHEET_DESCRIPTION.to_string(), input_schema: schema }
    }
}

impl Default for ReadSpreadsheetTool {
    fn default() -> (r: Self) {
        ReadSpreadsheetTool::new()
    }
}


/// The input schema of the spreadsheet reader is well formed.
pub proof fn law_read_spreadsheet_schema_well_formed()
    ensures
        crate::schema::schema_problem(read_spreadsheet_schema()) is None,
{
    let s = read_spreadsheet_schema();
    let props = s->Object_0[1].1->Object_0;
    let req = seq!["path"@];
    assert(s == object_schema(props, req));
    reveal_strlit("path");
    reveal_strlit("sheet");
    reveal_strlit("max_rows");
    assert("sheet"@.len() != "path"@.len());
    assert(props[1].0 != props[0].0);
    assert("max_rows"@.len() != "path"@.len());
    assert(props[2].0 != props[0].0);
    crate::schema::lemma_entries_get_at(props, 0);
    assert(crate::json::entries_get(props, req[0]) is Some);
    crate::schema::law_object_schema_well_formed(props, req);
}

} // verus!
