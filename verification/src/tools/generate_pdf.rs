//! PDF generation from plain text or basic Markdown: the Markdown
//! reduction and word wrapping that prepare the text lines.

use vstd::prelude::*;
use vstd::utf8::encode_utf8;
use crate::json::{JsonNumber, JsonValue, JsonView};
use crate::schema::{entries_view, object_schema, object_schema_exec, prop, prop_view, prop_with, push_entry, str_array, strs_view, with_entry};
use crate::tool::{error_result, json_result, ResultView, ToolDef, ToolResult};
use crate::tools::read_file::{contains_str, opt_str_view, resolved_path, resolve_path, PATH_TRAVERSAL};
use crate::text::{find, matches_at, str_eq, concat, 
    split_whitespace, split_ws, sviews,
    chars_of, find_from, find_from_exec, lemma_find_from_bounds, lines, push_range, split_lines,
    string_of, trim, trim_bounds, vec_range, vviews,
};

verus! {

/// `s` with every pair of delimiters `d` removed, leftmost pair first:
/// the first `d`, and the next `d` after it, are dropped and what lies
/// between them is kept; this repeats until no pair remains.
pub open spec fn strip_pairs(s: Seq<char>, d: Seq<char>) -> Seq<char>
    decreases s.len(),
{
    if d.len() == 0 {
        s
    } else {
        match find_from(s, d, 0) {
            None => s,
            Some(st) => match find_from(s, d, st + d.len()) {
                None => s,
                Some(en) => {
                    proof {
                        lemma_find_from_bounds(s, d, 0);
                        lemma_find_from_bounds(s, d, st + d.len());
                    }
                    strip_pairs(s.take(st) + s.subrange(st + d.len(), en) + s.skip(en + d.len()), d)
                },
            },
        }
    }
}

/// `s` with every Markdown link `[text](url)` replaced by its text,
/// leftmost first; it stops at the first `[` that no `](`…`)` follows.
pub open spec fn strip_links(s: Seq<char>) -> Seq<char>
    decreases s.len(),
{
    match find_from(s, seq!['['], 0) {
        None => s,
        Some(st) => match find_from(s, seq![']', '('], st) {
            None => s,
            Some(mid) => match find_from(s, seq![')'], mid + 2) {
                None => s,
                Some(en) => {
                    proof {
                        lemma_find_from_bounds(s, seq!['['], 0);
                        lemma_find_from_bounds(s, seq![']', '('], st);
                        lemma_find_from_bounds(s, seq![')'], mid + 2);
                        if mid == st {
                            assert(s.subrange(st, st + 2)[0] == s[st]);
                            assert(s.subrange(st, st + 1)[0] == s[st]);
                        }
                    }
                    strip_links(s.take(st) + s.subrange(st + 1, mid) + s.skip(en + 1))
                },
            },
        },
    }
}

/// `s` without basic inline Markdown: `**bold**`, `*italic*`, `` `code` ``
/// and `[text](url)`, in that order.
pub open spec fn strip_inline(s: Seq<char>) -> Seq<char> {
    strip_links(strip_pairs(strip_pairs(strip_pairs(s, seq!['*', '*']), seq!['*']), seq!['`']))
}

/// Whether `c` occurs at most once in `s`.
pub open spec fn at_most_once(s: Seq<char>, c: char) -> bool {
    forall|i: int, j: int| #![trigger s[i], s[j]] 0 <= i < j < s.len() ==> !(s[i] == c && s[j] == c)
}

/// Whether `c` occurs nowhere in `s`.
pub open spec fn absent(s: Seq<char>, c: char) -> bool {
    forall|i: int| 0 <= i < s.len() ==> #[trigger] s[i] != c
}

proof fn lemma_find_from_none_all(s: Seq<char>, pat: Seq<char>, i: int)
    requires
        i >= 0,
        find_from(s, pat, i) is None,
    ensures
        forall|j: int| i <= j ==> !#[trigger] matches_at(s, pat, j),
    decreases s.len() + 1 - i,
{
    if i + pat.len() <= s.len() {
        lemma_find_from_none_all(s, pat, i + 1);
    }
}

proof fn lemma_find_from_first(s: Seq<char>, pat: Seq<char>, i: int)
    requires
        i >= 0,
    ensures
        find_from(s, pat, i) matches Some(st) ==> forall|j: int| i <= j < st ==> !#[trigger] matches_at(s, pat, j),
    decreases s.len() + 1 - i,
{
    if i + pat.len() <= s.len() && !matches_at(s, pat, i) {
        lemma_find_from_first(s, pat, i + 1);
    }
}

proof fn lemma_matches_first(s: Seq<char>, pat: Seq<char>, j: int)
    requires
        pat.len() > 0,
        matches_at(s, pat, j),
    ensures
        s[j] == pat[0],
        pat.len() > 1 ==> s[j + 1] == pat[1],
{
    assert(s.subrange(j, j + pat.len())[0] == s[j]);
    if pat.len() > 1 {
        assert(s.subrange(j, j + pat.len())[1] == s[j + 1]);
    }
}

proof fn lemma_absent_no_match(s: Seq<char>, pat: Seq<char>, i: int)
    requires
        pat.len() > 0,
        i >= 0,
        absent(s, pat[0]),
    ensures
        find_from(s, pat, i) is None,
    decreases s.len() + 1 - i,
{
    if i + pat.len() <= s.len() {
        if matches_at(s, pat, i) {
            lemma_matches_first(s, pat, i);
        }
        lemma_absent_no_match(s, pat, i + 1);
    }
}

proof fn lemma_single_match(s: Seq<char>, c: char, j: int)
    requires
        0 <= j < s.len(),
        s[j] == c,
    ensures
        matches_at(s, seq![c], j),
{
    assert(s.subrange(j, j + 1) =~= seq![c]);
}

/// Whether `f` places the characters of `a` in `b`, in order.
pub open spec fn embeds(a: Seq<char>, b: Seq<char>, f: spec_fn(int) -> int) -> bool {
    &&& forall|i: int| 0 <= i < a.len() ==> 0 <= #[trigger] f(i) < b.len() && a[i] == b[f(i)]
    &&& forall|i: int, j: int| 0 <= i < j < a.len() ==> #[trigger] f(i) < #[trigger] f(j)
}

/// Whether `a` is `b` with some characters removed, the rest in order.
pub open spec fn subsequence(a: Seq<char>, b: Seq<char>) -> bool {
    exists|f: spec_fn(int) -> int| embeds(a, b, f)
}

proof fn lemma_subsequence_refl(a: Seq<char>)
    ensures
        subsequence(a, a),
{
    let f = |i: int| i;
    assert(embeds(a, a, f));
}

proof fn lemma_subsequence_trans(a: Seq<char>, b: Seq<char>, c: Seq<char>)
    requires
        subsequence(a, b),
        subsequence(b, c),
    ensures
        subsequence(a, c),
{
    let f = choose|f: spec_fn(int) -> int| embeds(a, b, f);
    let g = choose|g: spec_fn(int) -> int| embeds(b, c, g);
    let h = |i: int| g(f(i));
    assert forall|i: int| 0 <= i < a.len() implies 0 <= #[trigger] h(i) < c.len() && a[i] == c[h(i)] by {
        assert(0 <= f(i) < b.len());
    }
    assert forall|i: int, j: int| 0 <= i < j < a.len() implies #[trigger] h(i) < #[trigger] h(j) by {
        assert(f(i) < f(j));
        assert(0 <= f(i) < b.len() && 0 <= f(j) < b.len());
    }
    assert(embeds(a, c, h));
}

/// Dropping pieces of `s` keeps `c` occurring at most once, and `c`
/// absent.
proof fn lemma_splice_keeps(s: Seq<char>, c: char, a: int, b: int, e: int, f: int)
    requires
        0 <= a <= b <= e <= f <= s.len(),
    ensures
        at_most_once(s, c) ==> at_most_once(s.take(a) + s.subrange(b, e) + s.skip(f), c),
        absent(s, c) ==> absent(s.take(a) + s.subrange(b, e) + s.skip(f), c),
        (s.take(a) + s.subrange(b, e) + s.skip(f)).len() <= s.len(),
        subsequence(s.take(a) + s.subrange(b, e) + s.skip(f), s),
{
    let t = s.take(a) + s.subrange(b, e) + s.skip(f);
    let m = |i: int|
        if i < a {
            i
        } else if i < a + (e - b) {
            b + (i - a)
        } else {
            f + (i - a - (e - b))
        };
    assert forall|i: int| 0 <= i < t.len() implies 0 <= #[trigger] m(i) < s.len() && t[i] == s[m(i)] by {}
    assert forall|i: int, j: int| 0 <= i < j < t.len() implies #[trigger] m(i) < #[trigger] m(j) by {}
    assert(embeds(t, s, m));
    assert forall|i: int| 0 <= i < t.len() implies t[i] == s[if i < a {
        i
    } else if i < a + (e - b) {
        b + (i - a)
    } else {
        f + (i - a - (e - b))
    }] by {}
    if at_most_once(s, c) {
        assert forall|i: int, j: int| 0 <= i < j < t.len() implies !(t[i] == c && t[j] == c) by {
            let si = if i < a {
                i
            } else if i < a + (e - b) {
                b + (i - a)
            } else {
                f + (i - a - (e - b))
            };
            let sj = if j < a {
                j
            } else if j < a + (e - b) {
                b + (j - a)
            } else {
                f + (j - a - (e - b))
            };
            assert(t[i] == s[si]);
            assert(t[j] == s[sj]);
            assert(si < sj);
        }
    }
    if absent(s, c) {
        assert forall|i: int| 0 <= i < t.len() implies #[trigger] t[i] != c by {
            let si = if i < a {
                i
            } else if i < a + (e - b) {
                b + (i - a)
            } else {
                f + (i - a - (e - b))
            };
            assert(t[i] == s[si]);
        }
    }
}

/// Removing pairs keeps `c` occurring at most once, `c` absent, and the
/// length from growing.
proof fn lemma_strip_pairs_keeps(s: Seq<char>, d: Seq<char>, c: char)
    ensures
        at_most_once(s, c) ==> at_most_once(strip_pairs(s, d), c),
        absent(s, c) ==> absent(strip_pairs(s, d), c),
        strip_pairs(s, d).len() <= s.len(),
        subsequence(strip_pairs(s, d), s),
    decreases s.len(),
{
    lemma_subsequence_refl(s);
    if d.len() > 0 {
        if let Some(st) = find_from(s, d, 0) {
            if let Some(en) = find_from(s, d, st + d.len()) {
                lemma_find_from_bounds(s, d, 0);
                lemma_find_from_bounds(s, d, st + d.len());
                let t = s.take(st) + s.subrange(st + d.len(), en) + s.skip(en + d.len());
                lemma_splice_keeps(s, c, st, st + d.len(), en, en + d.len());
                lemma_strip_pairs_keeps(t, d, c);
                lemma_subsequence_trans(strip_pairs(t, d), t, s);
            }
        }
    }
}

/// Removing links keeps `c` occurring at most once, `c` absent, and the
/// length from growing.
proof fn lemma_strip_links_keeps(s: Seq<char>, c: char)
    ensures
        at_most_once(s, c) ==> at_most_once(strip_links(s), c),
        absent(s, c) ==> absent(strip_links(s), c),
        strip_links(s).len() <= s.len(),
        subsequence(strip_links(s), s),
    decreases s.len(),
{
    lemma_subsequence_refl(s);
    if let Some(st) = find_from(s, seq!['['], 0) {
        if let Some(mid) = find_from(s, seq![']', '('], st) {
            if let Some(en) = find_from(s, seq![')'], mid + 2) {
                lemma_find_from_bounds(s, seq!['['], 0);
                lemma_find_from_bounds(s, seq![']', '('], st);
                lemma_find_from_bounds(s, seq![')'], mid + 2);
                lemma_matches_first(s, seq!['['], st);
                lemma_matches_first(s, seq![']', '('], mid);
                let t = s.take(st) + s.subrange(st + 1, mid) + s.skip(en + 1);
                lemma_splice_keeps(s, c, st, st + 1, mid, en + 1);
                lemma_strip_links_keeps(t, c);
                lemma_subsequence_trans(strip_links(t), t, s);
            }
        }
    }
}

/// After removing pairs of `c`, at most one `c` is left.
proof fn lemma_strip_single_once(s: Seq<char>, c: char)
    ensures
        at_most_once(strip_pairs(s, seq![c]), c),
    decreases s.len(),
{
    let d = seq![c];
    match find_from(s, d, 0) {
        None => {
            lemma_find_from_none_all(s, d, 0);
            assert forall|i: int, j: int| 0 <= i < j < s.len() implies !(s[i] == c && s[j] == c) by {
                if s[i] == c {
                    lemma_single_match(s, c, i);
                }
            }
        },
        Some(st) => {
            lemma_find_from_bounds(s, d, 0);
            lemma_find_from_first(s, d, 0);
            match find_from(s, d, st + 1) {
                None => {
                    lemma_find_from_none_all(s, d, st + 1);
                    assert forall|i: int, j: int| 0 <= i < j < s.len() implies !(s[i] == c && s[j] == c) by {
                        if s[i] == c && s[j] == c {
                            lemma_single_match(s, c, i);
                            lemma_single_match(s, c, j);
                        }
                    }
                },
                Some(en) => {
                    lemma_find_from_bounds(s, d, st + 1);
                    lemma_strip_single_once(s.take(st) + s.subrange(st + 1, en) + s.skip(en + 1), c);
                },
            }
        },
    }
}

/// Removing pairs again changes nothing.
proof fn lemma_strip_pairs_idempotent(s: Seq<char>, d: Seq<char>)
    ensures
        strip_pairs(strip_pairs(s, d), d) == strip_pairs(s, d),
    decreases s.len(),
{
    if d.len() > 0 {
        if let Some(st) = find_from(s, d, 0) {
            if let Some(en) = find_from(s, d, st + d.len()) {
                lemma_find_from_bounds(s, d, 0);
                lemma_find_from_bounds(s, d, st + d.len());
                lemma_strip_pairs_idempotent(s.take(st) + s.subrange(st + d.len(), en) + s.skip(en + d.len()), d);
            }
        }
    }
}

/// Removing links again changes nothing.
proof fn lemma_strip_links_idempotent(s: Seq<char>)
    ensures
        strip_links(strip_links(s)) == strip_links(s),
    decreases s.len(),
{
    if let Some(st) = find_from(s, seq!['['], 0) {
        if let Some(mid) = find_from(s, seq![']', '('], st) {
            if let Some(en) = find_from(s, seq![')'], mid + 2) {
                lemma_find_from_bounds(s, seq!['['], 0);
                lemma_find_from_bounds(s, seq![']', '('], st);
                lemma_find_from_bounds(s, seq![')'], mid + 2);
                lemma_matches_first(s, seq!['['], st);
                lemma_matches_first(s, seq![']', '('], mid);
                lemma_strip_links_idempotent(s.take(st) + s.subrange(st + 1, mid) + s.skip(en + 1));
            }
        }
    }
}

/// With at most one `c` in `s`, there is no pair of `c` to remove.
proof fn lemma_once_no_pair(s: Seq<char>, c: char)
    requires
        at_most_once(s, c),
    ensures
        strip_pairs(s, seq![c]) == s,
        strip_pairs(s, seq![c, c]) == s,
{
    let d = seq![c];
    if let Some(st) = find_from(s, d, 0) {
        lemma_find_from_bounds(s, d, 0);
        lemma_matches_first(s, d, st);
        if let Some(en) = find_from(s, d, st + 1) {
            lemma_find_from_bounds(s, d, st + 1);
            lemma_matches_first(s, d, en);
            assert(!(s[st] == c && s[en] == c));
        }
    }
    let dd = seq![c, c];
    if let Some(st) = find_from(s, dd, 0) {
        lemma_find_from_bounds(s, dd, 0);
        lemma_matches_first(s, dd, st);
        assert(!(s[st] == c && s[st + 1] == c));
    }
}

/// Stripping inline formatting only removes characters and keeps the
/// rest in order; it leaves at most one `*` and at most one `` ` ``;
/// stripping again changes nothing; and text without `*`, `` ` `` or `[`
/// comes back unchanged.
pub proof fn law_strip_inline(s: Seq<char>)
    ensures
        subsequence(strip_inline(s), s),
        strip_inline(s).len() <= s.len(),
        at_most_once(strip_inline(s), '*'),
        at_most_once(strip_inline(s), '`'),
        strip_inline(strip_inline(s)) == strip_inline(s),
        absent(s, '*') && absent(s, '`') && absent(s, '[') ==> strip_inline(s) == s,
{
    let p1 = strip_pairs(s, seq!['*', '*']);
    let p2 = strip_pairs(p1, seq!['*']);
    let p3 = strip_pairs(p2, seq!['`']);
    let o = strip_links(p3);
    lemma_strip_pairs_keeps(s, seq!['*', '*'], '`');
    lemma_strip_single_once(p1, '*');
    lemma_strip_pairs_keeps(p1, seq!['*'], '`');
    lemma_strip_pairs_keeps(p2, seq!['`'], '*');
    lemma_strip_single_once(p2, '`');
    lemma_strip_links_keeps(p3, '*');
    lemma_strip_links_keeps(p3, '`');
    lemma_once_no_pair(o, '*');
    lemma_once_no_pair(o, '`');
    lemma_strip_links_idempotent(p3);
    lemma_subsequence_trans(p2, p1, s);
    lemma_subsequence_trans(p3, p2, s);
    lemma_subsequence_trans(o, p3, s);
    if absent(s, '*') && absent(s, '`') && absent(s, '[') {
        lemma_absent_no_match(s, seq!['*', '*'], 0);
        lemma_absent_no_match(s, seq!['*'], 0);
        lemma_absent_no_match(s, seq!['`'], 0);
        lemma_absent_no_match(s, seq!['['], 0);
    }
}

/// The number of `#` characters that `s` begins with.
pub open spec fn leading_hashes(s: Seq<char>) -> nat
    decreases s.len(),
{
    if s.len() > 0 && s[0] == '#' {
        1 + leading_hashes(s.drop_first())
    } else {
        0
    }
}

/// One Markdown line as `(level, text)`: level 1 to 6 for a heading of
/// that many `#`, 0 for a paragraph or an empty line.
pub open spec fn md_line(line: Seq<char>) -> (u8, Seq<char>) {
    let t = trim(line);
    if t.len() == 0 {
        (0u8, seq![])
    } else {
        let h = leading_hashes(t);
        if 1 <= h <= 6 {
            (h as u8, strip_inline(trim(t.skip(h as int))))
        } else {
            (0u8, strip_inline(t))
        }
    }
}

/// `n` heading marks: the line prefix `#` repeated `n` times.
pub open spec fn heading_marks(n: nat) -> Seq<char> {
    Seq::new(n, |i: int| '#')
}

proof fn lemma_leading_hashes_marks(k: nat, rest: Seq<char>)
    ensures
        leading_hashes(heading_marks(k) + rest) == k + leading_hashes(rest),
    decreases k,
{
    if k > 0 {
        let k1 = (k - 1) as nat;
        assert((heading_marks(k) + rest).drop_first() =~= heading_marks(k1) + rest);
        lemma_leading_hashes_marks(k1, rest);
    } else {
        assert(heading_marks(k) + rest =~= rest);
    }
}

/// A line made of `h` heading marks (1 to 6), a space and a text `t` is a
/// heading of level `h` whose text is `t`, where `t` neither starts with a
/// mark nor starts or ends with whitespace, and holds no inline markup.
/// Seven or more marks make no heading: the line stays a paragraph.
pub proof fn law_heading_line(h: nat, t: Seq<char>)
    requires
        t.len() > 0,
        t[0] != '#',
        !crate::text::is_ws(t[0]),
        !crate::text::is_ws(t.last()),
        absent(t, '*'),
        absent(t, '`'),
        absent(t, '['),
    ensures
        1 <= h <= 6 ==> md_line(heading_marks(h) + seq![' '] + t) == (h as u8, t),
        h > 6 ==> md_line(heading_marks(h) + seq![' '] + t).0 == 0,
{
    let rest = seq![' '] + t;
    let line = heading_marks(h) + rest;
    assert(line =~= heading_marks(h) + seq![' '] + t);
    if h >= 1 {
        assert(line[0] == '#');
        assert(line.last() == t.last());
        crate::text::lemma_trim_fixed(line);
        lemma_leading_hashes_marks(h, rest);
        assert(leading_hashes(rest) == 0);
        assert(line.skip(h as int) =~= rest);
        assert(rest.drop_first() =~= t);
        assert(crate::text::trim_start(rest) == crate::text::trim_start(t));
        crate::text::lemma_trim_fixed(t);
        assert(trim(rest) == t);
        law_strip_inline(t);
        assert(trim(line) == line);
        assert(line.len() > 0);
        assert(leading_hashes(line) == h);
        if h <= 6 {
            assert(strip_inline(trim(line.skip(h as int))) == t);
            assert(md_line(line) == (h as u8, t));
        } else {
            assert(md_line(line).0 == 0);
        }
    }
}

/// The Markdown lines of `content`.
pub open spec fn md_lines(content: Seq<char>) -> Seq<(u8, Seq<char>)> {
    lines(content).map_values(|l: Seq<char>| md_line(l))
}

/// `v[..a] + v[b..c] + v[d..]`.
fn splice3(v: &Vec<char>, a: usize, b: usize, c: usize, d: usize) -> (r: Vec<char>)
    requires
        a <= b <= c <= d <= v@.len(),
    ensures
        r@ == v@.take(a as int) + v@.subrange(b as int, c as int) + v@.skip(d as int),
{
    let mut r: Vec<char> = Vec::new();
    push_range(&mut r, v, 0, a);
    push_range(&mut r, v, b, c);
    push_range(&mut r, v, d, v.len());
    assert(r@ =~= v@.take(a as int) + v@.subrange(b as int, c as int) + v@.skip(d as int));
    r
}

/// Removes every pair of delimiters `d` (see [`strip_pairs`]).
pub fn strip_pairs_exec(v: Vec<char>, d: &Vec<char>) -> (r: Vec<char>)
    requires
        d@.len() > 0,
    ensures
        r@ == strip_pairs(v@, d@),
{
    let mut out = v;
    loop
        invariant
            d@.len() > 0,
            strip_pairs(out@, d@) == strip_pairs(v@, d@),
        decreases out@.len(),
    {
        let st = match find_from_exec(&out, d, 0) {
            Some(st) => st,
            None => return out,
        };
        proof {
            lemma_find_from_bounds(out@, d@, 0);
        }
        let n = out.len();
        assert(st + d@.len() <= n);
        let en = match find_from_exec(&out, d, st + d.len()) {
            Some(en) => en,
            None => return out,
        };
        proof {
            lemma_find_from_bounds(out@, d@, st + d@.len());
        }
        assert(en + d@.len() <= n);
        out = splice3(&out, st, st + d.len(), en, en + d.len());
    }
}

/// Replaces every Markdown link by its text (see [`strip_links`]).
pub fn strip_links_exec(v: Vec<char>) -> (r: Vec<char>)
    ensures
        r@ == strip_links(v@),
{
    let open: Vec<char> = vec!['['];
    let mid_pat: Vec<char> = vec![']', '('];
    let close: Vec<char> = vec![')'];
    assert(open@ =~= seq!['[']);
    assert(mid_pat@ =~= seq![']', '(']);
    assert(close@ =~= seq![')']);
    let mut out = v;
    loop
        invariant
            open@ == seq!['['],
            mid_pat@ == seq![']', '('],
            close@ == seq![')'],
            strip_links(out@) == strip_links(v@),
        decreases out@.len(),
    {
        let st = match find_from_exec(&out, &open, 0) {
            Some(st) => st,
            None => return out,
        };
        let mid = match find_from_exec(&out, &mid_pat, st) {
            Some(m) => m,
            None => return out,
        };
        proof {
            lemma_find_from_bounds(out@, open@, 0);
            lemma_find_from_bounds(out@, mid_pat@, st as int);
            if mid == st {
                assert(out@.subrange(st as int, st + 2)[0] == out@[st as int]);
                assert(out@.subrange(st as int, st + 1)[0] == out@[st as int]);
            }
        }
        let n = out.len();
        assert(mid + 2 <= n);
        let en = match find_from_exec(&out, &close, mid + 2) {
            Some(e) => e,
            None => return out,
        };
        proof {
            lemma_find_from_bounds(out@, close@, mid + 2);
        }
        assert(en + 1 <= n);
        out = splice3(&out, st, st + 1, mid, en + 1);
    }
}

/// Removes basic inline Markdown from `v` (see [`strip_inline`]).
pub fn strip_inline_chars(v: Vec<char>) -> (r: Vec<char>)
    ensures
        r@ == strip_inline(v@),
{
    let bold: Vec<char> = vec!['*', '*'];
    let star: Vec<char> = vec!['*'];
    let tick: Vec<char> = vec!['`'];
    assert(bold@ =~= seq!['*', '*']);
    assert(star@ =~= seq!['*']);
    assert(tick@ =~= seq!['`']);
    let a = strip_pairs_exec(v, &bold);
    let b = strip_pairs_exec(a, &star);
    let c = strip_pairs_exec(b, &tick);
    strip_links_exec(c)
}

/// Remove basic inline Markdown: `**bold**`, `*italic*`, `` `code` ``,
/// `[text](url)` -> `text`.
pub fn strip_inline_formatting(s: &str) -> (r: String)
    ensures
        r@ == strip_inline(s@),
{
    let v = chars_of(s);
    let w = strip_inline_chars(v);
    string_of(&w)
}

/// One Markdown line as `(level, text)` (see [`md_line`]).
pub fn markdown_line(v: &Vec<char>) -> (r: (u8, String))
    ensures
        (r.0, r.1@) == md_line(v@),
{
    let (a, b) = trim_bounds(v, 0, v.len());
    assert(v@.subrange(0, v@.len() as int) =~= v@);
    let ghost t = v@.subrange(a as int, b as int);
    if a == b {
        return (0, String::new());
    }
    let mut h = a;
    while h < b && v[h] == '#'
        invariant
            a <= h <= b <= v@.len(),
            t == v@.subrange(a as int, b as int),
            leading_hashes(t) == (h - a) + leading_hashes(v@.subrange(h as int, b as int)),
        decreases b - h,
    {
        assert(v@.subrange(h as int, b as int).drop_first() =~= v@.subrange(h + 1, b as int));
        h += 1;
    }
    let level = h - a;
    if 1 <= level && level <= 6 {
        assert(t.skip(level as int) =~= v@.subrange(h as int, b as int));
        let (c, d) = trim_bounds(v, h, b);
        let inner = vec_range(v, c, d);
        let text = strip_inline_chars(inner);
        (level as u8, string_of(&text))
    } else {
        let whole = vec_range(v, a, b);
        let text = strip_inline_chars(whole);
        (0, string_of(&text))
    }
}

/// Strip basic Markdown into lines with style hints: `(level, text)`,
/// level 1 to 6 for headings, 0 for paragraphs and empty lines.
pub fn parse_markdown_lines(content: &str) -> (r: Vec<(u8, String)>)
    ensures
        r@.len() == md_lines(content@).len(),
        forall|i: int| 0 <= i < r@.len() ==> (#[trigger] r@[i].0, r@[i].1@) == md_lines(content@)[i],
{
    let v = chars_of(content);
    let ls = split_lines(&v);
    let ghost lv = lines(content@);
    let mut out: Vec<(u8, String)> = Vec::new();
    let mut i: usize = 0;
    while i < ls.len()
        invariant
            vviews(ls@) == lv,
            lv == lines(content@),
            0 <= i <= ls@.len(),
            out@.len() == i,
            forall|j: int| 0 <= j < i ==> (#[trigger] out@[j].0, out@[j].1@) == md_line(lv[j]),
        decreases ls@.len() - i,
    {
        let item = markdown_line(&ls[i]);
        assert(lv[i as int] == ls@[i as int]@);
        out.push(item);
        i += 1;
    }
    out
}

/// The length in bytes of the UTF-8 encoding of `s`, as `str::len`
/// gives it.
pub open spec fn blen(s: Seq<char>) -> usize {
    encode_utf8(s).len() as usize
}

/// The state after placing `words[..n]`: the finished lines, and the line
/// being filled. A word joins the current line, after one space, while
/// the line stays within `max` bytes; otherwise it starts a new line.
pub open spec fn wrap_state(words: Seq<Seq<char>>, max: int, n: nat) -> (Seq<Seq<char>>, Seq<char>)
    decreases n,
{
    if n == 0 || n > words.len() {
        (seq![], seq![])
    } else {
        let (ls, cur) = wrap_state(words, max, (n - 1) as nat);
        let w = words[n - 1];
        if cur.len() == 0 {
            (ls, w)
        } else if blen(cur) + 1 + blen(w) <= max {
            (ls, cur + seq![' '] + w)
        } else {
            (ls.push(cur), w)
        }
    }
}

/// The lines that `text` wraps into at `max` bytes per line: the text
/// itself when it fits, else its words placed greedily (a single word
/// longer than `max` gets a line of its own), and one empty line when
/// there are no words.
pub open spec fn wrap_lines(text: Seq<char>, max: int) -> Seq<Seq<char>> {
    if blen(text) <= max {
        seq![text]
    } else {
        let words = split_ws(text);
        let (ls, cur) = wrap_state(words, max, words.len());
        let all = if cur.len() > 0 {
            ls.push(cur)
        } else {
            ls
        };
        if all.len() == 0 {
            seq![seq![]]
        } else {
            all
        }
    }
}

/// Simple word wrap: break text at word boundaries to fit within
/// `max_chars` bytes per line.
pub fn word_wrap(text: &str, max_chars: usize) -> (r: Vec<String>)
    ensures
        sviews(r@) == wrap_lines(text@, max_chars as int),
{
    if text.len() <= max_chars {
        let mut one: Vec<String> = Vec::new();
        one.push(text.to_owned());
        assert(sviews(one@) =~= seq![text@]);
        return one;
    }
    let v = chars_of(text);
    let words = split_whitespace(&v);
    let ghost wv = split_ws(text@);
    let mut lines: Vec<String> = Vec::new();
    let mut current = String::new();
    let mut i: usize = 0;
    while i < words.len()
        invariant
            vviews(words@) == wv,
            0 <= i <= words@.len(),
            (sviews(lines@), current@) == wrap_state(wv, max_chars as int, i as nat),
        decreases words@.len() - i,
    {
        let ghost l0 = sviews(lines@);
        let word = string_of(&words[i]);
        assert(wv[i as int] == words@[i as int]@);
        if current.as_str().is_empty() {
            current = word;
        } else if current.as_str().len() < max_chars && word.as_str().len() <= max_chars - current.as_str().len() - 1 {
            current.append(" ");
            current.append(word.as_str());
            proof {
                reveal_strlit(" ");
                assert(" "@ =~= seq![' ']);
            }
        } else {
            let done = current;
            lines.push(done);
            assert(sviews(lines@) =~= l0.push(done@));
            current = word;
        }
        i += 1;
    }
    let ghost l1 = sviews(lines@);
    if !current.as_str().is_empty() {
        let done = current;
        lines.push(done);
        assert(sviews(lines@) =~= l1.push(done@));
    }
    if lines.len() == 0 {
        lines.push(String::new());
        assert(sviews(lines@) =~= seq![Seq::<char>::empty()]);
    }
    lines
}


proof fn lemma_encode_concat(a: Seq<char>, b: Seq<char>)
    ensures
        encode_utf8(a + b) == encode_utf8(a) + encode_utf8(b),
    decreases a.len(),
{
    if a.len() > 0 {
        lemma_encode_concat(a.drop_first(), b);
        assert((a + b).drop_first() =~= a.drop_first() + b);
        assert((a + b)[0] == a[0]);
        assert(encode_utf8(a + b) =~= encode_utf8(a) + encode_utf8(b));
    } else {
        assert(a + b =~= b);
        assert(encode_utf8(a) =~= Seq::<u8>::empty());
    }
}

/// Whether the line `l` fits in `max` bytes, or is one of `words`.
pub open spec fn fits_or_word(l: Seq<char>, words: Seq<Seq<char>>, max: int) -> bool {
    encode_utf8(l).len() <= max || words.contains(l)
}

proof fn lemma_wrap_state_fits(words: Seq<Seq<char>>, max: usize, n: nat)
    requires
        forall|i: int| 0 <= i < words.len() ==> encode_utf8(#[trigger] words[i]).len() <= usize::MAX,
    ensures
        forall|i: int| 0 <= i < wrap_state(words, max as int, n).0.len() ==> fits_or_word(
            #[trigger] wrap_state(words, max as int, n).0[i],
            words,
            max as int,
        ),
        fits_or_word(wrap_state(words, max as int, n).1, words, max as int),
    decreases n,
{
    if n == 0 || n > words.len() {
        assert(encode_utf8(Seq::<char>::empty()) =~= Seq::<u8>::empty());
    } else {
        lemma_wrap_state_fits(words, max, (n - 1) as nat);
        let (ls, cur) = wrap_state(words, max as int, (n - 1) as nat);
        let w = words[n - 1];
        assert(words.contains(w));
        if cur.len() != 0 && blen(cur) + 1 + blen(w) <= max {
            if words.contains(cur) {
                let j = choose|j: int| 0 <= j < words.len() && words[j] == cur;
                assert(encode_utf8(words[j]).len() <= usize::MAX);
            }
            assert(encode_utf8(cur).len() <= usize::MAX);
            assert(encode_utf8(w).len() <= usize::MAX);
            lemma_encode_concat(cur, seq![' ']);
            lemma_encode_concat(cur + seq![' '], w);
            assert(vstd::utf8::is_ascii_chars(seq![' ']));
            vstd::utf8::is_ascii_chars_encode_utf8(seq![' ']);
            assert(encode_utf8(seq![' ']).len() == 1);
        }
    }
}

/// Word wrapping keeps every line within the limit, except a line that
/// is a single word longer than the limit.
pub proof fn law_wrap_lines_fit(text: Seq<char>, max: usize)
    requires
        encode_utf8(text).len() <= usize::MAX,
        forall|i: int| 0 <= i < split_ws(text).len() ==> encode_utf8(#[trigger] split_ws(text)[i]).len() <= usize::MAX,
    ensures
        forall|i: int| 0 <= i < wrap_lines(text, max as int).len() ==> fits_or_word(
            #[trigger] wrap_lines(text, max as int)[i],
            split_ws(text),
            max as int,
        ),
{
    let words = split_ws(text);
    if blen(text) > max {
        lemma_wrap_state_fits(words, max, words.len());
        let (ls, cur) = wrap_state(words, max as int, words.len());
        assert(encode_utf8(Seq::<char>::empty()) =~= Seq::<u8>::empty());
        if cur.len() > 0 {
            assert forall|i: int| 0 <= i < ls.push(cur).len() implies fits_or_word(#[trigger] ls.push(cur)[i], words, max as int) by {
                if i < ls.len() {
                    assert(ls.push(cur)[i] == ls[i]);
                }
            }
        }
    }
}

/// The input of the PDF generator.
pub struct GeneratePdfInput {
    pub content: String,
    pub output_path: String,
    pub format: String,
    pub title: Option<String>,
}

/// The input format used when the caller names none.
pub fn default_format() -> (r: String)
    ensures
        r@ == "text"@,
{
    "text".to_string()
}

/// The message for an input format other than `text` and `markdown`.
pub open spec fn unsupported_format(format: Seq<char>) -> Seq<char> {
    "Unsupported format '"@ + format + "'. Use 'text' or 'markdown'."@
}

/// Whether the generator takes the input format `format`.
pub open spec fn known_format(format: Seq<char>) -> bool {
    format == "text"@ || format == "markdown"@
}

/// Checks the resolved output path and the format: a path containing
/// `..` is refused first, then a format other than `text` or `markdown`.
pub fn check_pdf_output(resolved: &str, format: &str) -> (r: Result<(), ToolResult>)
    ensures
        r is Ok <==> find(resolved@, ".."@) is None && known_format(format@),
        r matches Err(e) ==> e@ == (if find(resolved@, ".."@) is Some {
            error_result(PATH_TRAVERSAL@)
        } else {
            error_result(unsupported_format(format@))
        }),
{
    if contains_str(resolved, "..") {
        return Err(ToolResult::error(PATH_TRAVERSAL));
    }
    if !str_eq(format, "text") && !str_eq(format, "markdown") {
        let mut m = concat("Unsupported format '", format);
        m.append("'. Use 'text' or 'markdown'.");
        return Err(ToolResult::error(m.as_str()));
    }
    Ok(())
}

/// What the generator does with the resolved output path `resolved` and
/// the format: refuses a path containing `..`, then a format other than
/// `text` or `markdown`; otherwise writes to that path.
pub open spec fn pdf_request_outcome(resolved: Seq<char>, format: Seq<char>) -> Result<Seq<char>, ResultView> {
    if find(resolved, ".."@) is Some {
        Err(error_result(PATH_TRAVERSAL@))
    } else if !known_format(format) {
        Err(error_result(unsupported_format(format)))
    } else {
        Ok(resolved)
    }
}

/// The output path to write for `input`, resolved against `cwd` (see
/// [`resolved_path`]), once it and the format pass [`check_pdf_output`].
pub fn check_pdf_request(input: &GeneratePdfInput, cwd: Option<&str>) -> (r: Result<String, ToolResult>)
    ensures
        pdf_request_outcome(resolved_path(input.output_path@, opt_str_view(cwd)), input.format@) == match r {
            Ok(p) => Ok::<Seq<char>, ResultView>(p@),
            Err(e) => Err::<Seq<char>, ResultView>(e@),
        },
{
    let resolved = resolve_path(input.output_path.as_str(), cwd);
    match check_pdf_output(resolved.as_str(), input.format.as_str()) {
        Ok(()) => Ok(resolved),
        Err(e) => Err(e),
    }
}

/// The lines to render: the Markdown lines for `markdown`, else the text
/// lines, each at level 0.
pub open spec fn pdf_lines(content: Seq<char>, format: Seq<char>) -> Seq<(u8, Seq<char>)> {
    if format == "markdown"@ {
        md_lines(content)
    } else {
        lines(content).map_values(|l: Seq<char>| (0u8, l))
    }
}

/// The lines to render for `input` (see [`pdf_lines`]).
pub fn prepare_pdf_lines(input: &GeneratePdfInput) -> (r: Vec<(u8, String)>)
    ensures
        r@.len() == pdf_lines(input.content@, input.format@).len(),
        forall|i: int| 0 <= i < r@.len() ==> (#[trigger] r@[i].0, r@[i].1@) == pdf_lines(input.content@, input.format@)[i],
{
    if str_eq(input.format.as_str(), "markdown") {
        return parse_markdown_lines(input.content.as_str());
    }
    let v = chars_of(input.content.as_str());
    let ls = split_lines(&v);
    let ghost lv = lines(input.content@);
    let mut out: Vec<(u8, String)> = Vec::new();
    let mut i: usize = 0;
    while i < ls.len()
        invariant
            vviews(ls@) == lv,
            lv == lines(input.content@),
            input.format@ != "markdown"@,
            0 <= i <= ls@.len(),
            out@.len() == i,
            forall|j: int| 0 <= j < i ==> (#[trigger] out@[j].0, out@[j].1@) == (0u8, lv[j]),
        decreases ls@.len() - i,
    {
        assert(lv[i as int] == ls@[i as int]@);
        out.push((0u8, string_of(&ls[i])));
        i += 1;
    }
    out
}

/// The summary of a written PDF: `{"path", "pages", "size_bytes"}`.
pub open spec fn pdf_summary_view(path: Seq<char>, pages: u32, size_bytes: u64) -> JsonView {
    JsonView::Object(
        seq![
            ("path"@, JsonView::Str(path)),
            ("pages"@, JsonView::Number(JsonNumber::PosInt(pages as u64))),
            ("size_bytes"@, JsonView::Number(JsonNumber::PosInt(size_bytes))),
        ],
    )
}

/// The result for a PDF written to `path` (see [`pdf_summary_view`]).
pub fn pdf_summary(path: &str, pages: u32, size_bytes: u64) -> (r: ToolResult)
    ensures
        r@ == json_result(pdf_summary_view(path@, pages, size_bytes)),
{
    let mut es: Vec<(String, JsonValue)> = Vec::new();
    push_entry(&mut es, "path", crate::schema::json_str(path));
    push_entry(&mut es, "pages", JsonValue::Number(JsonNumber::PosInt(pages as u64)));
    push_entry(&mut es, "size_bytes", JsonValue::Number(JsonNumber::PosInt(size_bytes)));
    let v = JsonValue::Object(es);
    assert(v@->Object_0 =~= pdf_summary_view(path@, pages, size_bytes)->Object_0);
    ToolResult::json(v)
}

pub const GENERATE_PDF_DESCRIPTION: &'static str = "Generate a PDF file from plain text or basic Markdown content. Returns the output path, page count, and file size.";
pub const GP_CONTENT_DESCRIPTION: &'static str = "The text or Markdown content to render into a PDF";
pub const GP_OUTPUT_PATH_DESCRIPTION: &'static str = "The file path where the PDF will be saved (e.g. /tmp/report.pdf)";
pub const GP_FORMAT_DESCRIPTION: &'static str = "Input format: 'text' for plain text, 'markdown' for basic Markdown";
pub const GP_TITLE_DESCRIPTION: &'static str = "Document title (used in PDF metadata)";

/// The input schema of the PDF generator.
pub open spec fn generate_pdf_schema() -> JsonView {
    object_schema(
        seq![
            ("content"@, prop_view("string"@, GP_CONTENT_DESCRIPTION@)),
            ("output_path"@, prop_view("string"@, GP_OUTPUT_PATH_DESCRIPTION@)),
            ("format"@, with_entry(prop_view("string"@, GP_FORMAT_DESCRIPTION@), "enum"@, str_array(seq!["text"@, "markdown"@]))),
            ("title"@, prop_view("string"@, GP_TITLE_DESCRIPTION@)),
        ],
        seq!["content"@, "output_path"@],
    )
}

/// A tool that generates PDF files from plain text or basic Markdown content.
///
/// Includes path traversal protection (rejects paths containing `..`).
pub struct GeneratePdfTool;

impl GeneratePdfTool {
    pub fn new() -> (r: Self) {
        GeneratePdfTool
    }

    /// The tool's definition: its name, description and input schema.
    pub fn def(&self) -> (r: ToolDef)
        ensures
            r.name@ == "generate_pdf"@,
            r.description@ == GENERATE_PDF_DESCRIPTION@,
            r.input_schema@ == generate_pdf_schema(),
    {
        let mut props: Vec<(String, JsonValue)> = Vec::new();
        push_entry(&mut props, "content", prop("string", GP_CONTENT_DESCRIPTION));
        push_entry(&mut props, "output_path", prop("string", GP_OUTPUT_PATH_DESCRIPTION));
        let formats = crate::schema::str_array_exec(&["text", "markdown"]);
        push_entry(&mut props, "format", prop_with(prop("string", GP_FORMAT_DESCRIPTION), "enum", formats));
        push_entry(&mut props, "title", prop("string", GP_TITLE_DESCRIPTION));
        let ghost pv = entries_view(props);
        let schema = object_schema_exec(props, &["content", "output_path"]);
        proof {
            assert(strs_view(["text", "markdown"]@) =~= seq!["text"@, "markdown"@]);
            assert(pv =~= generate_pdf_schema()->Object_0[1].1->Object_0);
            assert(strs_view(["content", "output_path"]@) =~= seq!["content"@, "output_path"@]);
        }
        ToolDef { name: "generate_pdf".to_string(), description: GENERATE_PDF_DESCRIPTION.to_string(), input_schema: schema }
    }
}

impl Default for GeneratePdfTool {
    fn default() -> (r: Self) {
        GeneratePdfTool::new()
    }
}


/// The input schema of the PDF generator is well formed.
pub proof fn law_generate_pdf_schema_well_formed()
    ensures
        crate::schema::schema_problem(generate_pdf_schema()) is None,
{
    let s = generate_pdf_schema();
    let props = s->Object_0[1].1->Object_0;
    let req = seq!["content"@, "output_path"@];
    assert(s == object_schema(props, req));
    reveal_strlit("content");
    reveal_strlit("output_path");
    reveal_strlit("format");
    reveal_strlit("title");
    assert("output_path"@.len() != "content"@.len());
    assert(props[1].0 != props[0].0);
    assert("format"@.len() != "content"@.len());
    assert(props[2].0 != props[0].0);
    assert("title"@.len() != "content"@.len());
    assert(props[3].0 != props[0].0);
    crate::schema::lemma_entries_get_at(props, 0);
    assert(crate::json::entries_get(props, req[0]) is Some);
    assert("format"@.len() != "output_path"@.len());
    assert(props[2].0 != props[1].0);
    assert("title"@.len() != "output_path"@.len());
    assert(props[3].0 != props[1].0);
    crate::schema::lemma_entries_get_at(props, 1);
    assert(crate::json::entries_get(props, req[1]) is Some);
    crate::schema::law_object_schema_well_formed(props, req);
}

} // verus!
