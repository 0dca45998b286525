//! Character-level text utilities with mathematical specifications.

use vstd::prelude::*;

verus! {

/// Unicode `White_Space`: the characters for which `char::is_whitespace` holds.
pub open spec fn is_ws(c: char) -> bool {
    ||| ('\u{9}' <= c && c <= '\u{d}')
    ||| c == ' '
    ||| c == '\u{85}'
    ||| c == '\u{a0}'
    ||| c == '\u{1680}'
    ||| ('\u{2000}' <= c && c <= '\u{200a}')
    ||| c == '\u{2028}'
    ||| c == '\u{2029}'
    ||| c == '\u{202f}'
    ||| c == '\u{205f}'
    ||| c == '\u{3000}'
}

/// Whether `c` is a whitespace character.
pub fn char_is_ws(c: char) -> (r: bool)
    ensures
        r == is_ws(c),
{
    ('\u{9}' <= c && c <= '\u{d}') || c == ' ' || c == '\u{85}' || c == '\u{a0}' || c == '\u{1680}'
        || ('\u{2000}' <= c && c <= '\u{200a}') || c == '\u{2028}' || c == '\u{2029}'
        || c == '\u{202f}' || c == '\u{205f}' || c == '\u{3000}'
}

/// The characters of `s`, in order.
pub fn chars_of(s: &str) -> (v: Vec<char>)
    ensures
        v@ == s@,
{
    let mut v: Vec<char> = Vec::new();
    for c in it: s.chars()
        invariant
            v@ == it.seq().take(it.index()),
            it.seq() == s@,
    {
        v.push(c);
    }
    v
}

/// Appends one character (`String::push`).
#[verifier::external_body]
pub fn push_char(s: &mut String, c: char)
    ensures
        final(s)@ == old(s)@.push(c),
{
    s.push(c);
}

/// The string made of `v[from..to]`.
pub fn string_from_range(v: &Vec<char>, from: usize, to: usize) -> (s: String)
    requires
        from <= to <= v@.len(),
    ensures
        s@ == v@.subrange(from as int, to as int),
{
    let mut s = String::new();
    let mut i = from;
    while i < to
        invariant
            from <= i <= to <= v@.len(),
            s@ == v@.subrange(from as int, i as int),
        decreases to - i,
    {
        push_char(&mut s, v[i]);
        i += 1;
    }
    s
}


/// `s` without its leading whitespace (`str::trim_start`).
pub open spec fn trim_start(s: Seq<char>) -> Seq<char>
    decreases s.len(),
{
    if s.len() > 0 && is_ws(s[0]) {
        trim_start(s.drop_first())
    } else {
        s
    }
}

/// `s` without its trailing whitespace (`str::trim_end`).
pub open spec fn trim_end(s: Seq<char>) -> Seq<char>
    decreases s.len(),
{
    if s.len() > 0 && is_ws(s.last()) {
        trim_end(s.drop_last())
    } else {
        s
    }
}

/// `s` without leading and trailing whitespace (`str::trim`).
pub open spec fn trim(s: Seq<char>) -> Seq<char> {
    trim_end(trim_start(s))
}

/// Whether `pat` occurs in `s` at index `i`.
pub open spec fn matches_at(s: Seq<char>, pat: Seq<char>, i: int) -> bool {
    0 <= i && i + pat.len() <= s.len() && s.subrange(i, i + pat.len()) == pat
}

/// The first index at or after `i` where `pat` occurs in `s`.
pub open spec fn find_from(s: Seq<char>, pat: Seq<char>, i: int) -> Option<int>
    decreases s.len() + 1 - i,
{
    if i < 0 || i + pat.len() > s.len() {
        None
    } else if matches_at(s, pat, i) {
        Some(i)
    } else {
        find_from(s, pat, i + 1)
    }
}

/// The first index where `pat` occurs in `s` (`str::find`).
pub open spec fn find(s: Seq<char>, pat: Seq<char>) -> Option<int> {
    find_from(s, pat, 0)
}

/// Whether `s` begins with `p`.
pub open spec fn starts_with(s: Seq<char>, p: Seq<char>) -> bool {
    p.len() <= s.len() && s.take(p.len() as int) == p
}

/// Whether `s` ends with `p`.
pub open spec fn ends_with(s: Seq<char>, p: Seq<char>) -> bool {
    p.len() <= s.len() && s.skip(s.len() - p.len()) == p
}

pub proof fn lemma_trim_start_skip(s: Seq<char>, i: int)
    requires
        0 <= i <= s.len(),
        forall|j: int| 0 <= j < i ==> #[trigger] is_ws(s[j]),
    ensures
        trim_start(s) == trim_start(s.subrange(i, s.len() as int)),
    decreases i,
{
    if i > 0 {
        assert(s.drop_first().subrange(i - 1, s.drop_first().len() as int) =~= s.subrange(i, s.len() as int));
        lemma_trim_start_skip(s.drop_first(), i - 1);
    } else {
        assert(s.subrange(0, s.len() as int) =~= s);
    }
}

pub proof fn lemma_trim_end_take(s: Seq<char>, k: int)
    requires
        0 <= k <= s.len(),
        forall|j: int| k <= j < s.len() ==> #[trigger] is_ws(s[j]),
    ensures
        trim_end(s) == trim_end(s.subrange(0, k)),
    decreases s.len() - k,
{
    if k < s.len() {
        assert(s.drop_last().subrange(0, k) =~= s.subrange(0, k));
        lemma_trim_end_take(s.drop_last(), k);
    } else {
        assert(s.subrange(0, k) =~= s);
    }
}

pub proof fn lemma_trim_start_head(s: Seq<char>)
    ensures
        trim_start(s).len() == 0 || !is_ws(trim_start(s)[0]),
    decreases s.len(),
{
    if s.len() > 0 && is_ws(s[0]) {
        lemma_trim_start_head(s.drop_first());
    }
}

pub proof fn lemma_trim_end_prefix(s: Seq<char>)
    ensures
        trim_end(s).len() <= s.len(),
        trim_end(s) == s.take(trim_end(s).len() as int),
        trim_end(s).len() == 0 || !is_ws(trim_end(s).last()),
    decreases s.len(),
{
    if s.len() > 0 && is_ws(s.last()) {
        lemma_trim_end_prefix(s.drop_last());
        let t = trim_end(s.drop_last());
        assert(s.drop_last().take(t.len() as int) =~= s.take(t.len() as int));
    } else {
        assert(s.take(s.len() as int) =~= s);
    }
}

/// Text that neither begins nor ends with whitespace is its own trim.
pub proof fn lemma_trim_fixed(s: Seq<char>)
    requires
        s.len() == 0 || (!is_ws(s[0]) && !is_ws(s.last())),
    ensures
        trim(s) == s,
{
}

/// Trimming twice is trimming once.
pub proof fn lemma_trim_idempotent(s: Seq<char>)
    ensures
        trim(trim(s)) == trim(s),
{
    let a = trim_start(s);
    lemma_trim_start_head(s);
    lemma_trim_end_prefix(a);
    let u = trim_end(a);
    if u.len() > 0 {
        assert(u[0] == a[0]);
    }
    lemma_trim_fixed(u);
}

/// The bounds `(a, b)` such that `v[a..b]` is `v[from..to]` trimmed.
pub fn trim_bounds(v: &Vec<char>, from: usize, to: usize) -> (r: (usize, usize))
    requires
        from <= to <= v@.len(),
    ensures
        from <= r.0 <= r.1 <= to,
        v@.subrange(r.0 as int, r.1 as int) == trim(v@.subrange(from as int, to as int)),
{
    let ghost s = v@.subrange(from as int, to as int);
    let mut a = from;
    while a < to && char_is_ws(v[a])
        invariant
            from <= a <= to <= v@.len(),
            forall|j: int| from <= j < a ==> #[trigger] is_ws(v@[j]),
        decreases to - a,
    {
        a += 1;
    }
    proof {
        assert forall|j: int| 0 <= j < a - from implies #[trigger] is_ws(s[j]) by {
            assert(s[j] == v@[from + j]);
        }
        lemma_trim_start_skip(s, a - from);
        assert(s.subrange(a - from, s.len() as int) =~= v@.subrange(a as int, to as int));
        if a < to {
            assert(!is_ws(v@[a as int]));
            assert(trim_start(v@.subrange(a as int, to as int)) == v@.subrange(a as int, to as int));
        } else {
            assert(v@.subrange(a as int, to as int).len() == 0);
        }
    }
    let ghost t = v@.subrange(a as int, to as int);
    let mut b = to;
    while b > a && char_is_ws(v[b - 1])
        invariant
            from <= a <= b <= to <= v@.len(),
            forall|j: int| b <= j < to ==> #[trigger] is_ws(v@[j]),
        decreases b - a,
    {
        b -= 1;
    }
    proof {
        assert forall|j: int| b - a <= j < t.len() implies #[trigger] is_ws(t[j]) by {
            assert(t[j] == v@[a + j]);
        }
        lemma_trim_end_take(t, b - a);
        assert(t.subrange(0, b - a) =~= v@.subrange(a as int, b as int));
        let u = v@.subrange(a as int, b as int);
        if b > a {
            assert(u.last() == v@[b - 1]);
        }
    }
    (a, b)
}

pub proof fn lemma_find_from_none_before(s: Seq<char>, pat: Seq<char>, i: int, k: int)
    requires
        0 <= i <= k,
        forall|j: int| i <= j < k ==> !#[trigger] matches_at(s, pat, j),
    ensures
        find_from(s, pat, i) == find_from(s, pat, k),
    decreases k - i,
{
    if i < k {
        if i + pat.len() > s.len() {
            lemma_find_from_past_end(s, pat, k);
        } else {
            assert(!matches_at(s, pat, i));
            lemma_find_from_none_before(s, pat, i + 1, k);
        }
    }
}

pub proof fn lemma_find_from_past_end(s: Seq<char>, pat: Seq<char>, k: int)
    requires
        k + pat.len() > s.len(),
    ensures
        find_from(s, pat, k) is None,
{
}

/// Whether `pat` occurs in `v` at index `i`.
pub fn matches_at_exec(v: &Vec<char>, pat: &Vec<char>, i: usize) -> (r: bool)
    ensures
        r == matches_at(v@, pat@, i as int),
{
    if i > v.len() || pat.len() > v.len() - i {
        return false;
    }
    let n = v.len();
    let mut k: usize = 0;
    while k < pat.len()
        invariant
            n == v@.len(),
            i + pat@.len() <= v@.len(),
            0 <= k <= pat@.len(),
            forall|j: int| 0 <= j < k ==> v@[i + j] == pat@[j],
        decreases pat@.len() - k,
    {
        assert(i + k < v@.len());
        if v[i + k] != pat[k] {
            assert(v@.subrange(i as int, i + pat@.len())[k as int] != pat@[k as int]);
            return false;
        }
        k += 1;
    }
    assert(v@.subrange(i as int, i + pat@.len()) =~= pat@);
    true
}

/// The first index at or after `from` where `pat` occurs in `v`.
pub fn find_from_exec(v: &Vec<char>, pat: &Vec<char>, from: usize) -> (r: Option<usize>)
    ensures
        match r {
            Some(i) => find_from(v@, pat@, from as int) == Some(i as int),
            None => find_from(v@, pat@, from as int) is None,
        },
{
    if from > v.len() {
        return None;
    }
    let mut i = from;
    loop
        invariant
            from <= i <= v@.len(),
            find_from(v@, pat@, from as int) == find_from(v@, pat@, i as int),
        decreases v@.len() - i,
    {
        if pat.len() > v.len() - i {
            return None;
        }
        if matches_at_exec(v, pat, i) {
            return Some(i);
        }
        proof {
            if pat@.len() == 0 {
                assert(v@.subrange(i as int, i as int) =~= pat@);
            }
        }
        i += 1;
    }
}

/// Whether `a` and `b` hold the same characters.
pub fn str_eq(a: &str, b: &str) -> (r: bool)
    ensures
        r == (a@ == b@),
{
    let x = chars_of(a);
    let y = chars_of(b);
    if x.len() != y.len() {
        return false;
    }
    let mut i: usize = 0;
    while i < x.len()
        invariant
            x@ == a@,
            y@ == b@,
            x@.len() == y@.len(),
            0 <= i <= x@.len(),
            forall|j: int| 0 <= j < i ==> x@[j] == y@[j],
        decreases x@.len() - i,
    {
        if x[i] != y[i] {
            assert(x@[i as int] != y@[i as int]);
            return false;
        }
        i += 1;
    }
    assert(x@ =~= y@);
    true
}

pub proof fn lemma_find_from_bounds(s: Seq<char>, pat: Seq<char>, i: int)
    ensures
        find_from(s, pat, i) matches Some(j) ==> i <= j && j + pat.len() <= s.len() && matches_at(s, pat, j),
    decreases s.len() + 1 - i,
{
    if i < 0 || i + pat.len() > s.len() {
    } else if matches_at(s, pat, i) {
    } else {
        lemma_find_from_bounds(s, pat, i + 1);
    }
}

/// `l` without one trailing carriage return.
pub open spec fn strip_cr(l: Seq<char>) -> Seq<char> {
    if l.len() > 0 && l.last() == '\r' {
        l.drop_last()
    } else {
        l
    }
}

/// The lines of `s[pos..]` (`str::lines`): pieces ended by `'\n'`, each
/// without its `'\n'` and one `'\r'` before it; a last piece without
/// `'\n'` is kept as it is, and an empty one is dropped.
pub open spec fn lines_from(s: Seq<char>, pos: int) -> Seq<Seq<char>>
    decreases s.len() - pos,
{
    if pos < 0 || pos >= s.len() {
        seq![]
    } else {
        match find_from(s, seq!['\n'], pos) {
            None => seq![s.subrange(pos, s.len() as int)],
            Some(i) => {
                proof {
                    lemma_find_from_bounds(s, seq!['\n'], pos);
                }
                seq![strip_cr(s.subrange(pos, i))] + lines_from(s, i + 1)
            },
        }
    }
}

/// The lines of `s` (`str::lines`).
pub open spec fn lines(s: Seq<char>) -> Seq<Seq<char>> {
    lines_from(s, 0)
}

/// The state after reading `s[..n]` when splitting at whitespace: the
/// words completed so far, and the word being read.
pub open spec fn ws_split_state(s: Seq<char>, n: nat) -> (Seq<Seq<char>>, Seq<char>)
    decreases n,
{
    if n == 0 || n > s.len() {
        (seq![], seq![])
    } else {
        let (words, cur) = ws_split_state(s, (n - 1) as nat);
        let c = s[n - 1];
        if is_ws(c) {
            if cur.len() > 0 {
                (words.push(cur), seq![])
            } else {
                (words, cur)
            }
        } else {
            (words, cur.push(c))
        }
    }
}

/// The maximal runs of non-whitespace characters of `s`
/// (`str::split_whitespace`).
pub open spec fn split_ws(s: Seq<char>) -> Seq<Seq<char>> {
    let (words, cur) = ws_split_state(s, s.len());
    if cur.len() > 0 {
        words.push(cur)
    } else {
        words
    }
}

/// The views of a sequence of character vectors.
pub open spec fn vviews(v: Seq<Vec<char>>) -> Seq<Seq<char>> {
    Seq::new(v.len(), |i: int| v[i]@)
}

/// The views of a sequence of strings.
pub open spec fn sviews(v: Seq<String>) -> Seq<Seq<char>> {
    Seq::new(v.len(), |i: int| v[i]@)
}

/// `v[from..to]` as a vector.
pub fn vec_range(v: &Vec<char>, from: usize, to: usize) -> (r: Vec<char>)
    requires
        from <= to <= v@.len(),
    ensures
        r@ == v@.subrange(from as int, to as int),
{
    let mut r: Vec<char> = Vec::new();
    let mut i = from;
    while i < to
        invariant
            from <= i <= to <= v@.len(),
            r@ == v@.subrange(from as int, i as int),
        decreases to - i,
    {
        r.push(v[i]);
        i += 1;
    }
    r
}

/// Appends `v[from..to]` to `out`.
pub fn push_range(out: &mut Vec<char>, v: &Vec<char>, from: usize, to: usize)
    requires
        from <= to <= v@.len(),
    ensures
        final(out)@ == old(out)@ + v@.subrange(from as int, to as int),
{
    let ghost start = out@;
    let mut i = from;
    while i < to
        invariant
            from <= i <= to <= v@.len(),
            out@ == start + v@.subrange(from as int, i as int),
        decreases to - i,
    {
        out.push(v[i]);
        i += 1;
    }
}

/// The string holding the characters of `v`.
pub fn string_of(v: &Vec<char>) -> (s: String)
    ensures
        s@ == v@,
{
    let r = string_from_range(v, 0, v.len());
    assert(v@.subrange(0, v@.len() as int) =~= v@);
    r
}

/// The lines of `v` (see [`lines`]).
pub fn split_lines(v: &Vec<char>) -> (r: Vec<Vec<char>>)
    ensures
        vviews(r@) == lines(v@),
{
    let nl: Vec<char> = vec!['\n'];
    assert(nl@ =~= seq!['\n']);
    let mut out: Vec<Vec<char>> = Vec::new();
    let mut pos: usize = 0;
    while pos < v.len()
        invariant
            nl@ == seq!['\n'],
            0 <= pos <= v@.len(),
            vviews(out@) + lines_from(v@, pos as int) == lines(v@),
        decreases v@.len() - pos,
    {
        let ghost before = vviews(out@);
        match find_from_exec(v, &nl, pos) {
            Some(i) => {
                proof {
                    lemma_find_from_bounds(v@, nl@, pos as int);
                }
                let mut end = i;
                if end > pos && v[end - 1] == '\r' {
                    end = end - 1;
                }
                let line = vec_range(v, pos, end);
                proof {
                    let piece = v@.subrange(pos as int, i as int);
                    if i > pos && v@[i - 1] == '\r' {
                        assert(strip_cr(piece) =~= v@.subrange(pos as int, end as int));
                    } else {
                        assert(strip_cr(piece) =~= v@.subrange(pos as int, end as int));
                    }
                }
                out.push(line);
                proof {
                    assert(vviews(out@) =~= before.push(v@.subrange(pos as int, end as int)));
                    assert(lines_from(v@, pos as int) == seq![strip_cr(v@.subrange(pos as int, i as int))] + lines_from(v@, i + 1));
                    assert(vviews(out@) + lines_from(v@, i + 1) =~= before + lines_from(v@, pos as int));
                }
                pos = i + 1;
            },
            None => {
                let line = vec_range(v, pos, v.len());
                out.push(line);
                proof {
                    assert(vviews(out@) =~= before.push(v@.subrange(pos as int, v@.len() as int)));
                    assert(lines_from(v@, v@.len() as int) == Seq::<Seq<char>>::empty());
                    assert(vviews(out@) + lines_from(v@, v@.len() as int) =~= before + lines_from(v@, pos as int));
                }
                pos = v.len();
            },
        }
    }
    assert(lines_from(v@, pos as int) == Seq::<Seq<char>>::empty());
    assert(vviews(out@) =~= vviews(out@) + lines_from(v@, pos as int));
    out
}

/// The words of `v` (see [`split_ws`]).
pub fn split_whitespace(v: &Vec<char>) -> (r: Vec<Vec<char>>)
    ensures
        vviews(r@) == split_ws(v@),
{
    let mut words: Vec<Vec<char>> = Vec::new();
    let mut cur: Vec<char> = Vec::new();
    let mut i: usize = 0;
    while i < v.len()
        invariant
            0 <= i <= v@.len(),
            (vviews(words@), cur@) == ws_split_state(v@, i as nat),
        decreases v@.len() - i,
    {
        let ghost w0 = vviews(words@);
        let c = v[i];
        if char_is_ws(c) {
            if cur.len() > 0 {
                let done = cur;
                words.push(done);
                cur = Vec::new();
                assert(vviews(words@) =~= w0.push(done@));
            }
        } else {
            cur.push(c);
        }
        i += 1;
    }
    let ghost w0 = vviews(words@);
    if cur.len() > 0 {
        words.push(cur);
        assert(vviews(words@) =~= w0.push(cur@));
    }
    words
}

/// The state after reading `s[..n]` when splitting at `sep`: the pieces
/// completed so far, and the piece being read.
pub open spec fn split_state(s: Seq<char>, sep: char, n: nat) -> (Seq<Seq<char>>, Seq<char>)
    decreases n,
{
    if n == 0 || n > s.len() {
        (seq![], seq![])
    } else {
        let (pieces, cur) = split_state(s, sep, (n - 1) as nat);
        if s[n - 1] == sep {
            (pieces.push(cur), seq![])
        } else {
            (pieces, cur.push(s[n - 1]))
        }
    }
}

/// The pieces of `s` between occurrences of `sep` (`str::split`), empty
/// pieces included; there is always at least one.
pub open spec fn split_char(s: Seq<char>, sep: char) -> Seq<Seq<char>> {
    let (pieces, cur) = split_state(s, sep, s.len());
    pieces.push(cur)
}

proof fn lemma_split_state_prefix(a: Seq<char>, rest: Seq<char>, sep: char, n: nat)
    requires
        n <= a.len(),
    ensures
        split_state(a + rest, sep, n) == split_state(a, sep, n),
    decreases n,
{
    if n > 0 {
        lemma_split_state_prefix(a, rest, sep, (n - 1) as nat);
        assert((a + rest)[n - 1] == a[n - 1]);
    }
}

proof fn lemma_split_state_after(a: Seq<char>, b: Seq<char>, sep: char, m: nat)
    requires
        m <= b.len(),
    ensures
        ({
            let (pb, cb) = split_state(b, sep, m);
            split_state(a + seq![sep] + b, sep, a.len() + 1 + m) == (split_char(a, sep) + pb, cb)
        }),
    decreases m,
{
    let s = a + seq![sep] + b;
    if m == 0 {
        lemma_split_state_prefix(a, seq![sep] + b, sep, a.len());
        assert(a + (seq![sep] + b) =~= s);
        assert(s[a.len() as int] == sep);
        assert(split_char(a, sep) + seq![] =~= split_char(a, sep));
    } else {
        lemma_split_state_after(a, b, sep, (m - 1) as nat);
        assert(s[a.len() + m as int] == b[m - 1]);
        let (pb, cb) = split_state(b, sep, (m - 1) as nat);
        assert((split_char(a, sep) + pb).push(cb) =~= split_char(a, sep) + pb.push(cb));
    }
}

/// Splitting `a`, a separator and `b` gives the pieces of `a` followed by
/// those of `b`.
pub proof fn lemma_split_char_join(a: Seq<char>, b: Seq<char>, sep: char)
    ensures
        split_char(a + seq![sep] + b, sep) == split_char(a, sep) + split_char(b, sep),
{
    lemma_split_state_after(a, b, sep, b.len());
    let (pb, cb) = split_state(b, sep, b.len());
    assert((split_char(a, sep) + pb).push(cb) =~= split_char(a, sep) + pb.push(cb));
}

proof fn lemma_split_state_no_sep(s: Seq<char>, sep: char, n: nat)
    requires
        n <= s.len(),
        forall|i: int| 0 <= i < s.len() ==> #[trigger] s[i] != sep,
    ensures
        split_state(s, sep, n) == (Seq::<Seq<char>>::empty(), s.take(n as int)),
    decreases n,
{
    if n > 0 {
        lemma_split_state_no_sep(s, sep, (n - 1) as nat);
        assert(s.take(n - 1).push(s[n - 1]) =~= s.take(n as int));
    } else {
        assert(s.take(0) =~= Seq::<char>::empty());
    }
}

/// A text without the separator is one piece.
pub proof fn lemma_split_char_single(s: Seq<char>, sep: char)
    requires
        forall|i: int| 0 <= i < s.len() ==> #[trigger] s[i] != sep,
    ensures
        split_char(s, sep) == seq![s],
{
    lemma_split_state_no_sep(s, sep, s.len());
    assert(s.take(s.len() as int) =~= s);
    assert(Seq::<Seq<char>>::empty().push(s) =~= seq![s]);
}

/// The pieces of `v` between occurrences of `sep` (see [`split_char`]).
pub fn split_at_char(v: &Vec<char>, sep: char) -> (r: Vec<Vec<char>>)
    ensures
        vviews(r@) == split_char(v@, sep),
{
    let mut pieces: Vec<Vec<char>> = Vec::new();
    let mut cur: Vec<char> = Vec::new();
    let mut i: usize = 0;
    while i < v.len()
        invariant
            0 <= i <= v@.len(),
            (vviews(pieces@), cur@) == split_state(v@, sep, i as nat),
        decreases v@.len() - i,
    {
        let ghost p0 = vviews(pieces@);
        if v[i] == sep {
            let done = cur;
            pieces.push(done);
            cur = Vec::new();
            assert(vviews(pieces@) =~= p0.push(done@));
        } else {
            cur.push(v[i]);
        }
        i += 1;
    }
    let ghost p1 = vviews(pieces@);
    let last = cur;
    pieces.push(last);
    assert(vviews(pieces@) =~= p1.push(last@));
    pieces
}

/// `c` with an ASCII upper-case letter made lower case.
pub open spec fn ascii_lower(c: char) -> char {
    if 'A' <= c && c <= 'Z' {
        ((c as u32) + 32) as char
    } else {
        c
    }
}

/// Whether `a` and `b` are equal when ASCII letters are compared without
/// regard to case (`str::eq_ignore_ascii_case`).
pub open spec fn eq_ignore_ascii_case(a: Seq<char>, b: Seq<char>) -> bool {
    a.len() == b.len() && forall|i: int| 0 <= i < a.len() ==> ascii_lower(#[trigger] a[i]) == ascii_lower(b[i])
}

pub fn ascii_lower_exec(c: char) -> (r: char)
    ensures
        r == ascii_lower(c),
{
    if 'A' <= c && c <= 'Z' {
        let b = c as u8;
        (b + 32) as char
    } else {
        c
    }
}

/// Whether `a` equals `b` without regard to ASCII case.
pub fn eq_ignore_case(a: &Vec<char>, b: &str) -> (r: bool)
    ensures
        r == eq_ignore_ascii_case(a@, b@),
{
    let w = chars_of(b);
    if a.len() != w.len() {
        return false;
    }
    let mut i: usize = 0;
    while i < a.len()
        invariant
            w@ == b@,
            a@.len() == w@.len(),
            0 <= i <= a@.len(),
            forall|j: int| 0 <= j < i ==> ascii_lower(#[trigger] a@[j]) == ascii_lower(w@[j]),
        decreases a@.len() - i,
    {
        if ascii_lower_exec(a[i]) != ascii_lower_exec(w[i]) {
            return false;
        }
        i += 1;
    }
    true
}

/// The decimal digit character for `d < 10`.
pub open spec fn digit_char(d: nat) -> char {
    if d == 0 {
        '0'
    } else if d == 1 {
        '1'
    } else if d == 2 {
        '2'
    } else if d == 3 {
        '3'
    } else if d == 4 {
        '4'
    } else if d == 5 {
        '5'
    } else if d == 6 {
        '6'
    } else if d == 7 {
        '7'
    } else if d == 8 {
        '8'
    } else {
        '9'
    }
}

/// The decimal notation of `n`, without leading zeros.
pub open spec fn decimal(n: nat) -> Seq<char>
    decreases n,
{
    if n < 10 {
        seq![digit_char(n)]
    } else {
        decimal(n / 10).push(digit_char(n % 10))
    }
}

/// The decimal notation of the signed `n`.
pub open spec fn signed_decimal(n: int) -> Seq<char> {
    if n < 0 {
        seq!['-'] + decimal((-n) as nat)
    } else {
        decimal(n as nat)
    }
}

fn digit_exec(d: u64) -> (c: char)
    requires
        d < 10,
    ensures
        c == digit_char(d as nat),
{
    if d == 0 {
        '0'
    } else if d == 1 {
        '1'
    } else if d == 2 {
        '2'
    } else if d == 3 {
        '3'
    } else if d == 4 {
        '4'
    } else if d == 5 {
        '5'
    } else if d == 6 {
        '6'
    } else if d == 7 {
        '7'
    } else if d == 8 {
        '8'
    } else {
        '9'
    }
}

fn decimal_chars(n: u64) -> (r: Vec<char>)
    ensures
        r@ == decimal(n as nat),
    decreases n,
{
    if n < 10 {
        let mut v: Vec<char> = Vec::new();
        v.push(digit_exec(n));
        assert(v@ =~= seq![digit_char(n as nat)]);
        v
    } else {
        let mut v = decimal_chars(n / 10);
        v.push(digit_exec(n % 10));
        v
    }
}

/// The decimal notation of `n` (`u64::to_string`).
pub fn u64_to_string(n: u64) -> (s: String)
    ensures
        s@ == decimal(n as nat),
{
    string_of(&decimal_chars(n))
}

/// The decimal notation of `n` (`i64::to_string`).
pub fn i64_to_string(n: i64) -> (s: String)
    ensures
        s@ == signed_decimal(n as int),
{
    if n < 0 {
        let m: u64 = if n == i64::MIN {
            9223372036854775808u64
        } else {
            (-n) as u64
        };
        let mut s = String::new();
        push_char(&mut s, '-');
        s.append(u64_to_string(m).as_str());
        assert(s@ =~= seq!['-'] + decimal(m as nat));
        s
    } else {
        u64_to_string(n as u64)
    }
}

/// `a` followed by `b`.
pub fn concat(a: &str, b: &str) -> (r: String)
    ensures
        r@ == a@ + b@,
{
    let mut r = a.to_owned();
    r.append(b);
    r
}


/// Whether `s` ends with `suffix` (see [`ends_with`]).
pub fn ends_with_str(s: &str, suffix: &str) -> (r: bool)
    ensures
        r == ends_with(s@, suffix@),
{
    let v = chars_of(s);
    let w = chars_of(suffix);
    if w.len() > v.len() {
        return false;
    }
    let off = v.len() - w.len();
    let mut i: usize = 0;
    while i < w.len()
        invariant
            v@ == s@,
            w@ == suffix@,
            off + w.len() == v.len(),
            0 <= i <= w@.len(),
            forall|j: int| 0 <= j < i ==> v@[off + j] == #[trigger] w@[j],
        decreases w@.len() - i,
    {
        if v[off + i] != w[i] {
            assert(v@.skip(off as int)[i as int] != w@[i as int]);
            return false;
        }
        i += 1;
    }
    assert(v@.skip(off as int) =~= w@);
    true
}

/// The pieces of `ss` joined, with `sep` between neighbours
/// (`[String]::join`).
pub open spec fn join(ss: Seq<Seq<char>>, sep: Seq<char>) -> Seq<char>
    decreases ss.len(),
{
    if ss.len() == 0 {
        seq![]
    } else if ss.len() == 1 {
        ss[0]
    } else {
        join(ss.drop_last(), sep) + sep + ss.last()
    }
}

/// The strings of `ss` joined with `sep` between neighbours (see [`join`]).
pub fn join_strings(ss: &Vec<String>, sep: &str) -> (r: String)
    ensures
        r@ == join(sviews(ss@), sep@),
{
    let mut r = String::new();
    let mut i: usize = 0;
    while i < ss.len()
        invariant
            0 <= i <= ss@.len(),
            r@ == join(sviews(ss@).take(i as int), sep@),
        decreases ss@.len() - i,
    {
        let ghost before = r@;
        if i > 0 {
            r.append(sep);
        }
        r.append(ss[i].as_str());
        proof {
            let t = sviews(ss@).take(i as int + 1);
            assert(t.drop_last() =~= sviews(ss@).take(i as int));
            if i == 0 {
                assert(before == Seq::<char>::empty());
                assert(r@ =~= t[0]);
            } else {
                assert(r@ =~= before + sep@ + t.last());
            }
        }
        i += 1;
    }
    assert(sviews(ss@).take(ss@.len() as int) =~= sviews(ss@));
    r
}

} // verus!
