//! Text utilities over character sequences: the pieces of `str`'s behaviour
//! (trimming, line and field splitting, number parsing and printing) that the
//! status bar's parsers rely on, each stated over `Seq<char>`.
use vstd::prelude::*;

verus! {

// ───────────────────────── specifications ─────────────────────────

/// The Unicode `White_Space` property, as `char::is_whitespace` tests it.
pub open spec fn is_whitespace(c: char) -> bool {
    ||| ('\u{9}' <= c && c <= '\u{d}')
    ||| c == ' '
    ||| c == '\u{85}'
    ||| c == '\u{a0}'
    ||| c == '\u{1680}'
    ||| ('\u{2000}' <= c && c <= '\u{200a}')
    ||| c == '\u{2028}'
    ||| c == '\u{2029}'
    ||| c == '\u{202f}'
    ||| c == '\u{205f}'
    ||| c == '\u{3000}'
}

pub open spec fn eq_char(c: char) -> spec_fn(char) -> bool {
    |x: char| x == c
}

pub open spec fn ws_pred() -> spec_fn(char) -> bool {
    |x: char| is_whitespace(x)
}

pub open spec fn non_ws_pred() -> spec_fn(char) -> bool {
    |x: char| !is_whitespace(x)
}

/// Index of the first character of `s` satisfying `p`, or `s.len()` if none does.
pub open spec fn first_match(s: Seq<char>, p: spec_fn(char) -> bool) -> int
    decreases s.len(),
{
    if s.len() == 0 {
        0
    } else if p(s[0]) {
        0
    } else {
        1 + first_match(s.drop_first(), p)
    }
}

/// `s` without leading whitespace.
pub open spec fn trim_start(s: Seq<char>) -> Seq<char> {
    s.skip(first_match(s, non_ws_pred()))
}

/// Length of `s` once trailing whitespace is removed.
pub open spec fn trimmed_end_len(s: Seq<char>) -> int
    decreases s.len(),
{
    if s.len() == 0 {
        0
    } else if is_whitespace(s.last()) {
        trimmed_end_len(s.drop_last())
    } else {
        s.len() as int
    }
}

/// `s` without leading or trailing whitespace (`str::trim`).
pub open spec fn trim(s: Seq<char>) -> Seq<char> {
    let t = trim_start(s);
    t.take(trimmed_end_len(t))
}

/// Drops one trailing carriage return.
pub open spec fn strip_cr(t: Seq<char>) -> Seq<char> {
    if t.len() > 0 && t.last() == '\r' {
        t.drop_last()
    } else {
        t
    }
}

/// The lines of `s` as `str::lines` yields them: split at `\n`, a `\r` right
/// before a `\n` dropped, no empty last line for a trailing newline.
pub open spec fn lines(s: Seq<char>) -> Seq<Seq<char>>
    decreases s.len(),
{
    if s.len() == 0 {
        seq![]
    } else {
        let i = first_match(s, eq_char('\n'));
        if i >= s.len() {
            seq![s]
        } else {
            proof {
                lemma_first_match(s, eq_char('\n'));
            }
            seq![strip_cr(s.take(i))] + lines(s.skip(i + 1))
        }
    }
}

/// The pieces of `s` as `str::splitn(n, c)` yields them (for `n >= 1`).
pub open spec fn splitn(s: Seq<char>, n: nat, c: char) -> Seq<Seq<char>>
    decreases n,
{
    if n <= 1 {
        seq![s]
    } else {
        let i = first_match(s, eq_char(c));
        if i >= s.len() {
            seq![s]
        } else {
            seq![s.take(i)] + splitn(s.skip(i + 1), (n - 1) as nat, c)
        }
    }
}

/// The words of `s` as `str::split_whitespace` yields them.
pub open spec fn split_whitespace(s: Seq<char>) -> Seq<Seq<char>>
    decreases s.len(),
{
    if s.len() == 0 {
        seq![]
    } else if is_whitespace(s[0]) {
        split_whitespace(s.drop_first())
    } else {
        let k = first_match(s, ws_pred());
        proof {
            lemma_first_match(s.drop_first(), ws_pred());
        }
        seq![s.take(k)] + split_whitespace(s.skip(k))
    }
}

/// `str::strip_prefix`.
pub open spec fn strip_prefix(s: Seq<char>, p: Seq<char>) -> Option<Seq<char>> {
    if p.len() <= s.len() && s.take(p.len() as int) == p {
        Some(s.skip(p.len() as int))
    } else {
        None
    }
}

/// `str::strip_suffix`.
pub open spec fn strip_suffix(s: Seq<char>, p: Seq<char>) -> Option<Seq<char>> {
    if p.len() <= s.len() && s.skip(s.len() - p.len()) == p {
        Some(s.take(s.len() - p.len()))
    } else {
        None
    }
}

/// `p` occurs in `s` at position `i`.
pub open spec fn occurs_at(s: Seq<char>, p: Seq<char>, i: int) -> bool {
    0 <= i && i + p.len() <= s.len() && s.subrange(i, i + p.len()) == p
}

/// `str::contains` with a string pattern.
pub open spec fn contains(s: Seq<char>, p: Seq<char>) -> bool {
    exists|i: int| occurs_at(s, p, i)
}

/// `str::replace`: every non-overlapping occurrence of the non-empty `pat`,
/// scanned left to right, replaced by `rep`.
pub open spec fn replace(s: Seq<char>, pat: Seq<char>, rep: Seq<char>) -> Seq<char>
    decreases s.len(),
{
    if s.len() == 0 {
        seq![]
    } else if pat.len() > 0 && occurs_at(s, pat, 0) {
        rep + replace(s.skip(pat.len() as int), pat, rep)
    } else {
        seq![s[0]] + replace(s.drop_first(), pat, rep)
    }
}

/// `char::to_ascii_lowercase`.
pub open spec fn ascii_lower(c: char) -> char {
    if 'A' <= c && c <= 'Z' {
        ((c as u32) + 32) as char
    } else {
        c
    }
}

/// `str::eq_ignore_ascii_case`.
pub open spec fn eq_ignore_ascii_case(a: Seq<char>, b: Seq<char>) -> bool {
    a.len() == b.len() && forall|i: int| 0 <= i < a.len() ==> ascii_lower(a[i]) == ascii_lower(b[i])
}

pub open spec fn is_digit(c: char) -> bool {
    '0' <= c && c <= '9'
}

pub open spec fn digit_value(c: char) -> nat {
    ((c as u32) - ('0' as u32)) as nat
}

/// The number written by the decimal digits `s` (most significant first).
pub open spec fn decimal_value(s: Seq<char>) -> nat
    decreases s.len(),
{
    if s.len() == 0 {
        0
    } else {
        decimal_value(s.drop_last()) * 10 + digit_value(s.last())
    }
}

/// The digits of an unsigned number as `str::parse` reads them: an optional
/// leading `+`, then at least one decimal digit.
pub open spec fn unsigned_digits(s: Seq<char>) -> Seq<char> {
    if s.len() > 0 && s[0] == '+' {
        s.drop_first()
    } else {
        s
    }
}

/// `str::parse` for an unsigned integer type whose largest value is `max`.
pub open spec fn parse_unsigned(s: Seq<char>, max: nat) -> Option<nat> {
    let d = unsigned_digits(s);
    if d.len() > 0 && (forall|i: int| 0 <= i < d.len() ==> is_digit(d[i])) && decimal_value(d) <= max {
        Some(decimal_value(d))
    } else {
        None
    }
}

pub open spec fn digit_char(d: nat) -> char {
    ((d + 48) as u8) as char
}

/// The decimal representation of `n`, as `Display` prints an unsigned integer.
pub open spec fn decimal(n: nat) -> Seq<char>
    decreases n,
{
    if n < 10 {
        seq![digit_char(n)]
    } else {
        decimal(n / 10).push(digit_char(n % 10))
    }
}

// ───────────────────────── lemmas ─────────────────────────

pub proof fn lemma_first_match(s: Seq<char>, p: spec_fn(char) -> bool)
    ensures
        0 <= first_match(s, p) <= s.len(),
        forall|j: int| 0 <= j < first_match(s, p) ==> !p(#[trigger] s[j]),
        first_match(s, p) < s.len() ==> p(s[first_match(s, p)]),
    decreases s.len(),
{
    if s.len() > 0 && !p(s[0]) {
        lemma_first_match(s.drop_first(), p);
        assert forall|j: int| 0 <= j < first_match(s, p) implies !p(#[trigger] s[j]) by {
            if j > 0 {
                assert(s[j] == s.drop_first()[j - 1]);
            }
        }
    }
}

pub proof fn lemma_first_match_unique(s: Seq<char>, p: spec_fn(char) -> bool, i: int)
    requires
        0 <= i <= s.len(),
        forall|j: int| 0 <= j < i ==> !p(#[trigger] s[j]),
        i < s.len() ==> p(s[i]),
    ensures
        first_match(s, p) == i,
{
    lemma_first_match(s, p);
    let f = first_match(s, p);
    if f < i {
        assert(!p(s[f]));
    } else if i < f {
        assert(!p(s[i]));
    }
}

// ───────────────────────── executable parts ─────────────────────────

/// `char::is_whitespace`.
pub fn is_ws(c: char) -> (r: bool)
    ensures
        r == is_whitespace(c),
{
    ('\u{9}' <= c && c <= '\u{d}') || c == ' ' || c == '\u{85}' || c == '\u{a0}' || c == '\u{1680}'
        || ('\u{2000}' <= c && c <= '\u{200a}') || c == '\u{2028}' || c == '\u{2029}' || c
        == '\u{202f}' || c == '\u{205f}' || c == '\u{3000}'
}

/// The characters of `s`, in order.
pub fn chars_of(s: &str) -> (res: Vec<char>)
    ensures
        res@ == s@,
{
    let mut out: Vec<char> = Vec::new();
    for c in it: s.chars()
        invariant
            out@ == it.seq().take(it.index() as int),
            it.seq() == s@,
    {
        out.push(c);
    }
    out
}

/// Appends one character to a `String` (`String::push`).
#[verifier::external_body]
fn push_char(s: &mut String, c: char)
    ensures
        final(s)@ == old(s)@.push(c),
{
    s.push(c);
}

/// The `String` holding exactly the characters of `chars`.
pub fn string_of(chars: &Vec<char>) -> (res: String)
    ensures
        res@ == chars@,
{
    let mut out = String::new();
    for i in 0..chars.len()
        invariant
            out@ == chars@.take(i as int),
    {
        push_char(&mut out, chars[i]);
        assert(chars@.take(i + 1) == chars@.take(i as int).push(chars@[i as int]));
    }
    assert(chars@.take(chars.len() as int) == chars@);
    out
}

/// The characters `s[from..to]`.
pub fn copy_range(s: &Vec<char>, from: usize, to: usize) -> (res: Vec<char>)
    requires
        from <= to <= s.len(),
    ensures
        res@ == s@.subrange(from as int, to as int),
{
    let mut out: Vec<char> = Vec::new();
    let mut i = from;
    while i < to
        invariant
            from <= i <= to <= s.len(),
            out@ == s@.subrange(from as int, i as int),
        decreases to - i,
    {
        out.push(s[i]);
        assert(s@.subrange(from as int, i + 1) == s@.subrange(from as int, i as int).push(s@[i as int]));
        i = i + 1;
    }
    out
}

/// Position of the first `c` in `s` at or after `from`, or `s.len()`.
pub fn find_char_from(s: &Vec<char>, from: usize, c: char) -> (r: usize)
    requires
        from <= s.len(),
    ensures
        r == from + first_match(s@.skip(from as int), eq_char(c)),
        from <= r <= s.len(),
{
    let mut i = from;
    while i < s.len() && s[i] != c
        invariant
            from <= i <= s.len(),
            forall|j: int| from <= j < i ==> s@[j] != c,
        decreases s.len() - i,
    {
        i = i + 1;
    }
    proof {
        let t = s@.skip(from as int);
        assert forall|j: int| 0 <= j < i - from implies !eq_char(c)(#[trigger] t[j]) by {
            assert(t[j] == s@[from + j]);
        }
        lemma_first_match_unique(t, eq_char(c), i - from);
    }
    i
}

/// Position of the first whitespace in `s` at or after `from`, or `s.len()`.
pub fn find_ws_from(s: &Vec<char>, from: usize) -> (r: usize)
    requires
        from <= s.len(),
    ensures
        r == from + first_match(s@.skip(from as int), ws_pred()),
        from <= r <= s.len(),
{
    let mut i = from;
    while i < s.len() && !is_ws(s[i])
        invariant
            from <= i <= s.len(),
            forall|j: int| from <= j < i ==> !is_whitespace(s@[j]),
        decreases s.len() - i,
    {
        i = i + 1;
    }
    proof {
        let t = s@.skip(from as int);
        assert forall|j: int| 0 <= j < i - from implies !ws_pred()(#[trigger] t[j]) by {
            assert(t[j] == s@[from + j]);
        }
        lemma_first_match_unique(t, ws_pred(), i - from);
    }
    i
}

/// Position of the first non-whitespace in `s` at or after `from`, or `s.len()`.
pub fn find_non_ws_from(s: &Vec<char>, from: usize) -> (r: usize)
    requires
        from <= s.len(),
    ensures
        r == from + first_match(s@.skip(from as int), non_ws_pred()),
        from <= r <= s.len(),
{
    let mut i = from;
    while i < s.len() && is_ws(s[i])
        invariant
            from <= i <= s.len(),
            forall|j: int| from <= j < i ==> is_whitespace(s@[j]),
        decreases s.len() - i,
    {
        i = i + 1;
    }
    proof {
        let t = s@.skip(from as int);
        assert forall|j: int| 0 <= j < i - from implies !non_ws_pred()(#[trigger] t[j]) by {
            assert(t[j] == s@[from + j]);
        }
        lemma_first_match_unique(t, non_ws_pred(), i - from);
    }
    i
}


pub proof fn lemma_trimmed_end_len(t: Seq<char>, b: int)
    requires
        0 <= b <= t.len(),
        forall|j: int| b <= j < t.len() ==> is_whitespace(#[trigger] t[j]),
        b > 0 ==> !is_whitespace(t[b - 1]),
    ensures
        trimmed_end_len(t) == b,
    decreases t.len(),
{
    if t.len() > 0 && b < t.len() {
        assert(is_whitespace(t.last()));
        assert forall|j: int| b <= j < t.drop_last().len() implies is_whitespace(
            #[trigger] t.drop_last()[j],
        ) by {
            assert(t.drop_last()[j] == t[j]);
        }
        lemma_trimmed_end_len(t.drop_last(), b);
    }
}

/// `str::trim`.
pub fn trim_chars(s: &Vec<char>) -> (res: Vec<char>)
    ensures
        res@ == trim(s@),
{
    let a = find_non_ws_from(s, 0);
    let mut b = s.len();
    while b > a && is_ws(s[b - 1])
        invariant
            a <= b <= s.len(),
            forall|j: int| b <= j < s.len() ==> is_whitespace(#[trigger] s@[j]),
        decreases b,
    {
        b = b - 1;
    }
    proof {
        assert(s@.skip(0) == s@);
        let t = s@.skip(a as int);
        lemma_first_match(s@, non_ws_pred());
        if b > a {
            assert(!is_whitespace(t[b - a - 1]));
        }
        assert forall|j: int| b - a <= j < t.len() implies is_whitespace(#[trigger] t[j]) by {
            assert(t[j] == s@[a + j]);
        }
        lemma_trimmed_end_len(t, b - a);
        assert(t.take(b - a) == s@.subrange(a as int, b as int));
    }
    copy_range(s, a, b)
}

/// Whether `a` and `b` hold the same characters.
pub fn chars_eq(a: &Vec<char>, b: &Vec<char>) -> (r: bool)
    ensures
        r == (a@ == b@),
{
    if a.len() != b.len() {
        return false;
    }
    let mut i: usize = 0;
    while i < a.len()
        invariant
            a.len() == b.len(),
            0 <= i <= a.len(),
            forall|j: int| 0 <= j < i ==> a@[j] == b@[j],
        decreases a.len() - i,
    {
        if a[i] != b[i] {
            return false;
        }
        i = i + 1;
    }
    assert(a@ =~= b@);
    true
}

/// Drops a trailing `\r`.
fn strip_cr_chars(t: Vec<char>) -> (res: Vec<char>)
    ensures
        res@ == strip_cr(t@),
{
    let mut t = t;
    if t.len() > 0 && t[t.len() - 1] == '\r' {
        t.pop();
    }
    t
}

/// `str::lines`.
pub fn lines_of(s: &Vec<char>) -> (res: Vec<Vec<char>>)
    ensures
        res.deep_view() == lines(s@),
{
    let mut out: Vec<Vec<char>> = Vec::new();
    let mut pos: usize = 0;
    assert(s@.skip(0) == s@);
    while pos < s.len()
        invariant
            pos <= s.len(),
            out.deep_view() + lines(s@.skip(pos as int)) == lines(s@),
        decreases s.len() - pos,
    {
        let i = find_char_from(s, pos, '\n');
        let ghost rest = s@.skip(pos as int);
        let ghost before = out.deep_view();
        let ghost p0 = pos;
        if i == s.len() {
            let piece = copy_range(s, pos, i);
            assert(piece@ == rest);
            assert(piece.deep_view() =~= piece@);
            out.push(piece);
            assert(out.deep_view() =~= before.push(rest));
            pos = i;
            assert(lines(s@.skip(pos as int)) == Seq::<Seq<char>>::empty());
            assert(lines(rest) == seq![rest]);
            assert(out.deep_view() + lines(s@.skip(pos as int)) =~= before + lines(rest));
        } else {
            let piece = strip_cr_chars(copy_range(s, pos, i));
            assert(rest.take(i - pos) == s@.subrange(pos as int, i as int));
            assert(rest.skip(i - pos + 1) == s@.skip(i + 1));
            assert(piece.deep_view() =~= piece@);
            out.push(piece);
            assert(out.deep_view() =~= before.push(strip_cr(rest.take(i - pos))));
            pos = i + 1;
            assert(first_match(rest, eq_char('\n')) == i - p0);
            assert(lines(rest) == seq![strip_cr(rest.take(i - p0))] + lines(s@.skip(pos as int)));
            assert(out.deep_view() + lines(s@.skip(pos as int)) =~= before + lines(rest));
        }
    }
    assert(lines(s@.skip(pos as int)) == Seq::<Seq<char>>::empty());
    assert(out.deep_view() =~= out.deep_view() + lines(s@.skip(pos as int)));
    out
}

/// `str::splitn(n, c)`.
pub fn splitn_chars(s: &Vec<char>, n: usize, c: char) -> (res: Vec<Vec<char>>)
    requires
        n >= 1,
    ensures
        res.deep_view() == splitn(s@, n as nat, c),
{
    let mut out: Vec<Vec<char>> = Vec::new();
    let mut pos: usize = 0;
    let mut k: usize = n;
    assert(s@.skip(0) == s@);
    loop
        invariant
            pos <= s.len(),
            k >= 1,
            out.deep_view() + splitn(s@.skip(pos as int), k as nat, c) == splitn(s@, n as nat, c),
        decreases k,
    {
        let ghost rest = s@.skip(pos as int);
        let ghost before = out.deep_view();
        if k == 1 {
            let piece = copy_range(s, pos, s.len());
            assert(piece@ == rest);
            assert(piece.deep_view() =~= piece@);
            out.push(piece);
            assert(out.deep_view() =~= before + splitn(rest, k as nat, c));
            return out;
        }
        let i = find_char_from(s, pos, c);
        if i == s.len() {
            let piece = copy_range(s, pos, s.len());
            assert(piece@ == rest);
            assert(piece.deep_view() =~= piece@);
            out.push(piece);
            assert(out.deep_view() =~= before + splitn(rest, k as nat, c));
            return out;
        }
        let piece = copy_range(s, pos, i);
        let ghost p0 = pos;
        assert(rest.take(i - p0) == piece@);
        assert(rest.skip(i - p0 + 1) == s@.skip(i + 1));
        assert(piece.deep_view() =~= piece@);
        out.push(piece);
        pos = i + 1;
        k = k - 1;
        assert(splitn(rest, (k + 1) as nat, c) == seq![rest.take(i - p0)] + splitn(
            s@.skip(pos as int),
            k as nat,
            c,
        ));
        assert(out.deep_view() + splitn(s@.skip(pos as int), k as nat, c) =~= before + splitn(
            rest,
            (k + 1) as nat,
            c,
        ));
    }
}

proof fn lemma_split_whitespace_skip(t: Seq<char>, k: int)
    requires
        0 <= k <= t.len(),
        forall|j: int| 0 <= j < k ==> is_whitespace(#[trigger] t[j]),
    ensures
        split_whitespace(t) == split_whitespace(t.skip(k)),
    decreases k,
{
    if k > 0 {
        assert forall|j: int| 0 <= j < k - 1 implies is_whitespace(#[trigger] t.drop_first()[j]) by {
            assert(t.drop_first()[j] == t[j + 1]);
        }
        lemma_split_whitespace_skip(t.drop_first(), k - 1);
        assert(t.drop_first().skip(k - 1) == t.skip(k));
    } else {
        assert(t.skip(0) == t);
    }
}

/// `str::split_whitespace`.
pub fn split_whitespace_chars(s: &Vec<char>) -> (res: Vec<Vec<char>>)
    ensures
        res.deep_view() == split_whitespace(s@),
{
    let mut out: Vec<Vec<char>> = Vec::new();
    let mut pos: usize = 0;
    assert(s@.skip(0) == s@);
    loop
        invariant
            pos <= s.len(),
            out.deep_view() + split_whitespace(s@.skip(pos as int)) == split_whitespace(s@),
        decreases s.len() - pos,
    {
        let ghost before = out.deep_view();
        let a = find_non_ws_from(s, pos);
        proof {
            let rest = s@.skip(pos as int);
            lemma_first_match(rest, non_ws_pred());
            assert forall|j: int| 0 <= j < a - pos implies is_whitespace(#[trigger] rest[j]) by {
                assert(!non_ws_pred()(rest[j]));
            }
            lemma_split_whitespace_skip(rest, a - pos);
            assert(rest.skip(a - pos) == s@.skip(a as int));
        }
        if a == s.len() {
            assert(s@.skip(a as int).len() == 0);
            assert(out.deep_view() =~= out.deep_view() + split_whitespace(s@.skip(a as int)));
            return out;
        }
        let e = find_ws_from(s, a);
        let piece = copy_range(s, a, e);
        proof {
            let t = s@.skip(a as int);
            lemma_first_match(s@.skip(pos as int), non_ws_pred());
            assert(!is_whitespace(t[0]));
            assert(t.take(e - a) == piece@);
            assert(t.skip(e - a) == s@.skip(e as int));
            assert(split_whitespace(t) == seq![t.take(e - a)] + split_whitespace(t.skip(e - a)));
            lemma_first_match(t, ws_pred());
        }
        assert(piece.deep_view() =~= piece@);
        out.push(piece);
        pos = e;
        assert(out.deep_view() + split_whitespace(s@.skip(pos as int)) =~= before + split_whitespace(
            s@.skip(a as int),
        ));
    }
}

/// `str::strip_prefix`.
pub fn strip_prefix_chars(s: &Vec<char>, p: &Vec<char>) -> (res: Option<Vec<char>>)
    ensures
        res.deep_view() == strip_prefix(s@, p@),
{
    if p.len() > s.len() {
        return None;
    }
    let head = copy_range(s, 0, p.len());
    assert(head@ == s@.take(p.len() as int));
    if chars_eq(&head, p) {
        let rest = copy_range(s, p.len(), s.len());
        assert(rest.deep_view() =~= rest@);
        assert(rest@ == s@.skip(p.len() as int));
        Some(rest)
    } else {
        None
    }
}

/// `str::strip_suffix`.
pub fn strip_suffix_chars(s: &Vec<char>, p: &Vec<char>) -> (res: Option<Vec<char>>)
    ensures
        res.deep_view() == strip_suffix(s@, p@),
{
    if p.len() > s.len() {
        return None;
    }
    let tail = copy_range(s, s.len() - p.len(), s.len());
    assert(tail@ == s@.skip(s.len() - p.len()));
    if chars_eq(&tail, p) {
        let rest = copy_range(s, 0, s.len() - p.len());
        assert(rest.deep_view() =~= rest@);
        assert(rest@ == s@.take(s.len() - p.len()));
        Some(rest)
    } else {
        None
    }
}

/// Whether `p` occurs in `s` at position `i`.
pub fn occurs_at_chars(s: &Vec<char>, p: &Vec<char>, i: usize) -> (r: bool)
    ensures
        r == occurs_at(s@, p@, i as int),
{
    if i > s.len() || p.len() > s.len() - i {
        return false;
    }
    let mut j: usize = 0;
    while j < p.len()
        invariant
            i + p.len() <= s.len(),
            0 <= j <= p.len(),
            forall|m: int| 0 <= m < j ==> s@[i + m] == p@[m],
        decreases p.len() - j,
    {
        if s[i + j] != p[j] {
            assert(s@.subrange(i as int, i + p.len())[j as int] != p@[j as int]);
            return false;
        }
        j = j + 1;
    }
    assert(s@.subrange(i as int, i + p.len()) =~= p@);
    true
}

/// `str::contains` with a string pattern.
pub fn contains_chars(s: &Vec<char>, p: &Vec<char>) -> (r: bool)
    ensures
        r == contains(s@, p@),
{
    if p.len() > s.len() {
        assert forall|i: int| !occurs_at(s@, p@, i) by {}
        return false;
    }
    let last = s.len() - p.len();
    let mut i: usize = 0;
    loop
        invariant
            p.len() <= s.len(),
            last == s.len() - p.len(),
            i <= last,
            forall|m: int| 0 <= m < i ==> !occurs_at(s@, p@, m),
        decreases last - i,
    {
        if occurs_at_chars(s, p, i) {
            return true;
        }
        if i == last {
            assert forall|m: int| !occurs_at(s@, p@, m) by {
                if 0 <= m < i {
                }
            }
            return false;
        }
        i = i + 1;
    }
}

/// `str::replace` with a non-empty pattern.
pub fn replace_chars(s: &Vec<char>, pat: &Vec<char>, rep: &Vec<char>) -> (res: Vec<char>)
    requires
        pat.len() > 0,
    ensures
        res@ == replace(s@, pat@, rep@),
{
    let mut out: Vec<char> = Vec::new();
    let mut pos: usize = 0;
    assert(s@.skip(0) == s@);
    while pos < s.len()
        invariant
            pos <= s.len(),
            pat.len() > 0,
            out@ + replace(s@.skip(pos as int), pat@, rep@) == replace(s@, pat@, rep@),
        decreases s.len() - pos,
    {
        let ghost rest = s@.skip(pos as int);
        let ghost before = out@;
        if occurs_at_chars(s, pat, pos) {
            assert(occurs_at(rest, pat@, 0)) by {
                assert(rest.subrange(0, pat.len() as int) == s@.subrange(pos as int, pos + pat.len()));
            }
            let mut j: usize = 0;
            while j < rep.len()
                invariant
                    0 <= j <= rep.len(),
                    out@ == before + rep@.take(j as int),
                decreases rep.len() - j,
            {
                out.push(rep[j]);
                assert(rep@.take(j + 1) == rep@.take(j as int).push(rep@[j as int]));
                j = j + 1;
            }
            assert(rep@.take(rep.len() as int) == rep@);
            assert(rest.skip(pat.len() as int) == s@.skip(pos + pat.len()));
            pos = pos + pat.len();
            assert(out@ + replace(s@.skip(pos as int), pat@, rep@) =~= before + replace(rest, pat@, rep@));
        } else {
            assert(!occurs_at(rest, pat@, 0)) by {
                if pat.len() <= rest.len() {
                    assert(rest.subrange(0, pat.len() as int) == s@.subrange(pos as int, pos + pat.len()));
                }
            }
            out.push(s[pos]);
            assert(rest.drop_first() == s@.skip(pos + 1));
            pos = pos + 1;
            assert(out@ + replace(s@.skip(pos as int), pat@, rep@) =~= before + replace(rest, pat@, rep@));
        }
    }
    assert(out@ =~= out@ + replace(s@.skip(pos as int), pat@, rep@));
    out
}

/// `char::to_ascii_lowercase`.
fn to_ascii_lower(c: char) -> (r: char)
    ensures
        r == ascii_lower(c),
{
    if 'A' <= c && c <= 'Z' {
        let u: u32 = c as u32;
        let v: u8 = (u + 32) as u8;
        v as char
    } else {
        c
    }
}

/// `str::eq_ignore_ascii_case`.
pub fn eq_ignore_ascii_case_chars(a: &Vec<char>, b: &Vec<char>) -> (r: bool)
    ensures
        r == eq_ignore_ascii_case(a@, b@),
{
    if a.len() != b.len() {
        return false;
    }
    let mut i: usize = 0;
    while i < a.len()
        invariant
            a.len() == b.len(),
            0 <= i <= a.len(),
            forall|j: int| 0 <= j < i ==> ascii_lower(a@[j]) == ascii_lower(b@[j]),
        decreases a.len() - i,
    {
        if to_ascii_lower(a[i]) != to_ascii_lower(b[i]) {
            return false;
        }
        i = i + 1;
    }
    true
}

proof fn lemma_decimal_value_prefix(s: Seq<char>, i: int, j: int)
    requires
        0 <= i <= j <= s.len(),
    ensures
        decimal_value(s.take(i)) <= decimal_value(s.take(j)),
    decreases j - i,
{
    if i < j {
        lemma_decimal_value_prefix(s, i, j - 1);
        assert(s.take(j).drop_last() == s.take(j - 1));
    }
}

/// `str::parse` for an unsigned integer type whose largest value is `max`.
pub fn parse_unsigned_chars(s: &Vec<char>, max: u64) -> (res: Option<u64>)
    ensures
        match res {
            Some(v) => parse_unsigned(s@, max as nat) == Some(v as nat),
            None => parse_unsigned(s@, max as nat) is None,
        },
{
    let start: usize = if s.len() > 0 && s[0] == '+' { 1 } else { 0 };
    let ghost d = unsigned_digits(s@);
    assert(d == s@.skip(start as int));
    if start == s.len() {
        return None;
    }
    let mut acc: u64 = 0;
    let mut i: usize = start;
    while i < s.len()
        invariant
            start <= i <= s.len(),
            d == s@.skip(start as int),
            d == unsigned_digits(s@),
            forall|j: int| 0 <= j < i - start ==> is_digit(#[trigger] d[j]),
            acc as nat == decimal_value(d.take(i - start)),
            acc <= max,
        decreases s.len() - i,
    {
        let c = s[i];
        assert(d[i - start] == s@[i as int]);
        if !('0' <= c && c <= '9') {
            assert(!is_digit(d[i - start]));
            return None;
        }
        let dv: u32 = (c as u32) - 48;
        let next: u128 = (acc as u128) * 10 + (dv as u128);
        assert(d.take(i - start + 1).drop_last() == d.take(i - start));
        assert(d.take(i - start + 1).last() == c);
        assert(next == decimal_value(d.take(i - start + 1)));
        if next > max as u128 {
            proof {
                if forall|j: int| 0 <= j < d.len() ==> is_digit(#[trigger] d[j]) {
                    lemma_decimal_value_prefix(d, i - start + 1, d.len() as int);
                    assert(d.take(d.len() as int) == d);
                }
            }
            return None;
        }
        acc = next as u64;
        i = i + 1;
    }
    assert(d.take(d.len() as int) == d);
    Some(acc)
}

fn digit_to_char(d: u64) -> (c: char)
    requires
        d < 10,
    ensures
        c == digit_char(d as nat),
{
    let b: u8 = (d as u8) + 48;
    b as char
}

/// The decimal representation of `n`.
pub fn decimal_chars(n: u64) -> (res: Vec<char>)
    ensures
        res@ == decimal(n as nat),
    decreases n,
{
    if n < 10 {
        let mut v: Vec<char> = Vec::new();
        v.push(digit_to_char(n));
        assert(v@ =~= seq![digit_char(n as nat)]);
        v
    } else {
        let mut v = decimal_chars(n / 10);
        v.push(digit_to_char(n % 10));
        v
    }
}

pub proof fn lemma_decimal_shape(n: nat)
    ensures
        decimal(n).len() > 0,
        forall|i: int| 0 <= i < decimal(n).len() ==> is_digit(#[trigger] decimal(n)[i]),
        decimal_value(decimal(n)) == n,
    decreases n,
{
    if n >= 10 {
        lemma_decimal_shape(n / 10);
        let d = decimal(n);
        assert(d.drop_last() == decimal(n / 10));
        assert(d.last() == digit_char(n % 10));
        assert(digit_value(digit_char(n % 10)) == n % 10);
        assert(n == (n / 10) * 10 + n % 10);
        assert(decimal_value(d) == decimal_value(d.drop_last()) * 10 + digit_value(d.last()));
        assert forall|i: int| 0 <= i < d.len() implies is_digit(#[trigger] d[i]) by {
            if i < d.len() - 1 {
                assert(d[i] == decimal(n / 10)[i]);
            }
        }
    } else {
        let d = decimal(n);
        assert(digit_value(digit_char(n)) == n);
        assert(d.drop_last() =~= Seq::<char>::empty());
        assert(decimal_value(d) == decimal_value(d.drop_last()) * 10 + digit_value(d.last()));
    }
}

/// Reading back a printed number gives the number: `str::parse` of the
/// decimal representation of `n` is `n`, for any type that can hold it.
pub proof fn lemma_parse_decimal_roundtrip(n: nat, max: nat)
    requires
        n <= max,
    ensures
        parse_unsigned(decimal(n), max) == Some(n),
{
    lemma_decimal_shape(n);
    assert(decimal(n)[0] != '+');
}

/// A `String` holding the characters of `s`.
pub fn string_from(s: &str) -> (res: String)
    ensures
        res@ == s@,
{
    string_of(&chars_of(s))
}

/// Position of the first element of `s` satisfying `p`, or `s.len()`.
pub open spec fn first_index<T>(s: Seq<T>, p: spec_fn(T) -> bool) -> int
    decreases s.len(),
{
    if s.len() == 0 {
        0
    } else if p(s[0]) {
        0
    } else {
        1 + first_index(s.drop_first(), p)
    }
}

pub proof fn lemma_first_index<T>(s: Seq<T>, p: spec_fn(T) -> bool)
    ensures
        0 <= first_index(s, p) <= s.len(),
        forall|j: int| 0 <= j < first_index(s, p) ==> !p(#[trigger] s[j]),
        first_index(s, p) < s.len() ==> p(s[first_index(s, p)]),
    decreases s.len(),
{
    if s.len() > 0 && !p(s[0]) {
        lemma_first_index(s.drop_first(), p);
        assert forall|j: int| 0 <= j < first_index(s, p) implies !p(#[trigger] s[j]) by {
            if j > 0 {
                assert(s[j] == s.drop_first()[j - 1]);
            }
        }
    }
}

pub proof fn lemma_first_index_unique<T>(s: Seq<T>, p: spec_fn(T) -> bool, i: int)
    requires
        0 <= i <= s.len(),
        forall|j: int| 0 <= j < i ==> !p(#[trigger] s[j]),
        i < s.len() ==> p(s[i]),
    ensures
        first_index(s, p) == i,
{
    lemma_first_index(s, p);
    let f = first_index(s, p);
    if f < i {
        assert(!p(s[f]));
    } else if i < f {
        assert(!p(s[i]));
    }
}

/// The pieces of `parts` joined with `sep` between them (`slice::join`).
pub open spec fn join(parts: Seq<Seq<char>>, sep: Seq<char>) -> Seq<char>
    decreases parts.len(),
{
    if parts.len() == 0 {
        seq![]
    } else if parts.len() == 1 {
        parts[0]
    } else {
        join(parts.drop_last(), sep) + sep + parts.last()
    }
}

/// Appends the characters of `tail` to `out`.
pub fn append_chars(out: &mut Vec<char>, tail: &Vec<char>)
    ensures
        final(out)@ == old(out)@ + tail@,
{
    let ghost start = out@;
    let mut i: usize = 0;
    while i < tail.len()
        invariant
            0 <= i <= tail.len(),
            out@ == start + tail@.take(i as int),
        decreases tail.len() - i,
    {
        out.push(tail[i]);
        assert(tail@.take(i + 1) == tail@.take(i as int).push(tail@[i as int]));
        i = i + 1;
    }
    assert(tail@.take(tail.len() as int) == tail@);
}

/// `slice::join` on strings.
pub fn join_chars(parts: &Vec<Vec<char>>, sep: &Vec<char>) -> (res: Vec<char>)
    ensures
        res@ == join(parts.deep_view(), sep@),
{
    let mut out: Vec<char> = Vec::new();
    let mut i: usize = 0;
    while i < parts.len()
        invariant
            0 <= i <= parts.len(),
            out@ == join(parts.deep_view().take(i as int), sep@),
        decreases parts.len() - i,
    {
        let ghost pv = parts.deep_view();
        assert(pv[i as int] == parts@[i as int]@);
        assert(pv.take(i + 1).drop_last() == pv.take(i as int));
        if i > 0 {
            append_chars(&mut out, sep);
        }
        append_chars(&mut out, &parts[i]);
        proof {
            if i == 0 {
                assert(pv.take(1) == seq![pv[0]]);
            }
        }
        i = i + 1;
    }
    assert(parts.deep_view().take(parts.len() as int) == parts.deep_view());
    out
}

}
