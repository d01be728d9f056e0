//! Character-level text model and the verified string primitives that the
//! rest of the library is built from.
//!
//! Texts are modelled as `Seq<char>`, the view of `String` and `&str`.
//! Executable code works on `Vec<char>` and converts at the edges.
use vstd::prelude::*;

verus! {

// ───────────────────────────── specification ─────────────────────────────

/// `p` is a prefix of `s`.
pub open spec fn starts_with(s: Seq<char>, p: Seq<char>) -> bool {
    p.len() <= s.len() && s.subrange(0, p.len() as int) == p
}

/// `p` is a suffix of `s`.
pub open spec fn ends_with(s: Seq<char>, p: Seq<char>) -> bool {
    p.len() <= s.len() && s.subrange(s.len() - p.len(), s.len() as int) == p
}

/// `p` occurs somewhere inside `s`.
pub open spec fn contains(s: Seq<char>, p: Seq<char>) -> bool {
    exists|i: int| 0 <= i <= s.len() - p.len() && #[trigger] s.subrange(i, i + p.len()) == p
}

/// No character of `s` is `c`.
pub open spec fn free_of(s: Seq<char>, c: char) -> bool {
    forall|i: int| 0 <= i < s.len() ==> s[i] != c
}

/// Replaces every non-overlapping occurrence of `from` in `s`, scanning
/// left to right, by `to` (the behaviour of `str::replace`). An empty
/// pattern matches before every character and at the end.
pub open spec fn replace_all(s: Seq<char>, from: Seq<char>, to: Seq<char>) -> Seq<char>
    decreases s.len(),
{
    if from.len() == 0 {
        if s.len() == 0 {
            to
        } else {
            to + seq![s[0]] + replace_all(s.skip(1), from, to)
        }
    } else if s.len() == 0 {
        s
    } else if starts_with(s, from) {
        to + replace_all(s.skip(from.len() as int), from, to)
    } else {
        seq![s[0]] + replace_all(s.skip(1), from, to)
    }
}

/// A line with the carriage return of a `\r\n` terminator removed.
pub open spec fn strip_cr(l: Seq<char>) -> Seq<char> {
    if l.len() > 0 && l.last() == '\r' {
        l.drop_last()
    } else {
        l
    }
}

/// The lines of `s`, given that `cur` has already been read of the current line.
pub open spec fn lines_from(s: Seq<char>, cur: Seq<char>) -> Seq<Seq<char>>
    decreases s.len(),
{
    if s.len() == 0 {
        if cur.len() == 0 {
            seq![]
        } else {
            seq![cur]
        }
    } else if s[0] == '\n' {
        seq![strip_cr(cur)] + lines_from(s.skip(1), seq![])
    } else {
        lines_from(s.skip(1), cur.push(s[0]))
    }
}

/// The lines of `s` as `str::lines` yields them: split at `\n`, a `\r`
/// right before a `\n` dropped, and no empty line after a final `\n`.
pub open spec fn lines(s: Seq<char>) -> Seq<Seq<char>> {
    lines_from(s, seq![])
}

/// The parts joined with `sep` between consecutive parts.
pub open spec fn join(parts: Seq<Seq<char>>, sep: Seq<char>) -> Seq<char>
    decreases parts.len(),
{
    if parts.len() == 0 {
        seq![]
    } else if parts.len() == 1 {
        parts[0]
    } else {
        join(parts.drop_last(), sep) + sep + parts.last()
    }
}

/// The characters with the Unicode `White_Space` property, as
/// `char::is_whitespace` classifies them.
pub open spec fn is_white(c: char) -> bool {
    ||| c == '\t' || c == '\n' || c == '\u{0B}' || c == '\u{0C}' || c == '\r' || c == ' '
    ||| c == '\u{85}' || c == '\u{A0}' || c == '\u{1680}'
    ||| ('\u{2000}' <= c && c <= '\u{200A}')
    ||| c == '\u{2028}' || c == '\u{2029}' || c == '\u{202F}' || c == '\u{205F}' || c == '\u{3000}'
}

/// `s` without its trailing white space.
pub open spec fn trim_end(s: Seq<char>) -> Seq<char>
    decreases s.len(),
{
    if s.len() > 0 && is_white(s.last()) {
        trim_end(s.drop_last())
    } else {
        s
    }
}

/// `s` without its leading white space.
pub open spec fn trim_start(s: Seq<char>) -> Seq<char>
    decreases s.len(),
{
    if s.len() > 0 && is_white(s[0]) {
        trim_start(s.skip(1))
    } else {
        s
    }
}

/// `s` without leading and trailing white space.
pub open spec fn trim(s: Seq<char>) -> Seq<char> {
    trim_start(trim_end(s))
}

/// The texts held by a sequence of strings.
pub open spec fn views(xs: Seq<String>) -> Seq<Seq<char>> {
    xs.map_values(|x: String| x@)
}

/// The texts held by a sequence of character vectors.
pub open spec fn cviews(xs: Seq<Vec<char>>) -> Seq<Seq<char>> {
    xs.map_values(|x: Vec<char>| x@)
}

// ───────────────────────────── conversions ─────────────────────────────

/// Appends one character to a string (`String::push`).
#[verifier::external_body]
fn push_char(s: &mut String, c: char)
    ensures
        final(s)@ == old(s)@.push(c),
{
    s.push(c);
}

/// The characters of `s`.
pub fn chars_of(s: &str) -> (v: Vec<char>)
    ensures
        v@ == s@,
{
    let mut v: Vec<char> = Vec::new();
    for c in it: s.chars()
        invariant
            v@ == it.seq().take(it.index() as int),
            it.seq() == s@,
    {
        v.push(c);
    }
    v
}

/// The string made of the characters of `v`.
pub fn string_of(v: &Vec<char>) -> (s: String)
    ensures
        s@ == v@,
{
    let mut s = String::new();
    let mut i: usize = 0;
    while i < v.len()
        invariant
            i <= v.len(),
            s@ == v@.take(i as int),
        decreases v.len() - i,
    {
        push_char(&mut s, v[i]);
        assert(v@.take(i + 1) == v@.take(i as int).push(v@[i as int]));
        i = i + 1;
    }
    assert(v@.take(v.len() as int) == v@);
    s
}

/// The characters of each string.
pub fn chars_of_all(xs: &[String]) -> (v: Vec<Vec<char>>)
    ensures
        cviews(v@) == views(xs@),
{
    let mut v: Vec<Vec<char>> = Vec::new();
    let mut i: usize = 0;
    while i < xs.len()
        invariant
            i <= xs.len(),
            v.len() == i,
            cviews(v@) == views(xs@).take(i as int),
        decreases xs.len() - i,
    {
        let ghost before = v@;
        v.push(chars_of(xs[i].as_str()));
        assert(v@ == before.push(v@[i as int]));
        assert(cviews(v@) =~= views(xs@).take(i + 1));
        i = i + 1;
    }
    assert(views(xs@).take(xs.len() as int) == views(xs@));
    v
}

/// The string made of each character vector.
pub fn strings_of_all(xs: &Vec<Vec<char>>) -> (v: Vec<String>)
    ensures
        views(v@) == cviews(xs@),
{
    let mut v: Vec<String> = Vec::new();
    let mut i: usize = 0;
    while i < xs.len()
        invariant
            i <= xs.len(),
            v.len() == i,
            views(v@) == cviews(xs@).take(i as int),
        decreases xs.len() - i,
    {
        let ghost before = v@;
        v.push(string_of(&xs[i]));
        assert(v@ == before.push(v@[i as int]));
        assert(views(v@) =~= cviews(xs@).take(i + 1));
        i = i + 1;
    }
    assert(cviews(xs@).take(xs.len() as int) == cviews(xs@));
    v
}

// ───────────────────────────── primitives ─────────────────────────────

/// The two texts are equal.
pub fn text_eq(a: &Vec<char>, b: &Vec<char>) -> (r: bool)
    ensures
        r == (a@ == b@),
{
    if a.len() != b.len() {
        return false;
    }
    let mut i: usize = 0;
    while i < a.len()
        invariant
            i <= a.len(),
            a.len() == b.len(),
            forall|k: int| 0 <= k < i ==> a@[k] == b@[k],
        decreases a.len() - i,
    {
        if a[i] != b[i] {
            return false;
        }
        i = i + 1;
    }
    assert(a@ =~= b@);
    true
}

/// `p` occurs in `s` at position `at`.
pub fn matches_at(s: &Vec<char>, at: usize, p: &Vec<char>) -> (r: bool)
    requires
        at <= s.len(),
    ensures
        r == starts_with(s@.skip(at as int), p@),
{
    if p.len() > s.len() - at {
        return false;
    }
    let mut k: usize = 0;
    while k < p.len()
        invariant
            k <= p.len(),
            at + p.len() <= s.len(),
            forall|j: int| 0 <= j < k ==> s@[at + j] == p@[j],
        decreases p.len() - k,
    {
        if s[at + k] != p[k] {
            assert(s@.skip(at as int).subrange(0, p.len() as int)[k as int] != p@[k as int]);
            return false;
        }
        k = k + 1;
    }
    assert(s@.skip(at as int).subrange(0, p.len() as int) =~= p@);
    true
}

/// `p` is a prefix of `s`.
pub fn has_prefix(s: &Vec<char>, p: &Vec<char>) -> (r: bool)
    ensures
        r == starts_with(s@, p@),
{
    let r = matches_at(s, 0, p);
    assert(s@.skip(0) =~= s@);
    r
}

/// `p` occurs somewhere in `s`.
pub fn has_infix(s: &Vec<char>, p: &Vec<char>) -> (r: bool)
    ensures
        r == contains(s@, p@),
{
    if p.len() > s.len() {
        return false;
    }
    let last = s.len() - p.len();
    let mut i: usize = 0;
    loop
        invariant
            p.len() <= s.len(),
            last == s.len() - p.len(),
            i <= last,
            forall|j: int| 0 <= j < i ==> #[trigger] s@.subrange(j, j + p.len()) != p@,
        decreases last - i,
    {
        let found = matches_at(s, i, p);
        assert(s@.skip(i as int).subrange(0, p.len() as int) =~= s@.subrange(
            i as int,
            i + p.len(),
        ));
        if found {
            return true;
        }
        if i == last {
            return false;
        }
        i = i + 1;
    }
}

/// `s` with `suffix` appended.
pub fn append_text(s: &mut Vec<char>, suffix: &Vec<char>)
    ensures
        final(s)@ == old(s)@ + suffix@,
{
    let mut i: usize = 0;
    while i < suffix.len()
        invariant
            i <= suffix.len(),
            s@ == old(s)@ + suffix@.take(i as int),
        decreases suffix.len() - i,
    {
        s.push(suffix[i]);
        assert(suffix@.take(i + 1) == suffix@.take(i as int).push(suffix@[i as int]));
        i = i + 1;
    }
    assert(suffix@.take(suffix.len() as int) == suffix@);
}

/// The concatenation of two texts.
pub fn concat_text(a: &Vec<char>, b: &Vec<char>) -> (r: Vec<char>)
    ensures
        r@ == a@ + b@,
{
    let mut r = a.clone();
    append_text(&mut r, b);
    r
}

/// The characters of `s` from position `from` on.
pub fn skip_text(s: &Vec<char>, from: usize) -> (r: Vec<char>)
    requires
        from <= s.len(),
    ensures
        r@ == s@.skip(from as int),
{
    let mut r: Vec<char> = Vec::new();
    let mut i: usize = from;
    while i < s.len()
        invariant
            from <= i <= s.len(),
            r@ == s@.subrange(from as int, i as int),
        decreases s.len() - i,
    {
        r.push(s[i]);
        assert(s@.subrange(from as int, i + 1) == s@.subrange(from as int, i as int).push(
            s@[i as int],
        ));
        i = i + 1;
    }
    r
}

proof fn lemma_replace_step(s: Seq<char>, i: int, from: Seq<char>, to: Seq<char>)
    requires
        0 <= i < s.len(),
        from.len() > 0,
    ensures
        starts_with(s.skip(i), from) ==> replace_all(s.skip(i), from, to) == to + replace_all(
            s.skip(i + from.len()),
            from,
            to,
        ),
        !starts_with(s.skip(i), from) ==> replace_all(s.skip(i), from, to) == seq![s[i]]
            + replace_all(s.skip(i + 1), from, to),
{
    if starts_with(s.skip(i), from) {
        assert(s.skip(i).skip(from.len() as int) =~= s.skip(i + from.len()));
    }
    assert(s.skip(i).skip(1) =~= s.skip(i + 1));
}

/// `s` with every occurrence of `from` replaced by `to`, for an empty
/// pattern.
fn replace_empty_pattern(s: &Vec<char>, to: &Vec<char>) -> (r: Vec<char>)
    ensures
        r@ == replace_all(s@, Seq::<char>::empty(), to@),
{
    let ghost e = Seq::<char>::empty();
    let mut out: Vec<char> = Vec::new();
    let mut i: usize = 0;
    assert(s@.skip(0) =~= s@);
    while i < s.len()
        invariant
            i <= s.len(),
            e == Seq::<char>::empty(),
            out@ + replace_all(s@.skip(i as int), e, to@) == replace_all(s@, e, to@),
        decreases s.len() - i,
    {
        let ghost before = out@;
        let ghost cur = s@.skip(i as int);
        assert(cur.skip(1) =~= s@.skip(i + 1));
        assert(cur[0] == s@[i as int]);
        assert(replace_all(cur, e, to@) == to@ + seq![cur[0]] + replace_all(cur.skip(1), e, to@));
        append_text(&mut out, to);
        out.push(s[i]);
        i = i + 1;
        assert(out@ + replace_all(s@.skip(i as int), e, to@) =~= before + (to@ + seq![
            s@[i - 1],
        ] + replace_all(s@.skip(i as int), e, to@)));
    }
    assert(s@.skip(i as int) =~= Seq::<char>::empty());
    append_text(&mut out, to);
    out
}

/// `s` with every occurrence of `from` replaced by `to` (`str::replace`).
pub fn replace_text(s: &Vec<char>, from: &Vec<char>, to: &Vec<char>) -> (r: Vec<char>)
    ensures
        r@ == replace_all(s@, from@, to@),
{
    if from.len() == 0 {
        assert(from@ =~= Seq::<char>::empty());
        return replace_empty_pattern(s, to);
    }
    let mut out: Vec<char> = Vec::new();
    let mut i: usize = 0;
    assert(s@.skip(0) =~= s@);
    while i < s.len()
        invariant
            i <= s.len(),
            from@.len() > 0,
            out@ + replace_all(s@.skip(i as int), from@, to@) == replace_all(s@, from@, to@),
        decreases s.len() - i,
    {
        proof {
            lemma_replace_step(s@, i as int, from@, to@);
        }
        let ghost before = out@;
        if matches_at(s, i, from) {
            append_text(&mut out, to);
            i = i + from.len();
            assert(out@ + replace_all(s@.skip(i as int), from@, to@) =~= before + (to@
                + replace_all(s@.skip(i as int), from@, to@)));
        } else {
            out.push(s[i]);
            i = i + 1;
            assert(out@ + replace_all(s@.skip(i as int), from@, to@) =~= before + (seq![
                s@[i - 1],
            ] + replace_all(s@.skip(i as int), from@, to@)));
        }
    }
    assert(s@.skip(i as int) =~= Seq::<char>::empty());
    assert(out@ =~= replace_all(s@, from@, to@));
    out
}

proof fn lemma_lines_step(s: Seq<char>, i: int, cur: Seq<char>)
    requires
        0 <= i < s.len(),
    ensures
        s[i] == '\n' ==> lines_from(s.skip(i), cur) == seq![strip_cr(cur)] + lines_from(
            s.skip(i + 1),
            seq![],
        ),
        s[i] != '\n' ==> lines_from(s.skip(i), cur) == lines_from(s.skip(i + 1), cur.push(s[i])),
{
    assert(s.skip(i).skip(1) =~= s.skip(i + 1));
}

/// `l` with the carriage return of a `\r\n` terminator removed.
fn strip_cr_text(l: Vec<char>) -> (r: Vec<char>)
    ensures
        r@ == strip_cr(l@),
{
    let mut l = l;
    if l.len() > 0 && l[l.len() - 1] == '\r' {
        l.pop();
    }
    l
}

/// The lines of `s` (`str::lines`).
pub fn lines_of(s: &Vec<char>) -> (r: Vec<Vec<char>>)
    ensures
        cviews(r@) == lines(s@),
{
    let mut out: Vec<Vec<char>> = Vec::new();
    let mut cur: Vec<char> = Vec::new();
    let mut i: usize = 0;
    assert(s@.skip(0) =~= s@);
    while i < s.len()
        invariant
            i <= s.len(),
            cviews(out@) + lines_from(s@.skip(i as int), cur@) == lines(s@),
        decreases s.len() - i,
    {
        proof {
            lemma_lines_step(s@, i as int, cur@);
        }
        let ghost before = cviews(out@);
        if s[i] == '\n' {
            let line = strip_cr_text(cur);
            let ghost l = line@;
            out.push(line);
            cur = Vec::new();
            assert(cviews(out@) =~= before.push(l));
            assert(cviews(out@) + lines_from(s@.skip(i + 1), cur@) =~= before + (seq![l]
                + lines_from(s@.skip(i + 1), seq![])));
        } else {
            cur.push(s[i]);
        }
        i = i + 1;
    }
    let ghost before = cviews(out@);
    assert(s@.skip(i as int) =~= Seq::<char>::empty());
    if cur.len() > 0 {
        let ghost c = cur@;
        out.push(cur);
        assert(cviews(out@) =~= before.push(c));
        assert(cviews(out@) =~= before + seq![c]);
    } else {
        assert(before + lines_from(s@.skip(i as int), cur@) =~= before);
    }
    out
}

/// The parts joined with `sep` (`[T]::join`).
pub fn join_texts(parts: &Vec<Vec<char>>, sep: &Vec<char>) -> (r: Vec<char>)
    ensures
        r@ == join(cviews(parts@), sep@),
{
    let mut out: Vec<char> = Vec::new();
    let mut i: usize = 0;
    while i < parts.len()
        invariant
            i <= parts.len(),
            out@ == join(cviews(parts@).take(i as int), sep@),
        decreases parts.len() - i,
    {
        let ghost ps = cviews(parts@);
        assert(ps.take(i + 1).drop_last() =~= ps.take(i as int));
        if i > 0 {
            append_text(&mut out, sep);
        } else {
            assert(ps.take(1) =~= seq![ps[0]]);
        }
        append_text(&mut out, &parts[i]);
        i = i + 1;
    }
    assert(cviews(parts@).take(parts.len() as int) =~= cviews(parts@));
    out
}

/// `c` is white space (`char::is_whitespace`).
pub fn is_white_char(c: char) -> (r: bool)
    ensures
        r == is_white(c),
{
    c == '\t' || c == '\n' || c == '\u{0B}' || c == '\u{0C}' || c == '\r' || c == ' ' || c
        == '\u{85}' || c == '\u{A0}' || c == '\u{1680}' || ('\u{2000}' <= c && c <= '\u{200A}')
        || c == '\u{2028}' || c == '\u{2029}' || c == '\u{202F}' || c == '\u{205F}' || c
        == '\u{3000}'
}

/// `s` without trailing white space (`str::trim_end`).
pub fn trim_end_text(s: &Vec<char>) -> (r: Vec<char>)
    ensures
        r@ == trim_end(s@),
{
    let mut r = s.clone();
    while r.len() > 0 && is_white_char(r[r.len() - 1])
        invariant
            trim_end(r@) == trim_end(s@),
        decreases r.len(),
    {
        let ghost before = r@;
        r.pop();
        assert(r@ =~= before.drop_last());
    }
    r
}

/// `s` without leading and trailing white space (`str::trim`).
pub fn trim_text(s: &Vec<char>) -> (r: Vec<char>)
    ensures
        r@ == trim(s@),
{
    let e = trim_end_text(s);
    let mut i: usize = 0;
    assert(e@.skip(0) =~= e@);
    while i < e.len() && is_white_char(e[i])
        invariant
            i <= e.len(),
            trim_start(e@.skip(i as int)) == trim_start(e@),
        decreases e.len() - i,
    {
        assert(e@.skip(i as int).skip(1) =~= e@.skip(i + 1));
        i = i + 1;
    }
    skip_text(&e, i)
}

// ───────────────────────────── lemmas ─────────────────────────────

/// Reading lines across a line feed: the lines of `a + b`, where `a` ends a
/// line, are those of `a` followed by those of `b`.
pub proof fn lemma_lines_after_newline(a: Seq<char>, b: Seq<char>, cur: Seq<char>)
    requires
        a.len() > 0 && a.last() == '\n',
    ensures
        lines_from(a + b, cur) == lines_from(a, cur) + lines_from(b, seq![]),
    decreases a.len(),
{
    let ab = a + b;
    assert(ab.skip(1) =~= a.skip(1) + b);
    assert(ab[0] == a[0]);
    assert(ab.len() > 0);
    if a[0] == '\n' {
        assert(lines_from(ab, cur) == seq![strip_cr(cur)] + lines_from(ab.skip(1), seq![]));
        assert(lines_from(a, cur) == seq![strip_cr(cur)] + lines_from(a.skip(1), seq![]));
        if a.len() == 1 {
            assert(a.skip(1) =~= Seq::<char>::empty());
            assert(ab.skip(1) =~= b);
            assert(lines_from(a.skip(1), seq![]) =~= Seq::<Seq<char>>::empty());
            assert(lines_from(ab, cur) =~= lines_from(a, cur) + lines_from(b, seq![]));
        } else {
            lemma_lines_after_newline(a.skip(1), b, seq![]);
            assert(lines_from(ab, cur) =~= lines_from(a, cur) + lines_from(b, seq![]));
        }
    } else {
        assert(lines_from(ab, cur) == lines_from(ab.skip(1), cur.push(a[0])));
        assert(lines_from(a, cur) == lines_from(a.skip(1), cur.push(a[0])));
        lemma_lines_after_newline(a.skip(1), b, cur.push(a[0]));
    }
}

/// Reading lines through a stretch without line feeds adds it to the current line.
pub proof fn lemma_lines_through_line(t: Seq<char>, s: Seq<char>, cur: Seq<char>)
    requires
        free_of(t, '\n'),
    ensures
        lines_from(t + s, cur) == lines_from(s, cur + t),
    decreases t.len(),
{
    if t.len() == 0 {
        assert(t + s =~= s);
        assert(cur + t =~= cur);
    } else {
        assert((t + s).skip(1) =~= t.skip(1) + s);
        assert((t + s)[0] == t[0]);
        assert(cur.push(t[0]) + t.skip(1) =~= cur + t);
        lemma_lines_through_line(t.skip(1), s, cur.push(t[0]));
    }
}

/// Joining two non-empty lists is joining each and putting `sep` between.
pub proof fn lemma_join_append(a: Seq<Seq<char>>, b: Seq<Seq<char>>, sep: Seq<char>)
    requires
        a.len() > 0,
        b.len() > 0,
    ensures
        join(a + b, sep) == join(a, sep) + sep + join(b, sep),
    decreases b.len(),
{
    if b.len() == 1 {
        assert((a + b).drop_last() =~= a);
        assert(join(b, sep) == b[0]);
    } else {
        assert((a + b).drop_last() =~= a + b.drop_last());
        lemma_join_append(a, b.drop_last(), sep);
        assert(join(a + b.drop_last(), sep) == join(a, sep) + sep + join(b.drop_last(), sep));
        assert(join(a + b, sep) =~= join(a, sep) + sep + join(b, sep));
    }
}

/// A line followed by a line feed is read as that line (its carriage return
/// dropped) and then the lines of what follows.
pub proof fn lemma_lines_cons(a: Seq<char>, b: Seq<char>)
    requires
        free_of(a, '\n'),
    ensures
        lines(a + seq!['\n'] + b) == seq![strip_cr(a)] + lines(b),
{
    lemma_lines_through_line(a, seq!['\n'] + b, seq![]);
    assert(a + seq!['\n'] + b =~= a + (seq!['\n'] + b));
    assert(Seq::<char>::empty() + a =~= a);
    assert((seq!['\n'] + b).skip(1) =~= b);
}

/// Reading back lines joined with `\n` gives the lines, when each is free of
/// line feeds, none but the last ends with a carriage return, and the last
/// is not empty.
pub proof fn lemma_lines_of_join(xs: Seq<Seq<char>>)
    requires
        forall|i: int| 0 <= i < xs.len() ==> free_of(#[trigger] xs[i], '\n'),
        forall|i: int| 0 <= i < xs.len() - 1 ==> !(#[trigger] xs[i].len() > 0 && xs[i].last() == '\r'),
        xs.len() > 0 ==> xs.last().len() > 0,
    ensures
        lines(join(xs, seq!['\n'])) == xs,
    decreases xs.len(),
{
    let nl = seq!['\n'];
    if xs.len() == 0 {
        assert(lines(Seq::<char>::empty()) =~= Seq::<Seq<char>>::empty());
    } else if xs.len() == 1 {
        lemma_lines_through_line(xs[0], Seq::<char>::empty(), Seq::<char>::empty());
        assert(xs[0] + Seq::<char>::empty() =~= xs[0]);
        assert(Seq::<char>::empty() + xs[0] =~= xs[0]);
        assert(xs.last() == xs[0]);
        assert(lines(xs[0]) =~= xs);
    } else {
        let rest = xs.skip(1);
        assert(xs =~= seq![xs[0]] + rest);
        lemma_join_append(seq![xs[0]], rest, nl);
        assert(join(seq![xs[0]], nl) == xs[0]);
        assert(forall|i: int| 0 <= i < rest.len() ==> rest[i] == xs[i + 1]);
        assert(rest.last() == xs.last());
        lemma_lines_of_join(rest);
        lemma_lines_cons(xs[0], join(rest, nl));
        assert(strip_cr(xs[0]) == xs[0]);
        assert(lines(join(xs, nl)) =~= xs);
    }
}

/// Where `from` occurs, `to` occurs after replacing `from` by `to`.
pub proof fn lemma_replace_produces(s: Seq<char>, from: Seq<char>, to: Seq<char>)
    requires
        from.len() > 0,
        contains(s, from),
    ensures
        contains(replace_all(s, from, to), to),
    decreases s.len(),
{
    let r = replace_all(s, from, to);
    assert(s.len() > 0);
    if starts_with(s, from) {
        assert(r == to + replace_all(s.skip(from.len() as int), from, to));
        assert(r.subrange(0, 0 + to.len() as int) =~= to);
    } else {
        let k = choose|k: int|
            0 <= k <= s.len() - from.len() && #[trigger] s.subrange(k, k + from.len()) == from;
        assert(k != 0);
        let t = s.skip(1);
        assert(t.subrange(k - 1, k - 1 + from.len()) =~= s.subrange(k, k + from.len()));
        lemma_replace_produces(t, from, to);
        let rt = replace_all(t, from, to);
        let j = choose|j: int| 0 <= j <= rt.len() - to.len() && #[trigger] rt.subrange(j, j + to.len()) == to;
        assert(r == seq![s[0]] + rt);
        assert(r.subrange(j + 1, j + 1 + to.len()) =~= rt.subrange(j, j + to.len()));
        assert(0 <= j + 1 <= r.len() - to.len());
    }
}

/// What a text contains, a text around it contains too.
pub proof fn lemma_contains_within(a: Seq<char>, x: Seq<char>, p: Seq<char>, q: Seq<char>)
    requires
        contains(a, x),
    ensures
        contains(p + a + q, x),
{
    let k = choose|k: int| 0 <= k <= a.len() - x.len() && #[trigger] a.subrange(k, k + x.len()) == x;
    let s = p + a + q;
    let j = p.len() + k;
    assert(s.subrange(j, j + x.len()) =~= a.subrange(k, k + x.len()));
}

/// A text contains itself.
pub proof fn lemma_contains_self(a: Seq<char>)
    ensures
        contains(a, a),
{
    assert(a.subrange(0, 0 + a.len() as int) =~= a);
}

/// What contains `p + x` contains `x`.
pub proof fn lemma_contains_tail(s: Seq<char>, p: Seq<char>, x: Seq<char>)
    requires
        contains(s, p + x),
    ensures
        contains(s, x),
{
    let px = p + x;
    let k = choose|k: int| 0 <= k <= s.len() - px.len() && #[trigger] s.subrange(k, k + px.len()) == px;
    let j = k + p.len();
    assert forall|i: int| 0 <= i < x.len() implies s[j + i] == x[i] by {
        assert(s.subrange(k, k + px.len())[p.len() + i] == px[p.len() + i]);
    }
    assert(s.subrange(j, j + x.len()) =~= x);
}

} // verus!
