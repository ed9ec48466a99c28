//! Character-level helpers, and the normalisation of JSX text runs.
use vstd::prelude::*;

verus! {

/// The characters of `s`.
pub fn chars_of(s: &str) -> (r: Vec<char>)
    ensures
        r@ == s@,
{
    let n = s.unicode_len();
    let mut r: Vec<char> = Vec::new();
    let mut i: usize = 0;
    while i < n
        invariant
            n == s@.len(),
            i <= n,
            r@ == s@.subrange(0, i as int),
        decreases n - i,
    {
        r.push(s.get_char(i));
        i = i + 1;
        assert(r@ =~= s@.subrange(0, i as int));
    }
    assert(s@.subrange(0, n as int) =~= s@);
    r
}

/// Relies on `String: FromIterator<char>`: the string holds the characters in order.
#[verifier::external_body]
pub(crate) fn string_of(v: &Vec<char>) -> (r: String)
    ensures
        r@ == v@,
{
    v.iter().collect()
}

/// `a` and `b` hold the same characters.
pub fn str_eq(a: &str, b: &str) -> (r: bool)
    ensures
        r == (a@ == b@),
{
    let n = a.unicode_len();
    if n != b.unicode_len() {
        return false;
    }
    let mut i: usize = 0;
    while i < n
        invariant
            n == a@.len(),
            n == b@.len(),
            i <= n,
            a@.subrange(0, i as int) == b@.subrange(0, i as int),
        decreases n - i,
    {
        if a.get_char(i) != b.get_char(i) {
            assert(a@[i as int] != b@[i as int]);
            return false;
        }
        i = i + 1;
        assert(a@.subrange(0, i as int) =~= a@.subrange(0, i - 1 as int).push(a@[i - 1]));
        assert(b@.subrange(0, i as int) =~= b@.subrange(0, i - 1 as int).push(b@[i - 1]));
    }
    assert(a@ =~= a@.subrange(0, n as int));
    assert(b@ =~= b@.subrange(0, n as int));
    true
}

/// `a` followed by `b`.
pub fn concat(a: &str, b: &str) -> (r: String)
    ensures
        r@ == a@ + b@,
{
    let mut r = a.to_owned();
    r.append(b);
    r
}

pub open spec fn is_ascii_lower(c: char) -> bool {
    'a' <= c && c <= 'z'
}

/// The code of `c` with ASCII upper-case letters lowered.
pub open spec fn lower_ascii(c: char) -> u32 {
    if 'A' <= c && c <= 'Z' {
        ((c as u32) + 32) as u32
    } else {
        c as u32
    }
}

/// The name of an event-handler prop: `on` and then anything but a lower-case ASCII letter.
pub open spec fn is_on_name(s: Seq<char>) -> bool {
    s.len() >= 3 && s[0] == 'o' && s[1] == 'n' && !is_ascii_lower(s[2])
}

pub open spec fn starts_with_on(s: Seq<char>) -> bool {
    s.len() >= 2 && s[0] == 'o' && s[1] == 'n'
}

pub fn is_on(name: &str) -> (r: bool)
    ensures
        r == is_on_name(name@),
{
    if name.unicode_len() < 3 {
        return false;
    }
    let c = name.get_char(2);
    name.get_char(0) == 'o' && name.get_char(1) == 'n' && !('a' <= c && c <= 'z')
}

pub fn has_on_prefix(name: &str) -> (r: bool)
    ensures
        r == starts_with_on(name@),
{
    name.unicode_len() >= 2 && name.get_char(0) == 'o' && name.get_char(1) == 'n'
}

fn lower_code(c: char) -> (r: u32)
    ensures
        r == lower_ascii(c),
{
    if 'A' <= c && c <= 'Z' {
        (c as u32) + 32
    } else {
        c as u32
    }
}

/// The two are equal once ASCII upper-case letters are lowered.
pub open spec fn eq_ignore_ascii_case(a: Seq<char>, b: Seq<char>) -> bool {
    a.len() == b.len() && forall|i: int| 0 <= i < a.len() ==> lower_ascii(a[i]) == lower_ascii(b[i])
}

pub fn str_eq_ignore_ascii_case(a: &str, b: &str) -> (r: bool)
    ensures
        r == eq_ignore_ascii_case(a@, b@),
{
    let n = a.unicode_len();
    if n != b.unicode_len() {
        return false;
    }
    let mut i: usize = 0;
    while i < n
        invariant
            n == a@.len(),
            n == b@.len(),
            i <= n,
            forall|j: int| 0 <= j < i ==> lower_ascii(a@[j]) == lower_ascii(b@[j]),
        decreases n - i,
    {
        if lower_code(a.get_char(i)) != lower_code(b.get_char(i)) {
            return false;
        }
        i = i + 1;
    }
    true
}

/// `c` with an ASCII upper-case letter lowered.
pub open spec fn to_lower(c: char) -> char {
    if 'A' <= c && c <= 'Z' {
        (((c as u32) + 32) as u8) as char
    } else {
        c
    }
}

pub open spec fn lower_seq(s: Seq<char>) -> Seq<char> {
    s.map_values(|c: char| to_lower(c))
}

fn to_lower_exec(c: char) -> (r: char)
    ensures
        r == to_lower(c),
{
    if 'A' <= c && c <= 'Z' {
        (((c as u32) + 32) as u8) as char
    } else {
        c
    }
}

/// The characters of `s` with ASCII upper-case letters lowered.
pub fn lower_chars(s: &Vec<char>) -> (r: Vec<char>)
    ensures
        r@ == lower_seq(s@),
{
    let mut r: Vec<char> = Vec::new();
    let mut i: usize = 0;
    while i < s.len()
        invariant
            i <= s.len(),
            r@ == lower_seq(s@.subrange(0, i as int)),
        decreases s.len() - i,
    {
        r.push(to_lower_exec(s[i]));
        i = i + 1;
        assert(r@ =~= lower_seq(s@.subrange(0, i as int)));
    }
    assert(s@.subrange(0, i as int) =~= s@);
    r
}

/// `a` comes before `b` in the order of character codes, a prefix first.
pub open spec fn lex_lt_at(a: Seq<char>, b: Seq<char>, i: int) -> bool
    decreases a.len() - i,
{
    if i < 0 {
        false
    } else if i >= a.len() {
        i < b.len()
    } else if i >= b.len() {
        false
    } else if a[i] != b[i] {
        (a[i] as u32) < (b[i] as u32)
    } else {
        lex_lt_at(a, b, i + 1)
    }
}

pub open spec fn lex_lt(a: Seq<char>, b: Seq<char>) -> bool {
    lex_lt_at(a, b, 0)
}

pub fn str_lt(a: &str, b: &str) -> (r: bool)
    ensures
        r == lex_lt(a@, b@),
{
    let na = a.unicode_len();
    let nb = b.unicode_len();
    let mut i: usize = 0;
    while i < na && i < nb && a.get_char(i) == b.get_char(i)
        invariant
            na == a@.len(),
            nb == b@.len(),
            i <= na,
            i <= nb,
            lex_lt(a@, b@) == lex_lt_at(a@, b@, i as int),
        decreases na - i,
    {
        i = i + 1;
    }
    if i >= na {
        i < nb
    } else if i >= nb {
        false
    } else {
        (a.get_char(i) as u32) < (b.get_char(i) as u32)
    }
}

/// What `char::is_whitespace` calls white space.
pub open spec fn is_white(c: char) -> bool {
    ||| ('\u{9}' <= c && c <= '\u{d}')
    ||| c == ' '
    ||| c == '\u{85}'
    ||| c == '\u{a0}'
    ||| c == '\u{1680}'
    ||| ('\u{2000}' <= c && c <= '\u{200a}')
    ||| c == '\u{2028}'
    ||| c == '\u{2029}'
    ||| c == '\u{202f}'
    ||| c == '\u{205f}'
    ||| c == '\u{3000}'
}

pub fn is_white_char(c: char) -> (r: bool)
    ensures
        r == is_white(c),
{
    ('\u{9}' <= c && c <= '\u{d}') || c == ' ' || c == '\u{85}' || c == '\u{a0}' || c == '\u{1680}'
        || ('\u{2000}' <= c && c <= '\u{200a}') || c == '\u{2028}' || c == '\u{2029}' || c
        == '\u{202f}' || c == '\u{205f}' || c == '\u{3000}'
}

pub open spec fn trim_end(s: Seq<char>) -> Seq<char>
    decreases s.len(),
{
    if s.len() > 0 && is_white(s.last()) {
        trim_end(s.drop_last())
    } else {
        s
    }
}

pub open spec fn trim_start(s: Seq<char>) -> Seq<char>
    decreases s.len(),
{
    if s.len() > 0 && is_white(s[0]) {
        trim_start(s.drop_first())
    } else {
        s
    }
}

pub open spec fn detab(s: Seq<char>) -> Seq<char> {
    s.map_values(|c: char| if c == '\t' { ' ' } else { c })
}

/// The pieces of `s` between line feeds, all of them (one more than the line feeds).
pub open spec fn split_lf(s: Seq<char>) -> Seq<Seq<char>>
    decreases s.len(),
{
    if s.len() == 0 {
        seq![seq![]]
    } else {
        let p = split_lf(s.drop_last());
        if s.last() == '\n' {
            p.push(seq![])
        } else {
            p.update(p.len() - 1, p.last().push(s.last()))
        }
    }
}

/// The pieces of `s` between occurrences of `sep`, all of them.
pub open spec fn split_on(s: Seq<char>, sep: char) -> Seq<Seq<char>>
    decreases s.len(),
{
    if s.len() == 0 {
        seq![seq![]]
    } else {
        let p = split_on(s.drop_last(), sep);
        if s.last() == sep {
            p.push(seq![])
        } else {
            p.update(p.len() - 1, p.last().push(s.last()))
        }
    }
}

pub proof fn lemma_split_on_nonempty(s: Seq<char>, sep: char)
    ensures
        split_on(s, sep).len() >= 1,
    decreases s.len(),
{
    if s.len() > 0 {
        lemma_split_on_nonempty(s.drop_last(), sep);
    }
}

/// `s` without the occurrences of `c` it starts with.
pub open spec fn strip_leading(s: Seq<char>, c: char) -> Seq<char>
    decreases s.len(),
{
    if s.len() > 0 && s[0] == c {
        strip_leading(s.drop_first(), c)
    } else {
        s
    }
}

pub fn strip_leading_chars(s: &Vec<char>, c: char) -> (r: Vec<char>)
    ensures
        r@ == strip_leading(s@, c),
{
    let mut j: usize = 0;
    assert(s@.subrange(0, s@.len() as int) =~= s@);
    while j < s.len() && s[j] == c
        invariant
            j <= s.len(),
            strip_leading(s@, c) == strip_leading(s@.subrange(j as int, s@.len() as int), c),
        decreases s.len() - j,
    {
        assert(s@.subrange(j + 1 as int, s@.len() as int) =~= s@.subrange(
            j as int,
            s@.len() as int,
        ).drop_first());
        j = j + 1;
    }
    let mut r: Vec<char> = Vec::new();
    let mut k: usize = j;
    while k < s.len()
        invariant
            j <= k <= s.len(),
            r@ == s@.subrange(j as int, k as int),
        decreases s.len() - k,
    {
        r.push(s[k]);
        k = k + 1;
        assert(r@ =~= s@.subrange(j as int, k as int));
    }
    r
}

pub open spec fn strings_seq(v: Seq<String>) -> Seq<Seq<char>> {
    Seq::new(v.len(), |i: int| v[i]@)
}

/// The pieces of `s` between occurrences of `sep`.
pub fn split_chars(s: &Vec<char>, sep: char) -> (r: Vec<String>)
    ensures
        strings_seq(r@) == split_on(s@, sep),
{
    let mut done: Vec<String> = Vec::new();
    let mut cur: Vec<char> = Vec::new();
    let mut i: usize = 0;
    assert(split_on(s@.subrange(0, 0), sep) =~= strings_seq(done@).push(cur@));
    while i < s.len()
        invariant
            i <= s.len(),
            split_on(s@.subrange(0, i as int), sep) == strings_seq(done@).push(cur@),
        decreases s.len() - i,
    {
        let c = s[i];
        let ghost pre = s@.subrange(0, i as int);
        assert(s@.subrange(0, i + 1 as int).drop_last() =~= pre);
        if c == sep {
            let piece = string_of(&cur);
            cur = Vec::new();
            let ghost d0 = strings_seq(done@);
            done.push(piece);
            assert(strings_seq(done@) =~= d0.push(piece@));
        } else {
            cur.push(c);
        }
        i = i + 1;
        assert(split_on(s@.subrange(0, i as int), sep) =~= strings_seq(done@).push(cur@));
    }
    assert(s@.subrange(0, i as int) =~= s@);
    let ghost d0 = strings_seq(done@);
    let piece = string_of(&cur);
    done.push(piece);
    assert(strings_seq(done@) =~= d0.push(cur@));
    done
}

pub proof fn lemma_split_lf_nonempty(s: Seq<char>)
    ensures
        split_lf(s).len() >= 1,
    decreases s.len(),
{
    if s.len() > 0 {
        lemma_split_lf_nonempty(s.drop_last());
    }
}

pub open spec fn strip_cr(s: Seq<char>) -> Seq<char> {
    if s.len() > 0 && s.last() == '\r' {
        s.drop_last()
    } else {
        s
    }
}

/// The lines of `s` as `str::lines` gives them: a final empty piece is no line, and a
/// carriage return before a line feed belongs to the line ending.
pub open spec fn lines(s: Seq<char>) -> Seq<Seq<char>> {
    let p = split_lf(s);
    let n = if p.last().len() == 0 { p.len() - 1 } else { p.len() as int };
    Seq::new(n as nat, |i: int| if i + 1 < p.len() { strip_cr(p[i]) } else { p[i] })
}

/// Line `i` of `n`, trimmed as a text run is: the first at its end, the last at its start,
/// the others at both.
pub open spec fn trim_line(l: Seq<char>, i: int, n: int) -> Seq<char> {
    if i == 0 {
        trim_end(l)
    } else if i == n - 1 {
        trim_start(l)
    } else {
        trim_start(trim_end(l))
    }
}

/// The trimmed lines of `ls` from `i` on that are not empty, joined by single spaces.
pub open spec fn join_lines(ls: Seq<Seq<char>>, i: int) -> Seq<char>
    decreases ls.len() - i,
{
    if i >= ls.len() {
        seq![]
    } else {
        let t = trim_line(ls[i], i, ls.len() as int);
        let rest = join_lines(ls, i + 1);
        if t.len() == 0 {
            rest
        } else if rest.len() == 0 {
            t
        } else {
            t + seq![' '] + rest
        }
    }
}

/// A text run as it is rendered: tabs become spaces, each line is trimmed, empty lines
/// go, and the rest are joined by single spaces.
pub open spec fn normalized_text(s: Seq<char>) -> Seq<char> {
    join_lines(lines(detab(s)), 0)
}

pub(crate) fn trim_end_chars(s: &Vec<char>) -> (r: Vec<char>)
    ensures
        r@ == trim_end(s@),
{
    let mut j = s.len();
    assert(s@.subrange(0, j as int) =~= s@);
    while j > 0 && is_white_char(s[j - 1])
        invariant
            j <= s.len(),
            trim_end(s@) == trim_end(s@.subrange(0, j as int)),
        decreases j,
    {
        assert(s@.subrange(0, j - 1 as int) =~= s@.subrange(0, j as int).drop_last());
        j = j - 1;
    }
    let mut r: Vec<char> = Vec::new();
    let mut k: usize = 0;
    while k < j
        invariant
            j <= s.len(),
            k <= j,
            r@ == s@.subrange(0, k as int),
        decreases j - k,
    {
        r.push(s[k]);
        k = k + 1;
        assert(r@ =~= s@.subrange(0, k as int));
    }
    r
}

pub(crate) fn trim_start_chars(s: &Vec<char>) -> (r: Vec<char>)
    ensures
        r@ == trim_start(s@),
{
    let mut j: usize = 0;
    assert(s@.subrange(0, s@.len() as int) =~= s@);
    while j < s.len() && is_white_char(s[j])
        invariant
            j <= s.len(),
            trim_start(s@) == trim_start(s@.subrange(j as int, s@.len() as int)),
        decreases s.len() - j,
    {
        assert(s@.subrange(j + 1 as int, s@.len() as int) =~= s@.subrange(
            j as int,
            s@.len() as int,
        ).drop_first());
        j = j + 1;
    }
    let mut r: Vec<char> = Vec::new();
    let mut k: usize = j;
    while k < s.len()
        invariant
            j <= k <= s.len(),
            r@ == s@.subrange(j as int, k as int),
        decreases s.len() - k,
    {
        r.push(s[k]);
        k = k + 1;
        assert(r@ =~= s@.subrange(j as int, k as int));
    }
    assert(s@.subrange(0, s@.len() as int) =~= s@);
    r
}

fn detab_chars(s: &Vec<char>) -> (r: Vec<char>)
    ensures
        r@ == detab(s@),
{
    let mut r: Vec<char> = Vec::new();
    let mut i: usize = 0;
    while i < s.len()
        invariant
            i <= s.len(),
            r@ == detab(s@.subrange(0, i as int)),
        decreases s.len() - i,
    {
        let c = s[i];
        r.push(if c == '\t' { ' ' } else { c });
        i = i + 1;
        assert(r@ =~= detab(s@.subrange(0, i as int)));
    }
    assert(s@.subrange(0, i as int) =~= s@);
    r
}

pub open spec fn pieces_view(done: Vec<Vec<char>>) -> Seq<Seq<char>> {
    Seq::new(done@.len(), |k: int| done[k]@)
}

/// The pieces of `s` between line feeds, as `split_lf` gives them.
fn split_lf_chars(s: &Vec<char>) -> (r: Vec<Vec<char>>)
    ensures
        pieces_view(r) == split_lf(s@),
{
    let mut done: Vec<Vec<char>> = Vec::new();
    let mut cur: Vec<char> = Vec::new();
    let mut i: usize = 0;
    assert(split_lf(s@.subrange(0, 0)) =~= pieces_view(done).push(cur@));
    while i < s.len()
        invariant
            i <= s.len(),
            split_lf(s@.subrange(0, i as int)) == pieces_view(done).push(cur@),
        decreases s.len() - i,
    {
        let c = s[i];
        let ghost pre = s@.subrange(0, i as int);
        assert(s@.subrange(0, i + 1 as int).drop_last() =~= pre);
        if c == '\n' {
            let mut old_cur: Vec<char> = Vec::new();
            std::mem::swap(&mut old_cur, &mut cur);
            let ghost d0 = pieces_view(done);
            done.push(old_cur);
            assert(pieces_view(done) =~= d0.push(old_cur@));
        } else {
            cur.push(c);
        }
        i = i + 1;
        assert(split_lf(s@.subrange(0, i as int)) =~= pieces_view(done).push(cur@));
    }
    assert(s@.subrange(0, i as int) =~= s@);
    let ghost d0 = pieces_view(done);
    done.push(cur);
    assert(pieces_view(done) =~= d0.push(cur@));
    done
}

fn strip_cr_chars(s: Vec<char>) -> (r: Vec<char>)
    ensures
        r@ == strip_cr(s@),
{
    let mut s = s;
    if s.len() > 0 && s[s.len() - 1] == '\r' {
        s.pop();
    }
    s
}

fn trim_line_chars(l: &Vec<char>, i: usize, n: usize) -> (r: Vec<char>)
    requires
        i < n,
    ensures
        r@ == trim_line(l@, i as int, n as int),
{
    if i == 0 {
        trim_end_chars(l)
    } else if i == n - 1 {
        trim_start_chars(l)
    } else {
        let t = trim_end_chars(l);
        trim_start_chars(&t)
    }
}

/// The text that a JSX text run renders as, when that is not empty.
pub fn normalize_text(s: &str) -> (r: Option<String>)
    ensures
        normalized_text(s@).len() == 0 ==> r is None,
        normalized_text(s@).len() > 0 ==> (r matches Some(t) && t@ == normalized_text(s@)),
{
    let raw = chars_of(s);
    let d = detab_chars(&raw);
    let pieces = split_lf_chars(&d);
    let ghost p = split_lf(detab(s@));
    let ghost ls = lines(detab(s@));
    proof {
        lemma_split_lf_nonempty(detab(s@));
    }
    let np = pieces.len();
    let n: usize = if pieces[np - 1].len() == 0 { np - 1 } else { np };
    assert(ls.len() == n);
    let mut acc: Vec<char> = Vec::new();
    let mut i: usize = n;
    while i > 0
        invariant
            i <= n,
            n == ls.len(),
            np == pieces@.len(),
            n <= np,
            pieces_view(pieces) == p,
            ls == lines(detab(s@)),
            p == split_lf(detab(s@)),
            acc@ == join_lines(ls, i as int),
        decreases i,
    {
        i = i - 1;
        let piece = copy_chars(&pieces[i]);
        let line = if i + 1 < np { strip_cr_chars(piece) } else { piece };
        assert(line@ == ls[i as int]);
        let mut t = trim_line_chars(&line, i, n);
        if t.len() > 0 {
            if acc.len() > 0 {
                t.push(' ');
                t.append(&mut acc);
            }
            acc = t;
        }
    }
    if acc.len() == 0 {
        None
    } else {
        Some(string_of(&acc))
    }
}

fn copy_chars(s: &Vec<char>) -> (r: Vec<char>)
    ensures
        r@ == s@,
{
    let mut r: Vec<char> = Vec::new();
    let mut i: usize = 0;
    while i < s.len()
        invariant
            i <= s.len(),
            r@ == s@.subrange(0, i as int),
        decreases s.len() - i,
    {
        r.push(s[i]);
        i = i + 1;
        assert(r@ =~= s@.subrange(0, i as int));
    }
    assert(s@.subrange(0, i as int) =~= s@);
    r
}

pub open spec fn trim(s: Seq<char>) -> Seq<char> {
    trim_start(trim_end(s))
}

/// The node-creation function that a comment names: `@jsx name`, trimmed, after an
/// optional leading `*`.
pub open spec fn pragma_of(comment: Seq<char>) -> Option<Seq<char>> {
    let t = trim(comment);
    let u = trim(if t.len() > 0 && t[0] == '*' { t.drop_first() } else { t });
    if u.len() >= 4 && u.subrange(0, 4) == "@jsx"@ {
        Some(trim(u.subrange(4, u.len() as int)))
    } else {
        None
    }
}

fn drop_first_chars(s: &Vec<char>, k: usize) -> (r: Vec<char>)
    requires
        k <= s@.len(),
    ensures
        r@ == s@.subrange(k as int, s@.len() as int),
{
    let mut r: Vec<char> = Vec::new();
    let mut i: usize = k;
    while i < s.len()
        invariant
            k <= i <= s@.len(),
            r@ == s@.subrange(k as int, i as int),
        decreases s.len() - i,
    {
        r.push(s[i]);
        i = i + 1;
        assert(r@ =~= s@.subrange(k as int, i as int));
    }
    r
}

fn trim_chars(s: &Vec<char>) -> (r: Vec<char>)
    ensures
        r@ == trim(s@),
{
    let t = trim_end_chars(s);
    trim_start_chars(&t)
}

/// The node-creation function named by a comment, if it names one.
pub fn jsx_pragma(comment: &str) -> (r: Option<String>)
    ensures
        opt_chars(r) == pragma_of(comment@),
{
    let c = chars_of(comment);
    let t = trim_chars(&c);
    let t2 = if t.len() > 0 && t[0] == '*' {
        drop_first_chars(&t, 1)
    } else {
        t
    };
    proof {
        if t@.len() > 0 && t@[0] == '*' {
            assert(t2@ =~= t@.drop_first());
        }
    }
    let u = trim_chars(&t2);
    proof {
        reveal_strlit("@jsx");
    }
    if u.len() >= 4 && u[0] == '@' && u[1] == 'j' && u[2] == 's' && u[3] == 'x' {
        assert(u@.subrange(0, 4) =~= "@jsx"@);
        let rest = drop_first_chars(&u, 4);
        let name = trim_chars(&rest);
        Some(string_of(&name))
    } else {
        proof {
            if u@.len() >= 4 && u@.subrange(0, 4) == "@jsx"@ {
                assert(u@[0] == u@.subrange(0, 4)[0]);
                assert(u@[1] == u@.subrange(0, 4)[1]);
                assert(u@[2] == u@.subrange(0, 4)[2]);
                assert(u@[3] == u@.subrange(0, 4)[3]);
            }
        }
        None
    }
}

pub open spec fn opt_chars(s: Option<String>) -> Option<Seq<char>> {
    match s {
        Some(a) => Some(a@),
        None => None,
    }
}

} // verus!
