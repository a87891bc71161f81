//! Character-sequence helpers shared by the parsers and report builders.
//!
//! Strings are modelled by their views, `Seq<char>`. The helpers here give
//! those sequences the meaning that `str::trim`, `str::find`, `str::contains`,
//! `str::lines` and decimal formatting have on them.

use vstd::prelude::*;
use vstd::std_specs::iter::IteratorSpec;

verus! {

/// The characters of `s`, in order.
pub fn chars_of(s: &str) -> (v: Vec<char>)
    ensures
        v@ == s@,
{
    let mut v: Vec<char> = Vec::new();
    for c in it: s.chars()
        invariant
            v@ == it.seq().take(it.index() as int),
    {
        v.push(c);
    }
    v
}

/// The string whose characters are `v`, built with `String`'s `FromIterator<&char>`.
#[verifier::external_body]
pub(crate) fn string_from_chars(v: &Vec<char>) -> (s: String)
    ensures
        s@ == v@,
{
    String::from_iter(v.iter())
}

/// A copy of `s` as an owned string.
pub fn owned(s: &str) -> (r: String)
    ensures
        r@ == s@,
{
    let v = chars_of(s);
    string_from_chars(&v)
}

/// Whether `a` and `b` hold the same characters.
pub fn str_eq(a: &str, b: &str) -> (r: bool)
    ensures
        r == (a@ == b@),
{
    owned(a) == owned(b)
}

/// The characters `v[start..end]` as a vector.
pub fn slice_chars(v: &Vec<char>, start: usize, end: usize) -> (r: Vec<char>)
    requires
        start <= end <= v@.len(),
    ensures
        r@ == v@.subrange(start as int, end as int),
{
    let mut r: Vec<char> = Vec::new();
    let mut i = start;
    while i < end
        invariant
            start <= i <= end <= v@.len(),
            r@ == v@.subrange(start as int, i as int),
        decreases end - i,
    {
        r.push(v[i]);
        assert(v@.subrange(start as int, i + 1) =~= v@.subrange(start as int, i as int).push(
            v@[i as int],
        ));
        i = i + 1;
    }
    r
}

// ---------------------------------------------------------------------------
// Whitespace and trimming
// ---------------------------------------------------------------------------

/// The Unicode `White_Space` property, which is what `char::is_whitespace`
/// and `str::trim` test.
pub open spec fn is_white_space(c: char) -> bool {
    let v = c as u32;
    ||| (9 <= v && v <= 13)
    ||| v == 32
    ||| v == 0x85
    ||| v == 0xa0
    ||| v == 0x1680
    ||| (0x2000 <= v && v <= 0x200a)
    ||| v == 0x2028
    ||| v == 0x2029
    ||| v == 0x202f
    ||| v == 0x205f
    ||| v == 0x3000
}

/// Whether `c` is a white-space character.
pub fn white_space(c: char) -> (b: bool)
    ensures
        b == is_white_space(c),
{
    let v = c as u32;
    (9 <= v && v <= 13) || v == 32 || v == 0x85 || v == 0xa0 || v == 0x1680 || (0x2000 <= v
        && v <= 0x200a) || v == 0x2028 || v == 0x2029 || v == 0x202f || v == 0x205f || v == 0x3000
}

/// `s` without its leading white space.
pub open spec fn trim_start(s: Seq<char>) -> Seq<char>
    decreases s.len(),
{
    if s.len() > 0 && is_white_space(s[0]) {
        trim_start(s.drop_first())
    } else {
        s
    }
}

/// `s` without its trailing white space.
pub open spec fn trim_end(s: Seq<char>) -> Seq<char>
    decreases s.len(),
{
    if s.len() > 0 && is_white_space(s.last()) {
        trim_end(s.drop_last())
    } else {
        s
    }
}

/// `s` without leading and trailing white space, as `str::trim` gives it.
pub open spec fn trim(s: Seq<char>) -> Seq<char> {
    trim_end(trim_start(s))
}

/// Dropping leading white space leaves a suffix.
proof fn lemma_trim_start_suffix(s: Seq<char>)
    ensures
        trim_start(s).len() <= s.len(),
        trim_start(s) == s.subrange(s.len() - trim_start(s).len(), s.len() as int),
    decreases s.len(),
{
    if s.len() > 0 && is_white_space(s[0]) {
        lemma_trim_start_suffix(s.drop_first());
        assert(trim_start(s) =~= s.subrange(s.len() - trim_start(s).len(), s.len() as int));
    } else {
        assert(s.subrange(0, s.len() as int) =~= s);
    }
}

/// Dropping trailing white space leaves a prefix.
proof fn lemma_trim_end_prefix(s: Seq<char>)
    ensures
        trim_end(s).len() <= s.len(),
        trim_end(s) == s.subrange(0, trim_end(s).len() as int),
    decreases s.len(),
{
    if s.len() > 0 && is_white_space(s.last()) {
        lemma_trim_end_prefix(s.drop_last());
        assert(trim_end(s) =~= s.subrange(0, trim_end(s).len() as int));
    } else {
        assert(s.subrange(0, s.len() as int) =~= s);
    }
}

/// The trimmed text is the piece of `s` that starts at the returned offset.
pub proof fn lemma_trim_offset(s: Seq<char>) -> (a: int)
    ensures
        0 <= a,
        a + trim(s).len() <= s.len(),
        trim(s) == s.subrange(a, a + trim(s).len()),
{
    let t = trim_start(s);
    lemma_trim_start_suffix(s);
    lemma_trim_end_prefix(t);
    let a = s.len() - t.len();
    assert(trim(s) =~= s.subrange(a, a + trim(s).len()));
    a
}

/// The bounds `(a, b)` of the trimmed part of `v[start..end]`.
pub fn trim_range(v: &Vec<char>, start: usize, end: usize) -> (r: (usize, usize))
    requires
        start <= end <= v@.len(),
    ensures
        start <= r.0 <= r.1 <= end,
        v@.subrange(r.0 as int, r.1 as int) == trim(v@.subrange(start as int, end as int)),
{
    let mut a = start;
    while a < end && white_space(v[a])
        invariant
            start <= a <= end <= v@.len(),
            trim_start(v@.subrange(start as int, end as int)) == trim_start(
                v@.subrange(a as int, end as int),
            ),
        decreases end - a,
    {
        assert(v@.subrange(a as int, end as int).drop_first() =~= v@.subrange(
            a + 1,
            end as int,
        ));
        a = a + 1;
    }
    let mut b = end;
    while b > a && white_space(v[b - 1])
        invariant
            start <= a <= b <= end <= v@.len(),
            trim_start(v@.subrange(start as int, end as int)) == v@.subrange(a as int, end as int),
            trim_end(v@.subrange(a as int, end as int)) == trim_end(
                v@.subrange(a as int, b as int),
            ),
        decreases b - a,
    {
        assert(v@.subrange(a as int, b as int).drop_last() =~= v@.subrange(
            a as int,
            b - 1,
        ));
        b = b - 1;
    }
    (a, b)
}

// ---------------------------------------------------------------------------
// Searching
// ---------------------------------------------------------------------------

/// Whether `pat` occurs in `s` at position `i`.
pub open spec fn occurs_at(s: Seq<char>, pat: Seq<char>, i: int) -> bool {
    0 <= i && i + pat.len() <= s.len() && s.subrange(i, i + pat.len()) == pat
}

/// The first position at or after `i` where `pat` occurs in `s`, as `str::find` reports it.
pub open spec fn find_from(s: Seq<char>, pat: Seq<char>, i: int) -> Option<int>
    decreases s.len() + 1 - i,
{
    if i < 0 || i + pat.len() > s.len() {
        None
    } else if occurs_at(s, pat, i) {
        Some(i)
    } else {
        find_from(s, pat, i + 1)
    }
}

/// `s` contains `pat`, as `str::contains` decides it.
pub open spec fn contains_seq(s: Seq<char>, pat: Seq<char>) -> bool {
    exists|i: int| occurs_at(s, pat, i)
}

pub proof fn lemma_find_from_some(s: Seq<char>, pat: Seq<char>, i: int)
    requires
        0 <= i,
    ensures
        find_from(s, pat, i) matches Some(k) ==> i <= k && occurs_at(s, pat, k) && (forall|j: int|
            i <= j < k ==> !occurs_at(s, pat, j)),
        find_from(s, pat, i) is None ==> forall|j: int| i <= j ==> !occurs_at(s, pat, j),
    decreases s.len() + 1 - i,
{
    if i + pat.len() > s.len() {
    } else if occurs_at(s, pat, i) {
    } else {
        lemma_find_from_some(s, pat, i + 1);
        assert forall|j: int| i <= j && find_from(s, pat, i + 1) is None implies !occurs_at(
            s,
            pat,
            j,
        ) by {
            if j == i {
            }
        }
    }
}

/// Whether `pat` occurs in `v` at position `i`.
fn matches_at(v: &Vec<char>, pat: &Vec<char>, i: usize) -> (b: bool)
    requires
        i + pat@.len() <= v@.len(),
    ensures
        b == occurs_at(v@, pat@, i as int),
{
    let n = v.len();
    let mut k: usize = 0;
    while k < pat.len()
        invariant
            n == v@.len(),
            k <= pat@.len(),
            i + pat@.len() <= v@.len(),
            forall|j: int| 0 <= j < k ==> v@[i + j] == pat@[j],
        decreases pat@.len() - k,
    {
        assert(i + k < n);
        if v[i + k] != pat[k] {
            assert(v@.subrange(i as int, i + pat@.len())[k as int] != pat@[k as int]);
            return false;
        }
        k = k + 1;
    }
    assert(v@.subrange(i as int, i + pat@.len()) =~= pat@);
    true
}

/// The first position at or after `start` where `pat` occurs in `v`.
pub fn find_in(v: &Vec<char>, pat: &Vec<char>, start: usize) -> (r: Option<usize>)
    ensures
        r matches Some(k) ==> find_from(v@, pat@, start as int) == Some(k as int),
        r is None ==> find_from(v@, pat@, start as int) is None,
{
    if pat.len() > v.len() {
        return None;
    }
    let last = v.len() - pat.len();
    if start > last {
        return None;
    }
    let mut i = start;
    loop
        invariant
            last == v@.len() - pat@.len(),
            start <= i <= last,
            find_from(v@, pat@, start as int) == find_from(v@, pat@, i as int),
        decreases last - i,
    {
        if matches_at(v, pat, i) {
            return Some(i);
        }
        if i == last {
            return None;
        }
        i = i + 1;
    }
}

/// Whether `pat` occurs anywhere in `v`.
pub fn contains_in(v: &Vec<char>, pat: &Vec<char>) -> (b: bool)
    ensures
        b == contains_seq(v@, pat@),
{
    let r = find_in(v, pat, 0);
    proof {
        lemma_find_from_some(v@, pat@, 0);
    }
    r.is_some()
}

// ---------------------------------------------------------------------------
// Lines
// ---------------------------------------------------------------------------

/// The pieces of `s` between newline characters, the last one possibly empty.
///
/// `str::lines` gives the same pieces, except that it drops a final empty
/// piece and a `'\r'` at the end of a piece; the line predicates of this
/// crate give the same answer either way.
pub open spec fn newline_pieces(s: Seq<char>) -> Seq<Seq<char>>
    decreases s.len(),
{
    if s.len() == 0 {
        seq![Seq::empty()]
    } else {
        let prev = newline_pieces(s.drop_last());
        if s.last() == '\n' {
            prev.push(Seq::empty())
        } else {
            prev.update(prev.len() - 1, prev.last().push(s.last()))
        }
    }
}

proof fn lemma_newline_pieces_nonempty(s: Seq<char>)
    ensures
        newline_pieces(s).len() >= 1,
    decreases s.len(),
{
    if s.len() > 0 {
        lemma_newline_pieces_nonempty(s.drop_last());
    }
}

/// The pieces of two texts joined by a newline are the pieces of the first
/// followed by those of the second.
pub proof fn lemma_newline_pieces_join(a: Seq<char>, b: Seq<char>)
    ensures
        newline_pieces(a + seq!['\n'] + b) == newline_pieces(a) + newline_pieces(b),
    decreases b.len(),
{
    let j = a + seq!['\n'] + b;
    if b.len() == 0 {
        assert(j.drop_last() =~= a);
        assert(newline_pieces(a).push(Seq::empty()) =~= newline_pieces(a) + newline_pieces(b));
    } else {
        let b0 = b.drop_last();
        lemma_newline_pieces_join(a, b0);
        lemma_newline_pieces_nonempty(b0);
        assert(j.drop_last() =~= a + seq!['\n'] + b0);
        let p = newline_pieces(a);
        let q = newline_pieces(b0);
        if b.last() == '\n' {
            assert((p + q).push(Seq::empty()) =~= p + q.push(Seq::empty()));
        } else {
            let pq = p + q;
            assert(pq.update(pq.len() - 1, pq.last().push(b.last())) =~= p + q.update(
                q.len() - 1,
                q.last().push(b.last()),
            ));
        }
    }
}

/// The two ways a line can be a filter rule.
pub enum RuleSyntax {
    /// A rule is a line that is not blank and does not start with `!`.
    Loader,
    /// A rule is a line whose trimmed text is not empty and does not start with `!` or `#`.
    Validator,
}

/// Whether `line` is a rule under `syntax`.
pub open spec fn is_rule_line(syntax: RuleSyntax, line: Seq<char>) -> bool {
    match syntax {
        RuleSyntax::Loader => trim(line).len() > 0 && !(line.len() > 0 && line[0] == '!'),
        RuleSyntax::Validator => trim(line).len() > 0 && trim(line)[0] != '!' && trim(line)[0]
            != '#',
    }
}

/// The number of lines of `lines` that are rules under `syntax`.
pub open spec fn count_rules(syntax: RuleSyntax, lines: Seq<Seq<char>>) -> nat
    decreases lines.len(),
{
    if lines.len() == 0 {
        0
    } else {
        count_rules(syntax, lines.drop_last()) + if is_rule_line(syntax, lines.last()) {
            1nat
        } else {
            0nat
        }
    }
}

/// A text without a newline is a single piece.
pub proof fn lemma_newline_pieces_single(line: Seq<char>)
    requires
        !line.contains('\n'),
    ensures
        newline_pieces(line) == seq![line],
    decreases line.len(),
{
    if line.len() > 0 {
        let rest = line.drop_last();
        assert(!rest.contains('\n')) by {
            if rest.contains('\n') {
                let k = choose|k: int| 0 <= k < rest.len() && rest[k] == '\n';
                assert(line[k] == '\n');
            }
        }
        lemma_newline_pieces_single(rest);
        assert(line.last() == line[line.len() - 1]);
        assert(line.last() != '\n');
        assert(rest.push(line.last()) =~= line);
        assert(seq![rest].last() == rest);
        assert(seq![rest].update(0, rest.push(line.last())) =~= seq![line]);
    } else {
        assert(line =~= Seq::<char>::empty());
    }
}

/// One line counts once when it is a rule and not at all otherwise.
pub proof fn lemma_count_rules_single(syntax: RuleSyntax, line: Seq<char>)
    ensures
        count_rules(syntax, seq![line]) == if is_rule_line(syntax, line) {
            1nat
        } else {
            0nat
        },
{
    let one = seq![line];
    assert(one.drop_last() =~= Seq::<Seq<char>>::empty());
    assert(one.last() == line);
    assert(count_rules(syntax, Seq::<Seq<char>>::empty()) == 0);
}

/// The rules of two runs of lines add up.
pub proof fn lemma_count_rules_concat(syntax: RuleSyntax, a: Seq<Seq<char>>, b: Seq<Seq<char>>)
    ensures
        count_rules(syntax, a + b) == count_rules(syntax, a) + count_rules(syntax, b),
    decreases b.len(),
{
    if b.len() == 0 {
        assert(a + b =~= a);
    } else {
        lemma_count_rules_concat(syntax, a, b.drop_last());
        assert((a + b).drop_last() =~= a + b.drop_last());
    }
}

/// Whether the line `v[start..end]` is a rule under `syntax`.
fn line_is_rule(syntax: &RuleSyntax, v: &Vec<char>, start: usize, end: usize) -> (b: bool)
    requires
        start <= end <= v@.len(),
    ensures
        b == is_rule_line(*syntax, v@.subrange(start as int, end as int)),
{
    let (a, b) = trim_range(v, start, end);
    match syntax {
        RuleSyntax::Loader => a < b && !(start < end && v[start] == '!'),
        RuleSyntax::Validator => a < b && v[a] != '!' && v[a] != '#',
    }
}

/// The number of newline-separated lines of `v` that are rules under `syntax`.
pub fn count_rule_lines(syntax: RuleSyntax, v: &Vec<char>) -> (n: usize)
    ensures
        n == count_rules(syntax, newline_pieces(v@)),
{
    let mut done: usize = 0;
    let mut start: usize = 0;
    let mut i: usize = 0;
    while i < v.len()
        invariant
            start <= i <= v@.len(),
            newline_pieces(v@.take(i as int)).len() >= 1,
            newline_pieces(v@.take(i as int)).last() == v@.subrange(start as int, i as int),
            done == count_rules(syntax, newline_pieces(v@.take(i as int)).drop_last()),
            done <= start,
        decreases v@.len() - i,
    {
        let ghost pieces = newline_pieces(v@.take(i as int));
        assert(v@.take(i + 1).drop_last() =~= v@.take(i as int));
        if v[i] == '\n' {
            let rule = line_is_rule(&syntax, v, start, i);
            assert(newline_pieces(v@.take(i + 1)) == pieces.push(Seq::empty()));
            assert(newline_pieces(v@.take(i + 1)).drop_last() =~= pieces);
            assert(pieces =~= pieces.drop_last().push(pieces.last()));
            if rule {
                done = done + 1;
            }
            start = i + 1;
            assert(newline_pieces(v@.take(i + 1)).last() =~= v@.subrange(
                start as int,
                i + 1,
            ));
        } else {
            let ghost next = pieces.update(pieces.len() - 1, pieces.last().push(v@[i as int]));
            assert(newline_pieces(v@.take(i + 1)) == next);
            assert(next.drop_last() =~= pieces.drop_last());
            assert(next.last() =~= v@.subrange(start as int, i + 1));
        }
        i = i + 1;
    }
    let rule = line_is_rule(&syntax, v, start, v.len());
    assert(v@.take(v@.len() as int) =~= v@);
    let ghost pieces = newline_pieces(v@);
    assert(pieces =~= pieces.drop_last().push(pieces.last()));
    if rule {
        assert(start < v@.len());
        done + 1
    } else {
        done
    }
}

// ---------------------------------------------------------------------------
// Decimal numerals
// ---------------------------------------------------------------------------

/// The decimal digit for `d`.
pub open spec fn digit_char(d: nat) -> char {
    seq!['0', '1', '2', '3', '4', '5', '6', '7', '8', '9'][d as int]
}

/// The decimal numeral of `n`, as `format!("{}", n)` writes it.
pub open spec fn decimal(n: nat) -> Seq<char>
    decreases n,
{
    if n < 10 {
        seq![digit_char(n)]
    } else {
        decimal(n / 10).push(digit_char(n % 10))
    }
}

pub fn digit(d: u64) -> (c: char)
    requires
        d < 10,
    ensures
        c == digit_char(d as nat),
{
    if d == 0 {
        '0'
    } else if d == 1 {
        '1'
    } else if d == 2 {
        '2'
    } else if d == 3 {
        '3'
    } else if d == 4 {
        '4'
    } else if d == 5 {
        '5'
    } else if d == 6 {
        '6'
    } else if d == 7 {
        '7'
    } else if d == 8 {
        '8'
    } else {
        '9'
    }
}

/// Appends the decimal numeral of `n` to `out`.
pub fn push_decimal(out: &mut Vec<char>, n: u64)
    ensures
        final(out)@ == old(out)@ + decimal(n as nat),
    decreases n,
{
    if n >= 10 {
        push_decimal(out, n / 10);
    }
    out.push(digit(n % 10));
    proof {
        if n >= 10 {
            assert(old(out)@ + decimal(n as nat) =~= old(out)@ + decimal((n / 10) as nat) + seq![
                digit_char((n % 10) as nat),
            ]);
        }
    }
}

/// Appends the characters of `s` to `out`.
pub fn push_str(out: &mut Vec<char>, s: &str)
    ensures
        final(out)@ == old(out)@ + s@,
{
    let v = chars_of(s);
    push_all(out, &v);
}

/// Appends the characters of `v` to `out`.
pub fn push_all(out: &mut Vec<char>, v: &Vec<char>)
    ensures
        final(out)@ == old(out)@ + v@,
{
    let ghost start = out@;
    let mut i: usize = 0;
    while i < v.len()
        invariant
            i <= v@.len(),
            out@ == start + v@.take(i as int),
        decreases v@.len() - i,
    {
        out.push(v[i]);
        assert(v@.take(i + 1) =~= v@.take(i as int).push(v@[i as int]));
        i = i + 1;
    }
    assert(v@.take(v@.len() as int) =~= v@);
}

} // verus!
