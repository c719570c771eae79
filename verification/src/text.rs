//! Character-sequence helpers shared by the parsers and the script builders.
//!
//! Everything here works on `Seq<char>` in specifications and on `Vec<char>`
//! in executable code; `chars_of` and `string_of` move between those and
//! Rust strings.

use vstd::prelude::*;

verus! {

/// `String::push` appends one character.
pub assume_specification[ String::push ](s: &mut String, c: char)
    ensures
        final(s)@ == old(s)@.push(c),
;

/// The characters of `s`, in order.
pub fn chars_of(s: &str) -> (v: Vec<char>)
    ensures
        v@ == s@,
{
    let mut v: Vec<char> = Vec::new();
    for c in it: s.chars()
        invariant
            v@ == it.seq().take(it.index()),
            it.seq() == s@,
    {
        v.push(c);
    }
    v
}

/// The string made of the characters of `v`.
pub fn string_of(v: &Vec<char>) -> (s: String)
    ensures
        s@ == v@,
{
    let mut s = String::new();
    let mut i: usize = 0;
    while i < v.len()
        invariant
            i <= v.len(),
            s@ == v@.take(i as int),
        decreases v.len() - i,
    {
        s.push(v[i]);
        i += 1;
    }
    s
}

/// Appends the characters of `tail` to `v`.
pub fn push_all(v: &mut Vec<char>, tail: &Vec<char>)
    ensures
        final(v)@ == old(v)@ + tail@,
{
    let mut i: usize = 0;
    while i < tail.len()
        invariant
            i <= tail.len(),
            v@ == old(v)@ + tail@.take(i as int),
        decreases tail.len() - i,
    {
        v.push(tail[i]);
        i += 1;
    }
}

/// Appends the characters of the string `tail` to `v`.
pub fn push_str(v: &mut Vec<char>, tail: &str)
    ensures
        final(v)@ == old(v)@ + tail@,
{
    let t = chars_of(tail);
    push_all(v, &t);
}

/// A copy of `v[from..to]`.
pub fn slice_of(v: &Vec<char>, from: usize, to: usize) -> (out: Vec<char>)
    requires
        from <= to <= v.len(),
    ensures
        out@ == v@.subrange(from as int, to as int),
{
    let mut out: Vec<char> = Vec::new();
    let mut i: usize = from;
    while i < to
        invariant
            from <= i <= to <= v.len(),
            out@ == v@.subrange(from as int, i as int),
        decreases to - i,
    {
        out.push(v[i]);
        i += 1;
    }
    out
}

/// Whether two character vectors hold the same characters.
pub fn same_chars(a: &Vec<char>, b: &Vec<char>) -> (r: bool)
    ensures
        r == (a@ == b@),
{
    if a.len() != b.len() {
        return false;
    }
    let mut i: usize = 0;
    while i < a.len()
        invariant
            i <= a.len(),
            a.len() == b.len(),
            a@.take(i as int) == b@.take(i as int),
        decreases a.len() - i,
    {
        if a[i] != b[i] {
            return false;
        }
        assert(a@.take(i + 1) == a@.take(i as int).push(a@[i as int]));
        assert(b@.take(i + 1) == b@.take(i as int).push(b@[i as int]));
        i += 1;
    }
    assert(a@.take(a.len() as int) == a@);
    assert(b@.take(b.len() as int) == b@);
    true
}

// ---------------------------------------------------------------------------
// Character classes
// ---------------------------------------------------------------------------

/// Unicode white space: the characters on which a line is cut into tokens.
pub open spec fn is_space(c: char) -> bool {
    ||| ('\u{9}' <= c && c <= '\u{d}')
    ||| c == ' '
    ||| c == '\u{85}'
    ||| c == '\u{a0}'
    ||| c == '\u{1680}'
    ||| ('\u{2000}' <= c && c <= '\u{200a}')
    ||| c == '\u{2028}'
    ||| c == '\u{2029}'
    ||| c == '\u{202f}'
    ||| c == '\u{205f}'
    ||| c == '\u{3000}'
}

/// Whether `c` is white space.
pub fn is_space_char(c: char) -> (r: bool)
    ensures
        r == is_space(c),
{
    ('\u{9}' <= c && c <= '\u{d}') || c == ' ' || c == '\u{85}' || c == '\u{a0}' || c
        == '\u{1680}' || ('\u{2000}' <= c && c <= '\u{200a}') || c == '\u{2028}' || c
        == '\u{2029}' || c == '\u{202f}' || c == '\u{205f}' || c == '\u{3000}'
}

/// An ASCII decimal digit.
pub open spec fn is_digit(c: char) -> bool {
    '0' <= c && c <= '9'
}

/// Whether `c` is a decimal digit.
pub fn is_digit_char(c: char) -> (r: bool)
    ensures
        r == is_digit(c),
{
    '0' <= c && c <= '9'
}

/// An ASCII letter.
pub open spec fn is_ascii_letter(c: char) -> bool {
    ('a' <= c && c <= 'z') || ('A' <= c && c <= 'Z')
}

/// Whether `c` is an ASCII letter.
pub fn is_ascii_letter_char(c: char) -> (r: bool)
    ensures
        r == is_ascii_letter(c),
{
    ('a' <= c && c <= 'z') || ('A' <= c && c <= 'Z')
}

/// No character of `s` is white space.
pub open spec fn space_free(s: Seq<char>) -> bool {
    forall|i: int| 0 <= i < s.len() ==> !is_space(#[trigger] s[i])
}

/// Every character of `s` is white space (so also: `s` is empty).
pub open spec fn is_blank(s: Seq<char>) -> bool {
    forall|i: int| 0 <= i < s.len() ==> is_space(#[trigger] s[i])
}

/// Whether `v` is white space only.
pub fn is_blank_chars(v: &Vec<char>) -> (r: bool)
    ensures
        r == is_blank(v@),
{
    let mut i: usize = 0;
    while i < v.len()
        invariant
            i <= v.len(),
            forall|j: int| 0 <= j < i ==> is_space(#[trigger] v@[j]),
        decreases v.len() - i,
    {
        if !is_space_char(v[i]) {
            return false;
        }
        i += 1;
    }
    true
}

// ---------------------------------------------------------------------------
// Tokens
// ---------------------------------------------------------------------------

/// The maximal white-space-free runs of `s`, left to right.
///
/// Defined from the right: the last character either is white space (and
/// adds nothing), continues the token that the character before it belongs
/// to, or starts a new token.
pub open spec fn tokens(s: Seq<char>) -> Seq<Seq<char>>
    decreases s.len(),
{
    if s.len() == 0 {
        Seq::empty()
    } else {
        let init = tokens(s.drop_last());
        let c = s.last();
        if is_space(c) {
            init
        } else if s.len() >= 2 && !is_space(s[s.len() - 2]) {
            init.drop_last().push(init.last().push(c))
        } else {
            init.push(seq![c])
        }
    }
}

/// The views of a vector of character vectors.
pub open spec fn views(v: Seq<Vec<char>>) -> Seq<Seq<char>> {
    Seq::new(v.len(), |i: int| v[i]@)
}

/// While a token is being read, `tokens` of the text so far ends with it.
pub proof fn lemma_tokens_open_end(s: Seq<char>)
    requires
        s.len() > 0,
        !is_space(s.last()),
    ensures
        tokens(s).len() > 0,
        tokens(s).last().len() > 0,
    decreases s.len(),
{
    if s.len() >= 2 && !is_space(s[s.len() - 2]) {
        lemma_tokens_open_end(s.drop_last());
    }
}

/// Cuts `line` into its tokens.
pub fn split_tokens(line: &Vec<char>) -> (out: Vec<Vec<char>>)
    ensures
        views(out@) == tokens(line@),
{
    let mut out: Vec<Vec<char>> = Vec::new();
    let mut cur: Vec<char> = Vec::new();
    let mut i: usize = 0;
    assert(line@.take(0) =~= Seq::<char>::empty());
    assert(views(out@) =~= Seq::<Seq<char>>::empty());
    while i < line.len()
        invariant
            i <= line.len(),
            cur@.len() > 0 <==> (i > 0 && !is_space(line@[i - 1])),
            cur@.len() > 0 ==> tokens(line@.take(i as int)) == views(out@).push(cur@),
            cur@.len() == 0 ==> tokens(line@.take(i as int)) == views(out@),
        decreases line.len() - i,
    {
        let c = line[i];
        let ghost before = line@.take(i as int);
        let ghost after = line@.take(i + 1);
        assert(after.drop_last() =~= before);
        assert(after.last() == c);
        assert(i > 0 ==> after[after.len() - 2] == line@[i - 1]);
        if is_space_char(c) {
            if cur.len() > 0 {
                let ghost old_out = views(out@);
                out.push(cur);
                assert(views(out@) =~= old_out.push(cur@));
                cur = Vec::new();
            }
        } else {
            let ghost old_cur = cur@;
            cur.push(c);
            proof {
                if old_cur.len() > 0 {
                    assert(views(out@).push(old_cur).drop_last() =~= views(out@));
                } else {
                    assert(old_cur =~= Seq::<char>::empty());
                    assert(cur@ =~= seq![c]);
                }
            }
        }
        i += 1;
    }
    assert(line@.take(line.len() as int) =~= line@);
    if cur.len() > 0 {
        let ghost old_out = views(out@);
        out.push(cur);
        assert(views(out@) =~= old_out.push(cur@));
    }
    out
}

/// A text without white space is its own single token.
pub proof fn lemma_single_token(t: Seq<char>)
    requires
        t.len() > 0,
        space_free(t),
    ensures
        tokens(t) == seq![t],
    decreases t.len(),
{
    if t.len() == 1 {
        assert(t.drop_last() =~= Seq::<char>::empty());
        assert(tokens(t.drop_last()) =~= Seq::<Seq<char>>::empty());
        assert(seq![t.last()] =~= t);
        assert(tokens(t) =~= seq![t]);
    } else {
        let init = t.drop_last();
        assert(forall|i: int| 0 <= i < init.len() ==> init[i] == t[i]);
        lemma_single_token(init);
        assert(!is_space(t[t.len() - 2]));
        assert(init.push(t.last()) =~= t);
        assert(tokens(t) =~= seq![t]);
    }
}

/// Behind a text that is empty or ends in white space, the tokens of what
/// follows are simply added.
pub proof fn lemma_tokens_concat(x: Seq<char>, y: Seq<char>)
    requires
        x.len() == 0 || is_space(x.last()),
    ensures
        tokens(x + y) == tokens(x) + tokens(y),
    decreases y.len(),
{
    if y.len() == 0 {
        assert(x + y =~= x);
        assert(tokens(x) + tokens(y) =~= tokens(x));
    } else {
        let whole = x + y;
        let c = y.last();
        assert(whole.drop_last() =~= x + y.drop_last());
        assert(whole.last() == c);
        lemma_tokens_concat(x, y.drop_last());
        let init = tokens(x) + tokens(y.drop_last());
        if is_space(c) {
        } else if y.len() >= 2 && !is_space(y[y.len() - 2]) {
            assert(whole[whole.len() - 2] == y[y.len() - 2]);
            assert(y.drop_last().last() == y[y.len() - 2]);
            lemma_tokens_open_end(y.drop_last());
            let ty = tokens(y.drop_last());
            assert(init.last() == ty.last());
            assert(init.drop_last() =~= tokens(x) + ty.drop_last());
            assert(tokens(whole) =~= tokens(x) + tokens(y));
        } else {
            if y.len() >= 2 {
                assert(whole[whole.len() - 2] == y[y.len() - 2]);
            } else if x.len() > 0 {
                assert(whole[whole.len() - 2] == x.last());
            }
            assert(tokens(whole) =~= tokens(x) + tokens(y));
        }
    }
}

/// The texts `toks`, with one blank between neighbours.
pub open spec fn join_tokens(toks: Seq<Seq<char>>) -> Seq<char>
    decreases toks.len(),
{
    if toks.len() == 0 {
        Seq::empty()
    } else if toks.len() == 1 {
        toks[0]
    } else {
        toks[0].push(' ') + join_tokens(toks.skip(1))
    }
}

/// Cutting a joined line gives back the tokens that were joined, where
/// each of them is a token: not empty, and without white space.
pub proof fn lemma_tokens_of_join(toks: Seq<Seq<char>>)
    requires
        forall|i: int| 0 <= i < toks.len() ==> (#[trigger] toks[i]).len() > 0 && space_free(toks[i]),
    ensures
        tokens(join_tokens(toks)) == toks,
    decreases toks.len(),
{
    if toks.len() == 0 {
    } else if toks.len() == 1 {
        lemma_single_token(toks[0]);
        assert(seq![toks[0]] =~= toks);
    } else {
        let head = toks[0];
        let rest = toks.skip(1);
        assert(forall|i: int| 0 <= i < rest.len() ==> rest[i] == toks[i + 1]);
        lemma_tokens_of_join(rest);
        let x = head.push(' ');
        assert(is_space(x.last()));
        lemma_tokens_concat(x, join_tokens(rest));
        assert(x.drop_last() =~= head);
        lemma_single_token(head);
        assert(tokens(x) == seq![head]);
        assert(seq![head] + rest =~= toks);
    }
}

/// Joins `toks` with one blank between neighbours.
pub fn join_with_blanks(toks: &Vec<Vec<char>>) -> (out: Vec<char>)
    ensures
        out@ == join_tokens(views(toks@)),
{
    let mut out: Vec<char> = Vec::new();
    let mut i: usize = toks.len();
    let ghost all = views(toks@);
    assert(all.skip(all.len() as int) =~= Seq::<Seq<char>>::empty());
    while i > 0
        invariant
            i <= toks.len(),
            all == views(toks@),
            out@ == join_tokens(all.skip(i as int)),
        decreases i,
    {
        i -= 1;
        let ghost tail = all.skip(i + 1);
        let ghost here = all.skip(i as int);
        assert(here.skip(1) =~= tail);
        assert(here[0] == toks@[i as int]@);
        let mut line = slice_of(&toks[i], 0, toks[i].len());
        assert(toks@[i as int]@.subrange(0, toks@[i as int]@.len() as int) =~= toks@[i as int]@);
        if i + 1 < toks.len() {
            line.push(' ');
            push_all(&mut line, &out);
        } else {
            assert(here.len() == 1);
        }
        out = line;
    }
    assert(all.skip(0) =~= all);
    out
}

// ---------------------------------------------------------------------------
// Lines and fields
// ---------------------------------------------------------------------------

/// The pieces of `s` between the separators `sep`. There is always at least
/// one piece; a text that ends with a separator has an empty last piece.
pub open spec fn pieces(s: Seq<char>, sep: char) -> Seq<Seq<char>>
    decreases s.len(),
{
    if s.len() == 0 {
        seq![Seq::empty()]
    } else {
        let init = pieces(s.drop_last(), sep);
        if s.last() == sep {
            init.push(Seq::empty())
        } else {
            init.drop_last().push(init.last().push(s.last()))
        }
    }
}

/// The lines of `s`: its pieces between line feeds.
pub open spec fn lines(s: Seq<char>) -> Seq<Seq<char>> {
    pieces(s, '\n')
}

/// Cuts `text` at each `sep`.
pub fn split_on(text: &Vec<char>, sep: char) -> (out: Vec<Vec<char>>)
    ensures
        views(out@) == pieces(text@, sep),
        out@.len() > 0,
{
    let mut out: Vec<Vec<char>> = Vec::new();
    let mut cur: Vec<char> = Vec::new();
    let mut i: usize = 0;
    assert(text@.take(0) =~= Seq::<char>::empty());
    assert(views(out@).push(cur@) =~= seq![Seq::<char>::empty()]);
    while i < text.len()
        invariant
            i <= text.len(),
            pieces(text@.take(i as int), sep) == views(out@).push(cur@),
        decreases text.len() - i,
    {
        let c = text[i];
        let ghost before = text@.take(i as int);
        let ghost after = text@.take(i + 1);
        let ghost old_out = views(out@);
        let ghost old_cur = cur@;
        assert(after.drop_last() =~= before);
        assert(after.last() == c);
        if c == sep {
            out.push(cur);
            cur = Vec::new();
            assert(views(out@) =~= old_out.push(old_cur));
            assert(cur@ =~= Seq::<char>::empty());
        } else {
            cur.push(c);
            assert(old_out.push(old_cur).drop_last() =~= old_out);
        }
        i += 1;
    }
    assert(text@.take(text.len() as int) =~= text@);
    let ghost old_out = views(out@);
    out.push(cur);
    assert(views(out@) =~= old_out.push(cur@));
    out
}

/// Cuts `text` into its lines.
pub fn split_lines(text: &Vec<char>) -> (out: Vec<Vec<char>>)
    ensures
        views(out@) == lines(text@),
        out@.len() > 0,
{
    split_on(text, '\n')
}

// ---------------------------------------------------------------------------
// Trimming
// ---------------------------------------------------------------------------

/// `s` without the white space at its end.
pub open spec fn trimmed_end(s: Seq<char>) -> Seq<char>
    decreases s.len(),
{
    if s.len() > 0 && is_space(s.last()) {
        trimmed_end(s.drop_last())
    } else {
        s
    }
}

/// `s` without the white space at its start.
pub open spec fn trimmed_start(s: Seq<char>) -> Seq<char>
    decreases s.len(),
{
    if s.len() > 0 && is_space(s[0]) {
        trimmed_start(s.drop_first())
    } else {
        s
    }
}

/// `s` without the white space at its start and at its end.
pub open spec fn trimmed(s: Seq<char>) -> Seq<char> {
    trimmed_start(trimmed_end(s))
}

/// `v` without the white space at its start and at its end.
pub fn trim_chars(v: &Vec<char>) -> (out: Vec<char>)
    ensures
        out@ == trimmed(v@),
{
    let mut end: usize = v.len();
    assert(v@.take(v.len() as int) =~= v@);
    while end > 0 && is_space_char(v[end - 1])
        invariant
            end <= v.len(),
            trimmed_end(v@) == trimmed_end(v@.take(end as int)),
        decreases end,
    {
        assert(v@.take(end as int).drop_last() =~= v@.take(end - 1));
        end -= 1;
    }
    let ghost kept = v@.take(end as int);
    assert(trimmed_end(v@) == kept);
    let mut start: usize = 0;
    assert(kept.skip(0) =~= kept);
    while start < end && is_space_char(v[start])
        invariant
            start <= end <= v.len(),
            kept == v@.take(end as int),
            trimmed_start(kept) == trimmed_start(kept.skip(start as int)),
        decreases end - start,
    {
        assert(kept.skip(start as int).drop_first() =~= kept.skip(start + 1));
        assert(kept.skip(start as int)[0] == v@[start as int]);
        start += 1;
    }
    proof {
        let rest = kept.skip(start as int);
        if start < end {
            assert(rest[0] == v@[start as int]);
        }
        assert(trimmed_start(rest) == rest);
        assert(rest =~= v@.subrange(start as int, end as int));
    }
    slice_of(v, start, end)
}

// ---------------------------------------------------------------------------
// Searching
// ---------------------------------------------------------------------------

/// `pat` stands in `s` at index `i`.
pub open spec fn occurs_at(s: Seq<char>, pat: Seq<char>, i: int) -> bool {
    0 <= i && i + pat.len() <= s.len() && s.subrange(i, i + pat.len()) == pat
}

/// `pat` stands somewhere in `s`.
pub open spec fn contains(s: Seq<char>, pat: Seq<char>) -> bool {
    exists|i: int| occurs_at(s, pat, i)
}

/// Whether `pat` stands in `s` at index `i`.
pub fn occurs_at_chars(s: &Vec<char>, pat: &Vec<char>, i: usize) -> (r: bool)
    ensures
        r == occurs_at(s@, pat@, i as int),
{
    if pat.len() > s.len() || i > s.len() - pat.len() {
        return false;
    }
    let mut j: usize = 0;
    while j < pat.len()
        invariant
            j <= pat.len(),
            i + pat.len() <= s.len(),
            s@.subrange(i as int, i + j) == pat@.take(j as int),
        decreases pat.len() - j,
    {
        if s[i + j] != pat[j] {
            assert(s@.subrange(i as int, i + pat.len())[j as int] != pat@[j as int]);
            return false;
        }
        assert(s@.subrange(i as int, i + j + 1) == s@.subrange(i as int, i + j).push(
            s@[i + j],
        ));
        assert(pat@.take(j + 1) == pat@.take(j as int).push(pat@[j as int]));
        j += 1;
    }
    assert(pat@.take(pat.len() as int) == pat@);
    true
}

/// Whether `pat` stands somewhere in `s`.
pub fn contains_chars(s: &Vec<char>, pat: &Vec<char>) -> (r: bool)
    ensures
        r == contains(s@, pat@),
{
    if pat.len() > s.len() {
        return false;
    }
    let last: usize = s.len() - pat.len();
    let mut i: usize = 0;
    loop
        invariant
            i <= last,
            last == s.len() - pat.len(),
            forall|k: int| 0 <= k < i ==> !occurs_at(s@, pat@, k),
        decreases last - i,
    {
        if occurs_at_chars(s, pat, i) {
            return true;
        }
        if i == last {
            return false;
        }
        i += 1;
    }
}

/// Whether `s` begins with `pat`.
pub fn starts_with_chars(s: &Vec<char>, pat: &Vec<char>) -> (r: bool)
    ensures
        r == pat@.is_prefix_of(s@),
{
    let r = occurs_at_chars(s, pat, 0);
    proof {
        if pat@.len() <= s@.len() {
            assert(s@.subrange(0, pat@.len() as int) =~= s@.take(pat@.len() as int));
            if r {
                assert(pat@ =~= s@.subrange(0, pat@.len() as int));
            } else if pat@.is_prefix_of(s@) {
                assert(s@.subrange(0, pat@.len() as int) =~= pat@);
            }
        }
    }
    r
}

// ---------------------------------------------------------------------------
// Decimal numbers
// ---------------------------------------------------------------------------

/// The value of a decimal digit.
pub open spec fn digit_value(c: char) -> nat {
    (c as int - 48) as nat
}

/// The digit that stands for `d`, for `d < 10`.
pub open spec fn digit_char(d: nat) -> char {
    (d + 48) as char
}

/// `s` is one decimal digit or more, and nothing else.
pub open spec fn all_digits(s: Seq<char>) -> bool {
    s.len() > 0 && forall|i: int| 0 <= i < s.len() ==> is_digit(#[trigger] s[i])
}

/// The number that the digits of `s` write down.
pub open spec fn decimal_value(s: Seq<char>) -> nat
    decreases s.len(),
{
    if s.len() == 0 {
        0
    } else {
        decimal_value(s.drop_last()) * 10 + digit_value(s.last())
    }
}

/// The number that `s` writes down, if `s` is all digits and the number is
/// at most `max`.
pub open spec fn parse_decimal(s: Seq<char>, max: nat) -> Option<nat> {
    if all_digits(s) && decimal_value(s) <= max {
        Some(decimal_value(s))
    } else {
        None
    }
}

/// `n` in decimal, without leading zeros.
pub open spec fn digits_of(n: nat) -> Seq<char>
    decreases n,
{
    if n < 10 {
        seq![digit_char(n)]
    } else {
        digits_of(n / 10).push(digit_char(n % 10))
    }
}

/// A longer digit string never writes down a smaller number than its prefix.
pub proof fn lemma_decimal_value_prefix(s: Seq<char>, k: int)
    requires
        0 <= k <= s.len(),
    ensures
        decimal_value(s.take(k)) <= decimal_value(s),
    decreases s.len() - k,
{
    if k == s.len() {
        assert(s.take(k) =~= s);
    } else {
        lemma_decimal_value_prefix(s, k + 1);
        assert(s.take(k + 1).drop_last() =~= s.take(k));
    }
}

/// Writing a number down and reading it back gives the number.
pub proof fn lemma_digits_round_trip(n: nat)
    ensures
        all_digits(digits_of(n)),
        decimal_value(digits_of(n)) == n,
        space_free(digits_of(n)),
    decreases n,
{
    if n < 10 {
        let s = digits_of(n);
        assert(s.drop_last() =~= Seq::<char>::empty());
        assert(decimal_value(s.drop_last()) == 0);
    } else {
        lemma_digits_round_trip(n / 10);
        let s = digits_of(n);
        assert(s.drop_last() =~= digits_of(n / 10));
        assert forall|i: int| 0 <= i < s.len() implies is_digit(#[trigger] s[i]) by {
            if i < s.len() - 1 {
                assert(s[i] == digits_of(n / 10)[i]);
            }
        }
        assert forall|i: int| 0 <= i < s.len() implies !is_space(#[trigger] s[i]) by {
            assert(is_digit(s[i]));
        }
    }
}

fn digit_of(d: u64) -> (c: char)
    requires
        d < 10,
    ensures
        c == digit_char(d as nat),
{
    if d == 0 {
        '0'
    } else if d == 1 {
        '1'
    } else if d == 2 {
        '2'
    } else if d == 3 {
        '3'
    } else if d == 4 {
        '4'
    } else if d == 5 {
        '5'
    } else if d == 6 {
        '6'
    } else if d == 7 {
        '7'
    } else if d == 8 {
        '8'
    } else {
        '9'
    }
}

/// `n` in decimal.
pub fn decimal_of(n: u64) -> (v: Vec<char>)
    ensures
        v@ == digits_of(n as nat),
    decreases n,
{
    if n < 10 {
        let mut v: Vec<char> = Vec::new();
        v.push(digit_of(n));
        assert(v@ =~= seq![digit_char(n as nat)]);
        v
    } else {
        let mut v = decimal_of(n / 10);
        v.push(digit_of(n % 10));
        v
    }
}

/// Reads an unsigned decimal number of at most `max`.
pub fn parse_decimal_chars(v: &Vec<char>, max: u64) -> (r: Option<u64>)
    ensures
        r is Some <==> parse_decimal(v@, max as nat) is Some,
        r is Some ==> r->0 as nat == parse_decimal(v@, max as nat)->0,
{
    if v.len() == 0 {
        return None;
    }
    let mut acc: u64 = 0;
    let mut i: usize = 0;
    assert(v@.take(0) =~= Seq::<char>::empty());
    while i < v.len()
        invariant
            i <= v.len(),
            acc as nat == decimal_value(v@.take(i as int)),
            acc <= max,
            forall|j: int| 0 <= j < i ==> is_digit(#[trigger] v@[j]),
        decreases v.len() - i,
    {
        let c = v[i];
        if !is_digit_char(c) {
            return None;
        }
        let d: u64 = (c as u32 - 48) as u64;
        assert(d as nat == digit_value(c));
        assert(v@.take(i + 1).drop_last() =~= v@.take(i as int));
        assert(v@.take(i + 1).last() == c);
        proof {
            lemma_decimal_value_prefix(v@, i + 1);
        }
        if d > max {
            return None;
        }
        if acc > (max - d) / 10 {
            assert(acc * 10 + d > max) by (nonlinear_arith)
                requires
                    acc > (max - d) / 10,
                    d <= max,
                    d < 10,
            ;
            return None;
        }
        assert(acc * 10 + d <= max) by (nonlinear_arith)
            requires
                acc <= (max - d) / 10,
                d <= max,
        ;
        acc = acc * 10 + d;
        i += 1;
    }
    assert(v@.take(v.len() as int) =~= v@);
    Some(acc)
}

/// The number that `s` writes down with decimal digits and an optional plus
/// sign before them, if it is at most `max`.
pub open spec fn parse_unsigned(s: Seq<char>, max: nat) -> Option<nat> {
    if s.len() > 0 && s[0] == '+' {
        parse_decimal(s.skip(1), max)
    } else {
        parse_decimal(s, max)
    }
}

/// Reads an unsigned decimal number of at most `max`, with an optional plus
/// sign before it.
pub fn parse_unsigned_chars(v: &Vec<char>, max: u64) -> (r: Option<u64>)
    ensures
        r is Some <==> parse_unsigned(v@, max as nat) is Some,
        r is Some ==> r->0 as nat == parse_unsigned(v@, max as nat)->0,
{
    let body = if v.len() > 0 && v[0] == '+' {
        slice_of(v, 1, v.len())
    } else {
        slice_of(v, 0, v.len())
    };
    proof {
        assert(v@.subrange(1, v@.len() as int) =~= v@.skip(1));
        assert(v@.subrange(0, v@.len() as int) =~= v@);
    }
    parse_decimal_chars(&body, max)
}

} // verus!
