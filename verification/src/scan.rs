//! Scanning source text: line splitting, comment stripping, whitespace
//! tokenization, and the small string utilities the assembler needs.

use vstd::prelude::*;
use vstd::string::StrSliceExecFns;

use crate::parse::{is_ws, is_ws_char};

verus! {

// ------------------------------------------------------------------
// Splitting on newlines
// ------------------------------------------------------------------
/// The lines of a text, split on `\n`: always at least one (possibly empty)
/// line, one more for every newline character.
pub open spec fn split_lines(s: Seq<char>) -> Seq<Seq<char>>
    decreases s.len(),
{
    if s.len() == 0 {
        seq![Seq::<char>::empty()]
    } else if s[0] == '\n' {
        seq![Seq::<char>::empty()] + split_lines(s.subrange(1, s.len() as int))
    } else {
        let rest = split_lines(s.subrange(1, s.len() as int));
        seq![seq![s[0]] + rest[0]] + rest.subrange(1, rest.len() as int)
    }
}

pub proof fn lemma_split_lines_len(s: Seq<char>)
    ensures
        split_lines(s).len() >= 1,
    decreases s.len(),
{
    if s.len() == 0 {
    } else {
        lemma_split_lines_len(s.subrange(1, s.len() as int));
    }
}

/// Where the first line of `s` runs to index `i` (no newline before `i`, and
/// either a newline at `i` or the end of the text), the split is that line
/// followed by the split of what comes after the newline.
pub proof fn lemma_split_lines_step(s: Seq<char>, i: int)
    requires
        0 <= i <= s.len(),
        forall|j: int| 0 <= j < i ==> s[j] != '\n',
        i < s.len() ==> s[i] == '\n',
    ensures
        i < s.len() ==> split_lines(s) == seq![s.subrange(0, i)] + split_lines(
            s.subrange(i + 1, s.len() as int),
        ),
        i == s.len() ==> split_lines(s) == seq![s],
    decreases i,
{
    lemma_split_lines_len(s);
    if i == 0 {
        if 0 < s.len() {
            assert(s.subrange(0, 0) =~= Seq::<char>::empty());
        } else {
            assert(s =~= Seq::<char>::empty());
        }
    } else {
        let t = s.subrange(1, s.len() as int);
        lemma_split_lines_step(t, i - 1);
        lemma_split_lines_len(t);
        if i < s.len() {
            assert(t.subrange(i - 1 + 1, t.len() as int) =~= s.subrange(i + 1, s.len() as int));
            let rest = split_lines(t);
            assert(seq![s[0]] + rest[0] =~= s.subrange(0, i));
            assert(split_lines(s) =~= seq![s.subrange(0, i)] + split_lines(
                s.subrange(i + 1, s.len() as int),
            ));
        } else {
            assert(seq![s[0]] + split_lines(t)[0] =~= s);
            assert(split_lines(s) =~= seq![s]);
        }
    }
}

// ------------------------------------------------------------------
// Comments
// ------------------------------------------------------------------
/// The prefix of a line before its first `#`; a comment runs from `#` to the
/// end of the line.
pub open spec fn strip_comment(line: Seq<char>) -> Seq<char>
    decreases line.len(),
{
    if line.len() == 0 {
        line
    } else if line[0] == '#' {
        Seq::empty()
    } else {
        seq![line[0]] + strip_comment(line.subrange(1, line.len() as int))
    }
}

pub proof fn lemma_strip_comment_at(s: Seq<char>, i: int)
    requires
        0 <= i <= s.len(),
        forall|j: int| 0 <= j < i ==> s[j] != '#',
        i < s.len() ==> s[i] == '#',
    ensures
        strip_comment(s) == s.subrange(0, i),
    decreases i,
{
    if i == 0 {
        assert(strip_comment(s) =~= s.subrange(0, 0));
    } else {
        let t = s.subrange(1, s.len() as int);
        lemma_strip_comment_at(t, i - 1);
        assert(seq![s[0]] + t.subrange(0, i - 1) =~= s.subrange(0, i));
    }
}

// ------------------------------------------------------------------
// Whitespace tokenization
// ------------------------------------------------------------------
/// The maximal runs of non-whitespace characters, in order; whitespace only
/// separates, it never appears in a token.
pub open spec fn spec_tokens(s: Seq<char>) -> Seq<Seq<char>>
    decreases s.len(),
{
    if s.len() == 0 {
        Seq::empty()
    } else if is_ws(s[0]) {
        spec_tokens(s.subrange(1, s.len() as int))
    } else {
        let rest = spec_tokens(s.subrange(1, s.len() as int));
        if s.len() > 1 && !is_ws(s[1]) {
            seq![seq![s[0]] + rest[0]] + rest.subrange(1, rest.len() as int)
        } else {
            seq![seq![s[0]]] + rest
        }
    }
}

proof fn lemma_tokens_head(s: Seq<char>)
    requires
        s.len() > 0,
        !is_ws(s[0]),
    ensures
        spec_tokens(s).len() >= 1,
    decreases s.len(),
{
    if s.len() > 1 && !is_ws(s[1]) {
        lemma_tokens_head(s.subrange(1, s.len() as int));
    }
}

/// Where a token starts at the front of `s` and runs to index `j` (nothing
/// but non-whitespace before `j`, and either whitespace at `j` or the end),
/// the tokens of `s` are that token followed by the tokens of the rest.
pub proof fn lemma_tokens_step(s: Seq<char>, j: int)
    requires
        0 < j <= s.len(),
        forall|k: int| 0 <= k < j ==> !is_ws(#[trigger] s[k]),
        j < s.len() ==> is_ws(s[j]),
    ensures
        spec_tokens(s) == seq![s.subrange(0, j)] + spec_tokens(s.subrange(j, s.len() as int)),
    decreases j,
{
    let t = s.subrange(1, s.len() as int);
    if j == 1 {
        if s.len() > 1 && !is_ws(s[1]) {
            assert(false);
        }
        assert(s.subrange(0, 1) =~= seq![s[0]]);
        assert(t =~= s.subrange(1, s.len() as int));
        assert(spec_tokens(s) =~= seq![s.subrange(0, 1)] + spec_tokens(
            s.subrange(1, s.len() as int),
        ));
    } else {
        assert(!is_ws(t[0]));
        lemma_tokens_step(t, j - 1);
        lemma_tokens_head(t);
        let rest = spec_tokens(t);
        assert(rest[0] == t.subrange(0, j - 1));
        assert(seq![s[0]] + t.subrange(0, j - 1) =~= s.subrange(0, j));
        assert(t.subrange(j - 1, t.len() as int) =~= s.subrange(j, s.len() as int));
        assert(rest.subrange(1, rest.len() as int) =~= spec_tokens(
            s.subrange(j, s.len() as int),
        ));
        assert(spec_tokens(s) =~= seq![s.subrange(0, j)] + spec_tokens(
            s.subrange(j, s.len() as int),
        ));
    }
}

/// The element-wise character view of a sequence of string slices.
pub open spec fn toks_view(ts: Seq<&str>) -> Seq<Seq<char>> {
    Seq::new(ts.len(), |i: int| ts[i]@)
}

/// Split a text into its whitespace-separated tokens.
pub fn tokenize<'a>(s: &'a str) -> (toks: Vec<&'a str>)
    ensures
        toks_view(toks@) == spec_tokens(s@),
{
    let n = s.unicode_len();
    let mut toks: Vec<&'a str> = Vec::new();
    let mut pos: usize = 0;
    proof {
        assert(s@.subrange(0, n as int) =~= s@);
        assert(toks_view(toks@) =~= Seq::<Seq<char>>::empty());
        assert(toks_view(toks@) + spec_tokens(s@) =~= spec_tokens(s@));
    }
    while pos < n
        invariant
            0 <= pos <= n,
            n == s@.len(),
            spec_tokens(s@) == toks_view(toks@) + spec_tokens(s@.subrange(pos as int, n as int)),
        decreases n - pos,
    {
        let c = s.get_char(pos);
        if is_ws_char(c) {
            proof {
                let cur = s@.subrange(pos as int, n as int);
                assert(cur.subrange(1, cur.len() as int) =~= s@.subrange(pos as int + 1, n as int));
            }
            pos = pos + 1;
        } else {
            let mut j: usize = pos + 1;
            while j < n && !is_ws_char(s.get_char(j))
                invariant
                    pos < j <= n,
                    n == s@.len(),
                    forall|k: int| pos <= k < j ==> !is_ws(#[trigger] s@[k]),
                decreases n - j,
            {
                j = j + 1;
            }
            let tok = s.substring_char(pos, j);
            proof {
                let cur = s@.subrange(pos as int, n as int);
                assert(forall|k: int|
                    0 <= k < j - pos ==> !is_ws(#[trigger] cur[k]) && cur[k] == s@[pos + k]);
                lemma_tokens_step(cur, j as int - pos as int);
                assert(cur.subrange(0, j as int - pos as int) =~= s@.subrange(
                    pos as int,
                    j as int,
                ));
                assert(cur.subrange(j as int - pos as int, cur.len() as int) =~= s@.subrange(
                    j as int,
                    n as int,
                ));
                let old_toks = toks_view(toks@);
                assert(old_toks + (seq![tok@] + spec_tokens(s@.subrange(j as int, n as int)))
                    =~= (old_toks + seq![tok@]) + spec_tokens(s@.subrange(j as int, n as int)));
            }
            toks.push(tok);
            proof {
                assert(toks_view(toks@) =~= toks_view(toks@.subrange(0, toks@.len() - 1)) + seq![
                    tok@,
                ]);
            }
            pos = j;
        }
    }
    proof {
        assert(s@.subrange(pos as int, n as int) =~= Seq::<char>::empty());
        assert(spec_tokens(s@) =~= toks_view(toks@));
    }
    toks
}

// ------------------------------------------------------------------
// Trailing commas
// ------------------------------------------------------------------
/// An operand token with its trailing commas removed.
pub open spec fn strip_commas(t: Seq<char>) -> Seq<char>
    decreases t.len(),
{
    if t.len() > 0 && t.last() == ',' {
        strip_commas(t.drop_last())
    } else {
        t
    }
}

proof fn lemma_strip_commas_at(s: Seq<char>, b: int)
    requires
        0 <= b <= s.len(),
        forall|j: int| b <= j < s.len() ==> s[j] == ',',
        b > 0 ==> s[b - 1] != ',',
    ensures
        strip_commas(s) == s.subrange(0, b),
    decreases s.len() - b,
{
    if b == s.len() {
        assert(s.subrange(0, b) =~= s);
    } else {
        let t = s.drop_last();
        assert(t =~= s.subrange(0, s.len() - 1));
        lemma_strip_commas_at(t, b);
        assert(t.subrange(0, b) =~= s.subrange(0, b));
    }
}

/// Remove the trailing commas of an operand token.
pub fn strip_commas_str<'a>(t: &'a str) -> (r: &'a str)
    ensures
        r@ == strip_commas(t@),
{
    let n = t.unicode_len();
    let mut b: usize = n;
    while b > 0 && t.get_char(b - 1) == ','
        invariant
            0 <= b <= n,
            n == t@.len(),
            forall|j: int| b <= j < n ==> t@[j] == ',',
        decreases b,
    {
        b = b - 1;
    }
    proof {
        lemma_strip_commas_at(t@, b as int);
    }
    t.substring_char(0, b)
}

// ------------------------------------------------------------------
// Finding a character
// ------------------------------------------------------------------
/// The index of the first occurrence of `c` in `s`, or -1 where there is
/// none.
pub open spec fn find_ch(s: Seq<char>, c: char) -> int
    decreases s.len(),
{
    if s.len() == 0 {
        -1
    } else if s[0] == c {
        0
    } else {
        let r = find_ch(s.subrange(1, s.len() as int), c);
        if r < 0 {
            -1
        } else {
            r + 1
        }
    }
}

proof fn lemma_find_ch_at(s: Seq<char>, c: char, i: int)
    requires
        0 <= i <= s.len(),
        forall|j: int| 0 <= j < i ==> s[j] != c,
        i < s.len() ==> s[i] == c,
    ensures
        i < s.len() ==> find_ch(s, c) == i,
        i == s.len() ==> find_ch(s, c) == -1,
    decreases i,
{
    if i == 0 {
    } else {
        let t = s.subrange(1, s.len() as int);
        lemma_find_ch_at(t, c, i - 1);
    }
}

/// Find the first occurrence of a character.
pub fn find_char_str(s: &str, c: char) -> (r: Option<usize>)
    ensures
        ({
            let f = find_ch(s@, c);
            match r {
                Some(i) => f == i && i < s@.len() && s@[i as int] == c && (forall|j: int|
                    0 <= j < i ==> s@[j] != c),
                None => f == -1 && (forall|j: int| 0 <= j < s@.len() ==> s@[j] != c),
            }
        }),
{
    let n = s.unicode_len();
    let mut i: usize = 0;
    while i < n && s.get_char(i) != c
        invariant
            0 <= i <= n,
            n == s@.len(),
            forall|j: int| 0 <= j < i ==> s@[j] != c,
        decreases n - i,
    {
        i = i + 1;
    }
    proof {
        lemma_find_ch_at(s@, c, i as int);
    }
    if i < n {
        Some(i)
    } else {
        None
    }
}

// ------------------------------------------------------------------
// String equality
// ------------------------------------------------------------------
/// Character-wise equality of two string slices.
pub fn str_eq(a: &str, b: &str) -> (r: bool)
    ensures
        r == (a@ == b@),
{
    let n = a.unicode_len();
    if n != b.unicode_len() {
        return false;
    }
    let mut i: usize = 0;
    while i < n
        invariant
            0 <= i <= n,
            n == a@.len(),
            n == b@.len(),
            forall|j: int| 0 <= j < i ==> a@[j] == b@[j],
        decreases n - i,
    {
        if a.get_char(i) != b.get_char(i) {
            return false;
        }
        i = i + 1;
    }
    proof {
        assert(a@ =~= b@);
    }
    true
}

} // verus!
