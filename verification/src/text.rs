//! Character-level text utilities: whitespace trimming and line splitting,
//! with exact sequence-level specifications.  Corpus detection, per-line
//! parsing and query validation are all defined in terms of these.

use vstd::prelude::*;
use vstd::string::StrSliceExecFns;

verus! {

/// The Unicode `White_Space` code points: exactly the characters that
/// `str::trim` removes from either end of a string.
pub open spec fn char_is_space(c: char) -> bool {
    let u = c as u32;
    ||| (9 <= u && u <= 13)
    ||| u == 0x20
    ||| u == 0x85
    ||| u == 0xa0
    ||| u == 0x1680
    ||| (0x2000 <= u && u <= 0x200a)
    ||| u == 0x2028
    ||| u == 0x2029
    ||| u == 0x202f
    ||| u == 0x205f
    ||| u == 0x3000
}

/// Decides whitespace-ness of one character.
pub fn is_space(c: char) -> (r: bool)
    ensures
        r == char_is_space(c),
{
    let u = c as u32;
    (9 <= u && u <= 13) || u == 0x20 || u == 0x85 || u == 0xa0 || u == 0x1680 || (0x2000 <= u
        && u <= 0x200a) || u == 0x2028 || u == 0x2029 || u == 0x202f || u == 0x205f || u == 0x3000
}

/// Relies on String::push: appends exactly one character at the end.
#[verifier::external_body]
pub fn push_char(s: &mut String, c: char)
    ensures
        final(s)@ == old(s)@.push(c),
{
    s.push(c);
}

/// The sequence with its leading whitespace removed.
pub open spec fn trim_front(s: Seq<char>) -> Seq<char>
    decreases s.len(),
{
    if s.len() > 0 && char_is_space(s[0]) {
        trim_front(s.drop_first())
    } else {
        s
    }
}

/// The sequence with its trailing whitespace removed.
pub open spec fn trim_back(s: Seq<char>) -> Seq<char>
    decreases s.len(),
{
    if s.len() > 0 && char_is_space(s.last()) {
        trim_back(s.drop_last())
    } else {
        s
    }
}

/// The sequence with whitespace removed from both ends: what `str::trim`
/// leaves.
pub open spec fn trimmed(s: Seq<char>) -> Seq<char> {
    trim_back(trim_front(s))
}

/// Skipping any number of leading spaces does not change the front trim.
pub proof fn lemma_trim_front_skip(s: Seq<char>, i: int)
    requires
        0 <= i <= s.len(),
        forall|m: int| 0 <= m < i ==> char_is_space(s[m]),
    ensures
        trim_front(s) == trim_front(s.subrange(i, s.len() as int)),
    decreases i,
{
    if i > 0 {
        assert(s.drop_first() =~= s.subrange(1, s.len() as int));
        lemma_trim_front_skip(s.drop_first(), i - 1);
        assert(s.drop_first().subrange(i - 1, s.drop_first().len() as int) =~= s.subrange(
            i,
            s.len() as int,
        ));
    } else {
        assert(s.subrange(0, s.len() as int) =~= s);
    }
}

/// Dropping any number of trailing spaces does not change the back trim.
pub proof fn lemma_trim_back_skip(s: Seq<char>, j: int)
    requires
        0 <= j <= s.len(),
        forall|m: int| s.len() - j <= m < s.len() ==> char_is_space(s[m]),
    ensures
        trim_back(s) == trim_back(s.subrange(0, s.len() - j)),
    decreases j,
{
    if j > 0 {
        assert(char_is_space(s.last()));
        assert(s.drop_last() =~= s.subrange(0, s.len() - 1));
        lemma_trim_back_skip(s.drop_last(), j - 1);
        assert(s.drop_last().subrange(0, s.drop_last().len() - (j - 1)) =~= s.subrange(
            0,
            s.len() - j,
        ));
    } else {
        assert(s.subrange(0, s.len() as int) =~= s);
    }
}

/// Trims whitespace from both ends of a string.
pub fn trim_str<'a>(s: &'a str) -> (r: &'a str)
    ensures
        r@ == trimmed(s@),
{
    let n = s.unicode_len();
    let mut start: usize = 0;
    while start < n && is_space(s.get_char(start))
        invariant
            start <= n,
            n == s@.len(),
            forall|m: int| 0 <= m < start ==> char_is_space(s@[m]),
        decreases n - start,
    {
        start = start + 1;
    }
    let mut end: usize = n;
    while end > start && is_space(s.get_char(end - 1))
        invariant
            start <= end <= n,
            n == s@.len(),
            forall|m: int| end <= m < n ==> char_is_space(s@[m]),
        decreases end,
    {
        end = end - 1;
    }
    let r = s.substring_char(start, end);
    proof {
        let t = s@.subrange(start as int, n as int);
        lemma_trim_front_skip(s@, start as int);
        assert(trim_front(t) == t);
        lemma_trim_back_skip(t, n as int - end as int);
        assert(t.subrange(0, t.len() - (n as int - end as int)) =~= s@.subrange(
            start as int,
            end as int,
        ));
        let u = s@.subrange(start as int, end as int);
        assert(trim_back(u) == u);
    }
    r
}

/// The first character left after trimming leading whitespace, if any.
pub fn first_nonspace_char(s: &str) -> (r: Option<char>)
    ensures
        match r {
            Some(c) => trim_front(s@).len() > 0 && c == trim_front(s@)[0],
            None => trim_front(s@).len() == 0,
        },
{
    let n = s.unicode_len();
    let mut i: usize = 0;
    while i < n && is_space(s.get_char(i))
        invariant
            i <= n,
            n == s@.len(),
            forall|m: int| 0 <= m < i ==> char_is_space(s@[m]),
        decreases n - i,
    {
        i = i + 1;
    }
    proof {
        lemma_trim_front_skip(s@, i as int);
        assert(trim_front(s@.subrange(i as int, n as int)) == s@.subrange(i as int, n as int));
    }
    if i < n {
        Some(s.get_char(i))
    } else {
        None
    }
}

/// The index of the first line break, or the length when there is none.
pub open spec fn first_newline(s: Seq<char>) -> nat
    decreases s.len(),
{
    if s.len() == 0 {
        0
    } else if s[0] == '\n' {
        0
    } else {
        1 + first_newline(s.drop_first())
    }
}

/// `first_newline` points at the first line break: nothing before it is
/// one, and it is one itself unless it is the length.
pub proof fn lemma_first_newline_bounds(s: Seq<char>)
    ensures
        first_newline(s) <= s.len(),
        forall|m: int| 0 <= m < first_newline(s) ==> s[m] != '\n',
        first_newline(s) < s.len() ==> s[first_newline(s) as int] == '\n',
    decreases s.len(),
{
    if s.len() > 0 && s[0] != '\n' {
        lemma_first_newline_bounds(s.drop_first());
        assert forall|m: int| 0 <= m < first_newline(s) implies s[m] != '\n' by {
            if m > 0 {
                assert(s.drop_first()[m - 1] == s[m]);
            }
        }
    }
}

/// Any position with no line break before it and one at it (or the end)
/// is the first line break.
pub proof fn lemma_first_newline_at(s: Seq<char>, i: int)
    requires
        0 <= i <= s.len(),
        forall|m: int| 0 <= m < i ==> s[m] != '\n',
        i < s.len() ==> s[i] == '\n',
    ensures
        first_newline(s) == i,
    decreases i,
{
    if i > 0 {
        lemma_first_newline_at(s.drop_first(), i - 1);
    }
}

/// A line with its single trailing carriage return removed, as the line
/// iterator of the standard library reports it.
pub open spec fn strip_cr(l: Seq<char>) -> Seq<char> {
    if l.len() > 0 && l.last() == '\r' {
        l.drop_last()
    } else {
        l
    }
}

/// The lines of a text: split at `'\n'`, a trailing `'\r'` removed from
/// each piece, and no empty final line after a terminating break.
pub open spec fn spec_lines(s: Seq<char>) -> Seq<Seq<char>>
    decreases s.len(),
{
    if s.len() == 0 {
        Seq::empty()
    } else {
        let i = first_newline(s);
        if i >= s.len() {
            seq![strip_cr(s)]
        } else {
            seq![strip_cr(s.take(i as int))] + spec_lines(
                s.subrange(i as int + 1, s.len() as int),
            )
        }
    }
}

/// Splits a text into its lines.
pub fn split_lines(s: &str) -> (r: Vec<String>)
    ensures
        r@.map_values(|l: String| l@) == spec_lines(s@),
{
    let n = s.unicode_len();
    let mut out: Vec<String> = Vec::new();
    let mut line_start: usize = 0;
    let mut i: usize = 0;
    proof {
        assert(s@.subrange(0, n as int) =~= s@);
        assert(out@.map_values(|l: String| l@) =~= Seq::<Seq<char>>::empty());
        assert(Seq::<Seq<char>>::empty() + spec_lines(s@) =~= spec_lines(s@));
    }
    while i < n
        invariant
            line_start <= i <= n,
            n == s@.len(),
            forall|m: int| line_start <= m < i ==> s@[m] != '\n',
            spec_lines(s@) == out@.map_values(|l: String| l@) + spec_lines(
                s@.subrange(line_start as int, n as int),
            ),
        decreases n - i,
    {
        if s.get_char(i) == '\n' {
            let end = if i > line_start && s.get_char(i - 1) == '\r' {
                i - 1
            } else {
                i
            };
            let piece = String::from_str(s.substring_char(line_start, end));
            proof {
                let rest = s@.subrange(line_start as int, n as int);
                lemma_first_newline_at(rest, i as int - line_start as int);
                assert(rest.take(i as int - line_start as int) =~= s@.subrange(
                    line_start as int,
                    i as int,
                ));
                assert(strip_cr(s@.subrange(line_start as int, i as int)) =~= s@.subrange(
                    line_start as int,
                    end as int,
                ));
                assert(rest.subrange(
                    i as int - line_start as int + 1,
                    rest.len() as int,
                ) =~= s@.subrange(i as int + 1, n as int));
                assert((out@.push(piece)).map_values(|l: String| l@) =~= out@.map_values(
                    |l: String| l@,
                ).push(piece@));
                assert(spec_lines(rest) == seq![piece@] + spec_lines(
                    s@.subrange(i as int + 1, n as int),
                ));
                assert(out@.map_values(|l: String| l@) + spec_lines(rest) =~= out@.map_values(
                    |l: String| l@,
                ).push(piece@) + spec_lines(s@.subrange(i as int + 1, n as int)));
            }
            out.push(piece);
            line_start = i + 1;
        }
        i = i + 1;
    }
    if line_start < n {
        let end = if s.get_char(n - 1) == '\r' {
            n - 1
        } else {
            n
        };
        let piece = String::from_str(s.substring_char(line_start, end));
        proof {
            let rest = s@.subrange(line_start as int, n as int);
            lemma_first_newline_at(rest, rest.len() as int);
            assert(strip_cr(rest) =~= s@.subrange(line_start as int, end as int));
            assert((out@.push(piece)).map_values(|l: String| l@) =~= out@.map_values(
                |l: String| l@,
            ).push(piece@));
            assert(out@.map_values(|l: String| l@) + spec_lines(rest) =~= out@.map_values(
                |l: String| l@,
            ).push(piece@));
        }
        out.push(piece);
    } else {
        proof {
            assert(s@.subrange(line_start as int, n as int).len() == 0);
            assert(out@.map_values(|l: String| l@) + spec_lines(
                s@.subrange(line_start as int, n as int),
            ) =~= out@.map_values(|l: String| l@));
        }
    }
    out
}

} // verus!
