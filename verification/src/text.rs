//! Text helpers shared by the scanner, the formatter and the launcher:
//! splitting on a separator character, dropping trailing line endings, and
//! substituting the multiplexer's name-separator character.

use vstd::prelude::*;

verus! {

/// The segments of `s` split on `sep`, empty segments included: the result
/// always has one more segment than `s` has separators, so output that ends
/// with a separator yields a trailing empty segment.
pub open spec fn split_on(s: Seq<char>, sep: char) -> Seq<Seq<char>>
    decreases s.len(),
{
    if s.len() == 0 {
        seq![Seq::<char>::empty()]
    } else if s[0] == sep {
        seq![Seq::<char>::empty()] + split_on(s.drop_first(), sep)
    } else {
        let rest = split_on(s.drop_first(), sep);
        seq![seq![s[0]] + rest[0]] + rest.drop_first()
    }
}

/// A separator-free string splits into exactly itself.
pub proof fn lemma_split_on_no_sep(s: Seq<char>, sep: char)
    requires
        forall|i: int| 0 <= i < s.len() ==> s[i] != sep,
    ensures
        split_on(s, sep) == seq![s],
    decreases s.len(),
{
    if s.len() == 0 {
        assert(split_on(s, sep) =~~= seq![s]);
    } else {
        lemma_split_on_no_sep(s.drop_first(), sep);
        assert(seq![s[0]] + s.drop_first() =~= s);
        assert(split_on(s, sep) =~~= seq![s]);
    }
}

/// Splitting at the first separator: a separator-free prefix becomes the
/// first segment, and the rest splits independently.
pub proof fn lemma_split_on_first(a: Seq<char>, b: Seq<char>, sep: char)
    requires
        forall|i: int| 0 <= i < a.len() ==> a[i] != sep,
    ensures
        split_on(a + seq![sep] + b, sep) == seq![a] + split_on(b, sep),
    decreases a.len(),
{
    let s = a + seq![sep] + b;
    if a.len() == 0 {
        assert(s[0] == sep);
        assert(s.drop_first() =~= b);
        assert(split_on(s, sep) =~~= seq![a] + split_on(b, sep));
    } else {
        assert(s[0] == a[0]);
        assert(s[0] != sep);
        assert(s.drop_first() =~= a.drop_first() + seq![sep] + b);
        lemma_split_on_first(a.drop_first(), b, sep);
        let rest = split_on(s.drop_first(), sep);
        assert(rest == seq![a.drop_first()] + split_on(b, sep));
        assert(rest[0] == a.drop_first());
        assert(seq![s[0]] + rest[0] =~= a);
        assert(rest.drop_first() =~= split_on(b, sep));
        assert(split_on(s, sep) =~~= seq![a] + split_on(b, sep));
    }
}

/// Splits `s` on the separator character, keeping empty segments, exactly as
/// splitting multiplexer output on a newline does.
pub fn split_string(s: &str, sep: char) -> (parts: Vec<String>)
    ensures
        parts.deep_view() == split_on(s@, sep),
{
    let n = s.unicode_len();
    let mut parts: Vec<String> = Vec::new();
    let mut start: usize = 0;
    let mut i: usize = 0;
    proof {
        assert(s@.subrange(0, n as int) =~= s@);
        assert(split_on(s@, sep) =~~= parts.deep_view() + split_on(
            s@.subrange(0, n as int),
            sep,
        ));
    }
    while i < n
        invariant
            n == s@.len(),
            start <= i <= n,
            forall|j: int| start <= j < i ==> s@[j] != sep,
            split_on(s@, sep) =~= parts.deep_view() + split_on(
                s@.subrange(start as int, n as int),
                sep,
            ),
        decreases n - i,
    {
        if s.get_char(i) == sep {
            let segment = s.substring_char(start, i);
            proof {
                let suffix = s@.subrange(start as int, n as int);
                let a = s@.subrange(start as int, i as int);
                let b = s@.subrange(i + 1, n as int);
                assert(suffix =~= a + seq![sep] + b);
                lemma_split_on_first(a, b, sep);
                assert(seq![a] + split_on(b, sep) == split_on(suffix, sep));
            }
            parts.push(String::from_str(segment));
            start = i + 1;
            proof {
                assert(split_on(s@, sep) =~= parts.deep_view() + split_on(
                    s@.subrange(start as int, n as int),
                    sep,
                ));
            }
        }
        i += 1;
    }
    let last = s.substring_char(start, n);
    proof {
        lemma_split_on_no_sep(s@.subrange(start as int, n as int), sep);
    }
    parts.push(String::from_str(last));
    proof {
        assert(parts.deep_view() =~= split_on(s@, sep));
    }
    parts
}

/// The session name with every character the multiplexer treats as a
/// separator (`.`) replaced by `_`, so the multiplexer cannot misread the
/// name when it is passed on a command line.
pub open spec fn sanitize_spec(s: Seq<char>) -> Seq<char> {
    s.map_values(|c: char| if c == '.' { '_' } else { c })
}

/// Substitutes `_` for every `.` before a name is handed to the multiplexer.
pub fn sanitize_session_name(name: &str) -> (r: String)
    ensures
        r@ == sanitize_spec(name@),
{
    let n = name.unicode_len();
    let mut r = String::new();
    let mut i: usize = 0;
    while i < n
        invariant
            n == name@.len(),
            i <= n,
            r@ =~= sanitize_spec(name@.subrange(0, i as int)),
        decreases n - i,
    {
        if name.get_char(i) == '.' {
            r.append("_");
            proof {
                reveal_strlit("_");
            }
        } else {
            let piece = name.substring_char(i, i + 1);
            r.append(piece);
        }
        i += 1;
        proof {
            assert(r@ =~= sanitize_spec(name@.subrange(0, i as int)));
        }
    }
    proof {
        assert(name@.subrange(0, n as int) =~= name@);
    }
    r
}

/// The string with every trailing carriage return or line feed removed,
/// as applied to the multiplexer's report of the attached session name.
pub open spec fn trim_trailing_newlines(s: Seq<char>) -> Seq<char>
    decreases s.len(),
{
    if s.len() > 0 && (s.last() == '\n' || s.last() == '\r') {
        trim_trailing_newlines(s.drop_last())
    } else {
        s
    }
}

proof fn lemma_trim_is_prefix(s: Seq<char>, k: int)
    requires
        0 <= k <= s.len(),
        forall|i: int| k <= i < s.len() ==> s[i] == '\n' || s[i] == '\r',
        k == 0 || !(s[k - 1] == '\n' || s[k - 1] == '\r'),
    ensures
        trim_trailing_newlines(s) == s.subrange(0, k),
    decreases s.len(),
{
    if s.len() > k {
        assert(s.last() == '\n' || s.last() == '\r');
        lemma_trim_is_prefix(s.drop_last(), k);
        assert(s.drop_last().subrange(0, k) =~= s.subrange(0, k));
    } else {
        assert(s.subrange(0, k) =~= s);
    }
}

/// Strips trailing line endings from raw multiplexer output.
pub fn trim_newlines(raw: &str) -> (r: String)
    ensures
        r@ == trim_trailing_newlines(raw@),
{
    let n = raw.unicode_len();
    let mut k: usize = n;
    let mut done = false;
    while !done
        invariant
            n == raw@.len(),
            k <= n,
            forall|i: int| k <= i < n ==> raw@[i] == '\n' || raw@[i] == '\r',
            done ==> k == 0 || !(raw@[k - 1] == '\n' || raw@[k - 1] == '\r'),
        decreases k + if done { 0int } else { 1int },
    {
        if k == 0 {
            done = true;
        } else {
            let c = raw.get_char(k - 1);
            if c == '\n' || c == '\r' {
                k = k - 1;
            } else {
                done = true;
            }
        }
    }
    let kept = raw.substring_char(0, k);
    proof {
        lemma_trim_is_prefix(raw@, k as int);
    }
    String::from_str(kept)
}

} // verus!
