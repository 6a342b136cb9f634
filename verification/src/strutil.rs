//! Small verified helpers for strings: building, comparing, joining and
//! trimming, stated over the character-sequence views of `str` and `String`.

use vstd::prelude::*;

verus! {

use vstd::string::StrSliceExecFns;
use vstd::string::StringExecFns;

/// Relies on `String::push`: appends the given character to the end of the
/// string.
#[verifier::external_body]
pub(crate) fn push_char(s: &mut String, c: char)
    ensures
        final(s)@ == old(s)@.push(c),
{
    s.push(c)
}

/// Equality of two string slices, decided by comparing owned copies.
pub fn str_eq(a: &str, b: &str) -> (r: bool)
    ensures
        r == (a@ == b@),
{
    let oa = a.to_owned();
    let ob = b.to_owned();
    oa == ob
}

/// `p` is a prefix of `s`.
pub open spec fn spec_starts_with(s: Seq<char>, p: Seq<char>) -> bool {
    p.len() <= s.len() && s.take(p.len() as int) == p
}

/// Whether `s` starts with the prefix `p`, by characters.
pub fn str_starts_with(s: &str, p: &str) -> (r: bool)
    ensures
        r == spec_starts_with(s@, p@),
{
    let sl = s.unicode_len();
    let pl = p.unicode_len();
    if pl > sl {
        return false;
    }
    let mut i: usize = 0;
    while i < pl
        invariant
            0 <= i <= pl,
            pl == p@.len(),
            sl == s@.len(),
            pl <= sl,
            forall|j: int| 0 <= j < i ==> s@[j] == p@[j],
        decreases pl - i,
    {
        if s.get_char(i) != p.get_char(i) {
            proof {
                assert(s@.take(pl as int)[i as int] != p@[i as int]);
            }
            return false;
        }
        i += 1;
    }
    proof {
        assert(s@.take(pl as int) =~= p@);
    }
    true
}

/// A string of `n` spaces.
pub fn spaces(n: usize) -> (r: String)
    ensures
        r@.len() == n,
        forall|j: int| 0 <= j < n ==> r@[j] == ' ',
{
    let mut out = String::new();
    let mut i: usize = 0;
    while i < n
        invariant
            0 <= i <= n,
            out@.len() == i,
            forall|j: int| 0 <= j < i ==> out@[j] == ' ',
        decreases n - i,
    {
        push_char(&mut out, ' ');
        i += 1;
    }
    out
}

/// The parts joined with `sep` between consecutive parts.
pub open spec fn spec_join(parts: Seq<Seq<char>>, sep: Seq<char>) -> Seq<char>
    decreases parts.len(),
{
    if parts.len() == 0 {
        Seq::empty()
    } else if parts.len() == 1 {
        parts[0]
    } else {
        spec_join(parts.drop_last(), sep) + sep + parts.last()
    }
}

/// Joins the strings in `parts`, separated by `sep`.
pub fn join(parts: &Vec<String>, sep: &str) -> (r: String)
    ensures
        r@ == spec_join(parts.deep_view(), sep@),
{
    let mut out = String::new();
    let mut i: usize = 0;
    while i < parts.len()
        invariant
            0 <= i <= parts.deep_view().len(),
            parts.deep_view().len() == parts@.len(),
            out@ == spec_join(parts.deep_view().take(i as int), sep@),
        decreases parts@.len() - i,
    {
        if i > 0 {
            out.append(sep);
        }
        out.append(parts[i].as_str());
        proof {
            assert(parts.deep_view().take(i + 1).drop_last() =~= parts.deep_view().take(i as int));
            assert(parts.deep_view().take(i + 1).last() == parts.deep_view()[i as int]);
            assert(parts.deep_view()[i as int] == parts@[i as int]@);
        }
        i += 1;
    }
    proof {
        assert(parts.deep_view().take(parts.deep_view().len() as int) =~= parts.deep_view());
    }
    out
}

/// ASCII whitespace: space, tab, line feed, carriage return.
pub open spec fn is_space(c: char) -> bool {
    c == ' ' || c == '\t' || c == '\n' || c == '\r'
}

/// `s` without its leading whitespace.
pub open spec fn spec_trim_start(s: Seq<char>) -> Seq<char>
    decreases s.len(),
{
    if s.len() > 0 && is_space(s[0]) {
        spec_trim_start(s.drop_first())
    } else {
        s
    }
}

/// `s` without its trailing whitespace.
pub open spec fn spec_trim_end(s: Seq<char>) -> Seq<char>
    decreases s.len(),
{
    if s.len() > 0 && is_space(s.last()) {
        spec_trim_end(s.drop_last())
    } else {
        s
    }
}

/// `s` without leading and trailing whitespace.
pub open spec fn spec_trim(s: Seq<char>) -> Seq<char> {
    spec_trim_end(spec_trim_start(s))
}

proof fn lemma_trim_start_skip(s: Seq<char>, i: int)
    requires
        0 <= i <= s.len(),
        forall|j: int| 0 <= j < i ==> is_space(s[j]),
        i < s.len() ==> !is_space(s[i]),
    ensures
        spec_trim_start(s) == s.skip(i),
    decreases i,
{
    if i == 0 {
        assert(s.skip(0) =~= s);
    } else {
        lemma_trim_start_skip(s.drop_first(), i - 1);
        assert(s.drop_first().skip(i - 1) =~= s.skip(i));
    }
}

proof fn lemma_trim_end_subrange(s: Seq<char>, j: int)
    requires
        0 <= j <= s.len(),
        forall|k: int| j <= k < s.len() ==> is_space(s[k]),
        j > 0 ==> !is_space(s[j - 1]),
    ensures
        spec_trim_end(s) == s.take(j),
    decreases s.len() - j,
{
    if j == s.len() {
        assert(s.take(j) =~= s);
    } else {
        lemma_trim_end_subrange(s.drop_last(), j);
        assert(s.drop_last().take(j) =~= s.take(j));
    }
}

/// Whether the character is ASCII whitespace.
fn is_space_exec(c: char) -> (r: bool)
    ensures
        r == is_space(c),
{
    c == ' ' || c == '\t' || c == '\n' || c == '\r'
}

/// Removes leading and trailing ASCII whitespace.
pub fn trim(s: &str) -> (r: String)
    ensures
        r@ == spec_trim(s@),
{
    let n = s.unicode_len();
    let mut i: usize = 0;
    while i < n && is_space_exec(s.get_char(i))
        invariant
            0 <= i <= n,
            n == s@.len(),
            forall|j: int| 0 <= j < i ==> is_space(s@[j]),
        decreases n - i,
    {
        i += 1;
    }
    let mut j: usize = n;
    while j > i && is_space_exec(s.get_char(j - 1))
        invariant
            i <= j <= n,
            n == s@.len(),
            forall|k: int| j <= k < n ==> is_space(s@[k]),
        decreases j,
    {
        j -= 1;
    }
    proof {
        lemma_trim_start_skip(s@, i as int);
        let t = s@.skip(i as int);
        lemma_trim_end_subrange(t, j - i);
        assert(t.take(j - i) =~= s@.subrange(i as int, j as int));
    }
    s.substring_char(i, j).to_owned()
}

/// The ASCII-lowered form of a character: letters `A` through `Z` become
/// their lower-case counterparts, everything else is unchanged.
pub open spec fn ascii_lower(c: char) -> char {
    if 'A' <= c && c <= 'Z' {
        (((c as u32) + 32) as u8) as char
    } else {
        c
    }
}

fn ascii_lower_ch(c: char) -> (r: char)
    ensures
        r == ascii_lower(c),
{
    if 'A' <= c && c <= 'Z' {
        (((c as u32) + 32) as u8) as char
    } else {
        c
    }
}

/// The string with every ASCII upper-case letter lowered.
pub fn ascii_lowercase(s: &str) -> (r: String)
    ensures
        r@ == s@.map_values(|c: char| ascii_lower(c)),
{
    let n = s.unicode_len();
    let mut out = String::new();
    let mut i: usize = 0;
    while i < n
        invariant
            0 <= i <= n,
            n == s@.len(),
            out@ == s@.take(i as int).map_values(|c: char| ascii_lower(c)),
        decreases n - i,
    {
        let c = s.get_char(i);
        push_char(&mut out, ascii_lower_ch(c));
        proof {
            assert(s@.take(i + 1).map_values(|c: char| ascii_lower(c)) =~= s@.take(
                i as int,
            ).map_values(|c: char| ascii_lower(c)).push(ascii_lower(s@[i as int])));
        }
        i += 1;
    }
    proof {
        assert(s@.take(n as int) =~= s@);
    }
    out
}

/// The first position of `c` in `s`, if any.
pub open spec fn spec_find_char(s: Seq<char>, c: char) -> Option<int>
    decreases s.len(),
{
    if s.len() == 0 {
        None
    } else if s[0] == c {
        Some(0)
    } else {
        match spec_find_char(s.drop_first(), c) {
            Some(i) => Some(i + 1),
            None => None,
        }
    }
}

proof fn lemma_find_char_at(s: Seq<char>, c: char, i: int)
    requires
        0 <= i <= s.len(),
        forall|j: int| 0 <= j < i ==> s[j] != c,
        i < s.len() ==> s[i] == c,
    ensures
        spec_find_char(s, c) == if i < s.len() {
            Some(i)
        } else {
            None::<int>
        },
    decreases i,
{
    if i == 0 {
    } else {
        lemma_find_char_at(s.drop_first(), c, i - 1);
    }
}

/// A found position is always inside the string.
pub proof fn lemma_find_char_in_range(s: Seq<char>, c: char)
    ensures
        spec_find_char(s, c) matches Some(i) ==> 0 <= i < s.len() && s[i] == c,
    decreases s.len(),
{
    if s.len() > 0 && s[0] != c {
        lemma_find_char_in_range(s.drop_first(), c);
    }
}

/// Finds the first occurrence of `c` in `s`.
pub fn find_char(s: &str, c: char) -> (r: Option<usize>)
    ensures
        match r {
            Some(i) => spec_find_char(s@, c) == Some(i as int) && 0 <= i < s@.len(),
            None => spec_find_char(s@, c) is None,
        },
{
    let n = s.unicode_len();
    let mut i: usize = 0;
    while i < n
        invariant
            0 <= i <= n,
            n == s@.len(),
            forall|j: int| 0 <= j < i ==> s@[j] != c,
        decreases n - i,
    {
        if s.get_char(i) == c {
            proof {
                lemma_find_char_at(s@, c, i as int);
            }
            return Some(i);
        }
        i += 1;
    }
    proof {
        lemma_find_char_at(s@, c, n as int);
    }
    None
}

} // verus!

verus! {

/// Lexicographic order on character sequences, by code point.
pub open spec fn seq_char_le(a: Seq<char>, b: Seq<char>) -> bool
    decreases a.len(),
{
    if a.len() == 0 {
        true
    } else if b.len() == 0 {
        false
    } else if a[0] != b[0] {
        a[0] < b[0]
    } else {
        seq_char_le(a.drop_first(), b.drop_first())
    }
}

/// Strict lexicographic order.
pub open spec fn seq_char_lt(a: Seq<char>, b: Seq<char>) -> bool {
    seq_char_le(a, b) && a != b
}

/// The order is total.
pub proof fn lemma_seq_char_le_total(a: Seq<char>, b: Seq<char>)
    ensures
        seq_char_le(a, b) || seq_char_le(b, a),
    decreases a.len(),
{
    if a.len() > 0 && b.len() > 0 && a[0] == b[0] {
        lemma_seq_char_le_total(a.drop_first(), b.drop_first());
    }
}

/// The order is antisymmetric.
pub proof fn lemma_seq_char_le_antisym(a: Seq<char>, b: Seq<char>)
    requires
        seq_char_le(a, b),
        seq_char_le(b, a),
    ensures
        a == b,
    decreases a.len(),
{
    if a.len() == 0 {
        assert(b.len() == 0);
        assert(a =~= b);
    } else {
        assert(b.len() > 0);
        assert(a[0] == b[0]);
        lemma_seq_char_le_antisym(a.drop_first(), b.drop_first());
        assert(a.drop_first() == b.drop_first());
        assert(a.len() == b.len());
        assert forall|i: int| 0 <= i < a.len() implies a[i] == b[i] by {
            if i > 0 {
                assert(a[i] == a.drop_first()[i - 1]);
                assert(b[i] == b.drop_first()[i - 1]);
            }
        };
        assert(a =~= b);
    }
}

/// Whether `a` comes at or before `b` in lexicographic order.
pub fn str_le(a: &str, b: &str) -> (r: bool)
    ensures
        r == seq_char_le(a@, b@),
{
    let an = a.unicode_len();
    let bn = b.unicode_len();
    let mut i: usize = 0;
    proof {
        assert(a@.skip(0) =~= a@);
        assert(b@.skip(0) =~= b@);
    }
    while i < an && i < bn
        invariant
            0 <= i,
            i <= an,
            i <= bn,
            an == a@.len(),
            bn == b@.len(),
            seq_char_le(a@, b@) == seq_char_le(a@.skip(i as int), b@.skip(i as int)),
        decreases an - i,
    {
        let ca = a.get_char(i);
        let cb = b.get_char(i);
        proof {
            assert(a@.skip(i as int)[0] == a@[i as int]);
            assert(b@.skip(i as int)[0] == b@[i as int]);
            assert(a@.skip(i as int).drop_first() =~= a@.skip(i + 1));
            assert(b@.skip(i as int).drop_first() =~= b@.skip(i + 1));
        }
        if ca != cb {
            return ca < cb;
        }
        i += 1;
    }
    proof {
        if i == an {
            assert(a@.skip(i as int).len() == 0);
        } else {
            assert(b@.skip(i as int).len() == 0);
            assert(a@.skip(i as int).len() > 0);
        }
    }
    an <= bn
}

} // verus!

verus! {

use vstd::string::StrSliceExecFns as _;

/// The pieces of `s` between occurrences of `c`: always one more piece
/// than there are separators, so never empty.
pub open spec fn spec_split_char(s: Seq<char>, c: char) -> Seq<Seq<char>>
    decreases s.len() via spec_split_char_decreases
{
    match spec_find_char(s, c) {
        None => seq![s],
        Some(i) => seq![s.take(i)] + spec_split_char(s.skip(i + 1), c),
    }
}

#[via_fn]
proof fn spec_split_char_decreases(s: Seq<char>, c: char) {
    lemma_find_char_in_range(s, c);
}

/// Splits `s` at every occurrence of `c`, keeping empty pieces.
pub fn split_char(s: &str, c: char) -> (r: Vec<String>)
    ensures
        r.deep_view() == spec_split_char(s@, c),
        r@.len() >= 1,
{
    let n = s.unicode_len();
    let mut out: Vec<String> = Vec::new();
    let mut p: usize = 0;
    let mut done = false;
    proof {
        assert(out.deep_view() =~= Seq::<Seq<char>>::empty());
        assert(s@.skip(0) =~= s@);
    }
    while !done
        invariant
            0 <= p <= n,
            n == s@.len(),
            !done ==> spec_split_char(s@, c) == out.deep_view() + spec_split_char(
                s@.skip(p as int),
                c,
            ),
            done ==> spec_split_char(s@, c) == out.deep_view(),
            done ==> out@.len() >= 1,
            out@.len() == out.deep_view().len(),
        decreases n - p + (if done { 0int } else { 1int }),
    {
        let rest = s.substring_char(p, n);
        proof {
            assert(rest@ =~= s@.skip(p as int));
        }
        let ghost pieces = spec_split_char(s@.skip(p as int), c);
        let ghost old_dv = out.deep_view();
        match find_char(rest, c) {
            Some(i) => {
                let piece = s.substring_char(p, p + i);
                proof {
                    assert(piece@ =~= rest@.take(i as int));
                    assert(s@.skip(p + i + 1) =~= rest@.skip(i + 1));
                    assert(pieces == seq![piece@] + spec_split_char(s@.skip(p + i + 1), c));
                }
                out.push(piece.to_owned());
                proof {
                    assert(out.deep_view() =~= old_dv.push(piece@));
                    assert(old_dv + (seq![piece@] + spec_split_char(s@.skip(p + i + 1), c))
                        =~= out.deep_view() + spec_split_char(s@.skip(p + i + 1), c));
                }
                p = p + i + 1;
            },
            None => {
                proof {
                    assert(pieces == seq![rest@]);
                }
                out.push(rest.to_owned());
                proof {
                    assert(out.deep_view() =~= old_dv.push(rest@));
                    assert(old_dv + seq![rest@] =~= out.deep_view());
                }
                done = true;
            },
        }
    }
    out
}

} // verus!
