//! The argument resolver: converts the word list after a command name into
//! a Resolved Arguments document — an ordered flag-to-scalar map, a single
//! positional value, or the absent document — and from there into a typed
//! argument shape through the [`CommandArg`] capability.

use crate::error::ShellError;
use crate::intlit;
use crate::strutil;
use vstd::prelude::*;

verus! {

use vstd::string::StrSliceExecFns;
use vstd::string::StringExecFns;

/// The mathematical value of a [`Scalar`].
pub enum ScalarV {
    Bool(bool),
    Int(int),
    Str(Seq<char>),
}

/// One scalar value of a Resolved Arguments document: a boolean, an
/// integer, or a plain string.
#[derive(Debug, Clone, PartialEq, Eq)]
pub enum Scalar {
    Bool(bool),
    Int(i64),
    Str(String),
}

impl View for Scalar {
    type V = ScalarV;

    open spec fn view(&self) -> ScalarV {
        match self {
            Scalar::Bool(b) => ScalarV::Bool(*b),
            Scalar::Int(n) => ScalarV::Int(*n as int),
            Scalar::Str(s) => ScalarV::Str(s@),
        }
    }
}

/// The scalar denoted by one token: `true` and `1` mean true, `false` and
/// `0` mean false, an integer literal in `i64` range means that integer,
/// and anything else is the token itself as a string.
pub open spec fn spec_parse_scalar(s: Seq<char>) -> ScalarV {
    if s == "true"@ || s == "1"@ {
        ScalarV::Bool(true)
    } else if s == "false"@ || s == "0"@ {
        ScalarV::Bool(false)
    } else if intlit::spec_parse_i64(s) is Some {
        ScalarV::Int(intlit::int_lit_val(s))
    } else {
        ScalarV::Str(s)
    }
}

/// Reads one token as the most specific scalar it can denote.
pub fn parse_scalar(tok: &str) -> (r: Scalar)
    ensures
        r@ == spec_parse_scalar(tok@),
{
    if strutil::str_eq(tok, "true") || strutil::str_eq(tok, "1") {
        Scalar::Bool(true)
    } else if strutil::str_eq(tok, "false") || strutil::str_eq(tok, "0") {
        Scalar::Bool(false)
    } else {
        match intlit::parse_i64(tok) {
            Some(n) => Scalar::Int(n),
            None => Scalar::Str(tok.to_owned()),
        }
    }
}

/// The canonical token for a scalar: `true`/`false` for booleans, the
/// canonical decimal string for integers, the string itself otherwise.
pub open spec fn spec_render_scalar(v: ScalarV) -> Seq<char> {
    match v {
        ScalarV::Bool(b) => if b {
            "true"@
        } else {
            "false"@
        },
        ScalarV::Int(n) => intlit::spec_i64_string(n),
        ScalarV::Str(s) => s,
    }
}

/// Renders a scalar back into one token.
pub fn render_scalar(v: &Scalar) -> (r: String)
    ensures
        r@ == spec_render_scalar(v@),
{
    match v {
        Scalar::Bool(b) => if *b {
            "true".to_owned()
        } else {
            "false".to_owned()
        },
        Scalar::Int(n) => intlit::i64_to_string(*n),
        Scalar::Str(s) => s.clone(),
    }
}

/// A scalar that reads back as itself: booleans always do; integers do
/// unless they are 0 or 1, whose canonical tokens mean false and true; a
/// string does when no more specific scalar claims its token.
pub open spec fn scalar_round_trips(v: ScalarV) -> bool {
    match v {
        ScalarV::Bool(_) => true,
        ScalarV::Int(n) => i64::MIN <= n <= i64::MAX && n != 0 && n != 1,
        ScalarV::Str(s) => spec_parse_scalar(s) == ScalarV::Str(s),
    }
}

/// Rendering a round-tripping scalar and parsing the token yields the same
/// scalar again.
pub proof fn lemma_scalar_round_trip(v: ScalarV)
    requires
        scalar_round_trips(v),
    ensures
        spec_parse_scalar(spec_render_scalar(v)) == v,
{
    reveal_strlit("true");
    reveal_strlit("false");
    reveal_strlit("1");
    reveal_strlit("0");
    match v {
        ScalarV::Bool(b) => {
            if !b {
                assert("false"@ != "true"@);
                assert("false"@ != "1"@);
            }
        },
        ScalarV::Int(n) => {
            let s = intlit::spec_i64_string(n);
            intlit::lemma_int_string_round_trip(n as i64);
            if n >= 0 {
                intlit::lemma_nat_digits_wf(n);
                assert(intlit::is_digit(s[0]));
                assert(s != "true"@ && s != "false"@);
                if s == "1"@ {
                    assert(s.len() == 1);
                    assert(s.last() == '1');
                    assert(intlit::digits_val(s) == n);
                    assert(s.drop_last() =~= Seq::<char>::empty());
                    assert(intlit::digits_val(Seq::<char>::empty()) == 0);
                    assert(intlit::digits_val(s) == intlit::digits_val(s.drop_last()) * 10
                        + intlit::digit_val(s.last()));
                    assert(false);
                }
                if s == "0"@ {
                    assert(s.len() == 1);
                    assert(s.last() == '0');
                    assert(s.drop_last() =~= Seq::<char>::empty());
                    assert(intlit::digits_val(Seq::<char>::empty()) == 0);
                    assert(intlit::digits_val(s) == intlit::digits_val(s.drop_last()) * 10
                        + intlit::digit_val(s.last()));
                    assert(false);
                }
            } else {
                assert(s[0] == '-');
                assert(s != "true"@ && s != "false"@ && s != "1"@ && s != "0"@);
            }
        },
        ScalarV::Str(_) => {},
    }
}

/// The mathematical value of an [`ArgDoc`].
pub enum DocV {
    Absent,
    Single(Seq<char>),
    Flags(Seq<(Seq<char>, ScalarV)>),
}

/// A Resolved Arguments document: the intermediate value between a word
/// list and a typed argument shape.  Either nothing was supplied, or one
/// bare positional token, or an ordered flag-to-scalar map.
#[derive(Debug, Clone, PartialEq, Eq)]
pub enum ArgDoc {
    /// No words followed the command name.
    Absent,
    /// Exactly one word followed, and it is not a flag; it is kept raw so
    /// that the target shape decides how to read it.
    Single(String),
    /// Flag-to-scalar entries, in first-mention order, later values
    /// overwriting earlier ones key by key.
    Flags(Vec<(String, Scalar)>),
}

/// The view of a map's entries.
pub open spec fn entries_view(m: Seq<(String, Scalar)>) -> Seq<(Seq<char>, ScalarV)> {
    m.map_values(|e: (String, Scalar)| (e.0@, e.1@))
}

impl View for ArgDoc {
    type V = DocV;

    open spec fn view(&self) -> DocV {
        match self {
            ArgDoc::Absent => DocV::Absent,
            ArgDoc::Single(s) => DocV::Single(s@),
            ArgDoc::Flags(m) => DocV::Flags(entries_view(m@)),
        }
    }
}

/// The entries with `k` bound to `v`: the first entry with key `k` is
/// replaced in place, or a new entry is appended at the end.
pub open spec fn spec_map_insert(
    m: Seq<(Seq<char>, ScalarV)>,
    k: Seq<char>,
    v: ScalarV,
) -> Seq<(Seq<char>, ScalarV)>
    decreases m.len(),
{
    if m.len() == 0 {
        seq![(k, v)]
    } else if m[0].0 == k {
        seq![(k, v)] + m.drop_first()
    } else {
        seq![m[0]] + spec_map_insert(m.drop_first(), k, v)
    }
}

proof fn lemma_map_insert_absent(m: Seq<(Seq<char>, ScalarV)>, k: Seq<char>, v: ScalarV)
    requires
        forall|i: int| 0 <= i < m.len() ==> (#[trigger] m[i]).0 != k,
    ensures
        spec_map_insert(m, k, v) == m.push((k, v)),
    decreases m.len(),
{
    if m.len() == 0 {
        assert(spec_map_insert(m, k, v) =~= m.push((k, v)));
    } else {
        assert(m[0].0 != k);
        assert(forall|i: int| 0 <= i < m.drop_first().len() ==> (#[trigger] m.drop_first()[i]).0
            != k);
        lemma_map_insert_absent(m.drop_first(), k, v);
        assert(spec_map_insert(m, k, v) =~= m.push((k, v)));
    }
}

proof fn lemma_map_insert_at(m: Seq<(Seq<char>, ScalarV)>, k: Seq<char>, v: ScalarV, i: int)
    requires
        0 <= i < m.len(),
        m[i].0 == k,
        forall|j: int| 0 <= j < i ==> (#[trigger] m[j]).0 != k,
    ensures
        spec_map_insert(m, k, v) == m.update(i, (k, v)),
    decreases i,
{
    if i == 0 {
        assert(spec_map_insert(m, k, v) =~= m.update(0, (k, v)));
    } else {
        assert(m[0].0 != k);
        assert(m.drop_first()[i - 1].0 == k);
        assert(forall|j: int| 0 <= j < i - 1 ==> (#[trigger] m.drop_first()[j]).0 != k);
        lemma_map_insert_at(m.drop_first(), k, v, i - 1);
        assert(spec_map_insert(m, k, v) =~= m.update(i, (k, v)));
    }
}

/// Binds `k` to `v` in the entry list, replacing the first entry with that
/// key or appending a new one.
fn map_insert(m: &mut Vec<(String, Scalar)>, k: String, v: Scalar)
    ensures
        entries_view(final(m)@) == spec_map_insert(entries_view(old(m)@), k@, v@),
{
    let mut i: usize = 0;
    while i < m.len()
        invariant
            0 <= i <= m@.len(),
            m@ == old(m)@,
            forall|j: int| 0 <= j < i ==> (#[trigger] entries_view(m@)[j]).0 != k@,
        decreases m@.len() - i,
    {
        if strutil::str_eq(m[i].0.as_str(), k.as_str()) {
            let ghost old_m = m@;
            proof {
                assert(entries_view(old_m)[i as int] == (old_m[i as int].0@, old_m[i as int].1@));
            }
            m.remove(i);
            m.insert(i, (k, v));
            proof {
                assert(m@ =~= old_m.update(i as int, (k, v)));
                lemma_map_insert_at(entries_view(old_m), k@, v@, i as int);
                assert(entries_view(m@) =~= entries_view(old_m).update(i as int, (k@, v@)));
            }
            return ;
        }
        proof {
            assert(entries_view(m@)[i as int].0 == m@[i as int].0@);
        }
        i += 1;
    }
    let ghost old_m = m@;
    m.push((k, v));
    proof {
        lemma_map_insert_absent(entries_view(old_m), k@, v@);
        assert(entries_view(m@) =~= entries_view(old_m).push((k@, v@)));
    }
}

/// A token that names a flag: it starts with `--`.
pub open spec fn is_flag_tok(s: Seq<char>) -> bool {
    strutil::spec_starts_with(s, "--"@)
}

/// The key of a flag token: the text between the leading `--` and the
/// first `=`, or everything after the `--` when there is no `=`.
pub open spec fn flag_key(s: Seq<char>) -> Seq<char> {
    let rest = s.skip(2);
    match strutil::spec_find_char(rest, '=') {
        Some(i) => rest.take(i),
        None => rest,
    }
}

/// The inline value of a flag token: the text after the first `=`, if any.
pub open spec fn flag_value(s: Seq<char>) -> Option<Seq<char>> {
    let rest = s.skip(2);
    match strutil::spec_find_char(rest, '=') {
        Some(i) => Some(rest.skip(i + 1)),
        None => None,
    }
}

/// The resolver's scan state: the entries so far and the flag key, if any,
/// still waiting for its value.
pub struct ScanState {
    pub entries: Seq<(Seq<char>, ScalarV)>,
    pub pending: Option<Seq<char>>,
}

/// One scan step.  A flag first finalizes any pending key as a bare flag
/// (boolean true); with an inline `=` value it binds immediately, else its
/// key becomes pending.  A plain token binds the pending key, and is an
/// error when no key is pending.
pub open spec fn scan_step(st: ScanState, tok: Seq<char>) -> Option<ScanState> {
    if is_flag_tok(tok) {
        let entries = match st.pending {
            Some(k) => spec_map_insert(st.entries, k, ScalarV::Bool(true)),
            None => st.entries,
        };
        match flag_value(tok) {
            Some(v) => Some(
                ScanState {
                    entries: spec_map_insert(entries, flag_key(tok), spec_parse_scalar(v)),
                    pending: None,
                },
            ),
            None => Some(ScanState { entries, pending: Some(flag_key(tok)) }),
        }
    } else {
        match st.pending {
            Some(k) => Some(
                ScanState {
                    entries: spec_map_insert(st.entries, k, spec_parse_scalar(tok)),
                    pending: None,
                },
            ),
            None => None,
        }
    }
}

/// Scans the remaining tokens; at the end a still-pending key becomes a
/// bare flag (boolean true).
pub open spec fn scan_tokens(toks: Seq<Seq<char>>, st: ScanState) -> Option<
    Seq<(Seq<char>, ScalarV)>,
>
    decreases toks.len(),
{
    if toks.len() == 0 {
        match st.pending {
            Some(k) => Some(spec_map_insert(st.entries, k, ScalarV::Bool(true))),
            None => Some(st.entries),
        }
    } else {
        match scan_step(st, toks[0]) {
            Some(st2) => scan_tokens(toks.drop_first(), st2),
            None => None,
        }
    }
}

/// The document denoted by a word list whose first word is the command
/// name: no further words give the absent document; exactly one non-flag
/// word is a single positional value; anything else is scanned into a
/// flag-to-scalar map, `None` standing for the param-without-option error.
pub open spec fn spec_resolve(argv: Seq<Seq<char>>) -> Option<DocV> {
    if argv.len() <= 1 {
        Some(DocV::Absent)
    } else if argv.len() == 2 && !is_flag_tok(argv[1]) {
        Some(DocV::Single(argv[1]))
    } else {
        match scan_tokens(argv.skip(1), ScanState { entries: Seq::empty(), pending: None }) {
            Some(m) => Some(DocV::Flags(m)),
            None => None,
        }
    }
}

/// Resolves the word list after the command name (`argv[0]`, which is
/// ignored) into a Resolved Arguments document.  Fails exactly when a
/// plain word arrives while no flag key is waiting for a value.
pub fn resolve(argv: &Vec<String>) -> (r: Result<ArgDoc, ShellError>)
    ensures
        match r {
            Ok(doc) => spec_resolve(argv.deep_view()) == Some(doc@),
            Err(e) => spec_resolve(argv.deep_view()) is None && (e matches
                ShellError::ArgParseError(m) && m@ == "param without option"@),
        },
{
    if argv.len() <= 1 {
        return Ok(ArgDoc::Absent);
    }
    proof {
        reveal_strlit("--");
        assert(argv.deep_view().len() == argv@.len());
        assert(argv.deep_view()[1] == argv@[1]@);
    }
    if argv.len() == 2 && !strutil::str_starts_with(argv[1].as_str(), "--") {
        return Ok(ArgDoc::Single(argv[1].clone()));
    }
    let ghost toks = argv.deep_view();
    let mut entries: Vec<(String, Scalar)> = Vec::new();
    let mut pending: Option<String> = None;
    let mut i: usize = 1;
    proof {
        assert(entries_view(entries@) =~= Seq::<(Seq<char>, ScalarV)>::empty());
    }
    while i < argv.len()
        invariant
            1 <= i <= argv@.len(),
            toks == argv.deep_view(),
            toks.len() == argv@.len(),
            toks.len() > 1,
            !(toks.len() == 2 && !is_flag_tok(toks[1])),
            scan_tokens(toks.skip(1), ScanState { entries: Seq::empty(), pending: None })
                == scan_tokens(
                toks.skip(i as int),
                ScanState { entries: entries_view(entries@), pending: pending.deep_view() },
            ),
        decreases argv@.len() - i,
    {
        let ghost st = ScanState {
            entries: entries_view(entries@),
            pending: pending.deep_view(),
        };
        let tok = &argv[i];
        proof {
            reveal_strlit("--");
            assert(toks.skip(i as int)[0] == tok@);
            assert(toks.skip(i as int).drop_first() =~= toks.skip(i + 1));
        }
        if strutil::str_starts_with(tok.as_str(), "--") {
            proof {
                assert(is_flag_tok(tok@));
            }
            let p = pending;
            pending = None;
            if let Some(k) = p {
                map_insert(&mut entries, k, Scalar::Bool(true));
            }
            let ghost entries1 = entries_view(entries@);
            let n = tok.unicode_len();
            let rest = tok.substring_char(2, n);
            proof {
                assert(rest@ =~= tok@.skip(2));
            }
            match strutil::find_char(rest, '=') {
                Some(eq) => {
                    let key = rest.substring_char(0, eq).to_owned();
                    let rl = rest.unicode_len();
                    let val = rest.substring_char(eq + 1, rl);
                    proof {
                        assert(key@ =~= flag_key(tok@));
                        assert(val@ =~= tok@.skip(2).skip(
                            strutil::spec_find_char(tok@.skip(2), '=').unwrap() + 1,
                        ));
                    }
                    let sc = parse_scalar(val);
                    map_insert(&mut entries, key, sc);
                },
                None => {
                    pending = Some(rest.to_owned());
                    proof {
                        assert(rest@ == flag_key(tok@));
                    }
                },
            }
            proof {
                assert(scan_step(st, tok@) == Some(
                    ScanState { entries: entries_view(entries@), pending: pending.deep_view() },
                ));
            }
        } else {
            let p = pending;
            pending = None;
            match p {
                Some(k) => {
                    let sc = parse_scalar(tok.as_str());
                    map_insert(&mut entries, k, sc);
                },
                None => {
                    proof {
                        assert(scan_step(st, tok@) is None);
                        assert(scan_tokens(toks.skip(i as int), st) is None);
                    }
                    return Err(ShellError::ArgParseError("param without option".to_owned()));
                },
            }
            proof {
                assert(scan_step(st, tok@) == Some(
                    ScanState { entries: entries_view(entries@), pending: pending.deep_view() },
                ));
            }
        }
        i += 1;
    }
    proof {
        assert(toks.skip(toks.len() as int).len() == 0);
    }
    let ghost st = ScanState { entries: entries_view(entries@), pending: pending.deep_view() };
    let p = pending;
    if let Some(k) = p {
        map_insert(&mut entries, k, Scalar::Bool(true));
    }
    proof {
        assert(scan_tokens(toks.skip(toks.len() as int), st) == Some(entries_view(entries@)));
    }
    Ok(ArgDoc::Flags(entries))
}

} // verus!

verus! {

/// The tokens that render one map of flag entries: for each entry, a
/// `--key` token followed by the scalar's canonical token.
pub open spec fn spec_render_map(m: Seq<(Seq<char>, ScalarV)>) -> Seq<Seq<char>>
    decreases m.len(),
{
    if m.len() == 0 {
        Seq::empty()
    } else {
        seq!["--"@ + m[0].0, spec_render_scalar(m[0].1)] + spec_render_map(m.drop_first())
    }
}

/// The word list that renders a document under the command name `cmd`.
pub open spec fn spec_render_doc(doc: DocV, cmd: Seq<char>) -> Seq<Seq<char>> {
    match doc {
        DocV::Absent => seq![cmd],
        DocV::Single(s) => seq![cmd, s],
        DocV::Flags(m) => seq![cmd] + spec_render_map(m),
    }
}

/// Renders a document back into a word list headed by `cmd`.
pub fn render_doc(doc: &ArgDoc, cmd: &str) -> (r: Vec<String>)
    ensures
        r.deep_view() == spec_render_doc(doc@, cmd@),
{
    let mut out: Vec<String> = Vec::new();
    out.push(cmd.to_owned());
    match doc {
        ArgDoc::Absent => {
            proof {
                assert(out.deep_view() =~= seq![cmd@]);
            }
        },
        ArgDoc::Single(s) => {
            out.push(s.clone());
            proof {
                assert(out.deep_view() =~= seq![cmd@, s@]);
            }
        },
        ArgDoc::Flags(m) => {
            proof {
                assert(out.deep_view() =~= seq![cmd@]);
            }
            let ghost ev = entries_view(m@);
            let mut i: usize = 0;
            proof {
                assert(ev.skip(0) =~= ev);
            }
            while i < m.len()
                invariant
                    0 <= i <= m@.len(),
                    ev == entries_view(m@),
                    ev.len() == m@.len(),
                    seq![cmd@] + spec_render_map(ev) == out.deep_view() + spec_render_map(
                        ev.skip(i as int),
                    ),
                decreases m@.len() - i,
            {
                let ghost old_dv = out.deep_view();
                proof {
                    assert(ev.skip(i as int)[0] == ev[i as int]);
                    assert(ev.skip(i as int).drop_first() =~= ev.skip(i + 1));
                    assert(ev[i as int] == (m@[i as int].0@, m@[i as int].1@));
                }
                let mut flag = "--".to_owned();
                flag.append(m[i].0.as_str());
                let val = render_scalar(&m[i].1);
                out.push(flag);
                out.push(val);
                proof {
                    assert(out.deep_view() =~= old_dv + seq![
                        "--"@ + ev[i as int].0,
                        spec_render_scalar(ev[i as int].1),
                    ]);
                    assert(old_dv + (seq!["--"@ + ev[i as int].0, spec_render_scalar(ev[i as int].1)]
                        + spec_render_map(ev.skip(i + 1))) =~= out.deep_view() + spec_render_map(
                        ev.skip(i + 1),
                    ));
                }
                i += 1;
            }
            proof {
                assert(ev.skip(ev.len() as int).len() == 0);
                assert(out.deep_view() + spec_render_map(ev.skip(ev.len() as int)) =~= out.deep_view());
            }
        },
    }
    out
}

/// A flag key that renders unambiguously: it holds no `=`.
pub open spec fn valid_flag_key(k: Seq<char>) -> bool {
    strutil::spec_find_char(k, '=') is None
}

/// A map value that reads back as itself, and whose token cannot be
/// mistaken for a flag.
pub open spec fn map_value_ok(v: ScalarV) -> bool {
    scalar_round_trips(v) && match v {
        ScalarV::Str(s) => !is_flag_tok(s),
        _ => true,
    }
}

/// A document that survives rendering and re-resolving: the absent
/// document; a single non-flag token; or a nonempty map with unambiguous
/// distinct keys and boolean, integer or string values that read back as
/// themselves.
pub open spec fn doc_round_trips(doc: DocV) -> bool {
    match doc {
        DocV::Absent => true,
        DocV::Single(s) => !is_flag_tok(s),
        DocV::Flags(m) => m.len() >= 1 && (forall|i: int|
            0 <= i < m.len() ==> valid_flag_key((#[trigger] m[i]).0) && map_value_ok(m[i].1))
            && (forall|i: int, j: int| 0 <= i < j < m.len() ==> m[i].0 != m[j].0),
    }
}

proof fn lemma_rendered_scalar_not_flag(v: ScalarV)
    requires
        map_value_ok(v),
    ensures
        !is_flag_tok(spec_render_scalar(v)),
{
    reveal_strlit("--");
    reveal_strlit("true");
    reveal_strlit("false");
    let t = spec_render_scalar(v);
    if is_flag_tok(t) {
        assert(t.take(2) == "--"@);
        assert(t.len() >= 2);
        assert(t.take(2)[0] == t[0] && t.take(2)[1] == t[1]);
        assert(("--"@)[0] == '-' && ("--"@)[1] == '-');
        assert(t[0] == '-' && t[1] == '-');
        match v {
            ScalarV::Bool(b) => {
                assert(false);
            },
            ScalarV::Int(n) => {
                if n >= 0 {
                    intlit::lemma_nat_digits_wf(n);
                    assert(intlit::is_digit(t[0]));
                    assert(false);
                } else {
                    intlit::lemma_nat_digits_wf(-n);
                    assert(t[1] == intlit::spec_nat_digits(-n)[0]);
                    assert(intlit::is_digit(t[1]));
                    assert(false);
                }
            },
            ScalarV::Str(s) => {
                assert(false);
            },
        }
    }
}

proof fn lemma_render_map_len(m: Seq<(Seq<char>, ScalarV)>)
    ensures
        spec_render_map(m).len() == 2 * m.len(),
    decreases m.len(),
{
    if m.len() > 0 {
        lemma_render_map_len(m.drop_first());
    }
}

proof fn lemma_scan_rendered(m: Seq<(Seq<char>, ScalarV)>, acc: Seq<(Seq<char>, ScalarV)>)
    requires
        forall|i: int|
            0 <= i < m.len() ==> valid_flag_key((#[trigger] m[i]).0) && map_value_ok(m[i].1),
        forall|i: int, j: int| 0 <= i < j < m.len() ==> m[i].0 != m[j].0,
        forall|i: int, j: int|
            0 <= i < m.len() && 0 <= j < acc.len() ==> (#[trigger] m[i]).0 != (#[trigger] acc[j]).0,
    ensures
        scan_tokens(spec_render_map(m), ScanState { entries: acc, pending: None }) == Some(acc + m),
    decreases m.len(),
{
    reveal_strlit("--");
    if m.len() == 0 {
        assert(acc + m =~= acc);
    } else {
        let k = m[0].0;
        let v = m[0].1;
        let flagtok = "--"@ + k;
        let valtok = spec_render_scalar(v);
        let toks = spec_render_map(m);
        assert(toks == seq![flagtok, valtok] + spec_render_map(m.drop_first()));
        assert(toks[0] == flagtok);
        assert(toks.drop_first() =~= seq![valtok] + spec_render_map(m.drop_first()));
        // The flag token starts with the two dashes and carries exactly `k`.
        assert(flagtok.take(2) =~= "--"@);
        assert(is_flag_tok(flagtok));
        assert(flagtok.skip(2) =~= k);
        assert(strutil::spec_find_char(k, '=') is None);
        assert(flag_value(flagtok) is None);
        assert(flag_key(flagtok) == k);
        let st0 = ScanState { entries: acc, pending: None };
        let st1 = ScanState { entries: acc, pending: Some(k) };
        assert(scan_step(st0, flagtok) == Some(st1));
        // The value token is no flag, so it binds the pending key.
        lemma_rendered_scalar_not_flag(v);
        lemma_scalar_round_trip(v);
        lemma_map_insert_absent(acc, k, v);
        let st2 = ScanState { entries: acc.push((k, v)), pending: None };
        assert(scan_step(st1, valtok) == Some(st2));
        let rest = toks.drop_first();
        assert(rest[0] == valtok);
        assert(rest.drop_first() =~= spec_render_map(m.drop_first()));
        // The remaining entries extend the accumulator in order.
        assert(forall|i: int, j: int|
            0 <= i < m.drop_first().len() && 0 <= j < acc.push((k, v)).len() ==> (#[trigger] m
                .drop_first()[i]).0 != (#[trigger] acc.push((k, v))[j]).0) by {
            assert(forall|i: int|
                0 <= i < m.drop_first().len() ==> (#[trigger] m.drop_first()[i]).0 == m[i + 1].0);
        }
        lemma_scan_rendered(m.drop_first(), acc.push((k, v)));
        assert(acc.push((k, v)) + m.drop_first() =~= acc + m);
        assert(scan_tokens(toks, st0) == scan_tokens(toks.drop_first(), st1));
        assert(scan_tokens(rest, st1) == scan_tokens(rest.drop_first(), st2));
        assert(scan_tokens(rest.drop_first(), st2) == Some(acc.push((k, v)) + m.drop_first()));
    }
}

/// Rendering a round-tripping document under any command name and
/// resolving the resulting word list yields the same document again.
pub proof fn lemma_resolve_render_round_trip(doc: DocV, cmd: Seq<char>)
    requires
        doc_round_trips(doc),
    ensures
        spec_resolve(spec_render_doc(doc, cmd)) == Some(doc),
{
    match doc {
        DocV::Absent => {},
        DocV::Single(s) => {},
        DocV::Flags(m) => {
            let argv = seq![cmd] + spec_render_map(m);
            lemma_render_map_len(m);
            assert(argv.len() == 1 + 2 * m.len());
            assert(argv.skip(1) =~= spec_render_map(m));
            lemma_scan_rendered(m, Seq::empty());
            assert(Seq::empty() + m =~= m);
            if argv.len() == 2 {
                assert(m.len() >= 1);
                assert(false);
            }
        },
    }
}

} // verus!

verus! {

use vstd::string::StrSliceExecFns as _;
use vstd::string::StringExecFns as _;

/// The capability an argument shape offers: a help descriptor (one
/// `name: type` line per option, empty for a shape that takes nothing) and
/// a conversion from a Resolved Arguments document.
pub trait CommandArg: DeepView + Sized {
    /// Which documents this shape accepts, and the value each becomes.
    spec fn spec_from_doc(doc: DocV) -> Option<Self::V>;

    /// The shape's help descriptors.
    spec fn spec_help() -> Seq<Seq<char>>;

    /// The help descriptors, one string per option.
    fn display_help() -> (r: Vec<String>)
        ensures
            r.deep_view() == Self::spec_help(),
    ;

    /// Builds the shape from a document, exactly when the shape accepts it.
    fn from_doc(doc: &ArgDoc) -> (r: Option<Self>)
        ensures
            match r {
                Some(v) => Self::spec_from_doc(doc@) == Some(v.deep_view()),
                None => Self::spec_from_doc(doc@) is None,
            },
    ;
}

impl CommandArg for () {
    open spec fn spec_from_doc(doc: DocV) -> Option<()> {
        match doc {
            DocV::Absent => Some(()),
            _ => None,
        }
    }

    open spec fn spec_help() -> Seq<Seq<char>> {
        Seq::empty()
    }

    fn display_help() -> (r: Vec<String>) {
        let r: Vec<String> = Vec::new();
        proof {
            assert(r.deep_view() =~= Seq::<Seq<char>>::empty());
        }
        r
    }

    fn from_doc(doc: &ArgDoc) -> (r: Option<()>) {
        match doc {
            ArgDoc::Absent => Some(()),
            _ => None,
        }
    }
}

impl CommandArg for String {
    open spec fn spec_from_doc(doc: DocV) -> Option<Seq<char>> {
        match doc {
            DocV::Single(s) => Some(s),
            _ => None,
        }
    }

    open spec fn spec_help() -> Seq<Seq<char>> {
        seq!["[string]"@]
    }

    fn display_help() -> (r: Vec<String>) {
        let mut r: Vec<String> = Vec::new();
        r.push("[string]".to_owned());
        proof {
            assert(r.deep_view() =~= seq!["[string]"@]);
        }
        r
    }

    fn from_doc(doc: &ArgDoc) -> (r: Option<String>) {
        match doc {
            ArgDoc::Single(s) => Some(s.clone()),
            _ => None,
        }
    }
}

impl CommandArg for i64 {
    open spec fn spec_from_doc(doc: DocV) -> Option<i64> {
        match doc {
            DocV::Single(s) => intlit::spec_parse_i64(s),
            _ => None,
        }
    }

    open spec fn spec_help() -> Seq<Seq<char>> {
        seq!["[i64]"@]
    }

    fn display_help() -> (r: Vec<String>) {
        let mut r: Vec<String> = Vec::new();
        r.push("[i64]".to_owned());
        proof {
            assert(r.deep_view() =~= seq!["[i64]"@]);
        }
        r
    }

    fn from_doc(doc: &ArgDoc) -> (r: Option<i64>) {
        match doc {
            ArgDoc::Single(s) => intlit::parse_i64(s.as_str()),
            _ => None,
        }
    }
}

impl CommandArg for i32 {
    open spec fn spec_from_doc(doc: DocV) -> Option<i32> {
        match doc {
            DocV::Single(s) => match intlit::spec_parse_i64(s) {
                Some(n) => if i32::MIN <= n <= i32::MAX {
                    Some(n as i32)
                } else {
                    None
                },
                None => None,
            },
            _ => None,
        }
    }

    open spec fn spec_help() -> Seq<Seq<char>> {
        seq!["[i32]"@]
    }

    fn display_help() -> (r: Vec<String>) {
        let mut r: Vec<String> = Vec::new();
        r.push("[i32]".to_owned());
        proof {
            assert(r.deep_view() =~= seq!["[i32]"@]);
        }
        r
    }

    fn from_doc(doc: &ArgDoc) -> (r: Option<i32>) {
        match doc {
            ArgDoc::Single(s) => match intlit::parse_i64(s.as_str()) {
                Some(n) => if i32::MIN as i64 <= n && n <= i32::MAX as i64 {
                    Some(n as i32)
                } else {
                    None
                },
                None => None,
            },
            _ => None,
        }
    }
}

impl<T: CommandArg> CommandArg for Option<T> {
    /// An optional shape also accepts the absent document, as "nothing".
    open spec fn spec_from_doc(doc: DocV) -> Option<Option<T::V>> {
        match doc {
            DocV::Absent => Some(None),
            _ => match T::spec_from_doc(doc) {
                Some(v) => Some(Some(v)),
                None => None,
            },
        }
    }

    /// Wrapping changes only the descriptor: a one-line inner descriptor is
    /// wrapped as `Option<...>`; a longer one is headed by `<Optional>`.
    open spec fn spec_help() -> Seq<Seq<char>> {
        let inner = T::spec_help();
        if inner.len() == 0 {
            Seq::empty()
        } else if inner.len() == 1 {
            seq!["Option<"@ + inner[0] + ">"@]
        } else {
            seq!["<Optional>"@] + inner
        }
    }

    fn display_help() -> (r: Vec<String>) {
        let inner = T::display_help();
        proof {
            assert(inner.deep_view().len() == inner@.len());
        }
        if inner.len() == 0 {
            let r: Vec<String> = Vec::new();
            proof {
                assert(r.deep_view() =~= Seq::<Seq<char>>::empty());
            }
            r
        } else if inner.len() == 1 {
            let mut line = "Option<".to_owned();
            line.append(inner[0].as_str());
            line.append(">");
            let mut r: Vec<String> = Vec::new();
            r.push(line);
            proof {
                assert(inner.deep_view()[0] == inner@[0]@);
                assert(r.deep_view() =~= seq!["Option<"@ + T::spec_help()[0] + ">"@]);
            }
            r
        } else {
            let mut r: Vec<String> = Vec::new();
            r.push("<Optional>".to_owned());
            let mut i: usize = 0;
            while i < inner.len()
                invariant
                    0 <= i <= inner@.len(),
                    r.deep_view() == seq!["<Optional>"@] + inner.deep_view().take(i as int),
                decreases inner@.len() - i,
            {
                r.push(inner[i].clone());
                proof {
                    assert(inner.deep_view()[i as int] == inner@[i as int]@);
                    assert(inner.deep_view().take(i + 1) =~= inner.deep_view().take(i as int).push(
                        inner.deep_view()[i as int],
                    ));
                    assert(r.deep_view() =~= (seq!["<Optional>"@] + inner.deep_view().take(
                        i as int,
                    )).push(inner.deep_view()[i as int]));
                }
                i += 1;
            }
            proof {
                assert(inner.deep_view().take(inner.deep_view().len() as int) =~= inner.deep_view());
            }
            r
        }
    }

    fn from_doc(doc: &ArgDoc) -> (r: Option<Option<T>>) {
        match doc {
            ArgDoc::Absent => Some(None),
            _ => match T::from_doc(doc) {
                Some(v) => Some(Some(v)),
                None => None,
            },
        }
    }
}

/// The message when a shape that wants data got none: it lists the
/// expected descriptors, or says that none were expected.
pub open spec fn spec_missing_args_message(help: Seq<Seq<char>>) -> Seq<char> {
    if help.len() == 0 {
        "No arguments expected, but command failed"@
    } else {
        "Missing required arguments: "@ + strutil::spec_join(help, ", "@)
    }
}

/// What the caller actually supplied, for error messages: nothing, the
/// bare token, or the flags joined with commas.
pub open spec fn spec_provided_text(doc: DocV) -> Seq<char> {
    match doc {
        DocV::Absent => Seq::empty(),
        DocV::Single(s) => s,
        DocV::Flags(m) => strutil::spec_join(
            m.map_values(|e: (Seq<char>, ScalarV)| "--"@ + e.0),
            ", "@,
        ),
    }
}

/// The message when a supplied document does not fit the shape: the
/// expected descriptors next to what was supplied.
pub open spec fn spec_failed_parse_message(help: Seq<Seq<char>>, doc: DocV) -> Seq<char> {
    "Failed to parse arguments.\nExpected: "@ + strutil::spec_join(help, ", "@)
        + "\nProvided: "@ + spec_provided_text(doc)
}

fn provided_text(doc: &ArgDoc) -> (r: String)
    ensures
        r@ == spec_provided_text(doc@),
{
    match doc {
        ArgDoc::Absent => {
            let r = String::new();
            r
        },
        ArgDoc::Single(s) => s.clone(),
        ArgDoc::Flags(m) => {
            let ghost flags_v = entries_view(m@).map_values(
                |e: (Seq<char>, ScalarV)| "--"@ + e.0,
            );
            let mut flags: Vec<String> = Vec::new();
            let mut i: usize = 0;
            while i < m.len()
                invariant
                    0 <= i <= m@.len(),
                    flags_v == entries_view(m@).map_values(
                        |e: (Seq<char>, ScalarV)| "--"@ + e.0,
                    ),
                    flags_v.len() == m@.len(),
                    flags.deep_view() == flags_v.take(i as int),
                decreases m@.len() - i,
            {
                let mut f = "--".to_owned();
                f.append(m[i].0.as_str());
                let ghost old_dv = flags.deep_view();
                flags.push(f);
                proof {
                    assert(entries_view(m@)[i as int] == (m@[i as int].0@, m@[i as int].1@));
                    assert(flags_v[i as int] == "--"@ + m@[i as int].0@);
                    assert(flags.deep_view() =~= old_dv.push("--"@ + m@[i as int].0@));
                    assert(old_dv.push(flags_v[i as int]) =~= flags_v.take(i + 1));
                }
                i += 1;
            }
            proof {
                assert(flags_v.take(flags_v.len() as int) =~= flags_v);
            }
            strutil::join(&flags, ", ")
        },
    }
}

/// Resolves the word list after the command name into the shape `T`.
/// Succeeds exactly when resolution succeeds and `T` accepts the document;
/// the error text names the shape's expected descriptors, and what was
/// supplied where something was.
pub fn parse_arguments<T: CommandArg>(argv: &Vec<String>) -> (r: Result<T, ShellError>)
    ensures
        match r {
            Ok(t) => spec_resolve(argv.deep_view()) matches Some(d) && T::spec_from_doc(d)
                == Some(t.deep_view()),
            Err(e) => e matches ShellError::ArgParseError(msg) && ((spec_resolve(argv.deep_view())
                is None && msg@ == "param without option"@) || (spec_resolve(argv.deep_view())
                matches Some(d) && T::spec_from_doc(d) is None && msg@ == (if d is Absent {
                spec_missing_args_message(T::spec_help())
            } else {
                spec_failed_parse_message(T::spec_help(), d)
            }))),
        },
{
    let doc = match resolve(argv) {
        Ok(d) => d,
        Err(e) => {
            return Err(e);
        },
    };
    match T::from_doc(&doc) {
        Some(t) => Ok(t),
        None => {
            let help = T::display_help();
            proof {
                assert(help.deep_view().len() == help@.len());
            }
            let msg: String = match &doc {
                ArgDoc::Absent => {
                    if help.len() == 0 {
                        "No arguments expected, but command failed".to_owned()
                    } else {
                        let mut m = "Missing required arguments: ".to_owned();
                        m.append(strutil::join(&help, ", ").as_str());
                        m
                    }
                },
                _ => {
                    let provided = provided_text(&doc);
                    let mut m = "Failed to parse arguments.\nExpected: ".to_owned();
                    m.append(strutil::join(&help, ", ").as_str());
                    m.append("\nProvided: ");
                    m.append(provided.as_str());
                    m
                },
            };
            Err(ShellError::ArgParseError(msg))
        },
    }
}

} // verus!

verus! {

/// Every key of a flag map occurs once.
pub open spec fn keys_distinct(m: Seq<(Seq<char>, ScalarV)>) -> bool {
    forall|i: int, j: int|
        0 <= i < j < m.len() ==> (#[trigger] m[i]).0 != (#[trigger] m[j]).0
}

proof fn lemma_map_insert_keys(m: Seq<(Seq<char>, ScalarV)>, k: Seq<char>, v: ScalarV)
    requires
        keys_distinct(m),
    ensures
        keys_distinct(spec_map_insert(m, k, v)),
        forall|i: int|
            0 <= i < spec_map_insert(m, k, v).len() ==> (#[trigger] spec_map_insert(m, k, v)[i]).0
                == k || exists|j: int| 0 <= j < m.len() && (#[trigger] m[j]).0 == spec_map_insert(
                m,
                k,
                v,
            )[i].0,
    decreases m.len(),
{
    let r = spec_map_insert(m, k, v);
    if m.len() == 0 {
        assert(r[0].0 == k);
    } else if m[0].0 == k {
        assert(r[0].0 == k);
        assert(forall|i: int| 0 <= i < m.drop_first().len() ==> (#[trigger] m.drop_first()[i])
            == m[i + 1]);
        assert forall|i: int| 0 <= i < r.len() implies (#[trigger] r[i]).0 == k || exists|j: int|
            0 <= j < m.len() && (#[trigger] m[j]).0 == r[i].0 by {
            if i > 0 {
                assert(r[i] == m[i]);
                assert(m[i].0 == r[i].0);
            }
        };
    } else {
        assert(keys_distinct(m.drop_first())) by {
            assert(forall|i: int| 0 <= i < m.drop_first().len() ==> (#[trigger] m.drop_first()[i])
                == m[i + 1]);
        }
        lemma_map_insert_keys(m.drop_first(), k, v);
        let rr = spec_map_insert(m.drop_first(), k, v);
        assert(r == seq![m[0]] + rr);
        assert(r[0] == m[0]);
        assert(forall|i: int| 1 <= i < r.len() ==> (#[trigger] r[i]) == rr[i - 1]);
        // The head's key differs from `k` and, by distinctness, from every
        // key that survives in the inserted tail.
        assert forall|i: int, j: int| 0 <= i < j < r.len() implies (#[trigger] r[i]).0
            != (#[trigger] r[j]).0 by {
            if i == 0 {
                assert(rr[j - 1].0 == k || exists|x: int|
                    0 <= x < m.drop_first().len() && (#[trigger] m.drop_first()[x]).0 == rr[j
                        - 1].0);
                if rr[j - 1].0 != k {
                    let x = choose|x: int|
                        0 <= x < m.drop_first().len() && (#[trigger] m.drop_first()[x]).0 == rr[j
                            - 1].0;
                    assert(m.drop_first()[x] == m[x + 1]);
                    assert(m[0].0 != m[x + 1].0);
                }
            }
        };
        assert forall|i: int| 0 <= i < r.len() implies (#[trigger] r[i]).0 == k || exists|j: int|
            0 <= j < m.len() && (#[trigger] m[j]).0 == r[i].0 by {
            if i == 0 {
                assert(m[0].0 == r[0].0);
            } else {
                if rr[i - 1].0 != k {
                    let x = choose|x: int|
                        0 <= x < m.drop_first().len() && (#[trigger] m.drop_first()[x]).0 == rr[i
                            - 1].0;
                    assert(m.drop_first()[x] == m[x + 1]);
                    assert(m[x + 1].0 == r[i].0);
                }
            }
        };
    }
}

proof fn lemma_scan_keys_distinct(toks: Seq<Seq<char>>, st: ScanState)
    requires
        keys_distinct(st.entries),
    ensures
        scan_tokens(toks, st) matches Some(m) ==> keys_distinct(m),
    decreases toks.len(),
{
    if toks.len() == 0 {
        match st.pending {
            Some(k) => {
                lemma_map_insert_keys(st.entries, k, ScalarV::Bool(true));
            },
            None => {},
        }
    } else {
        match scan_step(st, toks[0]) {
            Some(st2) => {
                assert(keys_distinct(st2.entries)) by {
                    if is_flag_tok(toks[0]) {
                        let entries1 = match st.pending {
                            Some(k) => spec_map_insert(st.entries, k, ScalarV::Bool(true)),
                            None => st.entries,
                        };
                        match st.pending {
                            Some(k) => {
                                lemma_map_insert_keys(st.entries, k, ScalarV::Bool(true));
                            },
                            None => {},
                        }
                        match flag_value(toks[0]) {
                            Some(v) => {
                                lemma_map_insert_keys(
                                    entries1,
                                    flag_key(toks[0]),
                                    spec_parse_scalar(v),
                                );
                            },
                            None => {},
                        }
                    } else {
                        match st.pending {
                            Some(k) => {
                                lemma_map_insert_keys(st.entries, k, spec_parse_scalar(toks[0]));
                            },
                            None => {},
                        }
                    }
                }
                lemma_scan_keys_distinct(toks.drop_first(), st2);
            },
            None => {},
        }
    }
}

/// A resolved flag map binds each key once: later values for a key
/// overwrite earlier ones instead of accumulating.
pub proof fn lemma_resolve_keys_distinct(argv: Seq<Seq<char>>)
    ensures
        spec_resolve(argv) matches Some(DocV::Flags(m)) ==> keys_distinct(m),
{
    let st = ScanState { entries: Seq::empty(), pending: None };
    lemma_scan_keys_distinct(argv.skip(1), st);
}

} // verus!
