//! The command registry: named command entries with their descriptions,
//! help descriptors and invocation handles, kept sorted by name so that
//! lookups are unambiguous and listings are deterministic.

use crate::strutil;
use vstd::prelude::*;

verus! {

use vstd::string::StringExecFns;

/// The mathematical value of a [`CommandEntry`].
pub struct EntryV {
    pub name: Seq<char>,
    pub description: Seq<char>,
    pub long_description: Option<Seq<char>>,
    pub help: Seq<Seq<char>>,
    pub handler: u64,
}

/// One registered command: its identity, its short and optional long
/// description, its per-option help descriptors, and the handle under
/// which the embedding program keeps its invocation body.
#[derive(Debug, Clone)]
pub struct CommandEntry {
    pub name: String,
    pub description: String,
    pub long_description: Option<String>,
    pub help: Vec<String>,
    pub handler: u64,
}

impl View for CommandEntry {
    type V = EntryV;

    open spec fn view(&self) -> EntryV {
        EntryV {
            name: self.name@,
            description: self.description@,
            long_description: self.long_description.deep_view(),
            help: self.help.deep_view(),
            handler: self.handler,
        }
    }
}

impl DeepView for CommandEntry {
    type V = EntryV;

    open spec fn deep_view(&self) -> EntryV {
        self.view()
    }
}

/// The entries are strictly sorted by name: each name comes strictly
/// before the next, so names are unique and listings are deterministic.
pub open spec fn entries_sorted(s: Seq<EntryV>) -> bool {
    forall|i: int| 0 <= i < s.len() - 1 ==> strutil::seq_char_lt(#[trigger] s[i].name, s[i + 1].name)
}

/// The entries with `e` bound under its name: an entry with the same name
/// is replaced, otherwise `e` enters at its sorted position.
pub open spec fn spec_add(s: Seq<EntryV>, e: EntryV) -> Seq<EntryV>
    decreases s.len(),
{
    if s.len() == 0 {
        seq![e]
    } else if strutil::seq_char_lt(e.name, s[0].name) {
        seq![e] + s
    } else if e.name == s[0].name {
        seq![e] + s.drop_first()
    } else {
        seq![s[0]] + spec_add(s.drop_first(), e)
    }
}

/// The first entry named `n`, if any.
pub open spec fn spec_find(s: Seq<EntryV>, n: Seq<char>) -> Option<EntryV>
    decreases s.len(),
{
    if s.len() == 0 {
        None
    } else if s[0].name == n {
        Some(s[0])
    } else {
        spec_find(s.drop_first(), n)
    }
}

/// The names of the entries, in their stored (sorted) order.
pub open spec fn spec_names(s: Seq<EntryV>) -> Seq<Seq<char>> {
    s.map_values(|e: EntryV| e.name)
}

/// The names joined for a missing-subcommand report.
pub open spec fn spec_join_names(s: Seq<EntryV>) -> Seq<char> {
    strutil::spec_join(spec_names(s), ", "@)
}

/// A registry of commands, one per name.
#[derive(Debug)]
pub struct CommandList {
    entries: Vec<CommandEntry>,
}

impl View for CommandList {
    type V = Seq<EntryV>;

    closed spec fn view(&self) -> Seq<EntryV> {
        self.entries.deep_view()
    }
}

proof fn lemma_spec_add_at(s: Seq<EntryV>, e: EntryV, p: int)
    requires
        entries_sorted(s),
        0 <= p <= s.len(),
        forall|j: int| 0 <= j < p ==> strutil::seq_char_lt((#[trigger] s[j]).name, e.name),
        p < s.len() ==> !strutil::seq_char_lt(s[p].name, e.name),
    ensures
        p < s.len() && s[p].name == e.name ==> spec_add(s, e) == s.update(p, e),
        !(p < s.len() && s[p].name == e.name) ==> spec_add(s, e) == s.insert(p, e),
    decreases p,
{
    if s.len() == 0 {
        assert(spec_add(s, e) =~= s.insert(0, e));
    } else if p == 0 {
        if s[0].name == e.name {
            assert(spec_add(s, e) =~= s.update(0, e));
        } else {
            // Neither strictly before nor equal: the head comes strictly
            // after `e`, so `e` is inserted at the front.
            strutil::lemma_seq_char_le_total(e.name, s[0].name);
            if strutil::seq_char_le(s[0].name, e.name) {
                assert(strutil::seq_char_lt(s[0].name, e.name));
                assert(false);
            }
            assert(strutil::seq_char_lt(e.name, s[0].name));
            assert(spec_add(s, e) =~= s.insert(0, e));
        }
    } else {
        assert(strutil::seq_char_lt(s[0].name, e.name));
        assert(!strutil::seq_char_lt(e.name, s[0].name)) by {
            if strutil::seq_char_lt(e.name, s[0].name) {
                strutil::lemma_seq_char_le_antisym(e.name, s[0].name);
            }
        }
        assert(e.name != s[0].name);
        let t = s.drop_first();
        assert(entries_sorted(t)) by {
            assert(forall|i: int|
                0 <= i < t.len() - 1 ==> strutil::seq_char_lt(
                    (#[trigger] t[i]).name,
                    t[i + 1].name,
                )) by {
                assert(forall|i: int| 0 <= i < t.len() ==> (#[trigger] t[i]) == s[i + 1]);
            }
        }
        assert(forall|j: int| 0 <= j < p - 1 ==> strutil::seq_char_lt((#[trigger] t[j]).name, e.name)) by {
            assert(forall|j: int| 0 <= j < t.len() ==> (#[trigger] t[j]) == s[j + 1]);
        }
        lemma_spec_add_at(t, e, p - 1);
        if p < s.len() && s[p].name == e.name {
            assert(t[p - 1] == s[p]);
            assert(spec_add(s, e) =~= s.update(p, e));
        } else {
            assert(spec_add(s, e) =~= s.insert(p, e));
        }
    }
}

impl CommandList {
    /// All registries are strictly sorted by name, by construction.
    #[verifier::type_invariant]
    spec fn wf(self) -> bool {
        entries_sorted(self@)
    }

    /// An empty registry.
    pub fn new() -> (r: Self)
        ensures
            r@.len() == 0,
            entries_sorted(r@),
    {
        let entries: Vec<CommandEntry> = Vec::new();
        proof {
            assert(entries.deep_view() =~= Seq::<EntryV>::empty());
        }
        let r = CommandList { entries };
        r
    }

    /// Registers a command: an entry with the same name is replaced, and
    /// the registry stays sorted by name.
    pub fn add_command(&mut self, entry: CommandEntry)
        ensures
            final(self)@ == spec_add(old(self)@, entry@),
            entries_sorted(final(self)@),
    {
        proof {
            use_type_invariant(&*self);
        }
        let ghost s = self@;
        let mut v: Vec<CommandEntry> = Vec::new();
        proof {
            assert(v.deep_view() =~= Seq::<EntryV>::empty());
        }
        core::mem::swap(&mut v, &mut self.entries);
        let ghost ev = entry@;
        let mut p: usize = 0;
        while p < v.len()
            invariant
                0 <= p <= v@.len(),
                ev == entry@,
                s == v.deep_view(),
                s.len() == v@.len(),
                entries_sorted(s),
                forall|j: int| 0 <= j < p ==> strutil::seq_char_lt((#[trigger] s[j]).name, ev.name),
            ensures
                0 <= p <= s.len(),
                s == v.deep_view(),
                s.len() == v@.len(),
                forall|j: int| 0 <= j < p ==> strutil::seq_char_lt((#[trigger] s[j]).name, ev.name),
                p < s.len() ==> !strutil::seq_char_le(s[p as int].name, ev.name) || s[p as int].name
                    == ev.name,
            decreases v@.len() - p,
        {
            proof {
                assert(s[p as int] == v@[p as int]@);
            }
            if !strutil::str_le(v[p].name.as_str(), entry.name.as_str()) {
                break ;
            }
            if strutil::str_eq(v[p].name.as_str(), entry.name.as_str()) {
                break ;
            }
            proof {
                // At or before, and not equal: strictly before.
                assert(strutil::seq_char_lt(s[p as int].name, ev.name));
            }
            p += 1;
        }
        proof {
            lemma_spec_add_at(s, ev, p as int);
        }
        if p < v.len() && strutil::str_eq(v[p].name.as_str(), entry.name.as_str()) {
            // An existing entry with this name is replaced in place.
            let ghost pre = v@;
            proof {
                assert(s[p as int] == pre[p as int]@);
            }
            v.remove(p);
            v.insert(p, entry);
            proof {
                assert(v@ =~= pre.update(p as int, entry));
                assert(v.deep_view() =~= s.update(p as int, ev));
                assert(entries_sorted(v.deep_view())) by {
                    assert(forall|i: int|
                        0 <= i < v.deep_view().len() ==> (#[trigger] v.deep_view()[i]).name
                            == s[i].name);
                }
            }
            self.entries = v;
            return ;
        }
        // Every earlier name comes strictly before and this one is new: it
        // enters at its sorted position.
        proof {
            if p < v.len() {
                assert(s[p as int] == v@[p as int]@);
                assert(s[p as int].name != ev.name);
                assert(!strutil::seq_char_le(s[p as int].name, ev.name));
            }
        }
        let ghost pre = v@;
        v.insert(p, entry);
        proof {
            assert(v@ =~= pre.insert(p as int, entry));
            let dv = v.deep_view();
            assert(dv =~= s.insert(p as int, ev));
            assert(entries_sorted(dv)) by {
                assert(forall|i: int| 0 <= i < p ==> (#[trigger] dv[i]) == s[i]);
                assert(dv[p as int] == ev);
                assert(forall|i: int| p < i < dv.len() ==> (#[trigger] dv[i]) == s[i - 1]);
                if p < s.len() {
                    strutil::lemma_seq_char_le_total(ev.name, s[p as int].name);
                    assert(strutil::seq_char_le(ev.name, s[p as int].name));
                    assert(strutil::seq_char_lt(ev.name, s[p as int].name));
                }
                assert forall|i: int| 0 <= i < dv.len() - 1 implies strutil::seq_char_lt(
                    (#[trigger] dv[i]).name,
                    dv[i + 1].name,
                ) by {
                    if i + 1 < p {
                        assert(strutil::seq_char_lt(s[i].name, s[i + 1].name));
                    } else if i + 1 == p {
                        assert(strutil::seq_char_lt(s[i].name, ev.name));
                    } else if i == p {
                        assert(dv[i + 1] == s[p as int]);
                    } else {
                        assert(strutil::seq_char_lt(s[i - 1].name, s[i].name));
                    }
                };
            }
        }
        self.entries = v;
    }

    /// Looks a command up by name.
    pub fn find_command(&self, name: &str) -> (r: Option<&CommandEntry>)
        ensures
            match r {
                Some(e) => spec_find(self@, name@) == Some(e@),
                None => spec_find(self@, name@) is None,
            },
    {
        let ghost s = self@;
        let mut i: usize = 0;
        proof {
            assert(s.skip(0) =~= s);
        }
        while i < self.entries.len()
            invariant
                0 <= i <= self.entries@.len(),
                s == self.entries.deep_view(),
                s.len() == self.entries@.len(),
                spec_find(s, name@) == spec_find(s.skip(i as int), name@),
            decreases self.entries@.len() - i,
        {
            proof {
                assert(s.skip(i as int)[0] == s[i as int]);
                assert(s.skip(i as int).drop_first() =~= s.skip(i + 1));
                assert(s[i as int] == self.entries@[i as int]@);
            }
            if strutil::str_eq(self.entries[i].name.as_str(), name) {
                return Some(&self.entries[i]);
            }
            i += 1;
        }
        proof {
            assert(s.skip(s.len() as int).len() == 0);
        }
        None
    }

    /// How many commands are registered.
    pub fn len(&self) -> (r: usize)
        ensures
            r == self@.len(),
    {
        proof {
            assert(self@.len() == self.entries@.len());
        }
        self.entries.len()
    }

    /// The command names, in strictly increasing lexicographic order.
    pub fn names(&self) -> (r: Vec<String>)
        ensures
            r.deep_view() == spec_names(self@),
            forall|i: int|
                0 <= i < r.deep_view().len() - 1 ==> strutil::seq_char_lt(
                    #[trigger] r.deep_view()[i],
                    r.deep_view()[i + 1],
                ),
    {
        proof {
            use_type_invariant(&*self);
        }
        let ghost s = self@;
        let mut out: Vec<String> = Vec::new();
        let mut i: usize = 0;
        proof {
            assert(out.deep_view() =~= spec_names(s).take(0));
        }
        while i < self.entries.len()
            invariant
                0 <= i <= self.entries@.len(),
                s == self.entries.deep_view(),
                s.len() == self.entries@.len(),
                out.deep_view() == spec_names(s).take(i as int),
            decreases self.entries@.len() - i,
        {
            let ghost old_dv = out.deep_view();
            out.push(self.entries[i].name.clone());
            proof {
                assert(s[i as int] == self.entries@[i as int]@);
                assert(spec_names(s)[i as int] == s[i as int].name);
                assert(out.deep_view() =~= old_dv.push(spec_names(s)[i as int]));
                assert(old_dv.push(spec_names(s)[i as int]) =~= spec_names(s).take(i + 1));
            }
            i += 1;
        }
        proof {
            assert(spec_names(s).take(spec_names(s).len() as int) =~= spec_names(s));
        }
        out
    }
}

} // verus!

verus! {

use vstd::string::StrSliceExecFns;

/// `s` padded on the right with spaces to at least width `w`.
pub open spec fn pad_right(s: Seq<char>, w: int) -> Seq<char> {
    if s.len() >= w {
        s
    } else {
        s + Seq::new((w - s.len()) as nat, |i: int| ' ')
    }
}

fn pad_right_exec(s: &str, w: usize) -> (r: String)
    ensures
        r@ == pad_right(s@, w as int),
{
    let sl = s.unicode_len();
    if sl >= w {
        s.to_owned()
    } else {
        let mut out = s.to_owned();
        let pad = strutil::spaces(w - sl);
        out.append(pad.as_str());
        proof {
            assert(pad@ =~= Seq::new((w - s@.len()) as nat, |i: int| ' '));
        }
        out
    }
}

/// The indentation for a nesting level: four spaces plus five per level.
pub open spec fn spec_indent(level: int) -> Seq<char> {
    Seq::new((4 + 5 * level) as nat, |i: int| ' ')
}

/// The name column's width at a nesting level.
pub open spec fn spec_width(level: int) -> int {
    if 28 - 5 * level >= 0 {
        28 - 5 * level
    } else {
        0
    }
}

/// The indented per-option lines of one entry: empty descriptors are left
/// out, the rest are set off by a six-space column.
pub open spec fn spec_opt_lines(help: Seq<Seq<char>>, indent: Seq<char>) -> Seq<Seq<char>>
    decreases help.len(),
{
    if help.len() == 0 {
        Seq::empty()
    } else {
        (if help[0].len() > 0 {
            seq![indent + pad_right(Seq::empty(), 6) + " "@ + help[0]]
        } else {
            Seq::empty()
        }) + spec_opt_lines(help.drop_first(), indent)
    }
}

/// The listing of a registry at a nesting level: one line per command with
/// the name padded into a column and the description beside it, and, when
/// asked, the per-option descriptors under each command.
pub open spec fn spec_list_lines(s: Seq<EntryV>, level: int, include_args: bool) -> Seq<Seq<char>>
    decreases s.len(),
{
    if s.len() == 0 {
        Seq::empty()
    } else {
        seq![spec_indent(level) + pad_right(s[0].name, spec_width(level)) + " "@
            + s[0].description] + (if include_args {
            spec_opt_lines(s[0].help, spec_indent(level))
        } else {
            Seq::empty()
        }) + spec_list_lines(s.drop_first(), level, include_args)
    }
}

/// The detailed help lines of one command: its name (with an options
/// marker when it takes any), its long description when it has one (its
/// short one otherwise), and its option descriptors.
pub open spec fn spec_entry_help_lines(e: EntryV) -> Seq<Seq<char>> {
    let name_line = "    "@ + e.name + " "@ + (if e.help.len() > 0 {
        "[OPTIONS]"@
    } else {
        ""@
    });
    let desc = match e.long_description {
        Some(d) => d,
        None => e.description,
    };
    seq![""@, "Name:"@, name_line, ""@, "Description:"@, "    "@ + desc, ""@] + (if e.help.len()
        > 0 {
        seq!["Options:"@] + e.help.map_values(|h: Seq<char>| "    "@ + h)
    } else {
        Seq::empty()
    })
}

impl CommandEntry {
    /// Renders the command's detailed help, one output line per element.
    pub fn help_lines(&self) -> (r: Vec<String>)
        ensures
            r.deep_view() == spec_entry_help_lines(self@),
    {
        let mut out: Vec<String> = Vec::new();
        out.push("".to_owned());
        out.push("Name:".to_owned());
        let mut name_line = "    ".to_owned();
        name_line.append(self.name.as_str());
        name_line.append(" ");
        if self.help.len() > 0 {
            name_line.append("[OPTIONS]");
        } else {
            name_line.append("");
        }
        proof {
            assert(self.help.deep_view().len() == self.help@.len());
        }
        out.push(name_line);
        out.push("".to_owned());
        out.push("Description:".to_owned());
        let mut desc_line = "    ".to_owned();
        match &self.long_description {
            Some(d) => desc_line.append(d.as_str()),
            None => desc_line.append(self.description.as_str()),
        }
        out.push(desc_line);
        out.push("".to_owned());
        let ghost head = spec_entry_help_lines(self@).take(7);
        proof {
            assert(out.deep_view() =~= head);
        }
        if self.help.len() > 0 {
            out.push("Options:".to_owned());
            let ghost opts = self.help.deep_view().map_values(|h: Seq<char>| "    "@ + h);
            let mut i: usize = 0;
            proof {
                assert(out.deep_view() =~= head.push("Options:"@));
                assert(out.deep_view() =~= spec_entry_help_lines(self@).take(8));
                assert(opts.len() == self.help@.len());
            }
            while i < self.help.len()
                invariant
                    0 <= i <= self.help@.len(),
                    opts == self.help.deep_view().map_values(|h: Seq<char>| "    "@ + h),
                    opts.len() == self.help@.len(),
                    out.deep_view() == spec_entry_help_lines(self@).take(8 + i),
                    spec_entry_help_lines(self@).len() == 8 + self.help@.len(),
                    spec_entry_help_lines(self@).skip(8) == opts,
                decreases self.help@.len() - i,
            {
                let mut line = "    ".to_owned();
                line.append(self.help[i].as_str());
                let ghost old_dv = out.deep_view();
                out.push(line);
                proof {
                    assert(self.help.deep_view()[i as int] == self.help@[i as int]@);
                    assert(opts[i as int] == "    "@ + self.help@[i as int]@);
                    assert(spec_entry_help_lines(self@)[8 + i] == opts[i as int]);
                    assert(out.deep_view() =~= old_dv.push(opts[i as int]));
                    assert(out.deep_view() =~= spec_entry_help_lines(self@).take(8 + i + 1));
                }
                i += 1;
            }
            proof {
                assert(spec_entry_help_lines(self@).take(spec_entry_help_lines(self@).len() as int)
                    =~= spec_entry_help_lines(self@));
            }
        } else {
            proof {
                assert(spec_entry_help_lines(self@).take(7) =~= spec_entry_help_lines(self@));
            }
        }
        out
    }
}

impl CommandList {
    /// Renders the registry's listing at a nesting level; with
    /// `include_args` each command's option descriptors follow its line.
    /// The level must leave its indentation width representable.
    pub fn help_lines(&self, level: usize, include_args: bool) -> (r: Vec<String>)
        requires
            5 * (level as int) + 4 <= usize::MAX,
        ensures
            r.deep_view() == spec_list_lines(self@, level as int, include_args),
    {
        let ghost s = self@;
        let indent = strutil::spaces(4 + 5 * level);
        proof {
            assert(indent@ =~= spec_indent(level as int));
        }
        let width: usize = if 5 * level <= 28 {
            28 - 5 * level
        } else {
            0
        };
        let mut out: Vec<String> = Vec::new();
        let mut i: usize = 0;
        proof {
            assert(s.skip(0) =~= s);
            assert(out.deep_view() =~= Seq::<Seq<char>>::empty());
        }
        while i < self.len()
            invariant
                0 <= i <= s.len(),
                s == self@,
                indent@ == spec_indent(level as int),
                width as int == spec_width(level as int),
                spec_list_lines(s, level as int, include_args) == out.deep_view()
                    + spec_list_lines(s.skip(i as int), level as int, include_args),
            decreases s.len() - i,
        {
            let e = self.entry_at(i);
            let ghost tail = s.skip(i as int);
            proof {
                assert(tail[0] == s[i as int]);
                assert(tail.drop_first() =~= s.skip(i + 1));
            }
            let mut line = indent.clone();
            let padded = pad_right_exec(e.name.as_str(), width);
            line.append(padded.as_str());
            line.append(" ");
            line.append(e.description.as_str());
            let ghost old_dv = out.deep_view();
            out.push(line);
            proof {
                assert(out.deep_view() =~= old_dv.push(
                    spec_indent(level as int) + pad_right(s[i as int].name, spec_width(level as int))
                        + " "@ + s[i as int].description,
                ));
            }
            if include_args {
                let ghost opt_spec = spec_opt_lines(s[i as int].help, spec_indent(level as int));
                let ghost base = out.deep_view();
                let mut j: usize = 0;
                proof {
                    assert(s[i as int].help.skip(0) =~= s[i as int].help);
                    assert(base + spec_opt_lines(s[i as int].help.skip(0), spec_indent(level as int))
                        =~= base + opt_spec);
                }
                while j < e.help.len()
                    invariant
                        0 <= j <= e.help@.len(),
                        e == self.entry_at_spec(i as int),
                        s == self@,
                        0 <= i < s.len(),
                        e@ == s[i as int],
                        indent@ == spec_indent(level as int),
                        e.help.deep_view().len() == e.help@.len(),
                        base + opt_spec == out.deep_view() + spec_opt_lines(
                            s[i as int].help.skip(j as int),
                            spec_indent(level as int),
                        ),
                    decreases e.help@.len() - j,
                {
                    let ghost htail = s[i as int].help.skip(j as int);
                    proof {
                        assert(e.help.deep_view()[j as int] == e.help@[j as int]@);
                        assert(htail[0] == s[i as int].help[j as int]);
                        assert(htail.drop_first() =~= s[i as int].help.skip(j + 1));
                    }
                    if e.help[j].unicode_len() > 0 {
                        let mut line2 = indent.clone();
                        let pad6 = pad_right_exec("", 6);
                        line2.append(pad6.as_str());
                        line2.append(" ");
                        line2.append(e.help[j].as_str());
                        let ghost old_dv2 = out.deep_view();
                        out.push(line2);
                        proof {
                            reveal_strlit("");
                            assert(""@ =~= Seq::<char>::empty());
                            assert(out.deep_view() =~= old_dv2.push(
                                spec_indent(level as int) + pad_right(Seq::empty(), 6) + " "@
                                    + s[i as int].help[j as int],
                            ));
                            assert(old_dv2 + (seq![spec_indent(level as int) + pad_right(
                                Seq::empty(),
                                6,
                            ) + " "@ + s[i as int].help[j as int]] + spec_opt_lines(
                                htail.drop_first(),
                                spec_indent(level as int),
                            )) =~= out.deep_view() + spec_opt_lines(
                                htail.drop_first(),
                                spec_indent(level as int),
                            ));
                        }
                    }
                    j += 1;
                }
                proof {
                    assert(s[i as int].help.skip(s[i as int].help.len() as int).len() == 0);
                    assert(out.deep_view() + Seq::<Seq<char>>::empty() =~= out.deep_view());
                }
            }
            proof {
                assert((old_dv + seq![spec_indent(level as int) + pad_right(
                    s[i as int].name,
                    spec_width(level as int),
                ) + " "@ + s[i as int].description]) + (if include_args {
                    spec_opt_lines(s[i as int].help, spec_indent(level as int))
                } else {
                    Seq::<Seq<char>>::empty()
                }) =~= out.deep_view());
            }
            i += 1;
        }
        proof {
            assert(s.skip(s.len() as int).len() == 0);
        }
        out
    }

    /// The entry at a position, in sorted order.
    pub fn entry_at(&self, i: usize) -> (r: &CommandEntry)
        requires
            i < self@.len(),
        ensures
            r@ == self@[i as int],
            r == self.entry_at_spec(i as int),
    {
        proof {
            assert(self@.len() == self.entries@.len());
            assert(self@[i as int] == self.entries@[i as int]@);
        }
        &self.entries[i]
    }

    /// The stored entry at a position.
    pub closed spec fn entry_at_spec(&self, i: int) -> CommandEntry {
        self.entries@[i]
    }
}

} // verus!

verus! {

/// Registering an entry makes it the one found under its name, and leaves
/// every other name's lookup unchanged.
pub proof fn lemma_add_then_find(s: Seq<EntryV>, e: EntryV, n: Seq<char>)
    ensures
        spec_find(spec_add(s, e), e.name) == Some(e),
        n != e.name ==> spec_find(spec_add(s, e), n) == spec_find(s, n),
    decreases s.len(),
{
    if s.len() == 0 {
        let t = seq![e];
        assert(spec_add(s, e) == t);
        assert(t[0] == e);
        assert(t.drop_first() =~= Seq::<EntryV>::empty());
        if n != e.name {
            assert(spec_find(t, n) == spec_find(t.drop_first(), n));
            assert(spec_find(t.drop_first(), n) is None);
            assert(spec_find(s, n) is None);
        }
    } else if strutil::seq_char_lt(e.name, s[0].name) {
        let t = seq![e] + s;
        assert(t[0] == e);
        assert(t.drop_first() =~= s);
        if n != e.name {
            assert(spec_find(t, n) == spec_find(s, n));
        }
    } else if e.name == s[0].name {
        let t = seq![e] + s.drop_first();
        assert(t[0] == e);
        assert(t.drop_first() =~= s.drop_first());
        if n != e.name {
            assert(spec_find(s, n) == spec_find(s.drop_first(), n));
        }
    } else {
        lemma_add_then_find(s.drop_first(), e, n);
        let t = seq![s[0]] + spec_add(s.drop_first(), e);
        assert(t[0] == s[0]);
        assert(t.drop_first() =~= spec_add(s.drop_first(), e));
        assert(s[0].name != e.name);
        assert(spec_find(t, e.name) == spec_find(spec_add(s.drop_first(), e), e.name));
        if n != e.name {
            if s[0].name == n {
                assert(spec_find(t, n) == Some(s[0]));
                assert(spec_find(s, n) == Some(s[0]));
            } else {
                assert(spec_find(t, n) == spec_find(spec_add(s.drop_first(), e), n));
                assert(spec_find(s, n) == spec_find(s.drop_first(), n));
            }
        }
    }
}

} // verus!
