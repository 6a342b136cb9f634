//! Shells and namespaces: builders over command registries, and the
//! dispatcher that turns one word list into the action to perform.
//!
//! The core computes decisions only; the embedding program performs them:
//! it keeps the invocation bodies under the handles the entries carry,
//! clones the ambient context value for each invocation, and prints the
//! rendered help.

use crate::command_list::spec_find;
use crate::command_list::spec_join_names;
use crate::command_list::spec_list_lines;
use crate::command_list::CommandEntry;
use crate::command_list::CommandList;
use crate::command_list::EntryV;
use crate::error::ShellError;
use crate::strutil;
use vstd::prelude::*;

verus! {

use vstd::string::StringExecFns;

/// The mathematical value of an [`Action`].
pub enum ActionV {
    Help { include_args: bool },
    HelpCommand { name: Seq<char> },
    HelpNamespace { name: Seq<char>, include_args: bool },
    Invoke { namespace: Option<Seq<char>>, handler: u64, argv: Seq<Seq<char>> },
}

/// What the dispatcher decided for one word list: render the whole help,
/// render one command's or namespace's help, or invoke a handler — from the
/// root registry or from a named namespace — on the given words.
#[derive(Debug, Clone, PartialEq, Eq)]
pub enum Action {
    Help { include_args: bool },
    HelpCommand { name: String },
    HelpNamespace { name: String, include_args: bool },
    Invoke { namespace: Option<String>, handler: u64, argv: Vec<String> },
}

impl View for Action {
    type V = ActionV;

    open spec fn view(&self) -> ActionV {
        match self {
            Action::Help { include_args } => ActionV::Help { include_args: *include_args },
            Action::HelpCommand { name } => ActionV::HelpCommand { name: name@ },
            Action::HelpNamespace { name, include_args } => ActionV::HelpNamespace {
                name: name@,
                include_args: *include_args,
            },
            Action::Invoke { namespace, handler, argv } => ActionV::Invoke {
                namespace: namespace.deep_view(),
                handler: *handler,
                argv: argv.deep_view(),
            },
        }
    }
}

/// The mathematical value of a dispatch failure.
pub enum ErrV {
    MissingSubcommand(Seq<char>),
    NoSuchSubcommand,
    CommandNotFound(Seq<char>),
}

/// The exec-level error carries the same information as its value.
pub open spec fn err_corresponds(e: &ShellError, ev: ErrV) -> bool {
    match ev {
        ErrV::MissingSubcommand(s) => e matches ShellError::MissingSubcommand(x) && x@ == s,
        ErrV::NoSuchSubcommand => e is NoSuchSubcommand,
        ErrV::CommandNotFound(s) => e matches ShellError::CommandNotFound(x) && x@ == s,
    }
}

/// Whether some word is the `--args` toggle.
pub open spec fn spec_has_args_flag(argv: Seq<Seq<char>>) -> bool {
    exists|i: int| 0 <= i < argv.len() && argv[i] == "--args"@
}

/// The first word, from position `i` on, that is neither `help` nor the
/// `--args` toggle: the subject of a help request.
pub open spec fn spec_help_target(argv: Seq<Seq<char>>, i: int) -> Option<Seq<char>>
    decreases argv.len() - i,
{
    if i < 0 || i >= argv.len() {
        None
    } else if argv[i] != "--args"@ && argv[i] != "help"@ {
        Some(argv[i])
    } else {
        spec_help_target(argv, i + 1)
    }
}

/// The first namespace with the given name.
pub open spec fn spec_ns_find(
    nss: Seq<(Seq<char>, Seq<EntryV>)>,
    n: Seq<char>,
) -> Option<Seq<EntryV>>
    decreases nss.len(),
{
    if nss.len() == 0 {
        None
    } else if nss[0].0 == n {
        Some(nss[0].1)
    } else {
        spec_ns_find(nss.drop_first(), n)
    }
}

/// The namespaces with `name` bound to `commands`: the first namespace
/// with that name is replaced in place, or a new one is appended.
pub open spec fn spec_ns_insert(
    nss: Seq<(Seq<char>, Seq<EntryV>)>,
    name: Seq<char>,
    commands: Seq<EntryV>,
) -> Seq<(Seq<char>, Seq<EntryV>)>
    decreases nss.len(),
{
    if nss.len() == 0 {
        seq![(name, commands)]
    } else if nss[0].0 == name {
        seq![(name, commands)] + nss.drop_first()
    } else {
        seq![nss[0]] + spec_ns_insert(nss.drop_first(), name, commands)
    }
}

/// The dispatch decision for one word list.  `help` alone lists
/// everything; `help` with a subject renders that command's or namespace's
/// help, or fails when nothing has that name.  Otherwise the first word
/// selects a root command, checked before the namespaces; a namespace
/// forwards the remaining words, whose first names the subcommand.  An
/// unknown first word degrades to the full help listing, not a failure.
pub open spec fn spec_exec(
    root: Seq<EntryV>,
    nss: Seq<(Seq<char>, Seq<EntryV>)>,
    argv: Seq<Seq<char>>,
) -> Result<ActionV, ErrV>
    recommends
        argv.len() >= 1,
{
    if argv[0] == "help"@ {
        let include_args = spec_has_args_flag(argv);
        match spec_help_target(argv, 0) {
            None => Ok(ActionV::Help { include_args }),
            Some(t) => if spec_find(root, t) is Some {
                Ok(ActionV::HelpCommand { name: t })
            } else if spec_ns_find(nss, t) is Some {
                Ok(ActionV::HelpNamespace { name: t, include_args })
            } else {
                Err(ErrV::CommandNotFound(t))
            },
        }
    } else {
        match spec_find(root, argv[0]) {
            Some(e) => Ok(ActionV::Invoke { namespace: None, handler: e.handler, argv }),
            None => match spec_ns_find(nss, argv[0]) {
                Some(cl) => if argv.len() < 2 {
                    Err(ErrV::MissingSubcommand(spec_join_names(cl)))
                } else {
                    match spec_find(cl, argv[1]) {
                        Some(e) => Ok(
                            ActionV::Invoke {
                                namespace: Some(argv[0]),
                                handler: e.handler,
                                argv: argv.drop_first(),
                            },
                        ),
                        None => Err(ErrV::NoSuchSubcommand),
                    }
                },
                None => Ok(ActionV::Help { include_args: spec_has_args_flag(argv) }),
            },
        }
    }
}

/// A registry together with the ambient context value handed (by clone) to
/// each of its commands.
pub struct Scripts<Info> {
    pub info: Info,
    pub commands: CommandList,
}

/// The outcome of planning one command line against a registry: the
/// handler to invoke and the word list to hand it.
#[derive(Debug, Clone, PartialEq, Eq)]
pub struct Invocation {
    pub handler: u64,
    pub argv: Vec<String>,
}

/// What planning a command line means: the line splits at single spaces,
/// its first word selects the command, and the whole word list is handed
/// to the handler.
pub open spec fn spec_run_command(root: Seq<EntryV>, line: Seq<char>) -> Result<
    (u64, Seq<Seq<char>>),
    ErrV,
> {
    let argv = strutil::spec_split_char(line, ' ');
    match spec_find(root, argv[0]) {
        Some(e) => Ok((e.handler, argv)),
        None => Err(ErrV::NoSuchSubcommand),
    }
}

impl<Info> Scripts<Info> {
    /// A registry with no commands, around the given context value.
    pub fn new(info: Info) -> (r: Self)
        ensures
            r.commands@.len() == 0,
    {
        Scripts { info, commands: CommandList::new() }
    }

    /// Registers a command, replacing one of the same name.
    pub fn add_command(self, entry: CommandEntry) -> (r: Self)
        ensures
            r.commands@ == crate::command_list::spec_add(self.commands@, entry@),
    {
        let mut commands = self.commands;
        commands.add_command(entry);
        Scripts { info: self.info, commands }
    }

    /// Wraps the registry as the root of a shell.
    pub fn to_shell(self) -> (r: Shell<Info>)
        ensures
            r.root_view() == self.commands@,
            r.namespaces_view().len() == 0,
    {
        Shell::new_with_root_scripts(self)
    }

    /// Plans one command line: the handler of the command its first word
    /// names, with the split words, or the no-such-subcommand failure.
    pub fn run_command(&self, command: &str) -> (r: Result<Invocation, ShellError>)
        ensures
            match r {
                Ok(inv) => spec_run_command(self.commands@, command@) == Ok::<_, ErrV>(
                    (inv.handler as u64, inv.argv.deep_view()),
                ),
                Err(e) => spec_run_command(self.commands@, command@) matches Err(ev)
                    && err_corresponds(&e, ev),
            },
    {
        let argv = strutil::split_char(command, ' ');
        proof {
            assert(argv.deep_view().len() == argv@.len());
            assert(argv.deep_view()[0] == argv@[0]@);
        }
        match self.commands.find_command(argv[0].as_str()) {
            Some(e) => {
                let handler = e.handler;
                Ok(Invocation { handler, argv })
            },
            None => Err(ShellError::NoSuchSubcommand),
        }
    }
}

/// A shell: a root registry and the named subcommand namespaces, each a
/// registry of its own (whose context value the embedding program keeps).
pub struct Shell<Info> {
    pub root_scripts: Scripts<Info>,
    namespaces: Vec<(String, CommandList)>,
}

impl<Info> Shell<Info> {
    /// The namespaces as name-to-entries pairs, in registration order.
    pub closed spec fn namespaces_view(&self) -> Seq<(Seq<char>, Seq<EntryV>)> {
        self.namespaces@.map_values(|p: (String, CommandList)| (p.0@, p.1@))
    }

    /// The root registry's entries.
    pub closed spec fn root_view(&self) -> Seq<EntryV> {
        self.root_scripts.commands@
    }

    /// A shell with no commands and no namespaces.
    pub fn new(info: Info) -> (r: Self)
        ensures
            r.root_view().len() == 0,
            r.namespaces_view().len() == 0,
    {
        let r = Shell { root_scripts: Scripts::new(info), namespaces: Vec::new() };
        proof {
            assert(r.namespaces_view() =~= Seq::<(Seq<char>, Seq<EntryV>)>::empty());
        }
        r
    }

    /// A shell whose root registry is the given one.
    pub fn new_with_root_scripts(root_scripts: Scripts<Info>) -> (r: Self)
        ensures
            r.root_view() == root_scripts.commands@,
            r.namespaces_view().len() == 0,
    {
        let r = Shell { root_scripts, namespaces: Vec::new() };
        proof {
            assert(r.namespaces_view() =~= Seq::<(Seq<char>, Seq<EntryV>)>::empty());
        }
        r
    }

    /// Registers a root command, replacing one of the same name.
    pub fn add_command(self, entry: CommandEntry) -> (r: Self)
        ensures
            r.root_view() == crate::command_list::spec_add(self.root_view(), entry@),
            r.namespaces_view() == self.namespaces_view(),
    {
        let root_scripts = self.root_scripts.add_command(entry);
        Shell { root_scripts, namespaces: self.namespaces }
    }

    /// Registers a subcommand namespace under a fixed leading word,
    /// replacing one of the same name.
    pub fn add_subcommand(self, namespace: &str, commands: CommandList) -> (r: Self)
        ensures
            r.root_view() == self.root_view(),
            r.namespaces_view() == spec_ns_insert(self.namespaces_view(), namespace@, commands@),
    {
        let ghost nv = self.namespaces_view();
        let ghost cv = commands@;
        let mut nss = self.namespaces;
        let name = namespace.to_owned();
        let mut i: usize = 0;
        let mut idx: Option<usize> = None;
        proof {
            assert(nv == nss@.map_values(|p: (String, CommandList)| (p.0@, p.1@)));
        }
        while i < nss.len()
            invariant_except_break
                idx is None,
            invariant
                0 <= i <= nss@.len(),
                nv == nss@.map_values(|p: (String, CommandList)| (p.0@, p.1@)),
                nv.len() == nss@.len(),
                forall|j: int| 0 <= j < i ==> (#[trigger] nv[j]).0 != namespace@,
            ensures
                nv == nss@.map_values(|p: (String, CommandList)| (p.0@, p.1@)),
                nv.len() == nss@.len(),
                match idx {
                    Some(k) => 0 <= k < nv.len() && nv[k as int].0 == namespace@ && forall|j: int|
                        0 <= j < k ==> (#[trigger] nv[j]).0 != namespace@,
                    None => forall|j: int| 0 <= j < nv.len() ==> (#[trigger] nv[j]).0 != namespace@,
                },
            decreases nss@.len() - i,
        {
            proof {
                assert(nv[i as int] == (nss@[i as int].0@, nss@[i as int].1@));
            }
            if strutil::str_eq(nss[i].0.as_str(), namespace) {
                idx = Some(i);
                break ;
            }
            i += 1;
        }
        match idx {
            Some(k) => {
                let ghost pre = nss@;
                nss.remove(k);
                nss.insert(k, (name, commands));
                proof {
                    assert(nss@ =~= pre.update(k as int, (name, commands)));
                    lemma_ns_insert_at(nv, namespace@, cv, k as int);
                    assert(nss@.map_values(|p: (String, CommandList)| (p.0@, p.1@)) =~= nv.update(
                        k as int,
                        (namespace@, cv),
                    ));
                }
            },
            None => {
                nss.push((name, commands));
                proof {
                    lemma_ns_insert_absent(nv, namespace@, cv);
                    assert(nss@.map_values(|p: (String, CommandList)| (p.0@, p.1@)) =~= nv.push(
                        (namespace@, cv),
                    ));
                }
            },
        }
        Shell { root_scripts: self.root_scripts, namespaces: nss }
    }
}

proof fn lemma_ns_insert_absent(
    nss: Seq<(Seq<char>, Seq<EntryV>)>,
    name: Seq<char>,
    commands: Seq<EntryV>,
)
    requires
        forall|i: int| 0 <= i < nss.len() ==> (#[trigger] nss[i]).0 != name,
    ensures
        spec_ns_insert(nss, name, commands) == nss.push((name, commands)),
    decreases nss.len(),
{
    if nss.len() == 0 {
        assert(spec_ns_insert(nss, name, commands) =~= nss.push((name, commands)));
    } else {
        assert(forall|i: int|
            0 <= i < nss.drop_first().len() ==> (#[trigger] nss.drop_first()[i]).0 != name);
        lemma_ns_insert_absent(nss.drop_first(), name, commands);
        assert(spec_ns_insert(nss, name, commands) =~= nss.push((name, commands)));
    }
}

proof fn lemma_ns_insert_at(
    nss: Seq<(Seq<char>, Seq<EntryV>)>,
    name: Seq<char>,
    commands: Seq<EntryV>,
    i: int,
)
    requires
        0 <= i < nss.len(),
        nss[i].0 == name,
        forall|j: int| 0 <= j < i ==> (#[trigger] nss[j]).0 != name,
    ensures
        spec_ns_insert(nss, name, commands) == nss.update(i, (name, commands)),
    decreases i,
{
    if i == 0 {
        assert(spec_ns_insert(nss, name, commands) =~= nss.update(0, (name, commands)));
    } else {
        assert(nss.drop_first()[i - 1].0 == name);
        assert(forall|j: int| 0 <= j < i - 1 ==> (#[trigger] nss.drop_first()[j]).0 != name);
        lemma_ns_insert_at(nss.drop_first(), name, commands, i - 1);
        assert(spec_ns_insert(nss, name, commands) =~= nss.update(i, (name, commands)));
    }
}

} // verus!

verus! {

use vstd::string::StrSliceExecFns as _;

/// Clones the words from position `from` on.
fn clone_argv(argv: &Vec<String>, from: usize) -> (r: Vec<String>)
    requires
        from <= argv@.len(),
    ensures
        r.deep_view() == argv.deep_view().skip(from as int),
{
    let ghost dv = argv.deep_view();
    let mut out: Vec<String> = Vec::new();
    let mut j = from;
    proof {
        assert(out.deep_view() =~= dv.skip(from as int).take(0));
    }
    while j < argv.len()
        invariant
            from <= j <= argv@.len(),
            dv == argv.deep_view(),
            dv.len() == argv@.len(),
            out.deep_view() == dv.skip(from as int).take(j - from),
        decreases argv@.len() - j,
    {
        let ghost old_dv = out.deep_view();
        out.push(argv[j].clone());
        proof {
            assert(dv[j as int] == argv@[j as int]@);
            assert(dv.skip(from as int)[j - from] == dv[j as int]);
            assert(out.deep_view() =~= old_dv.push(dv.skip(from as int)[j - from]));
            assert(old_dv.push(dv.skip(from as int)[j - from]) =~= dv.skip(from as int).take(
                j - from + 1,
            ));
        }
        j += 1;
    }
    proof {
        assert(dv.skip(from as int).take(dv.len() - from) =~= dv.skip(from as int));
    }
    out
}

/// Whether some word is the `--args` toggle.
fn has_args_flag(argv: &Vec<String>) -> (r: bool)
    ensures
        r == spec_has_args_flag(argv.deep_view()),
{
    let ghost dv = argv.deep_view();
    let mut i: usize = 0;
    while i < argv.len()
        invariant
            0 <= i <= argv@.len(),
            dv == argv.deep_view(),
            dv.len() == argv@.len(),
            forall|j: int| 0 <= j < i ==> dv[j] != "--args"@,
        decreases argv@.len() - i,
    {
        proof {
            assert(dv[i as int] == argv@[i as int]@);
        }
        if strutil::str_eq(argv[i].as_str(), "--args") {
            return true;
        }
        i += 1;
    }
    false
}

/// The subject of a help request, if one was named.
fn help_target(argv: &Vec<String>) -> (r: Option<String>)
    ensures
        match r {
            Some(t) => spec_help_target(argv.deep_view(), 0) == Some(t@),
            None => spec_help_target(argv.deep_view(), 0) is None,
        },
{
    let ghost dv = argv.deep_view();
    let mut i: usize = 0;
    while i < argv.len()
        invariant
            0 <= i <= argv@.len(),
            dv == argv.deep_view(),
            dv.len() == argv@.len(),
            spec_help_target(dv, 0) == spec_help_target(dv, i as int),
        decreases argv@.len() - i,
    {
        proof {
            assert(dv[i as int] == argv@[i as int]@);
        }
        if !strutil::str_eq(argv[i].as_str(), "--args") && !strutil::str_eq(
            argv[i].as_str(),
            "help",
        ) {
            return Some(argv[i].clone());
        }
        i += 1;
    }
    None
}

impl<Info> Shell<Info> {
    /// Looks a namespace up by name.
    pub fn find_namespace(&self, name: &str) -> (r: Option<&CommandList>)
        ensures
            match r {
                Some(cl) => spec_ns_find(self.namespaces_view(), name@) == Some(cl@),
                None => spec_ns_find(self.namespaces_view(), name@) is None,
            },
    {
        let ghost nv = self.namespaces_view();
        let mut i: usize = 0;
        proof {
            assert(nv.skip(0) =~= nv);
            assert(nv.len() == self.namespaces@.len());
        }
        while i < self.namespaces.len()
            invariant
                0 <= i <= self.namespaces@.len(),
                nv == self.namespaces_view(),
                nv.len() == self.namespaces@.len(),
                spec_ns_find(nv, name@) == spec_ns_find(nv.skip(i as int), name@),
            decreases self.namespaces@.len() - i,
        {
            proof {
                assert(nv[i as int] == (self.namespaces@[i as int].0@, self.namespaces@[i as int].1@));
                assert(nv.skip(i as int)[0] == nv[i as int]);
                assert(nv.skip(i as int).drop_first() =~= nv.skip(i + 1));
            }
            if strutil::str_eq(self.namespaces[i].0.as_str(), name) {
                return Some(&self.namespaces[i].1);
            }
            i += 1;
        }
        proof {
            assert(nv.skip(nv.len() as int).len() == 0);
        }
        None
    }

    /// Decides what one word list asks for, without performing it: the
    /// decision follows [`spec_exec`], and each failure carries its
    /// rendered payload (a missing subcommand names the namespace's
    /// commands, sorted and comma-separated).
    pub fn exec(&self, argv: &Vec<String>) -> (r: Result<Action, ShellError>)
        requires
            argv@.len() >= 1,
        ensures
            match r {
                Ok(a) => spec_exec(self.root_view(), self.namespaces_view(), argv.deep_view())
                    == Ok::<_, ErrV>(a@),
                Err(e) => spec_exec(self.root_view(), self.namespaces_view(), argv.deep_view())
                    matches Err(ev) && err_corresponds(&e, ev),
            },
    {
        let ghost dv = argv.deep_view();
        proof {
            assert(dv.len() == argv@.len());
            assert(dv[0] == argv@[0]@);
        }
        if strutil::str_eq(argv[0].as_str(), "help") {
            let include_args = has_args_flag(argv);
            match help_target(argv) {
                None => Ok(Action::Help { include_args }),
                Some(t) => {
                    match self.root_scripts.commands.find_command(t.as_str()) {
                        Some(_) => Ok(Action::HelpCommand { name: t }),
                        None => {
                            match self.find_namespace(t.as_str()) {
                                Some(_) => Ok(Action::HelpNamespace { name: t, include_args }),
                                None => Err(ShellError::CommandNotFound(t)),
                            }
                        },
                    }
                },
            }
        } else {
            match self.root_scripts.commands.find_command(argv[0].as_str()) {
                Some(e) => {
                    let handler = e.handler;
                    let full = clone_argv(argv, 0);
                    proof {
                        assert(dv.skip(0) =~= dv);
                    }
                    Ok(Action::Invoke { namespace: None, handler, argv: full })
                },
                None => {
                    match self.find_namespace(argv[0].as_str()) {
                        Some(cl) => {
                            if argv.len() < 2 {
                                let names = cl.names();
                                Err(ShellError::MissingSubcommand(strutil::join(&names, ", ")))
                            } else {
                                match cl.find_command(argv[1].as_str()) {
                                    Some(e) => {
                                        let handler = e.handler;
                                        let rest = clone_argv(argv, 1);
                                        proof {
                                            assert(dv.skip(1) =~= dv.drop_first());
                                            assert(dv[1] == argv@[1]@);
                                        }
                                        Ok(
                                            Action::Invoke {
                                                namespace: Some(argv[0].clone()),
                                                handler,
                                                argv: rest,
                                            },
                                        )
                                    },
                                    None => Err(ShellError::NoSuchSubcommand),
                                }
                            }
                        },
                        None => Ok(Action::Help { include_args: has_args_flag(argv) }),
                    }
                },
            }
        }
    }
}

} // verus!

verus! {

/// The namespace sections of the root help: each namespace's indented name
/// followed by its listing one level deeper.
pub open spec fn spec_ns_sections(
    nss: Seq<(Seq<char>, Seq<EntryV>)>,
    include_args: bool,
) -> Seq<Seq<char>>
    decreases nss.len(),
{
    if nss.len() == 0 {
        Seq::empty()
    } else {
        seq!["    "@ + nss[0].0] + spec_list_lines(nss[0].1, 1, include_args)
            + spec_ns_sections(nss.drop_first(), include_args)
    }
}

/// The whole root help: a usage banner, the root commands' listing, and
/// one section per namespace in registration order.
pub open spec fn spec_root_help_lines(
    root: Seq<EntryV>,
    nss: Seq<(Seq<char>, Seq<EntryV>)>,
    include_args: bool,
) -> Seq<Seq<char>> {
    seq![""@, "Usage: [name] [command]"@, ""@, "Commands:"@] + spec_list_lines(
        root,
        0,
        include_args,
    ) + spec_ns_sections(nss, include_args) + seq![""@]
}

impl<Info> Shell<Info> {
    /// Renders the whole help listing, one output line per element.
    pub fn help_lines(&self, include_args: bool) -> (r: Vec<String>)
        ensures
            r.deep_view() == spec_root_help_lines(
                self.root_view(),
                self.namespaces_view(),
                include_args,
            ),
    {
        let ghost nv = self.namespaces_view();
        let mut out: Vec<String> = Vec::new();
        out.push("".to_owned());
        out.push("Usage: [name] [command]".to_owned());
        out.push("".to_owned());
        out.push("Commands:".to_owned());
        let mut root_lines = self.root_scripts.commands.help_lines(0, include_args);
        let ghost banner = seq![""@, "Usage: [name] [command]"@, ""@, "Commands:"@];
        proof {
            assert(out.deep_view() =~= banner);
        }
        let ghost root_dv = root_lines.deep_view();
        out.append(&mut root_lines);
        proof {
            assert(out.deep_view() =~= banner + root_dv);
        }
        let ghost base = banner + root_dv;
        let mut k: usize = 0;
        proof {
            assert(nv.skip(0) =~= nv);
            assert(nv.len() == self.namespaces@.len());
        }
        while k < self.namespaces.len()
            invariant
                0 <= k <= self.namespaces@.len(),
                nv == self.namespaces_view(),
                nv.len() == self.namespaces@.len(),
                base + spec_ns_sections(nv, include_args) == out.deep_view() + spec_ns_sections(
                    nv.skip(k as int),
                    include_args,
                ),
            decreases self.namespaces@.len() - k,
        {
            let ghost tail = nv.skip(k as int);
            proof {
                assert(nv[k as int] == (self.namespaces@[k as int].0@, self.namespaces@[k as int].1@));
                assert(tail[0] == nv[k as int]);
                assert(tail.drop_first() =~= nv.skip(k + 1));
            }
            let mut title = "    ".to_owned();
            title.append(self.namespaces[k].0.as_str());
            let ghost dv0 = out.deep_view();
            out.push(title);
            let mut section = self.namespaces[k].1.help_lines(1, include_args);
            let ghost sec_dv = section.deep_view();
            out.append(&mut section);
            proof {
                assert(out.deep_view() =~= dv0.push("    "@ + nv[k as int].0) + sec_dv);
                assert(dv0 + (seq!["    "@ + nv[k as int].0] + spec_list_lines(
                    nv[k as int].1,
                    1,
                    include_args,
                ) + spec_ns_sections(tail.drop_first(), include_args)) =~= out.deep_view()
                    + spec_ns_sections(tail.drop_first(), include_args));
            }
            k += 1;
        }
        proof {
            assert(nv.skip(nv.len() as int).len() == 0);
            assert(out.deep_view() + Seq::<Seq<char>>::empty() =~= out.deep_view());
        }
        out.push("".to_owned());
        proof {
            assert(out.deep_view() =~= (base + spec_ns_sections(nv, include_args)) + seq![""@]);
        }
        out
    }
}

} // verus!

verus! {

/// The prompt text an interactive front-end renders: an owned cell the
/// embedder may share behind whatever synchronization it uses.
#[derive(Debug, Clone)]
pub struct PromptText {
    pub text: Option<String>,
}

impl PromptText {
    /// An unset prompt.
    pub fn new() -> (r: PromptText)
        ensures
            r.text is None,
    {
        PromptText { text: None }
    }

    /// Replaces the prompt text.
    pub fn set(&mut self, t: Option<String>)
        ensures
            final(self).text == t,
    {
        self.text = t;
    }

    /// What the left prompt shows: the text, or nothing when unset.
    pub fn left_prompt_text(&self) -> (r: String)
        ensures
            r@ == match self.text.deep_view() {
                Some(t) => t,
                None => Seq::<char>::empty(),
            },
    {
        match &self.text {
            Some(t) => t.clone(),
            None => String::new(),
        }
    }

    /// The reverse-search indicator: the search status and the term, in
    /// parentheses.
    pub fn history_search_indicator(failing: bool, term: &str) -> (r: String)
        ensures
            r@ == "("@ + (if failing {
                "failing "@
            } else {
                Seq::<char>::empty()
            }) + "reverse-search: "@ + term@ + ") "@,
    {
        let mut out = "(".to_owned();
        if failing {
            out.append("failing ");
        }
        out.append("reverse-search: ");
        out.append(term);
        out.append(") ");
        out
    }
}

} // verus!
