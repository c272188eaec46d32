//! Splitting one command line into a chain of subcommands
//! ("build flash monitor"), each with the arguments that follow it.
use vstd::prelude::*;

verus! {

/// The views of a sequence of strings.
pub open spec fn strings_view(v: Seq<String>) -> Seq<Seq<char>> {
    v.map_values(|s: String| s@)
}

/// The subcommand names that may be chained on one command line.
pub open spec fn known_command_names() -> Seq<Seq<char>> {
    seq![
        "build"@, "all"@, "app"@, "bootloader"@, "clean"@, "fullclean"@, "flash"@,
        "app-flash"@, "bootloader-flash"@, "monitor"@, "menuconfig"@, "set-target"@,
        "erase-flash"@, "size"@, "size-components"@, "size-files"@, "reconfigure"@,
        "create-project"@, "build-system-targets"@, "install-alias"@, "uninstall-alias"@,
    ]
}

/// A token starts a new command exactly when its text is a known command name.
pub open spec fn is_known_command(t: Seq<char>) -> bool {
    known_command_names().contains(t)
}

/// One command of a chain: its name and the tokens that follow it.
#[derive(Debug)]
pub struct ParsedCommand {
    pub name: String,
    pub args: Vec<String>,
}

impl View for ParsedCommand {
    type V = (Seq<char>, Seq<Seq<char>>);

    open spec fn view(&self) -> (Seq<char>, Seq<Seq<char>>) {
        (self.name@, strings_view(self.args@))
    }
}

/// The views of a sequence of parsed commands.
pub open spec fn commands_view(v: Seq<ParsedCommand>) -> Seq<(Seq<char>, Seq<Seq<char>>)> {
    v.map_values(|c: ParsedCommand| c@)
}

/// The switches that a chained command line may carry before its first command.
#[derive(Clone, Copy, Debug, PartialEq, Eq, Structural)]
pub struct GlobalFlags {
    pub verbose: bool,
    pub preview: bool,
    pub ccache: bool,
    pub no_ccache: bool,
    pub no_hints: bool,
}

/// The switches set by a list of leading tokens: each is set when its exact
/// spelling occurs among them. Options that take a value are not read here.
pub open spec fn flags_of(globals: Seq<Seq<char>>) -> GlobalFlags {
    GlobalFlags {
        verbose: globals.contains("-v"@) || globals.contains("--verbose"@),
        preview: globals.contains("--preview"@),
        ccache: globals.contains("--ccache"@),
        no_ccache: globals.contains("--no-ccache"@),
        no_hints: globals.contains("--no-hints"@),
    }
}

/// The options that take a value (generator, cache entry, port, baud rate).
pub open spec fn value_option_names() -> Seq<Seq<char>> {
    seq!["-G"@, "--generator"@, "-D"@, "--define-cache-entry"@, "-p"@, "--port"@, "-b"@, "--baud"@]
}

/// Whether one of the leading tokens is an option that takes a value.
pub open spec fn has_value_option(globals: Seq<Seq<char>>) -> bool {
    exists|i: int| 0 <= i < globals.len() && value_option_names().contains(#[trigger] globals[i])
}

/// A chained command line: the shared switches and the commands, in order.
#[derive(Debug)]
pub struct MultipleCommands {
    pub global_args: GlobalFlags,
    pub commands: Vec<ParsedCommand>,
    /// Whether an option that takes a value came before the first command:
    /// such options are not applied to a chain, and the caller may say so.
    pub ignored_value_options: bool,
}

/// Why a command line is not a chain, so that it is to be parsed as a
/// single command instead.
#[derive(Clone, Copy, Debug, PartialEq, Eq, Structural)]
pub enum NotChained {
    /// Nothing follows the program name.
    NoCommands,
    /// Fewer than two command names occur.
    SingleCommand,
}

/// The tokens of a command line (program name excluded) split into the
/// tokens before the first command and the commands with their arguments.
pub struct ChainSplit {
    pub globals: Seq<Seq<char>>,
    pub commands: Seq<(Seq<char>, Seq<Seq<char>>)>,
}

/// Each token in turn: a command name opens a new command; any other token
/// belongs to the command opened last, or to the leading tokens when no
/// command has been opened yet.
pub open spec fn split_chain(toks: Seq<Seq<char>>) -> ChainSplit
    decreases toks.len(),
{
    if toks.len() == 0 {
        ChainSplit { globals: seq![], commands: seq![] }
    } else {
        let prev = split_chain(toks.drop_last());
        let t = toks.last();
        if is_known_command(t) {
            ChainSplit { globals: prev.globals, commands: prev.commands.push((t, seq![])) }
        } else if prev.commands.len() == 0 {
            ChainSplit { globals: prev.globals.push(t), commands: prev.commands }
        } else {
            let last = prev.commands.last();
            ChainSplit {
                globals: prev.globals,
                commands: prev.commands.update(prev.commands.len() - 1, (last.0, last.1.push(t))),
            }
        }
    }
}

/// The tokens of a list of commands, each name followed by its arguments.
pub open spec fn flatten(cs: Seq<(Seq<char>, Seq<Seq<char>>)>) -> Seq<Seq<char>>
    decreases cs.len(),
{
    if cs.len() == 0 {
        seq![]
    } else {
        flatten(cs.drop_last()) + seq![cs.last().0] + cs.last().1
    }
}

/// Splitting loses, adds and reorders no token: the leading tokens followed
/// by each command's name and arguments give back the command line. Every
/// command name is a known name, and no leading token or argument is.
pub proof fn lemma_split_keeps_tokens(toks: Seq<Seq<char>>)
    ensures
        split_chain(toks).globals + flatten(split_chain(toks).commands) == toks,
        forall|i: int|
            0 <= i < split_chain(toks).globals.len() ==> !is_known_command(
                #[trigger] split_chain(toks).globals[i],
            ),
        forall|k: int|
            0 <= k < split_chain(toks).commands.len() ==> is_known_command(
                (#[trigger] split_chain(toks).commands[k]).0,
            ),
        forall|k: int, j: int|
            0 <= k < split_chain(toks).commands.len() && 0 <= j < split_chain(
                toks,
            ).commands[k].1.len() ==> !is_known_command(
                #[trigger] split_chain(toks).commands[k].1[j],
            ),
    decreases toks.len(),
{
    if toks.len() > 0 {
        let prev = split_chain(toks.drop_last());
        let t = toks.last();
        lemma_split_keeps_tokens(toks.drop_last());
        let s = split_chain(toks);
        assert(toks =~= toks.drop_last().push(t));
        if is_known_command(t) {
            assert(s.commands.drop_last() =~= prev.commands);
            assert(flatten(s.commands) == flatten(prev.commands) + seq![t] + Seq::<Seq<char>>::empty());
            assert(s.globals + flatten(s.commands) =~= (prev.globals + flatten(prev.commands)).push(t));
        } else if prev.commands.len() == 0 {
            assert(flatten(prev.commands) =~= seq![]);
            assert(s.globals + flatten(s.commands) =~= toks);
        } else {
            let n = prev.commands.len() - 1;
            let last = prev.commands[n];
            assert(s.commands.drop_last() =~= prev.commands.drop_last());
            assert(flatten(s.commands) == flatten(prev.commands.drop_last()) + seq![last.0]
                + last.1.push(t));
            assert(flatten(prev.commands) == flatten(prev.commands.drop_last()) + seq![last.0]
                + last.1);
            assert(s.globals + flatten(s.commands) =~= (prev.globals + flatten(prev.commands)).push(t));
            assert forall|k: int, j: int|
                0 <= k < s.commands.len() && 0 <= j < s.commands[k].1.len() implies !is_known_command(
                #[trigger] s.commands[k].1[j],
            ) by {
                if k == n && j == prev.commands[n].1.len() {
                    assert(s.commands[k].1[j] == t);
                } else if k == n {
                    assert(s.commands[k].1[j] == prev.commands[k].1[j]);
                } else {
                    assert(s.commands[k] == prev.commands[k]);
                }
            }
        }
    }
}

/// The known command names, as strings.
pub fn known_commands() -> (r: Vec<String>)
    ensures
        strings_view(r@) == known_command_names(),
{
    let mut r: Vec<String> = Vec::new();
    r.push(String::from_str("build"));
    r.push(String::from_str("all"));
    r.push(String::from_str("app"));
    r.push(String::from_str("bootloader"));
    r.push(String::from_str("clean"));
    r.push(String::from_str("fullclean"));
    r.push(String::from_str("flash"));
    r.push(String::from_str("app-flash"));
    r.push(String::from_str("bootloader-flash"));
    r.push(String::from_str("monitor"));
    r.push(String::from_str("menuconfig"));
    r.push(String::from_str("set-target"));
    r.push(String::from_str("erase-flash"));
    r.push(String::from_str("size"));
    r.push(String::from_str("size-components"));
    r.push(String::from_str("size-files"));
    r.push(String::from_str("reconfigure"));
    r.push(String::from_str("create-project"));
    r.push(String::from_str("build-system-targets"));
    r.push(String::from_str("install-alias"));
    r.push(String::from_str("uninstall-alias"));
    assert(strings_view(r@) =~= known_command_names());
    r
}

/// Whether `t` equals one of `names`.
pub fn contains_string(names: &Vec<String>, t: &String) -> (r: bool)
    ensures
        r == strings_view(names@).contains(t@),
{
    let mut i: usize = 0;
    while i < names.len()
        invariant
            i <= names.len(),
            forall|j: int| 0 <= j < i ==> names@[j]@ != t@,
        decreases names.len() - i,
    {
        if names[i] == *t {
            assert(strings_view(names@)[i as int] == t@);
            return true;
        }
        i += 1;
    }
    proof {
        if strings_view(names@).contains(t@) {
            let k = choose|k: int| 0 <= k < names@.len() && strings_view(names@)[k] == t@;
            assert(names@[k]@ == t@);
        }
    }
    false
}

/// The switches set by `globals`.
fn flags_from(globals: &Vec<String>) -> (r: GlobalFlags)
    ensures
        r == flags_of(strings_view(globals@)),
{
    let verbose = contains_string(globals, &String::from_str("-v"))
        || contains_string(globals, &String::from_str("--verbose"));
    let preview = contains_string(globals, &String::from_str("--preview"));
    let ccache = contains_string(globals, &String::from_str("--ccache"));
    let no_ccache = contains_string(globals, &String::from_str("--no-ccache"));
    let no_hints = contains_string(globals, &String::from_str("--no-hints"));
    GlobalFlags { verbose, preview, ccache, no_ccache, no_hints }
}

/// Whether one of `globals` is an option that takes a value.
fn value_options_in(globals: &Vec<String>) -> (r: bool)
    ensures
        r == has_value_option(strings_view(globals@)),
{
    let mut names: Vec<String> = Vec::new();
    names.push(String::from_str("-G"));
    names.push(String::from_str("--generator"));
    names.push(String::from_str("-D"));
    names.push(String::from_str("--define-cache-entry"));
    names.push(String::from_str("-p"));
    names.push(String::from_str("--port"));
    names.push(String::from_str("-b"));
    names.push(String::from_str("--baud"));
    assert(strings_view(names@) =~= value_option_names());
    let mut i: usize = 0;
    while i < globals.len()
        invariant
            i <= globals@.len(),
            strings_view(names@) == value_option_names(),
            forall|j: int|
                0 <= j < i ==> !value_option_names().contains(#[trigger] strings_view(globals@)[j]),
        decreases globals@.len() - i,
    {
        if contains_string(&names, &globals[i]) {
            assert(value_option_names().contains(strings_view(globals@)[i as int]));
            return true;
        }
        i += 1;
    }
    false
}

/// Reads a whole command line (`args[0]` is the program name) as a chain of
/// commands. It is a chain when at least two known command names occur in
/// it; otherwise the line is to be parsed as a single command. A token that
/// spells a command name always opens a new command, even where it was meant
/// as an argument of the one before.
pub fn parse_multiple_commands(args: &[String]) -> (r: Result<MultipleCommands, NotChained>)
    ensures
        args@.len() < 2 ==> r == Err::<MultipleCommands, NotChained>(NotChained::NoCommands),
        args@.len() >= 2 ==> ({
            let s = split_chain(strings_view(args@).drop_first());
            &&& s.commands.len() < 2 ==> r == Err::<MultipleCommands, NotChained>(
                NotChained::SingleCommand,
            )
            &&& s.commands.len() >= 2 ==> r is Ok && commands_view(r->Ok_0.commands@)
                == s.commands && r->Ok_0.global_args == flags_of(s.globals)
                && r->Ok_0.ignored_value_options == has_value_option(s.globals)
        }),
{
    if args.len() < 2 {
        return Err(NotChained::NoCommands);
    }
    let known = known_commands();
    let ghost toks = strings_view(args@);

    let mut commands: Vec<ParsedCommand> = Vec::new();
    let mut global_args: Vec<String> = Vec::new();
    let mut current_command: Option<String> = None;
    let mut current_args: Vec<String> = Vec::new();
    let mut found_multiple_commands = false;

    // The program name is not part of the chain.
    let mut i: usize = 1;
    while i < args.len()
        invariant
            1 <= i <= args@.len(),
            toks == strings_view(args@),
            strings_view(known@) == known_command_names(),
            strings_view(global_args@) == split_chain(toks.subrange(1, i as int)).globals,
            current_command is None ==> commands@.len() == 0 && current_args@.len() == 0
                && split_chain(
                toks.subrange(1, i as int),
            ).commands.len() == 0,
            current_command is Some ==> split_chain(toks.subrange(1, i as int)).commands
                == commands_view(commands@).push(
                (current_command->Some_0@, strings_view(current_args@)),
            ),
            found_multiple_commands == (commands@.len() > 0),
        decreases args@.len() - i,
    {
        let arg = &args[i];
        let ghost prefix = toks.subrange(1, i as int);
        assert(toks.subrange(1, i + 1).drop_last() =~= prefix);
        assert(toks.subrange(1, i + 1).last() == arg@);
        if contains_string(&known, arg) {
            if let Some(cmd) = current_command.take() {
                let mut finished: Vec<String> = Vec::new();
                std::mem::swap(&mut finished, &mut current_args);
                commands.push(ParsedCommand { name: cmd, args: finished });
                found_multiple_commands = true;
            } else if commands.len() > 0 {
                found_multiple_commands = true;
            }
            current_command = Some(arg.clone());
            proof {
                assert(strings_view(current_args@) =~= seq![]);
                assert(commands_view(commands@) =~= split_chain(prefix).commands);
            }
        } else if current_command.is_some() {
            current_args.push(arg.clone());
            proof {
                assert(strings_view(current_args@) =~= split_chain(prefix).commands.last().1.push(
                    arg@,
                ));
                assert(split_chain(toks.subrange(1, i + 1)).commands =~= commands_view(
                    commands@,
                ).push((current_command->Some_0@, strings_view(current_args@))));
            }
        } else {
            global_args.push(arg.clone());
            assert(strings_view(global_args@) =~= split_chain(prefix).globals.push(arg@));
        }
        i += 1;
    }
    assert(toks.subrange(1, args@.len() as int) =~= toks.drop_first());

    if let Some(cmd) = current_command {
        commands.push(ParsedCommand { name: cmd, args: current_args });
        assert(commands_view(commands@) =~= split_chain(toks.drop_first()).commands);
    }

    if commands.len() > 1 || (commands.len() == 1 && found_multiple_commands) {
        let global_flags = flags_from(&global_args);
        let ignored_value_options = value_options_in(&global_args);
        Ok(MultipleCommands { global_args: global_flags, commands, ignored_value_options })
    } else {
        Err(NotChained::SingleCommand)
    }
}

/// Whether "flash" is directly followed by "monitor" somewhere in `args`.
pub fn has_flash_monitor(args: &[String]) -> (r: bool)
    ensures
        r == exists|i: int|
            0 <= i && i + 1 < args@.len() && #[trigger] args@[i]@ == "flash"@ && args@[i
                + 1]@ == "monitor"@,
{
    let flash = String::from_str("flash");
    let monitor = String::from_str("monitor");
    let mut i: usize = 0;
    while i < args.len()
        invariant
            flash@ == "flash"@,
            monitor@ == "monitor"@,
            forall|j: int|
                0 <= j < i && j + 1 < args@.len() ==> !(#[trigger] args@[j]@ == "flash"@
                    && args@[j + 1]@ == "monitor"@),
        decreases args@.len() - i,
    {
        if i + 1 < args.len() && args[i] == flash && args[i + 1] == monitor {
            return true;
        }
        i += 1;
    }
    false
}

} // verus!
