//! What each command of a chain asks for, and the order in which a chain runs.
use vstd::prelude::*;
use crate::chain::{strings_view, ParsedCommand};

verus! {

/// The actions that a command can ask for.
#[derive(Clone, Copy, Debug, PartialEq, Eq, Structural)]
pub enum CommandKind {
    Build,
    App,
    Bootloader,
    Clean,
    Fullclean,
    Flash,
    AppFlash,
    BootloaderFlash,
    Monitor,
    Menuconfig,
    SetTarget,
    EraseFlash,
    Size,
    SizeComponents,
    SizeFiles,
    Reconfigure,
    CreateProject,
    BuildSystemTargets,
    InstallAlias,
    UninstallAlias,
}

/// The action that a command name asks for; "all" is another name for "build".
pub open spec fn kind_of(name: Seq<char>) -> Option<CommandKind> {
    if name == "build"@ || name == "all"@ {
        Some(CommandKind::Build)
    } else if name == "app"@ {
        Some(CommandKind::App)
    } else if name == "bootloader"@ {
        Some(CommandKind::Bootloader)
    } else if name == "clean"@ {
        Some(CommandKind::Clean)
    } else if name == "fullclean"@ {
        Some(CommandKind::Fullclean)
    } else if name == "flash"@ {
        Some(CommandKind::Flash)
    } else if name == "app-flash"@ {
        Some(CommandKind::AppFlash)
    } else if name == "bootloader-flash"@ {
        Some(CommandKind::BootloaderFlash)
    } else if name == "monitor"@ {
        Some(CommandKind::Monitor)
    } else if name == "menuconfig"@ {
        Some(CommandKind::Menuconfig)
    } else if name == "set-target"@ {
        Some(CommandKind::SetTarget)
    } else if name == "erase-flash"@ {
        Some(CommandKind::EraseFlash)
    } else if name == "size"@ {
        Some(CommandKind::Size)
    } else if name == "size-components"@ {
        Some(CommandKind::SizeComponents)
    } else if name == "size-files"@ {
        Some(CommandKind::SizeFiles)
    } else if name == "reconfigure"@ {
        Some(CommandKind::Reconfigure)
    } else if name == "create-project"@ {
        Some(CommandKind::CreateProject)
    } else if name == "build-system-targets"@ {
        Some(CommandKind::BuildSystemTargets)
    } else if name == "install-alias"@ {
        Some(CommandKind::InstallAlias)
    } else if name == "uninstall-alias"@ {
        Some(CommandKind::UninstallAlias)
    } else {
        None
    }
}

fn name_is(name: &String, literal: &str) -> (r: bool)
    ensures
        r == (name@ == literal@),
{
    *name == String::from_str(literal)
}

/// The action that `name` asks for, if it is a command name.
pub fn command_kind(name: &String) -> (r: Option<CommandKind>)
    ensures
        r == kind_of(name@),
{
    if name_is(name, "build") || name_is(name, "all") {
        Some(CommandKind::Build)
    } else if name_is(name, "app") {
        Some(CommandKind::App)
    } else if name_is(name, "bootloader") {
        Some(CommandKind::Bootloader)
    } else if name_is(name, "clean") {
        Some(CommandKind::Clean)
    } else if name_is(name, "fullclean") {
        Some(CommandKind::Fullclean)
    } else if name_is(name, "flash") {
        Some(CommandKind::Flash)
    } else if name_is(name, "app-flash") {
        Some(CommandKind::AppFlash)
    } else if name_is(name, "bootloader-flash") {
        Some(CommandKind::BootloaderFlash)
    } else if name_is(name, "monitor") {
        Some(CommandKind::Monitor)
    } else if name_is(name, "menuconfig") {
        Some(CommandKind::Menuconfig)
    } else if name_is(name, "set-target") {
        Some(CommandKind::SetTarget)
    } else if name_is(name, "erase-flash") {
        Some(CommandKind::EraseFlash)
    } else if name_is(name, "size") {
        Some(CommandKind::Size)
    } else if name_is(name, "size-components") {
        Some(CommandKind::SizeComponents)
    } else if name_is(name, "size-files") {
        Some(CommandKind::SizeFiles)
    } else if name_is(name, "reconfigure") {
        Some(CommandKind::Reconfigure)
    } else if name_is(name, "create-project") {
        Some(CommandKind::CreateProject)
    } else if name_is(name, "build-system-targets") {
        Some(CommandKind::BuildSystemTargets)
    } else if name_is(name, "install-alias") {
        Some(CommandKind::InstallAlias)
    } else if name_is(name, "uninstall-alias") {
        Some(CommandKind::UninstallAlias)
    } else {
        None
    }
}

/// Why a command of a chain cannot run.
#[derive(Clone, Copy, Debug, PartialEq, Eq, Structural)]
pub enum CommandError {
    /// The name is not a command name.
    UnrecognizedCommand,
    /// "set-target" without the chip to set.
    MissingTarget,
    /// "create-project" without the project's name.
    MissingProjectName,
}

/// The outcome of checking a command with these name and arguments.
pub open spec fn checked(name: Seq<char>, args: Seq<Seq<char>>) -> Result<CommandKind, CommandError> {
    match kind_of(name) {
        None => Err(CommandError::UnrecognizedCommand),
        Some(k) => if k == CommandKind::SetTarget && args.len() == 0 {
            Err(CommandError::MissingTarget)
        } else if k == CommandKind::CreateProject && args.len() == 0 {
            Err(CommandError::MissingProjectName)
        } else {
            Ok(k)
        },
    }
}

/// The action that one command of a chain asks for. The chip of
/// "set-target" and the name of "create-project" are their first argument,
/// which must be there.
pub fn check_command(cmd: &ParsedCommand) -> (r: Result<CommandKind, CommandError>)
    ensures
        r == checked(cmd.name@, strings_view(cmd.args@)),
{
    match command_kind(&cmd.name) {
        None => Err(CommandError::UnrecognizedCommand),
        Some(k) => {
            if k == CommandKind::SetTarget && cmd.args.len() == 0 {
                Err(CommandError::MissingTarget)
            } else if k == CommandKind::CreateProject && cmd.args.len() == 0 {
                Err(CommandError::MissingProjectName)
            } else {
                Ok(k)
            }
        },
    }
}

impl CommandError {
    /// The message shown to the user for a command named `name`.
    pub fn message(&self, name: &String) -> (r: String)
        ensures
            r@ == (match self {
                CommandError::UnrecognizedCommand => "Unknown command: "@ + name@,
                CommandError::MissingTarget => "set-target requires a target argument"@,
                CommandError::MissingProjectName => "create-project requires a project name"@,
            }),
    {
        match self {
            CommandError::UnrecognizedCommand => {
                let mut m = String::from_str("Unknown command: ");
                m.append(name.as_str());
                m
            },
            CommandError::MissingTarget => String::from_str("set-target requires a target argument"),
            CommandError::MissingProjectName => String::from_str(
                "create-project requires a project name",
            ),
        }
    }
}

/// What a chain does next.
#[derive(Clone, Copy, Debug, PartialEq, Eq, Structural)]
pub enum SequenceStep {
    /// Run the command at this position.
    Run(usize),
    /// Every command succeeded.
    Finished,
    /// The command at this position failed; the rest do not run.
    Aborted(usize),
}

/// The next step of a chain of `total` commands of which the first `ran`
/// have run, the last of them with outcome `last_ok`: commands run one after
/// another, in order, and the first failure ends the chain.
pub fn sequence_step(total: usize, ran: usize, last_ok: bool) -> (r: SequenceStep)
    requires
        ran <= total,
    ensures
        ran > 0 && !last_ok ==> r == SequenceStep::Aborted((ran - 1) as usize),
        (ran == 0 || last_ok) && ran < total ==> r == SequenceStep::Run(ran),
        (ran == 0 || last_ok) && ran == total ==> r == SequenceStep::Finished,
{
    if ran > 0 && !last_ok {
        SequenceStep::Aborted(ran - 1)
    } else if ran < total {
        SequenceStep::Run(ran)
    } else {
        SequenceStep::Finished
    }
}

/// The chips that a project can target.
pub open spec fn target_names() -> Seq<Seq<char>> {
    seq!["esp32"@, "esp32s2"@, "esp32s3"@, "esp32c2"@, "esp32c3"@, "esp32c6"@, "esp32h2"@, "esp32p4"@]
}

/// The chips that a project can target, in the order they are listed.
pub fn supported_targets() -> (r: Vec<String>)
    ensures
        strings_view(r@) == target_names(),
{
    let mut r: Vec<String> = Vec::new();
    r.push(String::from_str("esp32"));
    r.push(String::from_str("esp32s2"));
    r.push(String::from_str("esp32s3"));
    r.push(String::from_str("esp32c2"));
    r.push(String::from_str("esp32c3"));
    r.push(String::from_str("esp32c6"));
    r.push(String::from_str("esp32h2"));
    r.push(String::from_str("esp32p4"));
    assert(strings_view(r@) =~= target_names());
    r
}

/// Whether a project can target `target`.
pub fn is_supported_target(target: &str) -> (r: bool)
    ensures
        r == target_names().contains(target@),
{
    crate::chain::contains_string(&supported_targets(), &String::from_str(target))
}

} // verus!
