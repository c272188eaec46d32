//! The ordered table of build-system generators that may drive a build.
use vstd::prelude::*;
use crate::chain::strings_view;
use crate::text::{decimal, decimal_string};

verus! {

/// The host platform families whose generator tables differ.
#[derive(Clone, Copy, Debug, PartialEq, Eq, Structural)]
pub enum HostPlatform {
    /// Only the primary generator is offered.
    Windows,
    /// Make is offered as a fallback, under the name "gmake".
    FreeBsd,
    /// Make is offered as a fallback, under the name "make".
    OtherUnix,
}

/// How to drive one generator.
#[derive(Clone, Debug)]
pub struct Generator {
    /// The build invocation.
    pub command: Vec<String>,
    /// The invocation that succeeds exactly when the tool is installed.
    pub version: Vec<String>,
    /// The invocation that shows what a build would do.
    pub dry_run: Vec<String>,
    /// The argument that makes a build verbose.
    pub verbose_flag: String,
    /// Whether the tool can be told to go on past failed steps.
    pub force_progression: bool,
}

/// A generator as plain values.
pub struct GeneratorView {
    pub command: Seq<Seq<char>>,
    pub version: Seq<Seq<char>>,
    pub dry_run: Seq<Seq<char>>,
    pub verbose_flag: Seq<char>,
    pub force_progression: bool,
}

impl View for Generator {
    type V = GeneratorView;

    open spec fn view(&self) -> GeneratorView {
        GeneratorView {
            command: strings_view(self.command@),
            version: strings_view(self.version@),
            dry_run: strings_view(self.dry_run@),
            verbose_flag: self.verbose_flag@,
            force_progression: self.force_progression,
        }
    }
}

/// The primary generator.
pub open spec fn ninja_view() -> GeneratorView {
    GeneratorView {
        command: seq!["ninja"@],
        version: seq!["ninja"@, "--version"@],
        dry_run: seq!["ninja"@, "-n"@],
        verbose_flag: "-v"@,
        force_progression: true,
    }
}

/// The make tool of a platform that offers one.
pub open spec fn make_tool(host: HostPlatform) -> Seq<char> {
    if host == HostPlatform::FreeBsd {
        "gmake"@
    } else {
        "make"@
    }
}

/// The fallback generator, running two more jobs than `cpus`.
pub open spec fn make_view(tool: Seq<char>, cpus: nat) -> GeneratorView {
    GeneratorView {
        command: seq![tool, "-j"@, decimal(cpus + 2)],
        version: seq![tool, "--version"@],
        dry_run: seq![tool, "-n"@],
        verbose_flag: "VERBOSE=1"@,
        force_progression: false,
    }
}

/// The names and descriptions of a generator table.
pub open spec fn registry_view(r: Seq<(String, Generator)>) -> Seq<(Seq<char>, GeneratorView)> {
    r.map_values(|e: (String, Generator)| (e.0@, e.1@))
}

/// Relies on `num_cpus::get`: the number of logical CPUs available to this
/// process, which its documentation says is always at least 1.
#[verifier::external_body]
fn cpu_count() -> (r: usize)
    ensures
        r >= 1,
{
    num_cpus::get()
}

fn strings(a: &str, b: &str) -> (r: Vec<String>)
    ensures
        strings_view(r@) == seq![a@, b@],
{
    let mut r: Vec<String> = Vec::new();
    r.push(String::from_str(a));
    r.push(String::from_str(b));
    assert(strings_view(r@) =~= seq![a@, b@]);
    r
}

/// The fallback generator that drives `tool` with two more parallel jobs
/// than `cpus`.
pub fn make_generator(tool: &str, cpus: usize) -> (r: Generator)
    ensures
        r@ == make_view(tool@, cpus as nat),
{
    let mut command: Vec<String> = Vec::new();
    command.push(String::from_str(tool));
    command.push(String::from_str("-j"));
    command.push(decimal_string(cpus as u128 + 2));
    let make = Generator {
        command,
        version: strings(tool, "--version"),
        dry_run: strings(tool, "-n"),
        verbose_flag: String::from_str("VERBOSE=1"),
        force_progression: false,
    };
    assert(make@.command =~= seq![tool@, "-j"@, decimal(cpus as nat + 2)]);
    make
}

/// The generators of `host`, in order of preference: the first whose tool
/// is installed is the one to use. Ninja comes first; on platforms other
/// than Windows make follows as a fallback.
pub fn get_generators(host: HostPlatform) -> (r: Vec<(String, Generator)>)
    ensures
        registry_view(r@).len() >= 1,
        registry_view(r@)[0] == ("Ninja"@, ninja_view()),
        host == HostPlatform::Windows ==> r@.len() == 1,
        host != HostPlatform::Windows ==> r@.len() == 2 && registry_view(r@)[1].0 == "Unix Makefiles"@
            && exists|cpus: nat| cpus >= 1 && registry_view(r@)[1].1 == make_view(make_tool(host), cpus),
{
    let mut generators: Vec<(String, Generator)> = Vec::new();
    let mut command: Vec<String> = Vec::new();
    command.push(String::from_str("ninja"));
    let ninja = Generator {
        command,
        version: strings("ninja", "--version"),
        dry_run: strings("ninja", "-n"),
        verbose_flag: String::from_str("-v"),
        force_progression: true,
    };
    assert(ninja@.command =~= seq!["ninja"@]);
    generators.push((String::from_str("Ninja"), ninja));

    if host != HostPlatform::Windows {
        let make_cmd = if host == HostPlatform::FreeBsd {
            "gmake"
        } else {
            "make"
        };
        let cpus = cpu_count();
        let make = make_generator(make_cmd, cpus);
        assert(make_cmd@ == make_tool(host));
        generators.push((String::from_str("Unix Makefiles"), make));
    }
    generators
}

} // verus!
