//! Choosing the generator for a build: an explicit choice first, then the
//! one a build directory was configured with, then the first installed one.
use vstd::prelude::*;
use crate::build_systems::{registry_view, Generator};
use crate::text::{opt_view, chars_of, has_prefix_at, line_at, lines, lines_from, string_from_chars};

verus! {

/// Why no generator could be chosen.
#[derive(Clone, Copy, Debug, PartialEq, Eq, Structural)]
pub enum BuildError {
    /// No explicit or recorded choice, and none of the generators' tools is installed.
    NoGeneratorFound,
}

impl BuildError {
    /// The message shown to the user.
    pub fn message(&self) -> (r: String)
        ensures
            r@ == "To use idf-rs, either the 'ninja' or 'make' build tool must be available in the PATH"@,
    {
        String::from_str(
            "To use idf-rs, either the 'ninja' or 'make' build tool must be available in the PATH",
        )
    }
}

/// The key under which a build directory's cache records its generator.
pub open spec fn generator_key() -> Seq<char> {
    "CMAKE_GENERATOR:INTERNAL="@
}

/// The value of a `KEY=VALUE` line that starts with the key: all the text
/// after the key, to the end of the line.
pub open spec fn value_after_key(line: Seq<char>) -> Seq<char> {
    line.skip(generator_key().len() as int)
}

/// The value on the first of `ls` that starts with the key, if any does.
pub open spec fn first_recorded(ls: Seq<Seq<char>>) -> Option<Seq<char>>
    decreases ls.len(),
{
    if ls.len() == 0 {
        None
    } else if generator_key().is_prefix_of(ls[0]) {
        Some(value_after_key(ls[0]))
    } else {
        first_recorded(ls.drop_first())
    }
}

/// The generator that a build directory's cache text records.
pub open spec fn cached_generator(text: Seq<char>) -> Option<Seq<char>> {
    first_recorded(lines(text))
}

/// The first position at which a verdict says "installed", among the
/// first `n` verdicts.
pub open spec fn first_available(verdicts: Seq<bool>, n: int) -> Option<int>
    decreases n,
{
    if n <= 0 {
        None
    } else {
        match first_available(verdicts, n - 1) {
            Some(i) => Some(i),
            None => if verdicts[n - 1] {
                Some(n - 1)
            } else {
                None
            },
        }
    }
}

/// The number of generators whose verdicts count: one verdict each, in
/// table order, a generator without a verdict counting as not installed.
pub open spec fn probed(names: Seq<Seq<char>>, verdicts: Seq<bool>) -> int {
    if verdicts.len() < names.len() {
        verdicts.len() as int
    } else {
        names.len() as int
    }
}

/// The first generator of the table that is installed.
pub open spec fn detected(names: Seq<Seq<char>>, verdicts: Seq<bool>) -> Result<Seq<char>, BuildError> {
    match first_available(verdicts, probed(names, verdicts)) {
        Some(i) => Ok(names[i]),
        None => Err(BuildError::NoGeneratorFound),
    }
}

/// The generator to use: the explicit choice, else the recorded one, else
/// the first installed one.
pub open spec fn resolved(
    explicit: Option<Seq<char>>,
    cached: Option<Seq<char>>,
    names: Seq<Seq<char>>,
    verdicts: Seq<bool>,
) -> Result<Seq<char>, BuildError> {
    match explicit {
        Some(g) => Ok(g),
        None => match cached {
            Some(c) => Ok(c),
            None => detected(names, verdicts),
        },
    }
}

/// The names of a generator table.
pub open spec fn names_of(generators: Seq<(String, Generator)>) -> Seq<Seq<char>> {
    registry_view(generators).map_values(|e: (Seq<char>, crate::build_systems::GeneratorView)| e.0)
}

/// The view of a result that carries a string.
pub open spec fn result_view(r: Result<String, BuildError>) -> Result<Seq<char>, BuildError> {
    match r {
        Ok(s) => Ok(s@),
        Err(e) => Err(e),
    }
}

/// The generator recorded in the text of a build directory's cache: on the
/// first line that starts with `CMAKE_GENERATOR:INTERNAL=`, all the text
/// after it.
pub fn get_generator_from_cache(cache_text: &str) -> (r: Option<String>)
    ensures
        opt_view(r) == cached_generator(cache_text@),
{
    let cs = chars_of(cache_text);
    let key = chars_of("CMAKE_GENERATOR:INTERNAL=");
    proof {
        reveal_strlit("CMAKE_GENERATOR:INTERNAL=");
    }
    let mut pos: usize = 0;
    while pos < cs.len()
        invariant
            pos <= cs@.len(),
            cs@ == cache_text@,
            key@ == generator_key(),
            first_recorded(lines_from(cs@, pos as int)) == first_recorded(lines(cs@)),
        decreases cs@.len() - pos,
    {
        let (body_end, next) = line_at(&cs, pos);
        let ghost line = cs@.subrange(pos as int, body_end as int);
        let ghost ls = lines_from(cs@, pos as int);
        assert(ls[0] == line);
        assert(ls.drop_first() =~= lines_from(cs@, next as int));
        if has_prefix_at(&cs, pos, body_end, &key) {
            assert(generator_key().is_prefix_of(line)) by {
                assert(line.subrange(0, key@.len() as int) =~= cs@.subrange(
                    pos as int,
                    pos + key@.len(),
                ));
            }
            let start = pos + key.len();
            let value = string_from_chars(&cs, start, body_end);
            assert(value@ =~= value_after_key(line));
            return Some(value);
        } else {
            assert(!generator_key().is_prefix_of(line)) by {
                if generator_key().is_prefix_of(line) {
                    assert(line.subrange(0, key@.len() as int) =~= cs@.subrange(
                        pos as int,
                        pos + key@.len(),
                    ));
                }
            }
        }
        pos = next;
    }
    assert(lines_from(cs@, pos as int) =~= seq![]);
    None
}

/// Which generator's tool to probe next, if any: none when the choice is
/// already made (explicit, recorded, or an installed tool found among the
/// verdicts so far); else the next generator in table order, while one is
/// left. `verdicts[i]` tells whether the tool of `generators[i]` is installed.
pub fn next_probe(
    explicit: Option<&String>,
    cached: Option<&String>,
    generators: &Vec<(String, Generator)>,
    verdicts: &Vec<bool>,
) -> (r: Option<usize>)
    ensures
        r == (if explicit is None && cached is None && first_available(
            verdicts@,
            verdicts@.len() as int,
        ) is None && verdicts@.len() < generators@.len() {
            Some(verdicts.len())
        } else {
            None::<usize>
        }),
{
    if explicit.is_some() || cached.is_some() {
        return None;
    }
    if first_true(verdicts, verdicts.len()).is_some() {
        return None;
    }
    if verdicts.len() < generators.len() {
        Some(verdicts.len())
    } else {
        None
    }
}

/// The first position below `n` at which `verdicts` holds `true`.
fn first_true(verdicts: &Vec<bool>, n: usize) -> (r: Option<usize>)
    requires
        n <= verdicts@.len(),
    ensures
        match r {
            Some(i) => i < n && first_available(verdicts@, n as int) == Some(i as int),
            None => first_available(verdicts@, n as int) is None,
        },
{
    let mut i: usize = 0;
    while i < n
        invariant
            i <= n <= verdicts@.len(),
            first_available(verdicts@, i as int) is None,
        decreases n - i,
    {
        if verdicts[i] {
            proof {
                lemma_first_available_stays(verdicts@, i as int + 1, n as int);
            }
            return Some(i);
        }
        i += 1;
    }
    None
}

/// Once a first available position is found, more verdicts do not change it.
proof fn lemma_first_available_stays(verdicts: Seq<bool>, m: int, n: int)
    requires
        0 <= m <= n,
        first_available(verdicts, m) is Some,
    ensures
        first_available(verdicts, n) == first_available(verdicts, m),
    decreases n - m,
{
    if m < n {
        lemma_first_available_stays(verdicts, m, n - 1);
    }
}

/// The first generator of the table whose tool the verdicts call
/// installed; `verdicts[i]` is the probe of `generators[i]`, and a generator
/// without a verdict counts as not installed.
pub fn detect_cmake_generator(
    generators: &Vec<(String, Generator)>,
    verdicts: &Vec<bool>,
) -> (r: Result<String, BuildError>)
    ensures
        result_view(r) == detected(names_of(generators@), verdicts@),
{
    let n = if verdicts.len() < generators.len() {
        verdicts.len()
    } else {
        generators.len()
    };
    assert(n == probed(names_of(generators@), verdicts@));
    match first_true(verdicts, n) {
        Some(i) => {
            assert(names_of(generators@)[i as int] == generators@[i as int].0@);
            Ok(generators[i].0.clone())
        },
        None => Err(BuildError::NoGeneratorFound),
    }
}

/// The generator for a build: `explicit` when given, without checking it
/// against the table; else `cached`, the one the build directory was
/// configured with; else the first generator whose tool is installed.
pub fn get_build_generator(
    explicit: Option<&String>,
    cached: Option<&String>,
    generators: &Vec<(String, Generator)>,
    verdicts: &Vec<bool>,
) -> (r: Result<String, BuildError>)
    ensures
        result_view(r) == resolved(
            match explicit {
                Some(g) => Some(g@),
                None => None,
            },
            match cached {
                Some(c) => Some(c@),
                None => None,
            },
            names_of(generators@),
            verdicts@,
        ),
{
    if let Some(generator) = explicit {
        return Ok(generator.clone());
    }
    if let Some(cached_generator) = cached {
        return Ok(cached_generator.clone());
    }
    detect_cmake_generator(generators, verdicts)
}

/// An explicit choice is used as given, whatever the build directory
/// records and whichever tools are installed.
pub proof fn lemma_explicit_choice_wins(
    g: Seq<char>,
    cached: Option<Seq<char>>,
    names: Seq<Seq<char>>,
    verdicts: Seq<bool>,
)
    ensures
        resolved(Some(g), cached, names, verdicts) == Ok::<Seq<char>, BuildError>(g),
{
}

/// Without an explicit choice, the generator recorded in a build
/// directory's cache is used, even when no tool is found installed.
pub proof fn lemma_recorded_choice_wins(text: Seq<char>, names: Seq<Seq<char>>, verdicts: Seq<bool>)
    requires
        cached_generator(text) is Some,
    ensures
        resolved(None, cached_generator(text), names, verdicts) == Ok::<Seq<char>, BuildError>(
            cached_generator(text)->Some_0,
        ),
{
}

/// With neither an explicit nor a recorded choice, and every generator
/// probed, the first generator whose tool is installed is used; when no
/// tool is installed, no generator is found.
pub proof fn lemma_first_installed_wins(names: Seq<Seq<char>>, verdicts: Seq<bool>, i: int)
    requires
        verdicts.len() == names.len(),
    ensures
        0 <= i < names.len() && verdicts[i] && (forall|j: int| 0 <= j < i ==> !verdicts[j])
            ==> resolved(None, None, names, verdicts) == Ok::<Seq<char>, BuildError>(names[i]),
        (forall|j: int| 0 <= j < names.len() ==> !verdicts[j]) ==> resolved(
            None,
            None,
            names,
            verdicts,
        ) == Err::<Seq<char>, BuildError>(BuildError::NoGeneratorFound),
{
    if 0 <= i < names.len() && verdicts[i] && (forall|j: int| 0 <= j < i ==> !verdicts[j]) {
        lemma_first_available_none(verdicts, i);
        lemma_first_available_stays(verdicts, i + 1, names.len() as int);
    }
    if forall|j: int| 0 <= j < names.len() ==> !verdicts[j] {
        lemma_first_available_none(verdicts, names.len() as int);
    }
}

proof fn lemma_first_available_none(verdicts: Seq<bool>, n: int)
    requires
        0 <= n <= verdicts.len(),
        forall|j: int| 0 <= j < n ==> !verdicts[j],
    ensures
        first_available(verdicts, n) is None,
    decreases n,
{
    if n > 0 {
        lemma_first_available_none(verdicts, n - 1);
    }
}

} // verus!
