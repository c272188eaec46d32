use idf_rs::build_systems::{get_generators, make_generator, HostPlatform};
use idf_rs::resolver::{
    detect_cmake_generator, get_build_generator, get_generator_from_cache, next_probe, BuildError,
};
use idf_rs::text::decimal_string;

#[test]
fn test_generators_order() {
    let generators = get_generators(HostPlatform::OtherUnix);
    let keys: Vec<&String> = generators.iter().map(|(k, _)| k).collect();

    // Ninja should be first (preferred)
    assert_eq!(keys[0], "Ninja");

    // Make sure we have at least 2 generators on non-Windows
    assert!(keys.len() >= 2);
    assert!(keys.iter().any(|k| *k == "Unix Makefiles"));
}

#[test]
fn windows_offers_only_ninja() {
    let generators = get_generators(HostPlatform::Windows);
    assert_eq!(generators.len(), 1);
    assert_eq!(generators[0].0, "Ninja");
    assert_eq!(generators[0].1.version, vec!["ninja".to_string(), "--version".to_string()]);
    assert_eq!(generators[0].1.verbose_flag, "-v");
    assert!(generators[0].1.force_progression);
}

#[test]
fn primary_generator_precedes_fallback() {
    for host in [HostPlatform::OtherUnix, HostPlatform::FreeBsd] {
        let generators = get_generators(host);
        assert_eq!(generators.len(), 2);
        assert_eq!(generators[0].0, "Ninja");
        assert_eq!(generators[1].0, "Unix Makefiles");
    }
}

#[test]
fn make_fallback_runs_two_more_jobs_than_cpus() {
    let generators = get_generators(HostPlatform::OtherUnix);
    let make = &generators[1].1;
    assert_eq!(make.command[0], "make");
    assert_eq!(make.command[1], "-j");
    let jobs: usize = make.command[2].parse().unwrap();
    assert!(jobs >= 3);
    assert_eq!(make.version, vec!["make".to_string(), "--version".to_string()]);
    assert_eq!(make.dry_run, vec!["make".to_string(), "-n".to_string()]);
    assert_eq!(make.verbose_flag, "VERBOSE=1");
    assert!(!make.force_progression);
    let bsd = get_generators(HostPlatform::FreeBsd);
    assert_eq!(bsd[1].1.command[0], "gmake");
}

#[test]
fn decimal_formatting() {
    assert_eq!(decimal_string(0), "0");
    assert_eq!(decimal_string(7), "7");
    assert_eq!(decimal_string(10), "10");
    assert_eq!(decimal_string(1234), "1234");
}

#[test]
fn cache_records_generator() {
    let text = "CMAKE_GENERATOR:INTERNAL=Ninja\n";
    assert_eq!(get_generator_from_cache(text), Some("Ninja".to_string()));
}

#[test]
fn cache_reads_first_matching_line_only() {
    let text = "# comment\r\nCMAKE_BUILD_TYPE:STRING=Debug\r\nCMAKE_GENERATOR:INTERNAL=Unix Makefiles\r\nCMAKE_GENERATOR:INTERNAL=Ninja\r\n";
    assert_eq!(get_generator_from_cache(text), Some("Unix Makefiles".to_string()));
}

#[test]
fn cache_value_keeps_further_equals_signs() {
    assert_eq!(get_generator_from_cache("CMAKE_GENERATOR:INTERNAL=a=b"), Some("a=b".to_string()));
    assert_eq!(get_generator_from_cache("CMAKE_GENERATOR:INTERNAL="), Some(String::new()));
}

#[test]
fn cache_without_generator_line() {
    assert_eq!(get_generator_from_cache(""), None);
    assert_eq!(get_generator_from_cache("  CMAKE_GENERATOR:INTERNAL=Ninja\n"), None);
    assert_eq!(get_generator_from_cache("CMAKE_GENERATOR=Ninja\nFOO=1"), None);
}

#[test]
fn recorded_generator_wins_over_failed_probes() {
    let generators = get_generators(HostPlatform::OtherUnix);
    let cached = get_generator_from_cache("CMAKE_GENERATOR:INTERNAL=Ninja\n");
    assert_eq!(next_probe(None, cached.as_ref(), &generators, &vec![]), None);
    let r = get_build_generator(None, cached.as_ref(), &generators, &vec![false, false]);
    assert_eq!(r, Ok("Ninja".to_string()));
}

#[test]
fn explicit_generator_is_used_verbatim() {
    let generators = get_generators(HostPlatform::OtherUnix);
    let x = "X".to_string();
    let cached = "Ninja".to_string();
    assert_eq!(next_probe(Some(&x), None, &generators, &vec![]), None);
    assert_eq!(
        get_build_generator(Some(&x), Some(&cached), &generators, &vec![false, false]),
        Ok("X".to_string())
    );
    assert_eq!(get_build_generator(Some(&x), None, &generators, &vec![]), Ok("X".to_string()));
}

#[test]
fn first_installed_generator_is_detected() {
    let generators = get_generators(HostPlatform::OtherUnix);
    assert_eq!(next_probe(None, None, &generators, &vec![]), Some(0));
    assert_eq!(next_probe(None, None, &generators, &vec![false]), Some(1));
    assert_eq!(next_probe(None, None, &generators, &vec![true]), None);
    assert_eq!(next_probe(None, None, &generators, &vec![false, false]), None);
    assert_eq!(
        get_build_generator(None, None, &generators, &vec![false, true]),
        Ok("Unix Makefiles".to_string())
    );
    assert_eq!(detect_cmake_generator(&generators, &vec![true]), Ok("Ninja".to_string()));
    assert_eq!(detect_cmake_generator(&generators, &vec![true, true]), Ok("Ninja".to_string()));
}

#[test]
fn no_installed_generator_is_an_error() {
    let generators = get_generators(HostPlatform::OtherUnix);
    let r = get_build_generator(None, None, &generators, &vec![false, false]);
    assert_eq!(r, Err(BuildError::NoGeneratorFound));
    let m = BuildError::NoGeneratorFound.message();
    assert!(m.contains("'ninja'") && m.contains("'make'"));
    let windows = get_generators(HostPlatform::Windows);
    assert_eq!(detect_cmake_generator(&windows, &vec![false]), Err(BuildError::NoGeneratorFound));
}

#[test]
fn make_generator_with_four_cpus_runs_six_jobs() {
    let g = make_generator("gmake", 4);
    assert_eq!(g.command, vec!["gmake".to_string(), "-j".to_string(), "6".to_string()]);
    assert_eq!(g.version, vec!["gmake".to_string(), "--version".to_string()]);
    assert_eq!(g.dry_run, vec!["gmake".to_string(), "-n".to_string()]);
    assert_eq!(g.verbose_flag, "VERBOSE=1");
    assert!(!g.force_progression);
    assert_eq!(make_generator("make", 10).command[2], "12");
}
