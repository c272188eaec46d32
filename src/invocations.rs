//! The argument lists handed to the external tools: the build-system
//! generator front end, the flashing tool, the serial monitor and the size
//! report. Paths arrive as text, already joined by the caller.
use vstd::prelude::*;
use crate::chain::strings_view;
use crate::text::{decimal, decimal_string, split_words, words};

verus! {

/// The baud rate for flashing when none is given.
pub const DEFAULT_FLASH_BAUD: u32 = 460800;

/// The baud rate for the serial monitor when none is given.
pub const DEFAULT_MONITOR_BAUD: u32 = 115200;

/// The flash offset of the application image.
pub open spec fn app_offset() -> Seq<char> {
    "0x10000"@
}

/// The flash offset of the bootloader image.
pub open spec fn bootloader_offset() -> Seq<char> {
    "0x1000"@
}

fn push_str(v: &mut Vec<String>, s: &str)
    ensures
        strings_view(final(v)@) == strings_view(old(v)@).push(s@),
{
    v.push(String::from_str(s));
    assert(strings_view(v@) =~= strings_view(old(v)@).push(s@));
}

fn push_string(v: &mut Vec<String>, s: &String)
    ensures
        strings_view(final(v)@) == strings_view(old(v)@).push(s@),
{
    v.push(s.clone());
    assert(strings_view(v@) =~= strings_view(old(v)@).push(s@));
}

fn push_all(v: &mut Vec<String>, extra: &[String])
    ensures
        strings_view(final(v)@) == strings_view(old(v)@) + strings_view(extra@),
{
    let mut i: usize = 0;
    while i < extra.len()
        invariant
            i <= extra@.len(),
            strings_view(v@) == strings_view(old(v)@) + strings_view(extra@).take(i as int),
        decreases extra@.len() - i,
    {
        push_string(v, &extra[i]);
        assert(strings_view(extra@).take(i + 1) =~= strings_view(extra@).take(i as int).push(
            extra@[i as int]@,
        ));
        assert(strings_view(v@) =~= strings_view(old(v)@) + strings_view(extra@).take(i + 1));
        i += 1;
    }
    assert(strings_view(extra@).take(i as int) =~= strings_view(extra@));
}

/// `[flag, value]` when a value is given, else nothing.
pub open spec fn opt_pair(flag: Seq<char>, value: Option<Seq<char>>) -> Seq<Seq<char>> {
    match value {
        Some(v) => seq![flag, v],
        None => seq![],
    }
}

/// `[word]` when `present`, else nothing.
pub open spec fn opt_word(present: bool, word: Seq<char>) -> Seq<Seq<char>> {
    if present {
        seq![word]
    } else {
        seq![]
    }
}

/// The view of an optional string reference.
pub open spec fn opt_ref_view(o: Option<&String>) -> Option<Seq<char>> {
    match o {
        Some(s) => Some(s@),
        None => None,
    }
}

/// The baud rate in use.
pub open spec fn baud_or(baud: Option<u32>, default: u32) -> nat {
    match baud {
        Some(b) => b as nat,
        None => default as nat,
    }
}

/// The arguments that configure a build directory for a project.
pub fn configure_args(
    build_dir: &String,
    project_dir: &String,
    generator: &String,
    cache_entry: Option<&String>,
) -> (r: Vec<String>)
    ensures
        strings_view(r@) == seq!["-B"@, build_dir@, "-S"@, project_dir@, "-G"@, generator@]
            + opt_pair("-D"@, opt_ref_view(cache_entry)),
{
    let mut r: Vec<String> = Vec::new();
    push_str(&mut r, "-B");
    push_string(&mut r, build_dir);
    push_str(&mut r, "-S");
    push_string(&mut r, project_dir);
    push_str(&mut r, "-G");
    push_string(&mut r, generator);
    if let Some(entry) = cache_entry {
        push_str(&mut r, "-D");
        push_string(&mut r, entry);
    }
    assert(strings_view(r@) =~= seq!["-B"@, build_dir@, "-S"@, project_dir@, "-G"@, generator@]
        + opt_pair("-D"@, opt_ref_view(cache_entry)));
    r
}

/// The arguments that build a configured directory; extra arguments go to
/// the generator's tool, after "--".
pub fn build_args(build_dir: &String, verbose: bool, extra: &[String]) -> (r: Vec<String>)
    ensures
        strings_view(r@) == seq!["--build"@, build_dir@] + opt_word(verbose, "--verbose"@) + (if extra@.len()
            > 0 {
            seq!["--"@] + strings_view(extra@)
        } else {
            seq![]
        }),
{
    let mut r: Vec<String> = Vec::new();
    push_str(&mut r, "--build");
    push_string(&mut r, build_dir);
    if verbose {
        push_str(&mut r, "--verbose");
    }
    if extra.len() > 0 {
        push_str(&mut r, "--");
        push_all(&mut r, extra);
    }
    assert(strings_view(r@) =~= seq!["--build"@, build_dir@] + opt_word(verbose, "--verbose"@) + (
    if extra@.len() > 0 {
        seq!["--"@] + strings_view(extra@)
    } else {
        seq![]
    }));
    r
}

/// The arguments that build one target of a configured directory.
pub fn target_args(build_dir: &String, target: &str) -> (r: Vec<String>)
    ensures
        strings_view(r@) == seq!["--build"@, build_dir@, "--target"@, target@],
{
    let mut r: Vec<String> = Vec::new();
    push_str(&mut r, "--build");
    push_string(&mut r, build_dir);
    push_str(&mut r, "--target");
    push_str(&mut r, target);
    assert(strings_view(r@) =~= seq!["--build"@, build_dir@, "--target"@, target@]);
    r
}

/// The arguments that every flashing-tool run starts with.
pub open spec fn esptool_head(esptool: Seq<char>, baud: Option<u32>, port: Option<Seq<char>>) -> Seq<
    Seq<char>,
> {
    seq![esptool, "--chip"@, "auto"@, "--baud"@, decimal(baud_or(baud, DEFAULT_FLASH_BAUD))]
        + opt_pair("--port"@, port)
}

fn esptool_args(esptool: &String, baud: Option<u32>, port: Option<&String>) -> (r: Vec<String>)
    ensures
        strings_view(r@) == esptool_head(esptool@, baud, opt_ref_view(port)),
{
    let rate = match baud {
        Some(b) => b,
        None => DEFAULT_FLASH_BAUD,
    };
    let mut r: Vec<String> = Vec::new();
    push_string(&mut r, esptool);
    push_str(&mut r, "--chip");
    push_str(&mut r, "auto");
    push_str(&mut r, "--baud");
    let rate_text = decimal_string(rate as u128);
    push_string(&mut r, &rate_text);
    if let Some(p) = port {
        push_str(&mut r, "--port");
        push_string(&mut r, p);
    }
    assert(strings_view(r@) =~= esptool_head(esptool@, baud, opt_ref_view(port)));
    r
}

/// The flashing-tool arguments that write the application image: forced
/// and traced writes as asked, then each word of `extra`, then the offset
/// and the image.
pub fn app_flash_args(
    esptool: &String,
    baud: Option<u32>,
    port: Option<&String>,
    force: bool,
    trace: bool,
    extra: Option<&str>,
    app_bin: &String,
) -> (r: Vec<String>)
    ensures
        strings_view(r@) == esptool_head(esptool@, baud, opt_ref_view(port)) + seq!["write_flash"@]
            + opt_word(force, "--force"@) + opt_word(trace, "--trace"@) + (match extra {
            Some(e) => words(e@),
            None => seq![],
        }) + seq![app_offset(), app_bin@],
{
    let mut r = esptool_args(esptool, baud, port);
    push_str(&mut r, "write_flash");
    if force {
        push_str(&mut r, "--force");
    }
    if trace {
        push_str(&mut r, "--trace");
    }
    if let Some(e) = extra {
        let ws = split_words(e);
        assert(strings_view(ws@) == words(e@));
        push_all(&mut r, ws.as_slice());
    }
    let ghost middle = strings_view(r@);
    push_str(&mut r, "0x10000");
    push_string(&mut r, app_bin);
    assert(strings_view(r@) =~= middle + seq![app_offset(), app_bin@]);
    assert(strings_view(r@) =~= esptool_head(esptool@, baud, opt_ref_view(port)) + seq![
        "write_flash"@,
    ] + opt_word(force, "--force"@) + opt_word(trace, "--trace"@) + (match extra {
        Some(e) => words(e@),
        None => seq![],
    }) + seq![app_offset(), app_bin@]);
    r
}

/// The flashing-tool arguments that write the bootloader image.
pub fn bootloader_flash_args(
    esptool: &String,
    baud: Option<u32>,
    port: Option<&String>,
    bootloader_bin: &String,
) -> (r: Vec<String>)
    ensures
        strings_view(r@) == esptool_head(esptool@, baud, opt_ref_view(port)) + seq![
            "write_flash"@,
            bootloader_offset(),
            bootloader_bin@,
        ],
{
    let mut r = esptool_args(esptool, baud, port);
    push_str(&mut r, "write_flash");
    push_str(&mut r, "0x1000");
    push_string(&mut r, bootloader_bin);
    assert(strings_view(r@) =~= esptool_head(esptool@, baud, opt_ref_view(port)) + seq![
        "write_flash"@,
        bootloader_offset(),
        bootloader_bin@,
    ]);
    r
}

/// The flashing-tool arguments that erase the whole flash.
pub fn erase_flash_args(esptool: &String, baud: Option<u32>, port: Option<&String>) -> (r: Vec<
    String,
>)
    ensures
        strings_view(r@) == esptool_head(esptool@, baud, opt_ref_view(port)) + seq![
            "erase_flash"@,
        ],
{
    let mut r = esptool_args(esptool, baud, port);
    push_str(&mut r, "erase_flash");
    r
}

/// The serial monitor's arguments: the port when given, the baud rate, the
/// program's symbols when the caller found them, then the extra arguments.
pub fn monitor_args(
    monitor: &String,
    port: Option<&String>,
    baud: Option<u32>,
    elf: Option<&String>,
    extra: &[String],
) -> (r: Vec<String>)
    ensures
        strings_view(r@) == seq![monitor@] + opt_pair("--port"@, opt_ref_view(port)) + seq![
            "--baud"@,
            decimal(baud_or(baud, DEFAULT_MONITOR_BAUD)),
        ] + (match elf {
            Some(e) => seq![e@],
            None => seq![],
        }) + strings_view(extra@),
{
    let rate = match baud {
        Some(b) => b,
        None => DEFAULT_MONITOR_BAUD,
    };
    let mut r: Vec<String> = Vec::new();
    push_string(&mut r, monitor);
    if let Some(p) = port {
        push_str(&mut r, "--port");
        push_string(&mut r, p);
    }
    push_str(&mut r, "--baud");
    let rate_text = decimal_string(rate as u128);
    push_string(&mut r, &rate_text);
    if let Some(e) = elf {
        push_string(&mut r, e);
    }
    let ghost head = strings_view(r@);
    push_all(&mut r, extra);
    assert(head =~= seq![monitor@] + opt_pair("--port"@, opt_ref_view(port)) + seq![
        "--baud"@,
        decimal(baud_or(baud, DEFAULT_MONITOR_BAUD)),
    ] + (match elf {
        Some(e) => seq![e@],
        None => seq![],
    }));
    r
}

/// The detail that a size report gives.
#[derive(Clone, Copy, Debug, PartialEq, Eq, Structural)]
pub enum SizeReport {
    /// Totals for the whole program.
    Summary,
    /// One line per component (archive).
    Components,
    /// One line per source file.
    Files,
}

/// The option that asks the size tool for `report`.
pub open spec fn report_flag(report: SizeReport) -> Seq<Seq<char>> {
    match report {
        SizeReport::Summary => seq![],
        SizeReport::Components => seq!["--archives"@],
        SizeReport::Files => seq!["--files"@],
    }
}

/// The size tool's arguments for a program.
pub fn size_args(size_tool: &String, report: SizeReport, elf: &String) -> (r: Vec<String>)
    ensures
        strings_view(r@) == seq![size_tool@] + report_flag(report) + seq![elf@],
{
    let mut r: Vec<String> = Vec::new();
    push_string(&mut r, size_tool);
    match report {
        SizeReport::Summary => {},
        SizeReport::Components => push_str(&mut r, "--archives"),
        SizeReport::Files => push_str(&mut r, "--files"),
    }
    push_string(&mut r, elf);
    assert(strings_view(r@) =~= seq![size_tool@] + report_flag(report) + seq![elf@]);
    r
}

/// The environment that tells the flash target of the build system which
/// port and baud rate to use, for as long as that one run lasts.
pub fn flash_environment(port: Option<&String>, baud: Option<u32>) -> (r: Vec<(String, String)>)
    ensures
        r@.map_values(|kv: (String, String)| (kv.0@, kv.1@)) == (match port {
            Some(p) => seq![("ESPPORT"@, p@)],
            None => seq![],
        }) + (match baud {
            Some(b) => seq![("ESPBAUD"@, decimal(b as nat))],
            None => seq![],
        }),
{
    let mut r: Vec<(String, String)> = Vec::new();
    if let Some(p) = port {
        r.push((String::from_str("ESPPORT"), p.clone()));
    }
    let ghost head = r@.map_values(|kv: (String, String)| (kv.0@, kv.1@));
    if let Some(b) = baud {
        r.push((String::from_str("ESPBAUD"), decimal_string(b as u128)));
        assert(r@.map_values(|kv: (String, String)| (kv.0@, kv.1@)) =~= head.push(
            ("ESPBAUD"@, decimal(b as nat)),
        ));
    }
    assert(r@.map_values(|kv: (String, String)| (kv.0@, kv.1@)) =~= (match port {
        Some(p) => seq![("ESPPORT"@, p@)],
        None => seq![],
    }) + (match baud {
        Some(b) => seq![("ESPBAUD"@, decimal(b as nat))],
        None => seq![],
    }));
    r
}

} // verus!
