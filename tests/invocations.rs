use idf_rs::invocations::{
    app_flash_args, bootloader_flash_args, build_args, configure_args, erase_flash_args,
    flash_environment, monitor_args, size_args, target_args, SizeReport,
};
use idf_rs::text::split_words;

fn v(items: &[&str]) -> Vec<String> {
    items.iter().map(|s| s.to_string()).collect()
}

fn s(x: &str) -> String {
    x.to_string()
}

#[test]
fn configure_with_and_without_cache_entry() {
    assert_eq!(
        configure_args(&s("/p/build"), &s("/p"), &s("Ninja"), None),
        v(&["-B", "/p/build", "-S", "/p", "-G", "Ninja"])
    );
    assert_eq!(
        configure_args(&s("b"), &s("p"), &s("Unix Makefiles"), Some(&s("FOO=1"))),
        v(&["-B", "b", "-S", "p", "-G", "Unix Makefiles", "-D", "FOO=1"])
    );
}

#[test]
fn build_passes_extra_arguments_after_separator() {
    assert_eq!(build_args(&s("b"), false, &[]), v(&["--build", "b"]));
    assert_eq!(
        build_args(&s("b"), true, &v(&["-k", "0"])),
        v(&["--build", "b", "--verbose", "--", "-k", "0"])
    );
    assert_eq!(target_args(&s("b"), "flash"), v(&["--build", "b", "--target", "flash"]));
}

#[test]
fn app_flash_uses_default_baud_and_splits_extra_words() {
    assert_eq!(
        app_flash_args(&s("esptool.py"), None, None, false, false, None, &s("b/app.bin")),
        v(&["esptool.py", "--chip", "auto", "--baud", "460800", "write_flash", "0x10000", "b/app.bin"])
    );
    assert_eq!(
        app_flash_args(
            &s("e"),
            Some(921600),
            Some(&s("/dev/ttyUSB0")),
            true,
            true,
            Some("  --flash_mode dio\t-z "),
            &s("a.bin")
        ),
        v(&[
            "e", "--chip", "auto", "--baud", "921600", "--port", "/dev/ttyUSB0", "write_flash",
            "--force", "--trace", "--flash_mode", "dio", "-z", "0x10000", "a.bin"
        ])
    );
}

#[test]
fn bootloader_flash_and_erase() {
    assert_eq!(
        bootloader_flash_args(&s("e"), Some(115200), None, &s("b/bootloader/bootloader.bin")),
        v(&[
            "e", "--chip", "auto", "--baud", "115200", "write_flash", "0x1000",
            "b/bootloader/bootloader.bin"
        ])
    );
    assert_eq!(
        erase_flash_args(&s("e"), None, Some(&s("COM3"))),
        v(&["e", "--chip", "auto", "--baud", "460800", "--port", "COM3", "erase_flash"])
    );
}

#[test]
fn monitor_defaults_to_115200() {
    assert_eq!(monitor_args(&s("m.py"), None, None, None, &[]), v(&["m.py", "--baud", "115200"]));
    assert_eq!(
        monitor_args(&s("m.py"), Some(&s("COM3")), Some(9600), Some(&s("p.elf")), &v(&["-x"])),
        v(&["m.py", "--port", "COM3", "--baud", "9600", "p.elf", "-x"])
    );
}

#[test]
fn size_report_options() {
    assert_eq!(size_args(&s("t"), SizeReport::Summary, &s("a.elf")), v(&["t", "a.elf"]));
    assert_eq!(
        size_args(&s("t"), SizeReport::Components, &s("a.elf")),
        v(&["t", "--archives", "a.elf"])
    );
    assert_eq!(size_args(&s("t"), SizeReport::Files, &s("a.elf")), v(&["t", "--files", "a.elf"]));
}

#[test]
fn flash_environment_variables() {
    assert!(flash_environment(None, None).is_empty());
    assert_eq!(
        flash_environment(Some(&s("COM3")), Some(115200)),
        vec![(s("ESPPORT"), s("COM3")), (s("ESPBAUD"), s("115200"))]
    );
    assert_eq!(flash_environment(None, Some(4)), vec![(s("ESPBAUD"), s("4"))]);
}

#[test]
fn words_split_on_any_whitespace() {
    assert_eq!(split_words(""), Vec::<String>::new());
    assert_eq!(split_words(" \t\n "), Vec::<String>::new());
    assert_eq!(split_words("a"), v(&["a"]));
    assert_eq!(split_words("  a  b\u{3000}c\r\n"), v(&["a", "b", "c"]));
}
