use idf_rs::config::{load_project_config, SdkConfig};

#[test]
fn parse_reads_settings_and_target() {
    let text = "# comment\nCONFIG_IDF_TARGET=\"esp32s3\"\n  FOO = bar \nNOVALUE\n\nBAZ=a=b\r\n";
    let c = SdkConfig::parse_sdkconfig(text);
    assert_eq!(c.get_target(), Some(&"esp32s3".to_string()));
    assert_eq!(c.setting("CONFIG_IDF_TARGET"), Some("\"esp32s3\"".to_string()));
    assert_eq!(c.setting("FOO"), Some("bar".to_string()));
    assert_eq!(c.setting("BAZ"), Some("a=b".to_string()));
    assert_eq!(c.setting("NOVALUE"), None);
    assert_eq!(c.setting("# comment"), None);
}

#[test]
fn later_line_with_same_key_wins() {
    let c = SdkConfig::parse_sdkconfig("A=1\nA=2\nCONFIG_IDF_TARGET=esp32\nCONFIG_IDF_TARGET=\"\"");
    assert_eq!(c.setting("A"), Some("2".to_string()));
    assert_eq!(c.get_target(), Some(&String::new()));
    assert_eq!(c.settings.len(), 2);
}

#[test]
fn unicode_whitespace_is_trimmed() {
    let c = SdkConfig::parse_sdkconfig("\u{3000}KEY\u{a0}=\tvalue\u{2003}");
    assert_eq!(c.setting("KEY"), Some("value".to_string()));
}

#[test]
fn format_sorts_keys() {
    let c = SdkConfig::parse_sdkconfig("B=2\nA=1\nAB=3\n");
    assert_eq!(c.to_sdkconfig_format(), "# ESP-IDF Configuration\n\nA=1\nAB=3\nB=2");
    let empty = load_project_config(None);
    assert_eq!(empty.to_sdkconfig_format(), "# ESP-IDF Configuration\n");
}

#[test]
fn set_target_quotes_chip_name() {
    let mut c = load_project_config(Some("CONFIG_X=y\n"));
    assert_eq!(c.get_target(), None);
    c.set_target("esp32c3");
    assert_eq!(c.get_target(), Some(&"esp32c3".to_string()));
    assert_eq!(
        c.to_sdkconfig_format(),
        "# ESP-IDF Configuration\n\nCONFIG_IDF_TARGET=\"esp32c3\"\nCONFIG_X=y"
    );
    c.set_target("esp32");
    assert_eq!(c.setting("CONFIG_IDF_TARGET"), Some("\"esp32\"".to_string()));
    assert_eq!(c.settings.len(), 2);
}

#[test]
fn missing_file_gives_empty_config() {
    let c = load_project_config(None);
    assert_eq!(c.get_target(), None);
    assert!(c.settings.is_empty());
}

#[test]
fn round_trip_through_text() {
    let mut c = load_project_config(None);
    c.set_target("esp32h2");
    let again = SdkConfig::parse_sdkconfig(&c.to_sdkconfig_format());
    assert_eq!(again.get_target(), Some(&"esp32h2".to_string()));
    assert_eq!(again.settings, c.settings);
}
