use uaparser::Error;
use uaparser::DeviceOverrideRule;
use uaparser::DeviceParserEntry;
use uaparser::OSParserEntry;
use uaparser::OverrideScope;
use uaparser::OverrideTarget;
use uaparser::RegexFile;
use uaparser::UserAgentParser;
use uaparser::UserAgentParserEntry;

fn empty_file() -> RegexFile {
    RegexFile { device_parsers: vec![], os_parsers: vec![], user_agent_parsers: vec![] }
}

fn ua_entry(regex: &str, family: Option<&str>) -> UserAgentParserEntry {
    UserAgentParserEntry {
        regex: regex.to_string(),
        family_replacement: family.map(|s| s.to_string()),
        v1_replacement: None,
        v2_replacement: None,
        v3_replacement: None,
    }
}

fn os_entry(regex: &str, family: Option<&str>) -> OSParserEntry {
    OSParserEntry {
        regex: regex.to_string(),
        os_replacement: family.map(|s| s.to_string()),
        os_v1_replacement: None,
        os_v2_replacement: None,
        os_v3_replacement: None,
        os_v4_replacement: None,
    }
}

fn device_entry(regex: &str) -> DeviceParserEntry {
    DeviceParserEntry {
        regex: regex.to_string(),
        device_replacement: None,
        brand_replacement: None,
        model_replacement: None,
        overrides: vec![],
    }
}

#[test]
fn empty_parser_returns_defaults() {
    let parser = UserAgentParser::try_from(empty_file()).unwrap();
    let client = parser.parse("");
    assert_eq!(client.device.family, None);
    assert_eq!(client.device.brand, None);
    assert_eq!(client.device.model, None);
    assert_eq!(client.os.family, None);
    assert_eq!(client.os.major, None);
    assert_eq!(client.os.minor, None);
    assert_eq!(client.os.patch, None);
    assert_eq!(client.os.patch_minor, None);
    assert_eq!(client.user_agent.family, None);
    assert_eq!(client.user_agent.major, None);
    assert_eq!(client.user_agent.minor, None);
    assert_eq!(client.user_agent.patch, None);
}

#[test]
fn control_bytes_input_is_handled() {
    let mut file = empty_file();
    file.user_agent_parsers.push(ua_entry("(Chrome)", None));
    let parser = UserAgentParser::try_from(file).unwrap();
    let ua = parser.parse_user_agent("\u{0}\u{1}\u{7f}\u{10}abc");
    assert_eq!(ua.family, None);
    let ua2 = parser.parse_user_agent("\u{0}Chrome\u{1}");
    assert_eq!(ua2.family, Some("Chrome".to_string()));
}

#[test]
fn no_match_returns_default() {
    let mut file = empty_file();
    file.user_agent_parsers.push(ua_entry("Chrome", Some("Chrome")));
    let parser = UserAgentParser::try_from(file).unwrap();
    let ua = parser.parse_user_agent("Firefox/89.0");
    assert_eq!(ua.family, None);
    assert_eq!(ua.major, None);
    assert_eq!(ua.minor, None);
    assert_eq!(ua.patch, None);
}

#[test]
fn first_match_wins() {
    let mut file = empty_file();
    file.user_agent_parsers.push(ua_entry("(Chrome)", None));
    file.user_agent_parsers.push(ua_entry("Chrome/(\\d+)", Some("Second")));
    let parser = UserAgentParser::try_from(file).unwrap();
    let ua = parser.parse_user_agent("Chrome/91");
    assert_eq!(ua.family, Some("Chrome".to_string()));
}

#[test]
fn first_match_wins_regardless_of_specificity() {
    let mut file = empty_file();
    file.user_agent_parsers.push(ua_entry("Chrome", Some("Generic")));
    file.user_agent_parsers.push(ua_entry("Chrome/91\\.0", Some("Specific")));
    let parser = UserAgentParser::try_from(file).unwrap();
    let ua = parser.parse_user_agent("Chrome/91.0");
    assert_eq!(ua.family, Some("Generic".to_string()));
}

#[test]
fn template_substitution_two_groups() {
    let mut file = empty_file();
    file.user_agent_parsers.push(ua_entry("(Chrome)/(\\d+)", Some("$1 $2")));
    let parser = UserAgentParser::try_from(file).unwrap();
    let ua = parser.parse_user_agent("Chrome/91");
    assert_eq!(ua.family, Some("Chrome 91".to_string()));
}

#[test]
fn template_nonparticipating_group_yields_empty_portion() {
    let mut file = empty_file();
    file.user_agent_parsers.push(ua_entry("(Chrome)/(\\d+)", Some("v$3")));
    let parser = UserAgentParser::try_from(file).unwrap();
    let ua = parser.parse_user_agent("Chrome/91");
    assert_eq!(ua.family, Some("v".to_string()));
}

#[test]
fn template_only_missing_group_is_absent() {
    let mut file = empty_file();
    file.user_agent_parsers.push(ua_entry("(Chrome)/(\\d+)", Some("$3")));
    let parser = UserAgentParser::try_from(file).unwrap();
    let ua = parser.parse_user_agent("Chrome/91");
    assert_eq!(ua.family, None);
}

#[test]
fn whitespace_only_field_is_absent() {
    let mut file = empty_file();
    file.user_agent_parsers.push(ua_entry("( *)Chrome", Some("$1")));
    let parser = UserAgentParser::try_from(file).unwrap();
    let ua = parser.parse_user_agent("   Chrome");
    assert_eq!(ua.family, None);
}

#[test]
fn nonparticipating_default_group_is_absent() {
    let mut file = empty_file();
    file.user_agent_parsers.push(ua_entry("(a)|(b)", None));
    let parser = UserAgentParser::try_from(file).unwrap();
    let ua = parser.parse_user_agent("b");
    assert_eq!(ua.family, None);
}

#[test]
fn malformed_os_regex_fails_construction() {
    let mut file = empty_file();
    file.os_parsers.push(os_entry("(", None));
    match UserAgentParser::try_from(file) {
        Err(Error::OS(p)) => assert_eq!(p, "(".to_string()),
        _ => panic!("expected an operating-system construction error"),
    }
}

#[test]
fn malformed_user_agent_regex_fails_construction() {
    let mut file = empty_file();
    file.user_agent_parsers.push(ua_entry("Chrome", None));
    file.user_agent_parsers.push(ua_entry("[", None));
    match UserAgentParser::try_from(file) {
        Err(Error::UserAgent(p)) => assert_eq!(p, "[".to_string()),
        _ => panic!("expected a user-agent construction error"),
    }
}

#[test]
fn device_family_reported_before_os_family() {
    let mut file = empty_file();
    file.device_parsers.push(device_entry("("));
    file.os_parsers.push(os_entry("[", None));
    match UserAgentParser::try_from(file) {
        Err(Error::Device(p)) => assert_eq!(p, "(".to_string()),
        _ => panic!("expected a device construction error"),
    }
}

#[test]
fn malformed_override_regex_fails_construction() {
    let mut file = empty_file();
    let mut entry = device_entry("(iPhone)");
    entry.overrides.push(DeviceOverrideRule {
        target: OverrideTarget::Brand,
        scope: OverrideScope::Input,
        regex: "(".to_string(),
        replacement: "Apple".to_string(),
    });
    file.device_parsers.push(entry);
    match UserAgentParser::try_from(file) {
        Err(Error::Device(p)) => assert_eq!(p, "(".to_string()),
        _ => panic!("expected a device construction error"),
    }
}

#[test]
fn end_to_end_chrome_on_windows() {
    let input = "Mozilla/5.0 (Windows NT 10.0; Win64; x64) AppleWebKit/537.36 \
                 (KHTML, like Gecko) Chrome/91.0.4472.124 Safari/537.36";
    let mut file = empty_file();
    file.user_agent_parsers.push(UserAgentParserEntry {
        regex: "(Chrome)/(\\d+)\\.(\\d+)\\.(\\d+)".to_string(),
        family_replacement: None,
        v1_replacement: None,
        v2_replacement: None,
        v3_replacement: None,
    });
    file.os_parsers.push(OSParserEntry {
        regex: "(Windows) NT (\\d+)\\.(\\d+)".to_string(),
        os_replacement: None,
        os_v1_replacement: None,
        os_v2_replacement: None,
        os_v3_replacement: None,
        os_v4_replacement: None,
    });
    let parser = UserAgentParser::try_from(file).unwrap();
    let client = parser.parse(input);
    assert_eq!(client.user_agent.family, Some("Chrome".to_string()));
    assert_eq!(client.user_agent.major, Some("91".to_string()));
    assert_eq!(client.user_agent.minor, Some("0".to_string()));
    assert_eq!(client.user_agent.patch, Some("4472".to_string()));
    assert_eq!(client.os.family, Some("Windows".to_string()));
    assert_eq!(client.os.major, Some("10".to_string()));
    assert_eq!(client.device.family, None);
    assert_eq!(client.device.brand, None);
    assert_eq!(client.device.model, None);
}

#[test]
fn os_versions_come_from_groups_two_to_five() {
    let mut file = empty_file();
    file.os_parsers.push(os_entry("(iOS) (\\d+)\\.(\\d+)\\.(\\d+)\\.(\\d+)", None));
    let parser = UserAgentParser::try_from(file).unwrap();
    let os = parser.parse_os("iOS 14.4.2.1");
    assert_eq!(os.family, Some("iOS".to_string()));
    assert_eq!(os.major, Some("14".to_string()));
    assert_eq!(os.minor, Some("4".to_string()));
    assert_eq!(os.patch, Some("2".to_string()));
    assert_eq!(os.patch_minor, Some("1".to_string()));
}

#[test]
fn device_base_extraction_uses_group_one() {
    let mut file = empty_file();
    file.device_parsers.push(device_entry("(iPhone)"));
    let parser = UserAgentParser::try_from(file).unwrap();
    let device = parser.parse_device("an iPhone here");
    assert_eq!(device.family, Some("iPhone".to_string()));
    assert_eq!(device.model, Some("iPhone".to_string()));
    assert_eq!(device.brand, None);
}

#[test]
fn device_templates_override_default_groups() {
    let mut file = empty_file();
    let mut entry = device_entry("(iPhone)(\\d+)");
    entry.device_replacement = Some("$1 $2".to_string());
    entry.brand_replacement = Some("Apple".to_string());
    entry.model_replacement = Some("$1".to_string());
    file.device_parsers.push(entry);
    let parser = UserAgentParser::try_from(file).unwrap();
    let device = parser.parse_device("iPhone12");
    assert_eq!(device.family, Some("iPhone 12".to_string()));
    assert_eq!(device.brand, Some("Apple".to_string()));
    assert_eq!(device.model, Some("iPhone".to_string()));
}

#[test]
fn device_override_on_input_sets_brand() {
    let mut file = empty_file();
    let mut entry = device_entry("(iPhone)");
    entry.overrides.push(DeviceOverrideRule {
        target: OverrideTarget::Brand,
        scope: OverrideScope::Input,
        regex: "iPhone".to_string(),
        replacement: "Apple".to_string(),
    });
    file.device_parsers.push(entry);
    let parser = UserAgentParser::try_from(file).unwrap();
    let device = parser.parse_device("iPhone");
    assert_eq!(device.brand, Some("Apple".to_string()));
    assert_eq!(device.family, Some("iPhone".to_string()));
}

#[test]
fn device_override_on_extracted_text_refines_model() {
    let mut file = empty_file();
    let mut entry = device_entry("(iPhone)");
    entry.overrides.push(DeviceOverrideRule {
        target: OverrideTarget::Model,
        scope: OverrideScope::Extracted,
        regex: "i(Ph)one".to_string(),
        replacement: "$1x".to_string(),
    });
    file.device_parsers.push(entry);
    let parser = UserAgentParser::try_from(file).unwrap();
    let device = parser.parse_device("iPhone");
    assert_eq!(device.model, Some("Phx".to_string()));
}

#[test]
fn device_override_without_match_leaves_value() {
    let mut file = empty_file();
    let mut entry = device_entry("(iPhone)");
    entry.overrides.push(DeviceOverrideRule {
        target: OverrideTarget::Model,
        scope: OverrideScope::Extracted,
        regex: "Android".to_string(),
        replacement: "other".to_string(),
    });
    file.device_parsers.push(entry);
    let parser = UserAgentParser::try_from(file).unwrap();
    let device = parser.parse_device("iPhone");
    assert_eq!(device.model, Some("iPhone".to_string()));
}

#[test]
fn usable_after_independent_families() {
    let mut file = empty_file();
    file.user_agent_parsers.push(ua_entry("(Safari)", None));
    file.os_parsers.push(os_entry("(Android)", None));
    let parser = UserAgentParser::try_from(file).unwrap();
    let client = parser.parse("Safari on Android");
    assert_eq!(client.user_agent.family, Some("Safari".to_string()));
    assert_eq!(client.os.family, Some("Android".to_string()));
    assert_eq!(client.device.family, None);
}

#[test]
fn version_templates_substitute_too() {
    let mut file = empty_file();
    file.user_agent_parsers.push(UserAgentParserEntry {
        regex: "Browser/(\\d+)\\.(\\d+)".to_string(),
        family_replacement: Some("Browser".to_string()),
        v1_replacement: Some("$1".to_string()),
        v2_replacement: Some("0$2".to_string()),
        v3_replacement: Some("7".to_string()),
    });
    let parser = UserAgentParser::try_from(file).unwrap();
    let ua = parser.parse_user_agent("Browser/9.4");
    assert_eq!(ua.family, Some("Browser".to_string()));
    assert_eq!(ua.major, Some("9".to_string()));
    assert_eq!(ua.minor, Some("04".to_string()));
    assert_eq!(ua.patch, Some("7".to_string()));
}

#[test]
fn empty_literal_template_is_absent() {
    let mut file = empty_file();
    file.user_agent_parsers.push(ua_entry("Chrome", Some("")));
    let parser = UserAgentParser::try_from(file).unwrap();
    let ua = parser.parse_user_agent("Chrome");
    assert_eq!(ua.family, None);
}

#[test]
fn template_group_beyond_regex_is_absent() {
    let mut file = empty_file();
    file.user_agent_parsers.push(ua_entry("(Chrome)/(\\d+)", Some("$5")));
    let parser = UserAgentParser::try_from(file).unwrap();
    let ua = parser.parse_user_agent("Chrome/91");
    assert_eq!(ua.family, None);
}
