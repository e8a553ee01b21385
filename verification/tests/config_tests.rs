use recall::app::ColorValue;
use recall::config::{read_from_config, ConfigError, StartupError};

#[test]
fn round_trip_single_page_single_entry() {
    let text = "[general]\ncopy = {content = [\"Ctrl\",\"C\"], description = \"Copy\"}\n";
    let config = read_from_config(text).unwrap();
    assert_eq!(config.pages.len(), 1);
    let page = &config.pages[0];
    assert_eq!(page.name, "general");
    assert_eq!(page.entries.len(), 1);
    let entry = &page.entries[0];
    assert_eq!(entry.name, "copy");
    assert_eq!(entry.content, vec![String::from("Ctrl"), String::from("C")]);
    assert_eq!(entry.description, "Copy");
}

#[test]
fn missing_global_settings_yields_default_colors() {
    let text = "[general]\ncopy = {content = [\"Ctrl\",\"C\"], description = \"Copy\"}\n";
    let config = read_from_config(text).unwrap();
    assert_eq!(config.primary_color, ColorValue::White);
    assert_eq!(config.highlight_color, ColorValue::Cyan);
}

#[test]
fn empty_document_is_a_valid_config_without_pages() {
    let config = read_from_config("").unwrap();
    assert_eq!(config.pages.len(), 0);
    assert_eq!(config.primary_color, ColorValue::White);
    assert_eq!(config.highlight_color, ColorValue::Cyan);
}

#[test]
fn recall_section_colors_become_indexed() {
    let text = "[recall]\nprimary_color = 15\nhighlight_color = 14\n\n[p]\n";
    let config = read_from_config(text).unwrap();
    assert_eq!(config.primary_color, ColorValue::Indexed(15));
    assert_eq!(config.highlight_color, ColorValue::Indexed(14));
}

#[test]
fn recall_section_with_one_color_keeps_other_default() {
    let text = "[recall]\nhighlight_color = 3\n";
    let config = read_from_config(text).unwrap();
    assert_eq!(config.primary_color, ColorValue::White);
    assert_eq!(config.highlight_color, ColorValue::Indexed(3));
}

#[test]
fn page_order_matches_document_order() {
    let text = "[zeta]\n[alpha]\n[middle]\n";
    let config = read_from_config(text).unwrap();
    let names: Vec<&str> = config.pages.iter().map(|p| p.name.as_str()).collect();
    assert_eq!(names, vec!["zeta", "alpha", "middle"]);
}

#[test]
fn entry_order_matches_document_order() {
    let text = "[p]\nzz = {content = [], description = \"one\"}\naa = {content = [], description = \"two\"}\n";
    let config = read_from_config(text).unwrap();
    let names: Vec<&str> = config.pages[0].entries.iter().map(|e| e.name.as_str()).collect();
    assert_eq!(names, vec!["zz", "aa"]);
}

#[test]
fn empty_shortcut_array_is_accepted() {
    let text = "[p]\nplain = {content = [], description = \"just text\"}\n";
    let config = read_from_config(text).unwrap();
    assert_eq!(config.pages[0].entries[0].content.len(), 0);
    assert_eq!(config.pages[0].entries[0].description, "just text");
}

#[test]
fn malformed_syntax_is_a_parse_error() {
    let r = read_from_config("= = not toml = =");
    match r {
        Err(StartupError::Parse(p)) => assert!(!p.message.is_empty()),
        _ => panic!("expected a parse error"),
    }
}

#[test]
fn duplicate_keys_are_a_parse_error() {
    let r = read_from_config("[a]\n[a]\n");
    assert!(matches!(r, Err(StartupError::Parse(_))));
}

#[test]
fn missing_description_names_page_and_entry() {
    let text = "[mypage]\nmyentry = {content = [\"q\"]}\n";
    match read_from_config(text) {
        Err(StartupError::Config(ConfigError::MissingDescription(page, entry))) => {
            assert_eq!(page, "mypage");
            assert_eq!(entry, "myentry");
        },
        other => panic!("expected MissingDescription, got {:?}", other),
    }
}

#[test]
fn missing_content_names_page_and_entry() {
    let text = "[p1]\ne1 = {description = \"d\"}\n";
    match read_from_config(text) {
        Err(StartupError::Config(ConfigError::MissingContent(page, entry))) => {
            assert_eq!(page, "p1");
            assert_eq!(entry, "e1");
        },
        other => panic!("expected MissingContent, got {:?}", other),
    }
}

#[test]
fn non_string_content_element_is_invalid_content() {
    let text = "[p]\ne = {content = [1, 2], description = \"d\"}\n";
    match read_from_config(text) {
        Err(StartupError::Config(ConfigError::InvalidContent(page, entry))) => {
            assert_eq!(page, "p");
            assert_eq!(entry, "e");
        },
        other => panic!("expected InvalidContent, got {:?}", other),
    }
}

#[test]
fn content_as_plain_string_is_invalid_content() {
    let text = "[p]\ne = {content = \"q\", description = \"d\"}\n";
    assert!(matches!(
        read_from_config(text),
        Err(StartupError::Config(ConfigError::InvalidContent(_, _)))
    ));
}

#[test]
fn non_string_description_is_invalid_description() {
    let text = "[p]\ne = {content = [], description = 7}\n";
    match read_from_config(text) {
        Err(StartupError::Config(ConfigError::InvalidDescription(page, entry))) => {
            assert_eq!(page, "p");
            assert_eq!(entry, "e");
        },
        other => panic!("expected InvalidDescription, got {:?}", other),
    }
}

#[test]
fn scalar_entry_is_entry_not_table() {
    let text = "[p]\ne = 5\n";
    match read_from_config(text) {
        Err(StartupError::Config(ConfigError::EntryNotTable(page, entry))) => {
            assert_eq!(page, "p");
            assert_eq!(entry, "e");
        },
        other => panic!("expected EntryNotTable, got {:?}", other),
    }
}

#[test]
fn scalar_page_is_page_not_table() {
    let text = "badpage = 5\n";
    match read_from_config(text) {
        Err(StartupError::Config(ConfigError::PageNotTable(page))) => {
            assert_eq!(page, "badpage");
        },
        other => panic!("expected PageNotTable, got {:?}", other),
    }
}

#[test]
fn scalar_recall_is_global_not_table() {
    let text = "recall = 5\n";
    assert!(matches!(
        read_from_config(text),
        Err(StartupError::Config(ConfigError::GlobalNotTable))
    ));
}

#[test]
fn out_of_range_primary_color_is_invalid() {
    let text = "[recall]\nprimary_color = 300\n";
    assert!(matches!(
        read_from_config(text),
        Err(StartupError::Config(ConfigError::InvalidPrimaryColor))
    ));
}

#[test]
fn negative_highlight_color_is_invalid() {
    let text = "[recall]\nhighlight_color = -1\n";
    assert!(matches!(
        read_from_config(text),
        Err(StartupError::Config(ConfigError::InvalidHighlightColor))
    ));
}

#[test]
fn non_integer_primary_color_is_invalid() {
    let text = "[recall]\nprimary_color = \"red\"\n";
    assert!(matches!(
        read_from_config(text),
        Err(StartupError::Config(ConfigError::InvalidPrimaryColor))
    ));
}

#[test]
fn first_offending_section_wins() {
    let text = "[good]\nok = {content = [], description = \"fine\"}\n[bad1]\ne = {content = []}\n[bad2]\nf = 1\n";
    match read_from_config(text) {
        Err(StartupError::Config(ConfigError::MissingDescription(page, entry))) => {
            assert_eq!(page, "bad1");
            assert_eq!(entry, "e");
        },
        other => panic!("expected the first bad section to be reported, got {:?}", other),
    }
}

#[test]
fn extra_fields_in_recall_are_ignored() {
    let text = "[recall]\nprimary_color = 1\nsomething_else = \"x\"\n";
    let config = read_from_config(text).unwrap();
    assert_eq!(config.primary_color, ColorValue::Indexed(1));
}

#[test]
fn color_bounds_are_inclusive() {
    let text = "[recall]\nprimary_color = 0\nhighlight_color = 255\n";
    let config = read_from_config(text).unwrap();
    assert_eq!(config.primary_color, ColorValue::Indexed(0));
    assert_eq!(config.highlight_color, ColorValue::Indexed(255));
}

#[test]
fn color_just_above_range_is_invalid() {
    let text = "[recall]\nhighlight_color = 256\n";
    assert!(matches!(
        read_from_config(text),
        Err(StartupError::Config(ConfigError::InvalidHighlightColor))
    ));
}

#[test]
fn extra_fields_in_entries_are_ignored() {
    let text = "[p]\ne = {content = [\"a\"], description = \"d\", extra = 1}\n";
    let config = read_from_config(text).unwrap();
    assert_eq!(config.pages[0].entries[0].content, vec![String::from("a")]);
    assert_eq!(config.pages[0].entries[0].description, "d");
}
