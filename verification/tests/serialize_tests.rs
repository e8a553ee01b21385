use recall::app::{ColorValue, Config, Entry, Page};
use recall::config::{read_from_config, serialize_init_config};

fn example_config() -> Config {
    Config {
        primary_color: ColorValue::White,
        highlight_color: ColorValue::Cyan,
        pages: vec![
            Page {
                name: String::from("General"),
                entries: vec![
                    Entry {
                        name: String::from("Copy"),
                        content: vec![String::from("Ctrl"), String::from("C")],
                        description: String::from("Copies the current selection."),
                    },
                    Entry {
                        name: String::from("RecallClose"),
                        content: vec![String::from("q")],
                        description: String::from("Closes recall"),
                    },
                ],
            },
            Page { name: String::from("EmptyPage"), entries: vec![] },
        ],
    }
}

#[test]
fn example_config_serializes_exactly() {
    let text = serialize_init_config(&example_config());
    let expected = "# Global settings for recall\n[recall]\n# Colors are u8-encoded numbers as per the ANSI Color Table\nprimary_color = 15\nhighlight_color = 14\n\n# Each subtable defines a new page\n# The name of the page is the name of the subtable\n[General]\n# \"Content\" takes an array of strings used as keys needed for a shortcut\n# \"Description\" takes a string used as a description for this entry\nCopy = {content = [\"Ctrl\",\"C\"], description = \"Copies the current selection.\"}\nRecallClose = {content = [\"q\"], description = \"Closes recall\"}\n\n[EmptyPage]\n# Empty tables are also allowed (but useless)\n\n";
    assert_eq!(text, expected);
}

#[test]
fn hints_appear_only_once() {
    let mut config = example_config();
    config.pages.push(Page {
        name: String::from("More"),
        entries: vec![Entry {
            name: String::from("Paste"),
            content: vec![String::from("Ctrl"), String::from("V")],
            description: String::from("Pastes"),
        }],
    });
    config.pages.push(Page { name: String::from("AlsoEmpty"), entries: vec![] });
    let text = serialize_init_config(&config);
    let content_hint = "# \"Content\" takes an array of strings";
    let empty_hint = "# Empty tables are also allowed";
    let subtable_hint = "# Each subtable defines a new page";
    assert_eq!(text.matches(content_hint).count(), 1);
    assert_eq!(text.matches(empty_hint).count(), 1);
    assert_eq!(text.matches(subtable_hint).count(), 1);
}

#[test]
fn serialized_example_reads_back() {
    let text = serialize_init_config(&example_config());
    let config = read_from_config(&text).unwrap();
    assert_eq!(config.primary_color, ColorValue::Indexed(15));
    assert_eq!(config.highlight_color, ColorValue::Indexed(14));
    assert_eq!(config.pages.len(), 2);
    assert_eq!(config.pages[0].name, "General");
    assert_eq!(config.pages[0].entries.len(), 2);
    assert_eq!(config.pages[0].entries[0].name, "Copy");
    assert_eq!(
        config.pages[0].entries[0].content,
        vec![String::from("Ctrl"), String::from("C")]
    );
    assert_eq!(config.pages[0].entries[0].description, "Copies the current selection.");
    assert_eq!(config.pages[1].name, "EmptyPage");
    assert_eq!(config.pages[1].entries.len(), 0);
}

#[test]
fn config_without_pages_serializes_header_only() {
    let config = Config {
        primary_color: ColorValue::White,
        highlight_color: ColorValue::Cyan,
        pages: vec![],
    };
    let text = serialize_init_config(&config);
    let expected = "# Global settings for recall\n[recall]\n# Colors are u8-encoded numbers as per the ANSI Color Table\nprimary_color = 15\nhighlight_color = 14\n\n";
    assert_eq!(text, expected);
}
