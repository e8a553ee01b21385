use recall::app::{App, ColorValue, Config, Entry, Page};
use recall::ui::{build_shortcut, build_table, decimal_string, ui, FrameModel};

const PRIMARY: ColorValue = ColorValue::White;
const HIGHLIGHT: ColorValue = ColorValue::Cyan;

fn entry(name: &str, content: &[&str], description: &str) -> Entry {
    Entry {
        name: String::from(name),
        content: content.iter().map(|s| String::from(*s)).collect(),
        description: String::from(description),
    }
}

#[test]
fn empty_shortcut_renders_no_segments() {
    let line = build_shortcut(&Vec::new(), PRIMARY, HIGHLIGHT);
    assert_eq!(line.spans.len(), 0);
    let table = build_table(&vec![entry("e", &[], "still described")], PRIMARY, HIGHLIGHT);
    assert_eq!(table.rows.len(), 1);
    assert_eq!(table.rows[0].shortcut.spans.len(), 0);
    assert_eq!(table.rows[0].description, "still described");
}

#[test]
fn shortcut_alternates_keys_and_separators() {
    let content = vec![String::from("Ctrl"), String::from("Shift"), String::from("C")];
    let line = build_shortcut(&content, PRIMARY, HIGHLIGHT);
    let texts: Vec<&str> = line.spans.iter().map(|s| s.text.as_str()).collect();
    assert_eq!(texts, vec!["Ctrl", "+", "Shift", "+", "C"]);
    for (i, span) in line.spans.iter().enumerate() {
        if i % 2 == 0 {
            assert_eq!(span.color, HIGHLIGHT);
            assert!(span.bold);
        } else {
            assert_eq!(span.color, PRIMARY);
            assert!(!span.bold);
        }
    }
}

#[test]
fn single_key_shortcut_has_no_separator() {
    let line = build_shortcut(&vec![String::from("q")], PRIMARY, HIGHLIGHT);
    assert_eq!(line.spans.len(), 1);
    assert_eq!(line.spans[0].text, "q");
    assert!(line.spans[0].bold);
}

#[test]
fn column_width_is_the_widest_rendered_shortcut() {
    let entries = vec![
        entry("copy", &["Ctrl", "C"], "copy"),
        entry("paste", &["Ctrl", "Shift", "C"], "paste special"),
        entry("quit", &["q"], "quit"),
    ];
    let table = build_table(&entries, PRIMARY, HIGHLIGHT);
    // "Ctrl+Shift+C" occupies 12 cells; the other shortcuts are shorter.
    assert_eq!(table.shortcut_width, 12);
}

#[test]
fn column_width_counts_wide_characters_as_two_cells() {
    let entries = vec![entry("wide", &["日本"], "wide keys")];
    let table = build_table(&entries, PRIMARY, HIGHLIGHT);
    assert_eq!(table.shortcut_width, 4);
}

#[test]
fn width_of_empty_table_is_zero() {
    let table = build_table(&Vec::new(), PRIMARY, HIGHLIGHT);
    assert_eq!(table.shortcut_width, 0);
    assert_eq!(table.rows.len(), 0);
}

#[test]
fn decimal_rendering_is_exact() {
    assert_eq!(decimal_string(0), "0");
    assert_eq!(decimal_string(7), "7");
    assert_eq!(decimal_string(10), "10");
    assert_eq!(decimal_string(105), "105");
    assert_eq!(decimal_string(98765), "98765");
}

#[test]
fn frame_without_pages_is_the_empty_panel() {
    let config = Config { primary_color: PRIMARY, highlight_color: HIGHLIGHT, pages: Vec::new() };
    let app = App::new(config);
    match ui(&app) {
        FrameModel::Empty { message } => assert_eq!(message, "No configuration loaded"),
        FrameModel::Page { .. } => panic!("expected the empty panel"),
    }
}

#[test]
fn frame_shows_title_table_and_legend() {
    let config = Config {
        primary_color: ColorValue::Indexed(1),
        highlight_color: ColorValue::Indexed(2),
        pages: vec![
            Page {
                name: String::from("General"),
                entries: vec![entry("copy", &["Ctrl", "C"], "Copies")],
            },
            Page { name: String::from("Extra"), entries: Vec::new() },
        ],
    };
    let app = App::new(config);
    match ui(&app) {
        FrameModel::Page { title, table, legend } => {
            assert_eq!(title.spans.len(), 1);
            assert_eq!(title.spans[0].text, "[ General ]");
            assert_eq!(title.spans[0].color, ColorValue::Indexed(2));
            assert!(title.spans[0].bold);

            assert_eq!(table.rows.len(), 1);
            let texts: Vec<&str> =
                table.rows[0].shortcut.spans.iter().map(|s| s.text.as_str()).collect();
            assert_eq!(texts, vec!["Ctrl", "+", "C"]);
            assert_eq!(table.rows[0].description, "Copies");
            assert_eq!(table.shortcut_width, 6);

            let legend_texts: Vec<&str> = legend.spans.iter().map(|s| s.text.as_str()).collect();
            assert_eq!(
                legend_texts,
                vec![
                    " <Left> ",
                    "Previous Page",
                    " <Right>",
                    "Next Page",
                    " <q> ",
                    "Close",
                    " [Page 1 of 2] ",
                ]
            );
            assert_eq!(legend.spans[0].color, ColorValue::Indexed(2));
            assert_eq!(legend.spans[1].color, ColorValue::Indexed(1));
            assert_eq!(legend.spans[6].color, ColorValue::Indexed(2));
            assert!(!legend.spans[6].bold);
        },
        FrameModel::Empty { .. } => panic!("expected a page frame"),
    }
}

#[test]
fn page_counter_follows_navigation() {
    let config = Config {
        primary_color: PRIMARY,
        highlight_color: HIGHLIGHT,
        pages: vec![
            Page { name: String::from("a"), entries: Vec::new() },
            Page { name: String::from("b"), entries: Vec::new() },
            Page { name: String::from("c"), entries: Vec::new() },
        ],
    };
    let mut app = App::new(config);
    app.increment_page();
    app.increment_page();
    match ui(&app) {
        FrameModel::Page { title, legend, .. } => {
            assert_eq!(title.spans[0].text, "[ c ]");
            assert_eq!(legend.spans[6].text, " [Page 3 of 3] ");
        },
        FrameModel::Empty { .. } => panic!("expected a page frame"),
    }
}
