use recall::app::{App, AppState, ColorValue, Config, Entry, Page, QuitReason};

fn page(name: &str, entries: Vec<Entry>) -> Page {
    Page { name: String::from(name), entries }
}

fn config_with_pages(n: usize) -> Config {
    let mut pages = Vec::new();
    let mut i = 0;
    while i < n {
        pages.push(page(&format!("page{}", i), Vec::new()));
        i += 1;
    }
    Config {
        primary_color: ColorValue::White,
        highlight_color: ColorValue::Cyan,
        pages,
    }
}

#[test]
fn starts_running_at_first_page() {
    let mut app = App::new(config_with_pages(3));
    assert!(app.is_active());
    assert_eq!(app.current_page_number(), 0);
    assert_eq!(app.number_of_pages(), 3);
}

#[test]
fn increments_reach_last_page_and_stick() {
    let n = 5;
    let mut app = App::new(config_with_pages(n));
    for expected in 1..n {
        app.increment_page();
        assert_eq!(app.current_page_number(), expected);
    }
    assert_eq!(app.current_page_number(), n - 1);
    app.increment_page();
    assert_eq!(app.current_page_number(), n - 1);
}

#[test]
fn decrements_reach_first_page_and_stick() {
    let n = 5;
    let mut app = App::new(config_with_pages(n));
    for _ in 1..n {
        app.increment_page();
    }
    assert_eq!(app.current_page_number(), n - 1);
    for step in 1..n {
        app.decrement_page();
        assert_eq!(app.current_page_number(), n - 1 - step);
    }
    assert_eq!(app.current_page_number(), 0);
    app.decrement_page();
    assert_eq!(app.current_page_number(), 0);
}

#[test]
fn index_stays_in_range_over_mixed_walk() {
    let n = 3;
    let mut app = App::new(config_with_pages(n));
    let walk = [1, 1, 1, 1, 0, 0, 0, 0, 0, 1, 0, 1, 1];
    for step in walk {
        if step == 1 {
            app.increment_page();
        } else {
            app.decrement_page();
        }
        assert!(app.current_page_number() < n);
    }
}

#[test]
fn navigation_is_inert_without_pages() {
    let mut app = App::new(config_with_pages(0));
    assert_eq!(app.number_of_pages(), 0);
    app.increment_page();
    assert_eq!(app.current_page_number(), 0);
    app.decrement_page();
    assert_eq!(app.current_page_number(), 0);
    assert!(app.get_current_page().is_none());
}

#[test]
fn quit_carries_exact_reason_and_is_absorbing() {
    let mut app = App::new(config_with_pages(2));
    app.quit(QuitReason::CloseKeyPressed);
    assert!(!app.is_active());
    assert!(matches!(app.state, AppState::Quitting(QuitReason::CloseKeyPressed)));
    app.quit(QuitReason::Sigint);
    assert!(matches!(app.state, AppState::Quitting(QuitReason::CloseKeyPressed)));
    app.increment_page();
    assert_eq!(app.current_page_number(), 0);
}

#[test]
fn get_current_page_follows_index() {
    let mut app = App::new(config_with_pages(2));
    assert_eq!(app.get_current_page().unwrap().name, "page0");
    app.increment_page();
    assert_eq!(app.get_current_page().unwrap().name, "page1");
}

#[test]
fn colors_come_from_config() {
    let mut config = config_with_pages(1);
    config.primary_color = ColorValue::Indexed(10);
    config.highlight_color = ColorValue::Indexed(20);
    let app = App::new(config);
    assert_eq!(app.primary_color(), ColorValue::Indexed(10));
    assert_eq!(app.highlight_color(), ColorValue::Indexed(20));
}

#[test]
fn quit_reason_texts() {
    assert_eq!(QuitReason::Sigint.text(), "Received 'SIGINT' signal");
    assert_eq!(QuitReason::CloseKeyPressed.text(), "'Close' key was pressed");
    assert_eq!(
        QuitReason::InitSubcommandCompleted.text(),
        "'Init' subcommand was completed"
    );
    assert_eq!(QuitReason::Other(String::from("elsewhere")).text(), "elsewhere");
}
