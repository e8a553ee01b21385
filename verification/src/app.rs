//! Application state: the domain model (pages, entries, theme colors) and the
//! navigation state machine (current page index, running/quitting lifecycle).
//!
//! The state machine is deliberately small: the index moves by one at a time,
//! never wraps, and never leaves `[0, pages.len() - 1]`; the `Quitting` state
//! is absorbing and always carries a reason.

use vstd::prelude::*;

verus! {

/// A color as the theme speaks of it: one of the two built-in defaults, or an
/// 8-bit ANSI table index taken from the configuration.
#[derive(Clone, Copy, Debug, PartialEq, Eq, Structural)]
pub enum ColorValue {
    White,
    Cyan,
    Indexed(u8),
}

/// The default primary UI color.
pub const DEFAULT_PRIMARY_COLOR: ColorValue = ColorValue::White;

/// The default secondary/highlight UI color.
pub const DEFAULT_SECONDARY_COLOR: ColorValue = ColorValue::Cyan;

/// Represents the application state.
#[derive(Debug)]
pub enum AppState {
    /// The application is running normally.
    Running,
    /// The application is quitting, with an associated reason.
    Quitting(QuitReason),
}

/// Enumerates reasons for quitting the application.
#[derive(Debug)]
pub enum QuitReason {
    /// The process received a SIGINT signal (e.g. Ctrl+C).
    Sigint,
    /// A designated "close" key was pressed.
    CloseKeyPressed,
    /// A subcommand (e.g. `init`) completed and caused the app to exit.
    InitSubcommandCompleted,
    /// Any other cause, described in words.
    Other(String),
}

/// Holds runtime configuration data including UI colors and pages.
#[derive(Debug)]
pub struct Config {
    /// Primary UI color.
    pub primary_color: ColorValue,
    /// Highlight color for specific UI elements.
    pub highlight_color: ColorValue,
    /// All pages that the application can display.
    pub pages: Vec<Page>,
}

/// Represents a logical page in the application, consisting of a name and
/// content entries.
#[derive(Debug)]
pub struct Page {
    /// The name or title of the page.
    pub name: String,
    /// Entries or items shown on the page.
    pub entries: Vec<Entry>,
}

/// Represents a content entry on a page.
#[derive(Debug)]
pub struct Entry {
    /// The name or label of the entry (an identifier, never displayed).
    pub name: String,
    /// The shortcut: an ordered sequence of key tokens.
    pub content: Vec<String>,
    /// A short description of the entry.
    pub description: String,
}

impl Page {
    /// Entry names are identifiers and must not repeat within a page.
    pub open spec fn wf(self) -> bool {
        forall|i: int, j: int|
            0 <= i < j < self.entries@.len() ==> self.entries@[i].name@ != self.entries@[j].name@
    }
}

impl Config {
    /// Page names must be unique, and every page must itself be well formed.
    pub open spec fn wf(self) -> bool {
        &&& forall|i: int, j: int|
            0 <= i < j < self.pages@.len() ==> self.pages@[i].name@ != self.pages@[j].name@
        &&& forall|i: int| 0 <= i < self.pages@.len() ==> (#[trigger] self.pages@[i]).wf()
    }
}

/// Whether a page index is legal for a collection of `n` pages: with no pages
/// the index is pinned at zero, otherwise it stays strictly below `n`.
pub open spec fn nav_in_range(i: nat, n: nat) -> bool {
    if n == 0 {
        i == 0
    } else {
        i < n
    }
}

/// One forward step of the navigation machine: move up by one unless already
/// on the last page (or there are no pages). Never wraps.
pub open spec fn spec_increment(i: nat, n: nat) -> nat {
    if i + 1 < n {
        i + 1
    } else {
        i
    }
}

/// One backward step of the navigation machine: move down by one unless
/// already on the first page. Never wraps, never underflows.
pub open spec fn spec_decrement(i: nat) -> nat {
    if i > 0 {
        (i - 1) as nat
    } else {
        i
    }
}

/// `k` forward steps in a row, starting from index `i` among `n` pages.
pub open spec fn iterate_increment(i: nat, n: nat, k: nat) -> nat
    decreases k,
{
    if k == 0 {
        i
    } else {
        spec_increment(iterate_increment(i, n, (k - 1) as nat), n)
    }
}

/// `k` backward steps in a row, starting from index `i`.
pub open spec fn iterate_decrement(i: nat, k: nat) -> nat
    decreases k,
{
    if k == 0 {
        i
    } else {
        spec_decrement(iterate_decrement(i, (k - 1) as nat))
    }
}

/// Stepping forward or backward never leaves the legal index range,
/// whatever the page count (with zero pages navigation is inert).
pub proof fn lemma_nav_steps_stay_in_range(i: nat, n: nat)
    requires
        nav_in_range(i, n),
    ensures
        nav_in_range(spec_increment(i, n), n),
        nav_in_range(spec_decrement(i), n),
{
}

/// From index `i`, `k` forward steps land on `i + k`, capped at the last
/// page. In particular the index never passes the end.
pub proof fn lemma_iterate_increment(i: nat, n: nat, k: nat)
    requires
        n > 0,
        i < n,
    ensures
        iterate_increment(i, n, k) == if i + k < n {
            i + k
        } else {
            (n - 1) as nat
        },
    decreases k,
{
    if k > 0 {
        lemma_iterate_increment(i, n, (k - 1) as nat);
    }
}

/// From index `i`, `k` backward steps land on `i - k`, capped at the first
/// page. In particular the index never underflows.
pub proof fn lemma_iterate_decrement(i: nat, k: nat)
    ensures
        iterate_decrement(i, k) == if k < i {
            (i - k) as nat
        } else {
            0
        },
    decreases k,
{
    if k > 0 {
        lemma_iterate_decrement(i, (k - 1) as nat);
    }
}

/// Starting from the first of `n` pages, `n - 1` forward steps reach the last
/// page, and one more forward step stays there; symmetrically, from the last
/// page `n - 1` backward steps reach the first page, and one more backward
/// step stays there.
pub proof fn lemma_full_traversal(n: nat)
    requires
        n > 0,
    ensures
        iterate_increment(0, n, (n - 1) as nat) == n - 1,
        spec_increment((n - 1) as nat, n) == n - 1,
        iterate_decrement((n - 1) as nat, (n - 1) as nat) == 0,
        spec_decrement(0) == 0,
{
    lemma_iterate_increment(0, n, (n - 1) as nat);
    lemma_iterate_decrement((n - 1) as nat, (n - 1) as nat);
}

/// Represents the main application, managing state, configuration, and
/// navigation between pages.
#[derive(Debug)]
pub struct App {
    /// Current state of the application (running or quitting).
    pub state: AppState,
    /// Index of the current selected page.
    page_number: usize,
    /// Configuration used to initialize and customize the application.
    config: Config,
}

impl App {
    /// The current page index.
    pub closed spec fn page_index(&self) -> nat {
        self.page_number as nat
    }

    /// The lifecycle state, for use in contracts.
    pub closed spec fn spec_state(&self) -> AppState {
        self.state
    }

    /// The configuration the application was built from.
    pub closed spec fn spec_config(&self) -> Config {
        self.config
    }

    /// The pages of the configuration.
    pub open spec fn spec_pages(&self) -> Seq<Page> {
        self.spec_config().pages@
    }

    /// The page index is always legal for the page count.
    pub open spec fn wf(&self) -> bool {
        nav_in_range(self.page_index(), self.spec_pages().len())
    }

    /// Creates a new application instance from a given configuration.
    pub fn new(config: Config) -> (app: App)
        ensures
            app.spec_state() is Running,
            app.page_index() == 0,
            app.spec_config() == config,
            app.wf(),
    {
        App { state: AppState::Running, page_number: 0, config }
    }

    /// Returns `true` if the application is currently running.
    pub fn is_active(&mut self) -> (active: bool)
        ensures
            *final(self) == *old(self),
            active == (old(self).spec_state() is Running),
    {
        match &self.state {
            AppState::Running => true,
            AppState::Quitting(_) => false,
        }
    }

    /// Transitions the application into the `Quitting` state with the
    /// specified reason. Valid only while running: once the application is
    /// quitting, the state (and its reason) never changes again.
    pub fn quit(&mut self, reason: QuitReason)
        ensures
            old(self).spec_state() is Running ==> final(self).spec_state() == AppState::Quitting(reason),
            old(self).spec_state() is Quitting ==> final(self).spec_state() == old(self).spec_state(),
            final(self).page_index() == old(self).page_index(),
            final(self).spec_config() == old(self).spec_config(),
    {
        if let AppState::Running = &self.state {
            self.state = AppState::Quitting(reason);
        }
    }

    /// Returns the current page number (zero-based index).
    pub fn current_page_number(&self) -> (n: usize)
        ensures
            n == self.page_index(),
    {
        self.page_number
    }

    /// Returns the total number of pages in the application.
    pub fn number_of_pages(&self) -> (n: usize)
        ensures
            n == self.spec_pages().len(),
    {
        self.config.pages.len()
    }

    /// Increments the current page number, unless already on the last page,
    /// there are no pages at all, or the application is quitting.
    pub fn increment_page(&mut self)
        requires
            old(self).wf(),
        ensures
            final(self).wf(),
            final(self).spec_config() == old(self).spec_config(),
            final(self).spec_state() == old(self).spec_state(),
            old(self).spec_state() is Running ==> final(self).page_index() == spec_increment(
                old(self).page_index(),
                old(self).spec_pages().len(),
            ),
            old(self).spec_state() is Quitting ==> final(self).page_index() == old(self).page_index(),
    {
        match &self.state {
            AppState::Quitting(_) => {},
            AppState::Running => {
                let n = self.config.pages.len();
                if n > 0 && self.page_number < n - 1 {
                    self.page_number = self.page_number + 1;
                }
            },
        }
    }

    /// Decrements the current page number, unless already on the first page
    /// or the application is quitting.
    pub fn decrement_page(&mut self)
        requires
            old(self).wf(),
        ensures
            final(self).wf(),
            final(self).spec_config() == old(self).spec_config(),
            final(self).spec_state() == old(self).spec_state(),
            old(self).spec_state() is Running ==> final(self).page_index() == spec_decrement(
                old(self).page_index(),
            ),
            old(self).spec_state() is Quitting ==> final(self).page_index() == old(self).page_index(),
    {
        match &self.state {
            AppState::Quitting(_) => {},
            AppState::Running => {
                if self.page_number > 0 {
                    self.page_number = self.page_number - 1;
                }
            },
        }
    }

    /// Returns a reference to the currently selected page, or `None` when the
    /// configuration has no pages.
    pub fn get_current_page(&self) -> (r: Option<&Page>)
        requires
            self.wf(),
        ensures
            match r {
                Some(p) => self.spec_pages().len() > 0 && *p == self.spec_pages()[self.page_index() as int],
                None => self.spec_pages().len() == 0,
            },
    {
        if self.page_number < self.config.pages.len() {
            Some(&self.config.pages[self.page_number])
        } else {
            None
        }
    }

    /// Returns the primary UI color.
    pub fn primary_color(&self) -> (c: ColorValue)
        ensures
            c == self.spec_config().primary_color,
    {
        self.config.primary_color
    }

    /// Returns the highlight UI color.
    pub fn highlight_color(&self) -> (c: ColorValue)
        ensures
            c == self.spec_config().highlight_color,
    {
        self.config.highlight_color
    }
}

impl QuitReason {
    /// The text that `text` returns for this reason.
    pub open spec fn spec_text(&self) -> Seq<char> {
        match self {
            QuitReason::Sigint => "Received 'SIGINT' signal"@,
            QuitReason::CloseKeyPressed => "'Close' key was pressed"@,
            QuitReason::InitSubcommandCompleted => "'Init' subcommand was completed"@,
            QuitReason::Other(s) => s@,
        }
    }

    /// Returns a human-readable description of the quit reason.
    pub fn text(&self) -> (r: &str)
        ensures
            r@ == self.spec_text(),
    {
        match self {
            QuitReason::Sigint => "Received 'SIGINT' signal",
            QuitReason::CloseKeyPressed => "'Close' key was pressed",
            QuitReason::InitSubcommandCompleted => "'Init' subcommand was completed",
            QuitReason::Other(s) => s.as_str(),
        }
    }
}

} // verus!
