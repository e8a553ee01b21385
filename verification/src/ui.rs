//! The layout engine: from the domain model and the navigation state to a
//! drawable frame.
//!
//! Nothing here touches a terminal. The engine composes plain data — styled
//! spans and lines, table rows, the dynamically sized shortcut column, the
//! legend with its page counter — and an unverified shim turns that into
//! widget calls. Rendering is total: a configuration without pages yields an
//! informational panel, never an error.

use crate::app::{App, ColorValue, Entry};
use vstd::prelude::*;
use vstd::string::StringExecFns;

verus! {

/// One styled fragment of a rendered line.
#[derive(Debug)]
pub struct StyledSpan {
    /// The characters of the fragment.
    pub text: String,
    /// The foreground color.
    pub color: ColorValue,
    /// Whether the fragment is bold. Boldness never changes a width.
    pub bold: bool,
}

/// One rendered line: styled fragments drawn left to right.
#[derive(Debug)]
pub struct StyledLine {
    /// The fragments of the line.
    pub spans: Vec<StyledSpan>,
}

/// One table row: the styled shortcut and the plain description.
#[derive(Debug)]
pub struct TableRow {
    /// The rendered shortcut.
    pub shortcut: StyledLine,
    /// The entry's description.
    pub description: String,
}

/// The table of one page: its rows and the width of the shortcut column,
/// sized to the widest rendered shortcut.
#[derive(Debug)]
pub struct TableModel {
    /// The rows, in entry order.
    pub rows: Vec<TableRow>,
    /// The shortcut column width, in terminal cells.
    pub shortcut_width: usize,
}

/// A drawable frame: either the informational empty state or the current
/// page's titled table with its legend.
#[derive(Debug)]
pub enum FrameModel {
    /// No pages are configured; show a static panel with this message.
    Empty {
        /// The panel's text.
        message: String,
    },
    /// The current page as a bordered, titled table.
    Page {
        /// The page title, centered at the top of the border.
        title: StyledLine,
        /// The two-column table of shortcuts and descriptions.
        table: TableModel,
        /// The navigation legend and page counter, at the bottom border.
        legend: StyledLine,
    },
}

// ---------------------------------------------------------------------------
// Widths
// ---------------------------------------------------------------------------

/// The number of terminal cells a piece of text occupies. Named, not spelled
/// out: the value is fixed by the Unicode tables the width crate applies.
pub uninterp spec fn text_width(s: Seq<char>) -> nat;

/// Relies on `unicode_width::UnicodeWidthStr::width`: the display width of a
/// string in terminal cells, a function of its characters alone; an empty
/// string has width zero.
#[verifier::external_body]
fn str_width(s: &str) -> (w: usize)
    ensures
        w == text_width(s@),
        s@.len() == 0 ==> w == 0,
{
    unicode_width::UnicodeWidthStr::width(s)
}

/// A mathematical count capped at what a machine word holds.
pub open spec fn sat_usize(n: nat) -> nat {
    if n <= usize::MAX as nat {
        n
    } else {
        usize::MAX as nat
    }
}

/// The width of a sequence of spans: the sum of their texts' widths.
pub open spec fn spans_width(spans: Seq<StyledSpan>) -> nat
    decreases spans.len(),
{
    if spans.len() == 0 {
        0
    } else {
        spans_width(spans.drop_last()) + text_width(spans.last().text@)
    }
}

impl StyledLine {
    /// The width of the line in terminal cells: the sum of its spans'
    /// widths, saturating at the machine limit.
    #[verifier::loop_isolation(false)]
    pub fn width(&self) -> (w: usize)
        ensures
            w == sat_usize(spans_width(self.spans@)),
    {
        let mut w: usize = 0;
        let mut i: usize = 0;
        while i < self.spans.len()
            invariant
                0 <= i <= self.spans@.len(),
                w == sat_usize(spans_width(self.spans@.subrange(0, i as int))),
            decreases self.spans@.len() - i,
        {
            let sw = str_width(self.spans[i].text.as_str());
            proof {
                assert(self.spans@.subrange(0, (i + 1) as int).drop_last() =~= self.spans@.subrange(
                    0,
                    i as int,
                ));
                assert(self.spans@.subrange(0, (i + 1) as int).last() == self.spans@[i as int]);
            }
            w = if w > usize::MAX - sw {
                usize::MAX
            } else {
                w + sw
            };
            i = i + 1;
        }
        proof {
            assert(self.spans@.subrange(0, self.spans@.len() as int) =~= self.spans@);
        }
        w
    }
}

// ---------------------------------------------------------------------------
// Shortcut lines
// ---------------------------------------------------------------------------

/// A key token span: the token's text, bold, in the highlight color.
pub open spec fn is_key_span(s: StyledSpan, text: Seq<char>, highlight: ColorValue) -> bool {
    &&& s.text@ == text
    &&& s.color == highlight
    &&& s.bold
}

/// A separator span: a plain `+` glyph in the primary color, not bold.
pub open spec fn is_sep_span(s: StyledSpan, primary: ColorValue) -> bool {
    &&& s.text@ == "+"@
    &&& s.color == primary
    &&& !s.bold
}

/// An unstyled-weight span of the given text and color, not bold.
pub open spec fn is_plain_span(s: StyledSpan, text: Seq<char>, color: ColorValue) -> bool {
    &&& s.text@ == text
    &&& s.color == color
    &&& !s.bold
}

/// The rendered shape of a shortcut: no tokens give an empty line — zero key
/// segments and zero separators; otherwise key spans stand at the even
/// positions and a separator before every key but the first, so the line
/// alternates key, separator, key, ... , key.
pub open spec fn is_shortcut_line(
    l: StyledLine,
    content: Seq<Seq<char>>,
    primary: ColorValue,
    highlight: ColorValue,
) -> bool {
    if content.len() == 0 {
        l.spans@.len() == 0
    } else {
        &&& l.spans@.len() == 2 * content.len() - 1
        &&& forall|k: int|
            0 <= k < content.len() ==> is_key_span(#[trigger] l.spans@[2 * k], content[k], highlight)
        &&& forall|k: int| 1 <= k < content.len() ==> is_sep_span(#[trigger] l.spans@[2 * k - 1], primary)
    }
}

/// Builds a stylized line from the shortcut tokens: the first token bold in
/// the highlight color, every further token preceded by a plain `+` in the
/// primary color. An empty token list yields an empty line.
#[verifier::loop_isolation(false)]
pub fn build_shortcut(
    content: &Vec<String>,
    primary_color: ColorValue,
    highlight_color: ColorValue,
) -> (l: StyledLine)
    ensures
        is_shortcut_line(l, content.deep_view(), primary_color, highlight_color),
{
    let mut spans: Vec<StyledSpan> = Vec::new();
    if content.len() == 0 {
        return StyledLine { spans };
    }
    spans.push(StyledSpan { text: content[0].clone(), color: highlight_color, bold: true });
    let mut i: usize = 1;
    while i < content.len()
        invariant
            1 <= i <= content@.len(),
            spans@.len() == 2 * i - 1,
            forall|k: int|
                0 <= k < i ==> is_key_span(
                    #[trigger] spans@[2 * k],
                    content.deep_view()[k],
                    highlight_color,
                ),
            forall|k: int| 1 <= k < i ==> is_sep_span(#[trigger] spans@[2 * k - 1], primary_color),
        decreases content@.len() - i,
    {
        spans.push(StyledSpan { text: String::from_str("+"), color: primary_color, bold: false });
        spans.push(StyledSpan { text: content[i].clone(), color: highlight_color, bold: true });
        i = i + 1;
    }
    StyledLine { spans }
}

// ---------------------------------------------------------------------------
// Tables
// ---------------------------------------------------------------------------

/// The widest shortcut of the rows, in terminal cells (each row's width as
/// the saturating sum of its spans); zero when there are no rows.
pub open spec fn rows_max_shortcut_width(rows: Seq<TableRow>) -> nat
    decreases rows.len(),
{
    if rows.len() == 0 {
        0
    } else {
        let rest = rows_max_shortcut_width(rows.drop_last());
        let lw = sat_usize(spans_width(rows.last().shortcut.spans@));
        if lw > rest {
            lw
        } else {
            rest
        }
    }
}

/// The table carries one row per entry, in order: the entry's rendered
/// shortcut and its description; and the shortcut column is exactly as wide
/// as the widest rendered shortcut.
pub open spec fn table_matches(
    t: TableModel,
    entries: Seq<Entry>,
    primary: ColorValue,
    highlight: ColorValue,
) -> bool {
    &&& t.rows@.len() == entries.len()
    &&& forall|i: int|
        0 <= i < entries.len() ==> is_shortcut_line(
            (#[trigger] t.rows@[i]).shortcut,
            entries[i].content.deep_view(),
            primary,
            highlight,
        ) && t.rows@[i].description@ == entries[i].description@
    &&& t.shortcut_width == rows_max_shortcut_width(t.rows@)
}

/// Builds the two-column table for one page's entries: a row per entry, and
/// the shortcut column sized to the widest rendered shortcut. Recomputed per
/// page on every render, so it always reflects the live theme colors.
#[verifier::loop_isolation(false)]
pub fn build_table(
    entries: &Vec<Entry>,
    primary_color: ColorValue,
    highlight_color: ColorValue,
) -> (t: TableModel)
    ensures
        table_matches(t, entries@, primary_color, highlight_color),
{
    let mut maximum_shortcut_length: usize = 0;
    let mut rows: Vec<TableRow> = Vec::new();
    let mut i: usize = 0;
    while i < entries.len()
        invariant
            0 <= i <= entries@.len(),
            rows@.len() == i,
            forall|j: int|
                0 <= j < i ==> is_shortcut_line(
                    (#[trigger] rows@[j]).shortcut,
                    entries@[j].content.deep_view(),
                    primary_color,
                    highlight_color,
                ) && rows@[j].description@ == entries@[j].description@,
            maximum_shortcut_length == rows_max_shortcut_width(rows@),
        decreases entries@.len() - i,
    {
        let ghost prev_rows = rows@;
        let shortcut = build_shortcut(&entries[i].content, primary_color, highlight_color);
        let w = shortcut.width();
        if w > maximum_shortcut_length {
            maximum_shortcut_length = w;
        }
        rows.push(TableRow { shortcut, description: entries[i].description.clone() });
        proof {
            assert(rows@.drop_last() =~= prev_rows);
        }
        i = i + 1;
    }
    TableModel { rows, shortcut_width: maximum_shortcut_length }
}

// ---------------------------------------------------------------------------
// Decimal rendering for the page counter
// ---------------------------------------------------------------------------

/// The character of one decimal digit.
pub open spec fn digit_char(d: nat) -> char {
    if d == 0 {
        '0'
    } else if d == 1 {
        '1'
    } else if d == 2 {
        '2'
    } else if d == 3 {
        '3'
    } else if d == 4 {
        '4'
    } else if d == 5 {
        '5'
    } else if d == 6 {
        '6'
    } else if d == 7 {
        '7'
    } else if d == 8 {
        '8'
    } else {
        '9'
    }
}

/// The decimal digits of `n`, most significant first, no leading zeros.
pub open spec fn spec_decimal(n: nat) -> Seq<char>
    decreases n,
{
    if n < 10 {
        seq![digit_char(n)]
    } else {
        spec_decimal(n / 10).push(digit_char(n % 10))
    }
}

/// One decimal digit as a string slice.
fn digit_str(d: usize) -> (s: &'static str)
    requires
        d < 10,
    ensures
        s@ == seq![digit_char(d as nat)],
{
    proof {
        reveal_strlit("0");
        reveal_strlit("1");
        reveal_strlit("2");
        reveal_strlit("3");
        reveal_strlit("4");
        reveal_strlit("5");
        reveal_strlit("6");
        reveal_strlit("7");
        reveal_strlit("8");
        reveal_strlit("9");
    }
    if d == 0 {
        proof {
            assert("0"@ =~= seq![digit_char(0)]);
        }
        "0"
    } else if d == 1 {
        proof {
            assert("1"@ =~= seq![digit_char(1)]);
        }
        "1"
    } else if d == 2 {
        proof {
            assert("2"@ =~= seq![digit_char(2)]);
        }
        "2"
    } else if d == 3 {
        proof {
            assert("3"@ =~= seq![digit_char(3)]);
        }
        "3"
    } else if d == 4 {
        proof {
            assert("4"@ =~= seq![digit_char(4)]);
        }
        "4"
    } else if d == 5 {
        proof {
            assert("5"@ =~= seq![digit_char(5)]);
        }
        "5"
    } else if d == 6 {
        proof {
            assert("6"@ =~= seq![digit_char(6)]);
        }
        "6"
    } else if d == 7 {
        proof {
            assert("7"@ =~= seq![digit_char(7)]);
        }
        "7"
    } else if d == 8 {
        proof {
            assert("8"@ =~= seq![digit_char(8)]);
        }
        "8"
    } else {
        proof {
            assert("9"@ =~= seq![digit_char(9)]);
        }
        "9"
    }
}

/// Renders `n` in decimal, most significant digit first.
pub fn decimal_string(n: usize) -> (s: String)
    ensures
        s@ == spec_decimal(n as nat),
    decreases n,
{
    let d: usize = n % 10;
    let ds = digit_str(d);
    if n < 10 {
        String::from_str(ds)
    } else {
        let mut s = decimal_string(n / 10);
        s.append(ds);
        proof {
            assert(spec_decimal((n / 10) as nat).push(digit_char((n % 10) as nat)) =~= spec_decimal(
                (n / 10) as nat,
            ) + seq![digit_char((n % 10) as nat)]);
        }
        s
    }
}

// ---------------------------------------------------------------------------
// The frame
// ---------------------------------------------------------------------------

/// The title line: one span, the page name in bracket decoration, bold in
/// the highlight color.
pub open spec fn is_title_line(l: StyledLine, name: Seq<char>, highlight: ColorValue) -> bool {
    &&& l.spans@.len() == 1
    &&& is_key_span(l.spans@[0], "[ "@ + name + " ]"@, highlight)
}

/// The counter text: `[Page i of N]` with a 1-based index, space-padded.
pub open spec fn counter_text(index: nat, total: nat) -> Seq<char> {
    " [Page "@ + spec_decimal(index + 1) + " of "@ + spec_decimal(total) + "] "@
}

/// The legend: the three navigation hints in the highlight color, their
/// action labels in the primary color, then the page counter in the
/// highlight color.
pub open spec fn is_legend_line(
    l: StyledLine,
    primary: ColorValue,
    highlight: ColorValue,
    index: nat,
    total: nat,
) -> bool {
    &&& l.spans@.len() == 7
    &&& is_plain_span(l.spans@[0], " <Left> "@, highlight)
    &&& is_plain_span(l.spans@[1], "Previous Page"@, primary)
    &&& is_plain_span(l.spans@[2], " <Right>"@, highlight)
    &&& is_plain_span(l.spans@[3], "Next Page"@, primary)
    &&& is_plain_span(l.spans@[4], " <q> "@, highlight)
    &&& is_plain_span(l.spans@[5], "Close"@, primary)
    &&& is_plain_span(l.spans@[6], counter_text(index, total), highlight)
}

/// Composes the frame for the current state: with no pages a static
/// informational panel; otherwise the current page's title, its table, and
/// the legend with the 1-based page counter.
pub fn ui(app: &App) -> (f: FrameModel)
    requires
        app.wf(),
    ensures
        match f {
            FrameModel::Empty { message } => app.spec_pages().len() == 0 && message@
                == "No configuration loaded"@,
            FrameModel::Page { title, table, legend } => {
                &&& app.spec_pages().len() > 0
                &&& is_title_line(
                    title,
                    app.spec_pages()[app.page_index() as int].name@,
                    app.spec_config().highlight_color,
                )
                &&& table_matches(
                    table,
                    app.spec_pages()[app.page_index() as int].entries@,
                    app.spec_config().primary_color,
                    app.spec_config().highlight_color,
                )
                &&& is_legend_line(
                    legend,
                    app.spec_config().primary_color,
                    app.spec_config().highlight_color,
                    app.page_index(),
                    app.spec_pages().len(),
                )
            },
        },
{
    let primary = app.primary_color();
    let highlight = app.highlight_color();
    let curr_page = match app.get_current_page() {
        Some(p) => p,
        None => {
            return FrameModel::Empty { message: String::from_str("No configuration loaded") };
        },
    };

    let mut title_text = String::from_str("[ ");
    title_text.append(curr_page.name.as_str());
    title_text.append(" ]");
    let mut title_spans: Vec<StyledSpan> = Vec::new();
    title_spans.push(StyledSpan { text: title_text, color: highlight, bold: true });
    let title = StyledLine { spans: title_spans };

    let table = build_table(&curr_page.entries, primary, highlight);

    let mut counter = String::from_str(" [Page ");
    let number = app.current_page_number();
    let total = app.number_of_pages();
    proof {
        assert(number < total);
    }
    counter.append(decimal_string(number + 1).as_str());
    counter.append(" of ");
    counter.append(decimal_string(total).as_str());
    counter.append("] ");

    let mut legend_spans: Vec<StyledSpan> = Vec::new();
    legend_spans.push(StyledSpan { text: String::from_str(" <Left> "), color: highlight, bold: false });
    legend_spans.push(StyledSpan { text: String::from_str("Previous Page"), color: primary, bold: false });
    legend_spans.push(StyledSpan { text: String::from_str(" <Right>"), color: highlight, bold: false });
    legend_spans.push(StyledSpan { text: String::from_str("Next Page"), color: primary, bold: false });
    legend_spans.push(StyledSpan { text: String::from_str(" <q> "), color: highlight, bold: false });
    legend_spans.push(StyledSpan { text: String::from_str("Close"), color: primary, bold: false });
    legend_spans.push(StyledSpan { text: counter, color: highlight, bold: false });
    let legend = StyledLine { spans: legend_spans };

    FrameModel::Page { title, table, legend }
}

} // verus!
