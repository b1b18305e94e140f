use vstd::prelude::*;
use vstd::string::*;
use crate::app::ViewMode;
use crate::order::SortMode;
use crate::text::{decimal, to_decimal};

verus! {

/// Columns of the process table other than name and command: port, PID,
/// CPU, memory and connections.
pub const FIXED_COLUMNS: usize = 35;

/// The table's left and right border.
pub const TABLE_BORDERS: usize = 2;

/// The gaps between the seven columns.
pub const COLUMN_GAPS: usize = 6;

/// The widest the name column gets.
pub const NAME_WIDTH_MAX: usize = 20;

pub open spec fn sat_sub(a: int, b: int) -> nat {
    if a >= b { (a - b) as nat } else { 0 }
}

/// The widths of the name and command columns of a process table
/// `total_width` wide: what the fixed columns, borders and gaps leave,
/// the name taking up to 20 and the command the rest.
pub open spec fn table_widths(total_width: nat) -> (nat, nat) {
    let remaining = sat_sub(total_width as int, (FIXED_COLUMNS + TABLE_BORDERS + COLUMN_GAPS) as int);
    let name = if remaining < NAME_WIDTH_MAX { remaining } else { NAME_WIDTH_MAX as nat };
    (name, sat_sub(remaining as int, name as int))
}

/// The widths of the name and command columns of the process table.
#[allow(non_snake_case)]
pub fn tableColumnWidths(total_width: usize) -> (r: (usize, usize))
    ensures
        (r.0 as nat, r.1 as nat) == table_widths(total_width as nat),
{
    let overhead = FIXED_COLUMNS + TABLE_BORDERS + COLUMN_GAPS;
    let remaining = total_width.saturating_sub(overhead);
    let name_width = if remaining < NAME_WIDTH_MAX { remaining } else { NAME_WIDTH_MAX };
    let command_width = remaining.saturating_sub(name_width);
    (name_width, command_width)
}

/// The rows of a list of `len` entries that a table of `height` rows shows
/// from row `scroll` on: the range `start .. end`.
pub open spec fn visible_range(len: nat, scroll: nat, height: nat) -> (nat, nat) {
    let start = if scroll < len { scroll } else { len };
    let end = if scroll + height < len { scroll + height } else { len };
    (start, if end < start { start } else { end })
}

/// The range of rows shown, as `skip(scroll).take(height)` picks them.
#[allow(non_snake_case)]
pub fn visibleRange(len: usize, scroll: usize, height: usize) -> (r: (usize, usize))
    ensures
        (r.0 as nat, r.1 as nat) == visible_range(len as nat, scroll as nat, height as nat),
        r.0 <= r.1 <= len,
{
    let start = if scroll < len { scroll } else { len };
    let end = if height < len - start { start + height } else { len };
    (start, end)
}

/// The rows of the process table: the area's height less the border and
/// header rows.
#[allow(non_snake_case)]
pub fn tableHeight(area_height: u16) -> (h: usize)
    ensures
        h == sat_sub(area_height as int, 3),
{
    area_height.saturating_sub(3) as usize
}

/// How the connection count is shown: the number, or `-` for none.
pub open spec fn connections_label(c: u32) -> Seq<char> {
    if c > 0 { decimal(c as nat) } else { "-"@ }
}

/// The connection count as shown in the table.
#[allow(non_snake_case)]
pub fn connectionsLabel(c: u32) -> (s: String)
    ensures
        s@ == connections_label(c),
{
    if c > 0 {
        to_decimal(c as u64)
    } else {
        String::from_str("-")
    }
}

/// The colour of a port in the table.
#[derive(Clone, Copy, Debug, PartialEq, Eq, Structural)]
pub enum PortColor {
    Cyan,
    LightMagenta,
    Green,
    LightBlue,
    Magenta,
    Red,
    Yellow,
    Blue,
    Gray,
}

/// The colour of a port: web ports cyan, MySQL light magenta, dev servers
/// (3000-3999) green, PostgreSQL light blue, application servers
/// (5000-5999) magenta, Redis red, other servers (8000-8999) yellow,
/// MongoDB blue, anything else gray; the first that applies counts.
pub open spec fn port_color(port: u16) -> PortColor {
    if port == 80 || port == 443 || port == 8080 || port == 8443 {
        PortColor::Cyan
    } else if port == 3306 {
        PortColor::LightMagenta
    } else if 3000 <= port <= 3999 {
        PortColor::Green
    } else if port == 5432 || port == 5433 {
        PortColor::LightBlue
    } else if 5000 <= port <= 5999 {
        PortColor::Magenta
    } else if port == 6379 {
        PortColor::Red
    } else if 8000 <= port <= 8999 {
        PortColor::Yellow
    } else if port == 27017 || port == 27018 {
        PortColor::Blue
    } else {
        PortColor::Gray
    }
}

/// The colour of a port in the table.
#[allow(non_snake_case)]
pub fn getPortColor(port: u16) -> (c: PortColor)
    ensures
        c == port_color(port),
{
    match port {
        80 | 443 | 8080 | 8443 => PortColor::Cyan,
        3306 => PortColor::LightMagenta,
        3000..=3999 => PortColor::Green,
        5432 | 5433 => PortColor::LightBlue,
        5000..=5999 => PortColor::Magenta,
        6379 => PortColor::Red,
        8000..=8999 => PortColor::Yellow,
        27017 | 27018 => PortColor::Blue,
        _ => PortColor::Gray,
    }
}

/// The marker beside a column title: an up or down triangle on the sort
/// column (up when the direction is reversed), nothing elsewhere.
pub open spec fn sort_indicator(current: SortMode, reversed: bool, column: SortMode) -> Seq<char> {
    if current == column {
        if reversed { "\u{25b2}"@ } else { "\u{25bc}"@ }
    } else {
        ""@
    }
}

/// The marker beside a column title.
#[allow(non_snake_case)]
pub fn sortIndicator(current: SortMode, reversed: bool, column: SortMode) -> (s: &'static str)
    ensures
        s@ == sort_indicator(current, reversed, column),
{
    if current == column {
        if reversed { "\u{25b2}" } else { "\u{25bc}" }
    } else {
        ""
    }
}

/// The widths of the path and command columns of the projects table:
/// half of what the fixed columns leave for the path, the rest for the
/// command, each at least 15.
pub open spec fn project_widths(table_width: nat) -> (nat, nat) {
    let flex = sat_sub(table_width as int, 46);
    let path = if flex / 2 > 15 { flex / 2 } else { 15 };
    let rest = sat_sub(flex as int, path as int);
    (path, if rest > 15 { rest } else { 15 })
}

/// The widths of the path and command columns of the projects table.
#[allow(non_snake_case)]
pub fn projectColumnWidths(table_width: usize) -> (r: (usize, usize))
    ensures
        (r.0 as nat, r.1 as nat) == project_widths(table_width as nat),
{
    let flex = table_width.saturating_sub(12 + 20 + 8 + 2 + 4);
    let path_w = if flex / 2 > 15 { flex / 2 } else { 15 };
    let rest = flex.saturating_sub(path_w);
    let cmd_w = if rest > 15 { rest } else { 15 };
    (path_w, cmd_w)
}

/// How the three history graphs of the detail panel are sized.
#[derive(Clone, Copy, Debug, PartialEq, Eq, Structural)]
pub enum GraphSizing {
    /// Five rows each, the last taking any rows left over.
    Fixed,
    /// A third of the rows left each.
    Thirds,
    /// No room for graphs.
    Hidden,
}

/// The parts of the detail panel: logo rows, info rows and the graphs.
pub struct DetailLayout {
    pub logo_rows: usize,
    pub info_rows: usize,
    pub graphs: GraphSizing,
}

/// The detail panel of `total` rows: the logo (8 rows) only when it fits
/// with the info box (13 rows) and three five-row graphs; the info box
/// always, squeezed to what the graphs leave (at least 4) when they do
/// not fit beside it; the graphs at five rows each when there is room,
/// else in thirds of what is left, else not at all.
pub open spec fn detail_layout(total: nat) -> (nat, nat, GraphSizing) {
    let (logo, info) = if total >= 8 + 13 + 15 {
        (8nat, 13nat)
    } else if total >= 13 + 15 {
        (0nat, 13nat)
    } else {
        let avail = sat_sub(total as int, 15);
        (0nat, if avail > 4 { avail } else { 4nat })
    };
    let leftover = sat_sub(total as int, (logo + info) as int);
    (logo, info, if leftover >= 15 {
        GraphSizing::Fixed
    } else if leftover > 0 {
        GraphSizing::Thirds
    } else {
        GraphSizing::Hidden
    })
}

/// The layout of the detail panel of `total` rows.
#[allow(non_snake_case)]
pub fn detailLayout(total: usize) -> (d: DetailLayout)
    ensures
        (d.logo_rows as nat, d.info_rows as nat, d.graphs) == detail_layout(total as nat),
{
    let sparkline_h: usize = 5;
    let info_h: usize = 13;
    let logo_h: usize = 8;
    let sparklines_total = sparkline_h * 3;
    let (logo, info) = if total >= logo_h + info_h + sparklines_total {
        (logo_h, info_h)
    } else if total >= info_h + sparklines_total {
        (0, info_h)
    } else {
        let avail = total.saturating_sub(sparklines_total);
        (0, if avail > 4 { avail } else { 4 })
    };
    let used = logo + info;
    let leftover = total.saturating_sub(used);
    let graphs = if leftover >= sparklines_total {
        GraphSizing::Fixed
    } else if leftover > 0 {
        GraphSizing::Thirds
    } else {
        GraphSizing::Hidden
    };
    DetailLayout { logo_rows: logo, info_rows: info, graphs }
}

/// The percentages of a centred box that takes `percent` of an area:
/// equal margins around it.
#[allow(non_snake_case)]
pub fn centeredPercentages(percent: u16) -> (r: (u16, u16, u16))
    requires
        percent <= 100,
    ensures
        r.0 == (100 - percent) / 2,
        r.1 == percent,
        r.2 == (100 - percent) / 2,
{
    let margin = (100 - percent) / 2;
    (margin, percent, margin)
}

/// The process count in the stats bar: `shown/total` while a filter hides
/// some, else the total.
pub open spec fn filter_info(filtered: nat, total: nat) -> Seq<char> {
    if filtered < total {
        decimal(filtered) + "/"@ + decimal(total)
    } else {
        decimal(total)
    }
}

/// The process count as the stats bar shows it.
#[allow(non_snake_case)]
pub fn filterInfo(filtered: usize, total: usize) -> (s: String)
    ensures
        s@ == filter_info(filtered as nat, total as nat),
{
    proof {
        reveal_strlit("/");
    }
    if filtered < total {
        let mut s = to_decimal(filtered as u64);
        s.append("/");
        let t = to_decimal(total as u64);
        s.append(t.as_str());
        s
    } else {
        to_decimal(total as u64)
    }
}

/// The memory samples of a history in whole mebibytes, as the memory
/// graph plots them.
#[allow(non_snake_case)]
pub fn memorySeries(samples: &Vec<u64>) -> (r: Vec<u64>)
    ensures
        r@.len() == samples@.len(),
        forall|i: int| 0 <= i < r@.len() ==> r@[i] == samples@[i] / 1048576u64,
{
    let n = samples.len();
    let mut r: Vec<u64> = Vec::new();
    let mut i: usize = 0;
    while i < n
        invariant
            n == samples@.len(),
            i <= n,
            r@.len() == i,
            forall|j: int| 0 <= j < i ==> r@[j] == samples@[j] / 1048576u64,
        decreases n - i,
    {
        r.push(samples[i] / (1024 * 1024));
        i = i + 1;
    }
    r
}

/// The width of the terminal for the port summary: its column count when
/// known, else 80, and at least 40.
#[allow(non_snake_case)]
pub fn summaryWidth(columns: Option<u16>) -> (w: usize)
    ensures
        w == (match columns {
            Some(c) => if c >= 40 { c as nat } else { 40 },
            None => 80,
        }),
{
    match columns {
        Some(c) => if c >= 40 { c as usize } else { 40 },
        None => 80,
    }
}

/// The frame of the port summary box.
pub struct BoxLayout {
    pub inner_width: usize,
    pub box_width: usize,
    pub left_margin: usize,
    pub top_dashes: usize,
}

/// The summary box for lines of the given widths on a terminal
/// `term_width` wide: the inner width fits the widest line and the title
/// (12 characters and a space each side), shrunk to the terminal less 6
/// but never below the title; the box adds a border and a space each side;
/// it is centred; the top border holds the title segment (15 characters)
/// and dashes to the corner.
pub open spec fn box_layout(widest: nat, term_width: nat) -> (nat, nat, nat, nat) {
    let title_min = 14nat;
    let wanted = if widest > title_min { widest } else { title_min };
    let cap = sat_sub(term_width as int, 6);
    let capped = if wanted < cap { wanted } else { cap };
    let inner = if capped > title_min { capped } else { title_min };
    let box_width = inner + 4;
    (inner, box_width, sat_sub(term_width as int, box_width as int) / 2, sat_sub(
        sat_sub(box_width as int, 2) as int,
        15,
    ))
}

pub open spec fn seq_max(s: Seq<usize>) -> nat
    decreases s.len(),
{
    if s.len() == 0 {
        0
    } else {
        let m = seq_max(s.drop_last());
        if s.last() > m { s.last() as nat } else { m }
    }
}

/// The frame of the port summary box for lines of the given widths.
#[allow(non_snake_case)]
pub fn summaryBoxLayout(line_widths: &Vec<usize>, term_width: usize) -> (b: BoxLayout)
    ensures
        (b.inner_width as nat, b.box_width as nat, b.left_margin as nat, b.top_dashes as nat)
            == box_layout(seq_max(line_widths@), term_width as nat),
{
    let n = line_widths.len();
    let mut widest: usize = 0;
    let mut i: usize = 0;
    assert(line_widths@.take(0) =~= Seq::<usize>::empty());
    while i < n
        invariant
            n == line_widths@.len(),
            i <= n,
            widest == seq_max(line_widths@.take(i as int)),
        decreases n - i,
    {
        assert(line_widths@.take(i + 1).drop_last() =~= line_widths@.take(i as int));
        if line_widths[i] > widest {
            widest = line_widths[i];
        }
        i = i + 1;
    }
    assert(line_widths@.take(n as int) =~= line_widths@);
    let title_min: usize = 14;
    let wanted = if widest > title_min { widest } else { title_min };
    let cap = term_width.saturating_sub(6);
    let capped = if wanted < cap { wanted } else { cap };
    let inner = if capped > title_min { capped } else { title_min };
    let box_width = inner + 4;
    let left_margin = term_width.saturating_sub(box_width) / 2;
    let top_dashes = box_width.saturating_sub(2).saturating_sub(15);
    BoxLayout { inner_width: inner, box_width, left_margin, top_dashes }
}

/// The spaces before a text of `len` characters centred in `width`
/// columns.
#[allow(non_snake_case)]
pub fn centeredPad(width: usize, len: usize) -> (p: usize)
    ensures
        p == sat_sub(width as int, len as int) / 2,
{
    width.saturating_sub(len) / 2
}

/// The spaces after a text of `len` characters on a box line `inner`
/// columns wide.
#[allow(non_snake_case)]
pub fn boxLinePad(inner: usize, len: usize) -> (p: usize)
    ensures
        p == sat_sub(inner as int, len as int),
{
    inner.saturating_sub(len)
}

/// The look of a key in the footer.
#[derive(Clone, Copy, Debug, PartialEq, Eq, Structural)]
pub enum HintStyle {
    Cyan,
    Yellow,
    YellowBold,
    Magenta,
    Green,
    Red,
    DarkGray,
}

/// A footer entry: a key, its look, and the text after it.
pub type Hint = (&'static str, HintStyle, &'static str);

/// The texts of footer entries.
pub open spec fn hint_views(h: Seq<Hint>) -> Seq<(Seq<char>, HintStyle, Seq<char>)> {
    h.map_values(|e: Hint| (e.0@, e.1, e.2@))
}

/// The keys that the footer lists: while typing a search how to leave it,
/// otherwise the keys of the view.
pub open spec fn footer_hints(search_mode: bool, view: ViewMode) -> Seq<(Seq<char>, HintStyle, Seq<char>)> {
    if search_mode {
        seq![
            ("Type to search"@, HintStyle::YellowBold, "  "@),
            ("Esc"@, HintStyle::Cyan, " exit search  "@),
            ("Enter"@, HintStyle::Green, " apply"@),
        ]
    } else {
        match view {
            ViewMode::List => seq![
                ("\u{2191}\u{2193}"@, HintStyle::Cyan, " nav  "@),
                ("/"@, HintStyle::Yellow, " search  "@),
                ("s"@, HintStyle::Magenta, " sort  "@),
                ("o"@, HintStyle::Magenta, " order  "@),
                ("Enter"@, HintStyle::Green, " detail  "@),
                ("x"@, HintStyle::Red, " kill  "@),
                ("r"@, HintStyle::Yellow, " refresh  "@),
                ("q"@, HintStyle::DarkGray, " quit"@),
            ],
            ViewMode::Detail => seq![
                ("Esc"@, HintStyle::Yellow, " back  "@),
                ("x"@, HintStyle::Red, " kill  "@),
                ("\u{2191}\u{2193}"@, HintStyle::Cyan, " navigate  "@),
                ("q"@, HintStyle::DarkGray, " quit"@),
            ],
            ViewMode::ConfirmKill => seq![
                ("y"@, HintStyle::Red, " confirm  "@),
                ("n/Esc"@, HintStyle::Green, " cancel"@),
            ],
            ViewMode::Projects => seq![
                ("\u{2191}\u{2193}"@, HintStyle::Cyan, " navigate  "@),
                ("Space"@, HintStyle::Green, " start/stop  "@),
                ("Esc"@, HintStyle::Yellow, " back  "@),
                ("q"@, HintStyle::DarkGray, " quit"@),
            ],
        }
    }
}

/// The keys that the footer lists in the given mode and view.
#[allow(non_snake_case)]
pub fn footerHints(search_mode: bool, view: ViewMode) -> (r: Vec<Hint>)
    ensures
        hint_views(r@) == footer_hints(search_mode, view),
{
    let r: Vec<Hint> = if search_mode {
        vec![
            ("Type to search", HintStyle::YellowBold, "  "),
            ("Esc", HintStyle::Cyan, " exit search  "),
            ("Enter", HintStyle::Green, " apply"),
        ]
    } else {
        match view {
            ViewMode::List => vec![
                ("\u{2191}\u{2193}", HintStyle::Cyan, " nav  "),
                ("/", HintStyle::Yellow, " search  "),
                ("s", HintStyle::Magenta, " sort  "),
                ("o", HintStyle::Magenta, " order  "),
                ("Enter", HintStyle::Green, " detail  "),
                ("x", HintStyle::Red, " kill  "),
                ("r", HintStyle::Yellow, " refresh  "),
                ("q", HintStyle::DarkGray, " quit"),
            ],
            ViewMode::Detail => vec![
                ("Esc", HintStyle::Yellow, " back  "),
                ("x", HintStyle::Red, " kill  "),
                ("\u{2191}\u{2193}", HintStyle::Cyan, " navigate  "),
                ("q", HintStyle::DarkGray, " quit"),
            ],
            ViewMode::ConfirmKill => vec![
                ("y", HintStyle::Red, " confirm  "),
                ("n/Esc", HintStyle::Green, " cancel"),
            ],
            ViewMode::Projects => vec![
                ("\u{2191}\u{2193}", HintStyle::Cyan, " navigate  "),
                ("Space", HintStyle::Green, " start/stop  "),
                ("Esc", HintStyle::Yellow, " back  "),
                ("q", HintStyle::DarkGray, " quit"),
            ],
        }
    };
    assert(hint_views(r@) =~= footer_hints(search_mode, view));
    r
}

/// The keys that the footer of the projects screen lists.
pub open spec fn projects_footer_hints() -> Seq<(Seq<char>, HintStyle, Seq<char>)> {
    seq![
        ("\u{2191}\u{2193}"@, HintStyle::Cyan, " navigate  "@),
        ("Space"@, HintStyle::Green, " start/stop  "@),
        ("d"@, HintStyle::Magenta, " deploy  "@),
        ("Esc"@, HintStyle::Yellow, " back  "@),
        ("q"@, HintStyle::DarkGray, " quit"@),
    ]
}

/// The keys that the footer of the projects screen lists.
#[allow(non_snake_case)]
pub fn projectsFooterHints() -> (r: Vec<Hint>)
    ensures
        hint_views(r@) == projects_footer_hints(),
{
    let r: Vec<Hint> = vec![
        ("\u{2191}\u{2193}", HintStyle::Cyan, " navigate  "),
        ("Space", HintStyle::Green, " start/stop  "),
        ("d", HintStyle::Magenta, " deploy  "),
        ("Esc", HintStyle::Yellow, " back  "),
        ("q", HintStyle::DarkGray, " quit"),
    ];
    assert(hint_views(r@) =~= projects_footer_hints());
    r
}

/// The look of a part of the search bar.
#[derive(Clone, Copy, Debug, PartialEq, Eq, Structural)]
pub enum BarStyle {
    YellowBold,
    Yellow,
    White,
    WhiteBlinking,
    Gray,
    DarkGray,
}

/// The texts of the parts of a bar.
pub open spec fn bar_views(b: Seq<(String, BarStyle)>) -> Seq<(Seq<char>, BarStyle)> {
    b.map_values(|e: (String, BarStyle)| (e.0@, e.1))
}

/// The search bar: while typing, the query with a cursor; with a query
/// set, the query and how to edit it; otherwise how to start a search.
pub open spec fn search_bar(search_mode: bool, query: Seq<char>) -> Seq<(Seq<char>, BarStyle)> {
    if search_mode {
        seq![(" Search: "@, BarStyle::YellowBold), (query, BarStyle::White), ("_"@, BarStyle::WhiteBlinking)]
    } else if query.len() > 0 {
        seq![(" Filter: "@, BarStyle::DarkGray), (query, BarStyle::Gray), (" (press / to edit)"@, BarStyle::DarkGray)]
    } else {
        seq![(" Press "@, BarStyle::DarkGray), ("/"@, BarStyle::Yellow), (" to search"@, BarStyle::DarkGray)]
    }
}

/// The parts of the search bar, in order.
#[allow(non_snake_case)]
pub fn searchBar(search_mode: bool, query: &str) -> (r: Vec<(String, BarStyle)>)
    ensures
        bar_views(r@) == search_bar(search_mode, query@),
{
    let r: Vec<(String, BarStyle)> = if search_mode {
        vec![
            (String::from_str(" Search: "), BarStyle::YellowBold),
            (String::from_str(query), BarStyle::White),
            (String::from_str("_"), BarStyle::WhiteBlinking),
        ]
    } else if query.unicode_len() > 0 {
        vec![
            (String::from_str(" Filter: "), BarStyle::DarkGray),
            (String::from_str(query), BarStyle::Gray),
            (String::from_str(" (press / to edit)"), BarStyle::DarkGray),
        ]
    } else {
        vec![
            (String::from_str(" Press "), BarStyle::DarkGray),
            (String::from_str("/"), BarStyle::Yellow),
            (String::from_str(" to search"), BarStyle::DarkGray),
        ]
    };
    assert(bar_views(r@) =~= search_bar(search_mode, query@));
    r
}

} // verus!
