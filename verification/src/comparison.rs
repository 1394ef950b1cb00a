//! The comparison image of several runs as SVG: the document, its header, the
//! overview of the runs, the sections of measurement rows and the footer. The
//! caller gives the texts, with the measurements already written and the cells
//! to mark; everything else is laid out here.
use vstd::prelude::*;
use crate::export::{badge_width, escape_xml, svg_columns, xml_escaped};
use crate::logging::{utf8_len, utf8_width_of};
use crate::i18n::{t, I18n};
use crate::text::{dec, push_dec, push_str, string_from};

verus! {

/// The style sheet of the comparison image.
pub const SVG_STYLE: &'static str = "<style>\n    .bg { fill: #0b0f19; }\n    .card-bg { fill: #111827; stroke: #1f293d; stroke-width: 1; rx: 8; }\n    .row-bg { fill: #131d31; stroke: #1e293b; stroke-width: 1; rx: 6; }\n    .header-title { font-family: -apple-system, BlinkMacSystemFont, \"Segoe UI\", Roboto, Ubuntu, sans-serif; font-size: 20px; font-weight: 800; fill: #f8fafc; }\n    .header-subtitle { font-family: -apple-system, BlinkMacSystemFont, \"Segoe UI\", Roboto, Ubuntu, sans-serif; font-size: 11px; fill: #94a3b8; }\n    .badge-bg { fill: #1e293b; stroke: #38bdf8; stroke-width: 1; rx: 4; }\n    .badge-text { font-family: -apple-system, BlinkMacSystemFont, \"Segoe UI\", Roboto, Ubuntu, sans-serif; font-size: 11px; font-weight: 700; fill: #38bdf8; }\n    .section-title { font-family: -apple-system, BlinkMacSystemFont, \"Segoe UI\", Roboto, Ubuntu, sans-serif; font-size: 13px; font-weight: 700; }\n    .label-text { font-family: -apple-system, BlinkMacSystemFont, \"Segoe UI\", Roboto, Ubuntu, sans-serif; font-size: 12px; fill: #94a3b8; }\n    .val-text { font-family: -apple-system, BlinkMacSystemFont, \"Segoe UI\", Roboto, Ubuntu, sans-serif; font-size: 12px; font-weight: 700; text-anchor: middle; }\n    .score-text { font-family: -apple-system, BlinkMacSystemFont, \"Segoe UI\", Roboto, Ubuntu, sans-serif; font-size: 15px; font-weight: 800; fill: #10b981; text-anchor: middle; }\n    .title-text { font-family: -apple-system, BlinkMacSystemFont, \"Segoe UI\", Roboto, Ubuntu, sans-serif; font-size: 13px; font-weight: 700; fill: #38bdf8; text-anchor: middle; }\n    .sub-text { font-family: -apple-system, BlinkMacSystemFont, \"Segoe UI\", Roboto, Ubuntu, sans-serif; font-size: 10px; fill: #64748b; text-anchor: middle; }\n    .divider { stroke: #1f293d; stroke-width: 1; }\n    .v-divider { stroke: #1e293b; stroke-width: 1; }\n    .throttle-border { stroke: #ef4444; stroke-width: 1.5; fill: #1e1520; rx: 4; }\n    .power-border { stroke: #f59e0b; stroke-width: 1.5; fill: #1e1c15; rx: 4; }\n</style>\n";

/// The texts of the image's header, overview and footer.
pub struct SvgHeaderTexts {
    pub title: String,
    pub subtitle: String,
    pub tests_compared: String,
    pub test_parameters: String,
    pub score_label: String,
    pub footer: String,
}

/// The overview texts of one run: its id, preset, GPU mode as shown, score as
/// written and date.
pub struct SvgColumnTexts {
    pub benchmark_id: String,
    pub preset: String,
    pub gpu_mode: String,
    pub score: String,
    pub date: String,
}

/// A run's value in a row: the text and whether it is marked as throttled
/// (red) or power-limited (amber).
pub struct SvgCellTexts {
    pub text: String,
    pub danger: bool,
    pub warning: bool,
}

/// A row of the image: its label, the colour of its values, and one cell per run.
pub struct SvgRowTexts {
    pub label: String,
    pub color: String,
    pub cells: Vec<SvgCellTexts>,
}

/// A section of rows under a coloured title.
pub struct SvgSectionTexts {
    pub title: String,
    pub color: String,
    pub rows: Vec<SvgRowTexts>,
}

// ---------------------------------------------------------------------------
// The document
// ---------------------------------------------------------------------------

/// The left edge of the column of run `idx`: after the label column, 220 wide each.
pub open spec fn column_x(idx: nat) -> nat {
    220 + idx * 220
}

/// The opening of the document with its size and style.
pub open spec fn svg_open(w: nat, h: nat) -> Seq<char> {
    "<svg xmlns=\"http://www.w3.org/2000/svg\" width=\""@ + dec(w) + "\" height=\""@ + dec(h)
        + "\" viewBox=\"0 0 "@ + dec(w) + " "@ + dec(h) + "\">\n"@ + SVG_STYLE@ + "<rect width=\""@
        + dec(w) + "\" height=\""@ + dec(h) + "\" class=\"bg\" />\n"@
}

/// The header: title, subtitle and the badge naming how many runs are compared,
/// flush with the right of the content.
pub open spec fn svg_banner(h: SvgHeaderTexts, cw: nat) -> Seq<char> {
    let bw = badge_width(utf8_len(h.tests_compared@));
    let bx: nat = if cw >= bw {
        (cw - bw) as nat
    } else {
        0
    };
    "<g transform=\"translate(24, 24)\">\n    <text x=\"0\" y=\"20\" class=\"header-title\">"@
        + xml_escaped(h.title@) + "</text>\n    <text x=\"0\" y=\"38\" class=\"header-subtitle\">"@
        + xml_escaped(h.subtitle@) + "</text>\n    <g transform=\"translate("@ + dec(bx)
        + ", 4)\">\n        <rect x=\"0\" y=\"0\" width=\""@ + dec(bw)
        + "\" height=\"26\" class=\"badge-bg\" />\n        <text x=\""@ + dec(bw / 2)
        + "\" y=\"17\" class=\"badge-text\" text-anchor=\"middle\">"@ + xml_escaped(h.tests_compared@)
        + "</text>\n    </g>\n</g>\n"@
}

/// The opening of the overview card.
pub open spec fn svg_overview_open(h: SvgHeaderTexts, cw: nat) -> Seq<char> {
    "<g transform=\"translate(24, 80)\">\n    <rect width=\""@ + dec(cw)
        + "\" height=\"96\" class=\"card-bg\" />\n    <text x=\"16\" y=\"52\" class=\"header-title\" style=\"font-size: 14px; fill: #38bdf8;\">"@
        + xml_escaped(h.test_parameters@) + "</text>\n"@
}

/// The overview of run `idx`: a divider, its number and id, preset and GPU mode,
/// score and date.
pub open spec fn svg_column(h: SvgHeaderTexts, c: SvgColumnTexts, idx: nat) -> Seq<char> {
    let x = column_x(idx);
    let cx = x + 110;
    "    <line x1=\""@ + dec(x) + "\" y1=\"0\" x2=\""@ + dec(x)
        + "\" y2=\"96\" class=\"v-divider\" />\n    <text x=\""@ + dec(cx)
        + "\" y=\"24\" class=\"title-text\">["@ + dec(idx + 1) + "] "@ + xml_escaped(c.benchmark_id@)
        + "</text>\n    <text x=\""@ + dec(cx) + "\" y=\"40\" class=\"sub-text\">"@ + xml_escaped(
        c.preset@,
    ) + " • "@ + xml_escaped(c.gpu_mode@) + "</text>\n    <text x=\""@ + dec(cx)
        + "\" y=\"62\" class=\"score-text\"><tspan fill=\"#94a3b8\" font-size=\"12px\" font-weight=\"600\">"@
        + xml_escaped(h.score_label@) + ": </tspan>"@ + c.score@ + "</text>\n    <text x=\""@ + dec(cx)
        + "\" y=\"80\" class=\"sub-text\">"@ + c.date@ + "</text>\n"@
}

/// The overviews of the runs, in order.
pub open spec fn svg_columns_text(h: SvgHeaderTexts, cols: Seq<SvgColumnTexts>) -> Seq<char>
    decreases cols.len(),
{
    if cols.len() == 0 {
        Seq::empty()
    } else {
        svg_columns_text(h, cols.drop_last()) + svg_column(h, cols.last(), (cols.len() - 1) as nat)
    }
}

/// A section's title at height `y`.
pub open spec fn svg_section_head(title: Seq<char>, color: Seq<char>, y: nat) -> Seq<char> {
    "<g transform=\"translate(24, "@ + dec(y)
        + ")\">\n    <text x=\"4\" y=\"16\" class=\"section-title\" fill=\""@ + color + "\">"@
        + xml_escaped(title) + "</text>\n</g>\n"@
}

/// The start of a row at height `y`: its background and label.
pub open spec fn svg_row_head(label: Seq<char>, y: nat, cw: nat) -> Seq<char> {
    "<g transform=\"translate(24, "@ + dec(y) + ")\">\n    <rect width=\""@ + dec(cw)
        + "\" height=\"36\" class=\"row-bg\" />\n    <text x=\"14\" y=\"23\" class=\"label-text\">"@
        + xml_escaped(label) + "</text>\n"@
}

/// The frame drawn around a marked cell.
pub open spec fn svg_cell_frame(danger: bool, warning: bool, x: nat) -> Seq<char> {
    if danger {
        "    <rect x=\""@ + dec(x + 6) + "\" y=\"4\" width=\"208\" height=\"28\" class=\"throttle-border\" />\n"@
    } else if warning {
        "    <rect x=\""@ + dec(x + 6) + "\" y=\"4\" width=\"208\" height=\"28\" class=\"power-border\" />\n"@
    } else {
        Seq::empty()
    }
}

/// The colour of a cell's text: red when throttled, amber when power-limited,
/// else the row's colour.
pub open spec fn svg_cell_fill(danger: bool, warning: bool, color: Seq<char>) -> Seq<char> {
    if danger {
        "#ef4444"@
    } else if warning {
        "#f59e0b"@
    } else {
        color
    }
}

/// The cell of run `idx` in a row: a divider, the frame of a marked cell, and
/// the value.
pub open spec fn svg_cell(c: SvgCellTexts, idx: nat, color: Seq<char>) -> Seq<char> {
    let x = column_x(idx);
    "    <line x1=\""@ + dec(x) + "\" y1=\"0\" x2=\""@ + dec(x) + "\" y2=\"36\" class=\"v-divider\" />\n"@
        + svg_cell_frame(c.danger, c.warning, x) + "    <text x=\""@ + dec(x + 110)
        + "\" y=\"23\" class=\"val-text\" fill=\""@ + svg_cell_fill(c.danger, c.warning, color) + "\">"@
        + xml_escaped(c.text@) + "</text>\n"@
}

/// The cells of a row, in order.
pub open spec fn svg_cells(cells: Seq<SvgCellTexts>, color: Seq<char>) -> Seq<char>
    decreases cells.len(),
{
    if cells.len() == 0 {
        Seq::empty()
    } else {
        svg_cells(cells.drop_last(), color) + svg_cell(cells.last(), (cells.len() - 1) as nat, color)
    }
}

/// A row at height `y`.
pub open spec fn svg_row(r: SvgRowTexts, y: nat, cw: nat) -> Seq<char> {
    svg_row_head(r.label@, y, cw) + svg_cells(r.cells@, r.color@) + "</g>\n"@
}

/// The rows of a section from height `y`, 40 apart.
pub open spec fn svg_rows(rows: Seq<SvgRowTexts>, y: nat, cw: nat) -> Seq<char>
    decreases rows.len(),
{
    if rows.len() == 0 {
        Seq::empty()
    } else {
        svg_rows(rows.drop_last(), y, cw) + svg_row(rows.last(), y + 40 * (rows.len() - 1) as nat, cw)
    }
}

/// The height a section takes: its title, its rows and the gap after it.
pub open spec fn section_height(s: SvgSectionTexts) -> nat {
    26 + 40 * s.rows@.len() + 14
}

/// The height the sections take.
pub open spec fn sections_height(secs: Seq<SvgSectionTexts>) -> nat
    decreases secs.len(),
{
    if secs.len() == 0 {
        0
    } else {
        sections_height(secs.drop_last()) + section_height(secs.last())
    }
}

/// A section at height `y`.
pub open spec fn svg_section(s: SvgSectionTexts, y: nat, cw: nat) -> Seq<char> {
    svg_section_head(s.title@, s.color@, y) + svg_rows(s.rows@, y + 26, cw)
}

/// The sections from height `y`, one below the other.
pub open spec fn svg_sections(secs: Seq<SvgSectionTexts>, y: nat, cw: nat) -> Seq<char>
    decreases secs.len(),
{
    if secs.len() == 0 {
        Seq::empty()
    } else {
        svg_sections(secs.drop_last(), y, cw) + svg_section(secs.last(), y + sections_height(secs.drop_last()), cw)
    }
}

/// The footer at height `y`, and the end of the document.
pub open spec fn svg_footer(h: SvgHeaderTexts, y: nat, cw: nat) -> Seq<char> {
    "<g transform=\"translate(24, "@ + dec(y) + ")\">\n    <line x1=\"0\" y1=\"0\" x2=\""@ + dec(cw)
        + "\" y2=\"0\" class=\"divider\" />\n    <text x=\""@ + dec(cw / 2)
        + "\" y=\"24\" class=\"sub-text\" style=\"font-size: 11px;\">"@ + xml_escaped(h.footer@)
        + "</text>\n</g>\n</svg>\n"@
}

/// The comparison image: a label column and one column per run (one at least),
/// 1114 high; the header, the overview of the runs, the sections from height 194
/// and the footer below them.
pub open spec fn comparison_svg_text(
    h: SvgHeaderTexts,
    cols: Seq<SvgColumnTexts>,
    secs: Seq<SvgSectionTexts>,
) -> Seq<char> {
    let cw = 220 + svg_columns(cols.len()) * 220;
    svg_open(cw + 48, 1114) + svg_banner(h, cw) + svg_overview_open(h, cw) + svg_columns_text(h, cols)
        + "</g>\n"@ + svg_sections(secs, 194, cw) + svg_footer(h, 194 + sections_height(secs), cw)
}

/// Whether the positions of the image fit in the machine's integers.
pub open spec fn svg_fits(h: SvgHeaderTexts, cols: Seq<SvgColumnTexts>, secs: Seq<SvgSectionTexts>) -> bool {
    &&& (svg_columns(cols.len()) + 1) * 220 + 48 <= usize::MAX
    &&& utf8_len(h.tests_compared@) * 8 + 24 <= usize::MAX
    &&& 194 + sections_height(secs) <= usize::MAX
    &&& forall|i: int, j: int|
        0 <= i < secs.len() && 0 <= j < secs[i].rows@.len() ==> (#[trigger] secs[i].rows@[j]).cells@.len() * 220
            + 440 <= usize::MAX
}

// ---------------------------------------------------------------------------
// Writing the document
// ---------------------------------------------------------------------------

fn push_num(out: &mut String, n: usize)
    ensures
        final(out)@ == old(out)@ + dec(n as nat),
{
    push_dec(out, n as u64);
}

fn push_esc(out: &mut String, t: &str)
    ensures
        final(out)@ == old(out)@ + xml_escaped(t@),
{
    let e = escape_xml(t);
    push_str(out, e.as_str());
}

/// The number of bytes of `s` in UTF-8.
fn utf8_byte_len(s: &str) -> (n: u128)
    ensures
        n == utf8_len(s@),
{
    let v = crate::text::chars_of(s);
    let mut n: u128 = 0;
    let mut i: usize = 0;
    assert(v@.take(0) =~= Seq::<char>::empty());
    while i < v.len()
        invariant
            v@ == s@,
            i <= v@.len(),
            n == utf8_len(v@.take(i as int)),
            n <= 4 * i,
        decreases v@.len() - i,
    {
        let w = utf8_width_of(v[i]);
        assert(v@.take(i + 1).drop_last() =~= v@.take(i as int));
        n = n + w as u128;
        i += 1;
    }
    assert(v@.take(v@.len() as int) =~= v@);
    n
}

fn open_text(w: usize, h: usize) -> (r: String)
    ensures
        r@ == svg_open(w as nat, h as nat),
{
    let mut r = crate::text::string_from("<svg xmlns=\"http://www.w3.org/2000/svg\" width=\"");
    push_num(&mut r, w);
    push_str(&mut r, "\" height=\"");
    push_num(&mut r, h);
    push_str(&mut r, "\" viewBox=\"0 0 ");
    push_num(&mut r, w);
    push_str(&mut r, " ");
    push_num(&mut r, h);
    push_str(&mut r, "\">\n");
    push_str(&mut r, SVG_STYLE);
    push_str(&mut r, "<rect width=\"");
    push_num(&mut r, w);
    push_str(&mut r, "\" height=\"");
    push_num(&mut r, h);
    push_str(&mut r, "\" class=\"bg\" />\n");
    r
}

fn banner_text(h: &SvgHeaderTexts, cw: usize) -> (r: String)
    requires
        utf8_len(h.tests_compared@) * 8 + 24 <= usize::MAX,
    ensures
        r@ == svg_banner(*h, cw as nat),
{
    let bytes = utf8_byte_len(h.tests_compared.as_str());
    let (bw, bx) = crate::export::svg_badge(bytes as usize, cw);
    let mut r = crate::text::string_from(
        "<g transform=\"translate(24, 24)\">\n    <text x=\"0\" y=\"20\" class=\"header-title\">",
    );
    push_esc(&mut r, h.title.as_str());
    push_str(&mut r, "</text>\n    <text x=\"0\" y=\"38\" class=\"header-subtitle\">");
    push_esc(&mut r, h.subtitle.as_str());
    push_str(&mut r, "</text>\n    <g transform=\"translate(");
    push_num(&mut r, bx);
    push_str(&mut r, ", 4)\">\n        <rect x=\"0\" y=\"0\" width=\"");
    push_num(&mut r, bw);
    push_str(&mut r, "\" height=\"26\" class=\"badge-bg\" />\n        <text x=\"");
    push_num(&mut r, bw / 2);
    push_str(&mut r, "\" y=\"17\" class=\"badge-text\" text-anchor=\"middle\">");
    push_esc(&mut r, h.tests_compared.as_str());
    push_str(&mut r, "</text>\n    </g>\n</g>\n");
    r
}

fn overview_open_text(h: &SvgHeaderTexts, cw: usize) -> (r: String)
    ensures
        r@ == svg_overview_open(*h, cw as nat),
{
    let mut r = crate::text::string_from("<g transform=\"translate(24, 80)\">\n    <rect width=\"");
    push_num(&mut r, cw);
    push_str(
        &mut r,
        "\" height=\"96\" class=\"card-bg\" />\n    <text x=\"16\" y=\"52\" class=\"header-title\" style=\"font-size: 14px; fill: #38bdf8;\">",
    );
    push_esc(&mut r, h.test_parameters.as_str());
    push_str(&mut r, "</text>\n");
    r
}

fn column_text(h: &SvgHeaderTexts, c: &SvgColumnTexts, idx: usize) -> (r: String)
    requires
        idx * 220 + 440 <= usize::MAX,
    ensures
        r@ == svg_column(*h, *c, idx as nat),
{
    let x = 220 + idx * 220;
    let cx = x + 110;
    let mut r = crate::text::string_from("    <line x1=\"");
    push_num(&mut r, x);
    push_str(&mut r, "\" y1=\"0\" x2=\"");
    push_num(&mut r, x);
    push_str(&mut r, "\" y2=\"96\" class=\"v-divider\" />\n    <text x=\"");
    push_num(&mut r, cx);
    push_str(&mut r, "\" y=\"24\" class=\"title-text\">[");
    push_num(&mut r, idx + 1);
    push_str(&mut r, "] ");
    push_esc(&mut r, c.benchmark_id.as_str());
    push_str(&mut r, "</text>\n    <text x=\"");
    push_num(&mut r, cx);
    push_str(&mut r, "\" y=\"40\" class=\"sub-text\">");
    push_esc(&mut r, c.preset.as_str());
    push_str(&mut r, " • ");
    push_esc(&mut r, c.gpu_mode.as_str());
    push_str(&mut r, "</text>\n    <text x=\"");
    push_num(&mut r, cx);
    push_str(
        &mut r,
        "\" y=\"62\" class=\"score-text\"><tspan fill=\"#94a3b8\" font-size=\"12px\" font-weight=\"600\">",
    );
    push_esc(&mut r, h.score_label.as_str());
    push_str(&mut r, ": </tspan>");
    push_str(&mut r, c.score.as_str());
    push_str(&mut r, "</text>\n    <text x=\"");
    push_num(&mut r, cx);
    push_str(&mut r, "\" y=\"80\" class=\"sub-text\">");
    push_str(&mut r, c.date.as_str());
    push_str(&mut r, "</text>\n");
    r
}

fn columns_text(h: &SvgHeaderTexts, cols: &Vec<SvgColumnTexts>) -> (r: String)
    requires
        (svg_columns(cols@.len()) + 1) * 220 + 48 <= usize::MAX,
    ensures
        r@ == svg_columns_text(*h, cols@),
{
    let mut r = String::new();
    let mut i: usize = 0;
    assert(cols@.take(0) =~= Seq::<SvgColumnTexts>::empty());
    while i < cols.len()
        invariant
            i <= cols@.len(),
            (svg_columns(cols@.len()) + 1) * 220 + 48 <= usize::MAX,
            r@ == svg_columns_text(*h, cols@.take(i as int)),
        decreases cols@.len() - i,
    {
        let c = column_text(h, &cols[i], i);
        push_str(&mut r, c.as_str());
        assert(cols@.take(i + 1).drop_last() =~= cols@.take(i as int));
        i += 1;
    }
    assert(cols@.take(cols@.len() as int) =~= cols@);
    r
}

fn section_head_text(title: &str, color: &str, y: usize) -> (r: String)
    ensures
        r@ == svg_section_head(title@, color@, y as nat),
{
    let mut r = crate::text::string_from("<g transform=\"translate(24, ");
    push_num(&mut r, y);
    push_str(&mut r, ")\">\n    <text x=\"4\" y=\"16\" class=\"section-title\" fill=\"");
    push_str(&mut r, color);
    push_str(&mut r, "\">");
    push_esc(&mut r, title);
    push_str(&mut r, "</text>\n</g>\n");
    r
}

fn row_head_text(label: &str, y: usize, cw: usize) -> (r: String)
    ensures
        r@ == svg_row_head(label@, y as nat, cw as nat),
{
    let mut r = crate::text::string_from("<g transform=\"translate(24, ");
    push_num(&mut r, y);
    push_str(&mut r, ")\">\n    <rect width=\"");
    push_num(&mut r, cw);
    push_str(&mut r, "\" height=\"36\" class=\"row-bg\" />\n    <text x=\"14\" y=\"23\" class=\"label-text\">");
    push_esc(&mut r, label);
    push_str(&mut r, "</text>\n");
    r
}

fn cell_frame_text(danger: bool, warning: bool, x: usize) -> (r: String)
    requires
        x + 6 <= usize::MAX,
    ensures
        r@ == svg_cell_frame(danger, warning, x as nat),
{
    if danger {
        let mut r = crate::text::string_from("    <rect x=\"");
        push_num(&mut r, x + 6);
        push_str(&mut r, "\" y=\"4\" width=\"208\" height=\"28\" class=\"throttle-border\" />\n");
        r
    } else if warning {
        let mut r = crate::text::string_from("    <rect x=\"");
        push_num(&mut r, x + 6);
        push_str(&mut r, "\" y=\"4\" width=\"208\" height=\"28\" class=\"power-border\" />\n");
        r
    } else {
        let r = String::new();
        assert(r@ =~= Seq::<char>::empty());
        r
    }
}

fn cell_fill_text(danger: bool, warning: bool, color: &str) -> (r: String)
    ensures
        r@ == svg_cell_fill(danger, warning, color@),
{
    if danger {
        crate::text::string_from("#ef4444")
    } else if warning {
        crate::text::string_from("#f59e0b")
    } else {
        crate::text::string_from(color)
    }
}

fn cell_text(c: &SvgCellTexts, idx: usize, color: &str) -> (r: String)
    requires
        idx * 220 + 440 <= usize::MAX,
    ensures
        r@ == svg_cell(*c, idx as nat, color@),
{
    let x = 220 + idx * 220;
    let mut r = crate::text::string_from("    <line x1=\"");
    push_num(&mut r, x);
    push_str(&mut r, "\" y1=\"0\" x2=\"");
    push_num(&mut r, x);
    push_str(&mut r, "\" y2=\"36\" class=\"v-divider\" />\n");
    let frame = cell_frame_text(c.danger, c.warning, x);
    push_str(&mut r, frame.as_str());
    push_str(&mut r, "    <text x=\"");
    push_num(&mut r, x + 110);
    push_str(&mut r, "\" y=\"23\" class=\"val-text\" fill=\"");
    let fill = cell_fill_text(c.danger, c.warning, color);
    push_str(&mut r, fill.as_str());
    push_str(&mut r, "\">");
    push_esc(&mut r, c.text.as_str());
    push_str(&mut r, "</text>\n");
    r
}

fn row_text(row: &SvgRowTexts, y: usize, cw: usize) -> (r: String)
    requires
        row.cells@.len() * 220 + 440 <= usize::MAX,
    ensures
        r@ == svg_row(*row, y as nat, cw as nat),
{
    let mut r = row_head_text(row.label.as_str(), y, cw);
    let ghost head = r@;
    let mut cells = String::new();
    let mut i: usize = 0;
    let n = row.cells.len();
    assert(row.cells@.take(0) =~= Seq::<SvgCellTexts>::empty());
    while i < n
        invariant
            n == row.cells@.len(),
            i <= n,
            n * 220 + 440 <= usize::MAX,
            cells@ == svg_cells(row.cells@.take(i as int), row.color@),
        decreases n - i,
    {
        let c = cell_text(&row.cells[i], i, row.color.as_str());
        push_str(&mut cells, c.as_str());
        assert(row.cells@.take(i + 1).drop_last() =~= row.cells@.take(i as int));
        i += 1;
    }
    assert(row.cells@.take(n as int) =~= row.cells@);
    push_str(&mut r, cells.as_str());
    push_str(&mut r, "</g>\n");
    r
}

fn rows_text(rows: &Vec<SvgRowTexts>, y: usize, cw: usize) -> (r: String)
    requires
        y + 40 * rows@.len() <= usize::MAX,
        forall|j: int| 0 <= j < rows@.len() ==> (#[trigger] rows@[j]).cells@.len() * 220 + 440 <= usize::MAX,
    ensures
        r@ == svg_rows(rows@, y as nat, cw as nat),
{
    let mut r = String::new();
    let mut i: usize = 0;
    assert(rows@.take(0) =~= Seq::<SvgRowTexts>::empty());
    while i < rows.len()
        invariant
            i <= rows@.len(),
            y + 40 * rows@.len() <= usize::MAX,
            forall|j: int| 0 <= j < rows@.len() ==> (#[trigger] rows@[j]).cells@.len() * 220 + 440 <= usize::MAX,
            r@ == svg_rows(rows@.take(i as int), y as nat, cw as nat),
        decreases rows@.len() - i,
    {
        assert(rows@[i as int].cells@.len() * 220 + 440 <= usize::MAX);
        let t = row_text(&rows[i], y + 40 * i, cw);
        push_str(&mut r, t.as_str());
        assert(rows@.take(i + 1).drop_last() =~= rows@.take(i as int));
        i += 1;
    }
    assert(rows@.take(rows@.len() as int) =~= rows@);
    r
}

proof fn lemma_sections_height_prefix(secs: Seq<SvgSectionTexts>, i: int)
    requires
        0 <= i <= secs.len(),
    ensures
        sections_height(secs.take(i)) <= sections_height(secs),
    decreases secs.len(),
{
    if i < secs.len() {
        assert(secs.drop_last().take(i) =~= secs.take(i));
        lemma_sections_height_prefix(secs.drop_last(), i);
    } else {
        assert(secs.take(i) =~= secs);
    }
}

fn footer_text(h: &SvgHeaderTexts, y: usize, cw: usize) -> (r: String)
    ensures
        r@ == svg_footer(*h, y as nat, cw as nat),
{
    let mut r = crate::text::string_from("<g transform=\"translate(24, ");
    push_num(&mut r, y);
    push_str(&mut r, ")\">\n    <line x1=\"0\" y1=\"0\" x2=\"");
    push_num(&mut r, cw);
    push_str(&mut r, "\" y2=\"0\" class=\"divider\" />\n    <text x=\"");
    push_num(&mut r, cw / 2);
    push_str(&mut r, "\" y=\"24\" class=\"sub-text\" style=\"font-size: 11px;\">");
    push_esc(&mut r, h.footer.as_str());
    push_str(&mut r, "</text>\n</g>\n</svg>\n");
    r
}

/// The comparison image of the runs whose overview texts are `columns`, with the
/// measurement rows of `sections`.
pub fn comparison_svg(
    header: &SvgHeaderTexts,
    columns: &Vec<SvgColumnTexts>,
    sections: &Vec<SvgSectionTexts>,
) -> (r: String)
    requires
        svg_fits(*header, columns@, sections@),
    ensures
        r@ == comparison_svg_text(*header, columns@, sections@),
{
    let canvas = crate::export::comparison_svg_canvas(columns.len());
    let cw = canvas.content_width;
    let mut r = open_text(canvas.total_width, canvas.total_height);
    let b = banner_text(header, cw);
    push_str(&mut r, b.as_str());
    let o = overview_open_text(header, cw);
    push_str(&mut r, o.as_str());
    let c = columns_text(header, columns);
    push_str(&mut r, c.as_str());
    push_str(&mut r, "</g>\n");
    let ghost secs = sections@;
    let mut body = String::new();
    let mut y: usize = 194;
    let mut i: usize = 0;
    assert(secs.take(0) =~= Seq::<SvgSectionTexts>::empty());
    while i < sections.len()
        invariant
            secs == sections@,
            i <= secs.len(),
            194 + sections_height(secs) <= usize::MAX,
            forall|a: int, j: int|
                0 <= a < secs.len() && 0 <= j < secs[a].rows@.len() ==> (#[trigger] secs[a].rows@[j]).cells@.len()
                    * 220 + 440 <= usize::MAX,
            y == 194 + sections_height(secs.take(i as int)),
            body@ == svg_sections(secs.take(i as int), 194, cw as nat),
        decreases secs.len() - i,
    {
        let s = &sections[i];
        proof {
            assert(secs.take(i + 1).drop_last() =~= secs.take(i as int));
            assert(secs.take(i + 1).last() == secs[i as int]);
            lemma_sections_height_prefix(secs, i + 1);
            assert forall|j: int| 0 <= j < s.rows@.len() implies (#[trigger] s.rows@[j]).cells@.len() * 220
                + 440 <= usize::MAX by {
                assert(secs[i as int].rows@[j] == s.rows@[j]);
            }
        }
        let head = section_head_text(s.title.as_str(), s.color.as_str(), y);
        push_str(&mut body, head.as_str());
        let rows = rows_text(&s.rows, y + 26, cw);
        push_str(&mut body, rows.as_str());
        y = y + 26 + 40 * s.rows.len() + 14;
        i += 1;
    }
    assert(secs.take(secs.len() as int) =~= secs);
    push_str(&mut r, body.as_str());
    let f = footer_text(header, y, cw);
    push_str(&mut r, f.as_str());
    r
}

// ---------------------------------------------------------------------------
// The rows of the image
// ---------------------------------------------------------------------------

/// A measurement that a row of the image shows.
#[derive(Debug, Clone, Copy, PartialEq, Eq, Structural)]
pub enum SvgMetric {
    CpuUsage,
    CpuTemp,
    CpuFreq,
    CpuPower,
    CpuThrottling,
    GpuUsage,
    GpuTemp,
    GpuFreq,
    VramFreq,
    GpuPower,
    GpuThrottling,
    Ram,
    Vram,
    Duration,
    GpuMode,
    PowerProfile,
    AcPower,
    SystemInfo,
}

/// A row of the image before its values: what it shows, its label and the
/// colour of its values.
pub struct SvgRowLayout {
    pub metric: SvgMetric,
    pub label: String,
    pub color: String,
}

/// A section of the image before its values: its title, colour and rows.
pub struct SvgSectionLayout {
    pub title: String,
    pub color: String,
    pub rows: Vec<SvgRowLayout>,
}

/// The sections of the image in order, each with the key of its title, its
/// colour and its rows (measurement, key of the label, colour of the values).
pub open spec fn comparison_layout_table() -> Seq<(Seq<char>, Seq<char>, Seq<(SvgMetric, Seq<char>, Seq<char>)>)> {
    seq![
        (
            "cpu_metrics_group"@,
            "#38bdf8"@,
            seq![
                (SvgMetric::CpuUsage, "cpu_usage_row"@, "#38bdf8"@),
                (SvgMetric::CpuTemp, "cpu_temp_row"@, "#fb923c"@),
                (SvgMetric::CpuFreq, "cpu_freq_row"@, "#818cf8"@),
                (SvgMetric::CpuPower, "cpu_power_row"@, "#34d399"@),
                (SvgMetric::CpuThrottling, "cpu_throttling_row"@, "#f8fafc"@),
            ],
        ),
        (
            "gpu_metrics_group"@,
            "#fbbf24"@,
            seq![
                (SvgMetric::GpuUsage, "gpu_usage_row"@, "#38bdf8"@),
                (SvgMetric::GpuTemp, "gpu_temp_row"@, "#fb923c"@),
                (SvgMetric::GpuFreq, "gpu_freq_row"@, "#818cf8"@),
                (SvgMetric::VramFreq, "vram_freq_row"@, "#818cf8"@),
                (SvgMetric::GpuPower, "gpu_power_row"@, "#34d399"@),
                (SvgMetric::GpuThrottling, "gpu_throttling_row"@, "#f8fafc"@),
            ],
        ),
        (
            "memory_metrics_group"@,
            "#a855f7"@,
            seq![
                (SvgMetric::Ram, "ram_row"@, "#38bdf8"@),
                (SvgMetric::Vram, "vram_row"@, "#c084fc"@),
            ],
        ),
        (
            "other_metrics_group"@,
            "#94a3b8"@,
            seq![
                (SvgMetric::Duration, "duration_row"@, "#f8fafc"@),
                (SvgMetric::GpuMode, "gpu_mode"@, "#38bdf8"@),
                (SvgMetric::PowerProfile, "power_profile_row"@, "#38bdf8"@),
                (SvgMetric::AcPower, "ac_power_row"@, "#34d399"@),
                (SvgMetric::SystemInfo, "system_info_row"@, "#94a3b8"@),
            ],
        ),
    ]
}

/// The dictionary key of the label that names each measurement.
pub open spec fn metric_label_key(m: SvgMetric) -> Seq<char> {
    match m {
        SvgMetric::CpuUsage => "cpu_usage_row"@,
        SvgMetric::CpuTemp => "cpu_temp_row"@,
        SvgMetric::CpuFreq => "cpu_freq_row"@,
        SvgMetric::CpuPower => "cpu_power_row"@,
        SvgMetric::CpuThrottling => "cpu_throttling_row"@,
        SvgMetric::GpuUsage => "gpu_usage_row"@,
        SvgMetric::GpuTemp => "gpu_temp_row"@,
        SvgMetric::GpuFreq => "gpu_freq_row"@,
        SvgMetric::VramFreq => "vram_freq_row"@,
        SvgMetric::GpuPower => "gpu_power_row"@,
        SvgMetric::GpuThrottling => "gpu_throttling_row"@,
        SvgMetric::Ram => "ram_row"@,
        SvgMetric::Vram => "vram_row"@,
        SvgMetric::Duration => "duration_row"@,
        SvgMetric::GpuMode => "gpu_mode"@,
        SvgMetric::PowerProfile => "power_profile_row"@,
        SvgMetric::AcPower => "ac_power_row"@,
        SvgMetric::SystemInfo => "system_info_row"@,
    }
}

/// The position of a measurement in the order the image lists them.
spec fn metric_rank(m: SvgMetric) -> int {
    match m {
        SvgMetric::CpuUsage => 0,
        SvgMetric::CpuTemp => 1,
        SvgMetric::CpuFreq => 2,
        SvgMetric::CpuPower => 3,
        SvgMetric::CpuThrottling => 4,
        SvgMetric::GpuUsage => 5,
        SvgMetric::GpuTemp => 6,
        SvgMetric::GpuFreq => 7,
        SvgMetric::VramFreq => 8,
        SvgMetric::GpuPower => 9,
        SvgMetric::GpuThrottling => 10,
        SvgMetric::Ram => 11,
        SvgMetric::Vram => 12,
        SvgMetric::Duration => 13,
        SvgMetric::GpuMode => 14,
        SvgMetric::PowerProfile => 15,
        SvgMetric::AcPower => 16,
        SvgMetric::SystemInfo => 17,
    }
}

spec fn section_start(k: int) -> int {
    if k == 0 {
        0
    } else if k == 1 {
        5
    } else if k == 2 {
        11
    } else {
        13
    }
}

/// Every row of the comparison image shows the measurement that its label
/// names (the row labelled by `gpu_temp_row` shows the GPU temperature, and so
/// on), and no measurement is shown in two rows.
pub proof fn lemma_layout_rows_show_labelled_metric()
    ensures
        forall|k: int, j: int|
            0 <= k < comparison_layout_table().len() && 0 <= j < comparison_layout_table()[k].2.len()
                ==> (#[trigger] comparison_layout_table()[k].2[j]).1 == metric_label_key(
                comparison_layout_table()[k].2[j].0,
            ),
        forall|k1: int, j1: int, k2: int, j2: int|
            0 <= k1 < comparison_layout_table().len() && 0 <= j1 < comparison_layout_table()[k1].2.len() && 0
                <= k2 < comparison_layout_table().len() && 0 <= j2 < comparison_layout_table()[k2].2.len()
                && (#[trigger] comparison_layout_table()[k1].2[j1]).0 == (#[trigger] comparison_layout_table()[k2].2[j2]).0
                ==> k1 == k2 && j1 == j2,
{
    let t = comparison_layout_table();
    assert forall|k: int, j: int| 0 <= k < t.len() && 0 <= j < t[k].2.len() implies t[k].2[j].1
        == metric_label_key(t[k].2[j].0) && metric_rank(t[k].2[j].0) == section_start(k) + j
        && t[k].2.len() + section_start(k) <= 18 && (k < 3 ==> section_start(k + 1) == section_start(k) + t[k].2.len()) by {
        if k == 0 {
            assert(j == 0 || j == 1 || j == 2 || j == 3 || j == 4);
        } else if k == 1 {
            assert(j == 0 || j == 1 || j == 2 || j == 3 || j == 4 || j == 5);
        } else if k == 2 {
            assert(j == 0 || j == 1);
        } else {
            assert(j == 0 || j == 1 || j == 2 || j == 3 || j == 4);
        }
    }
    assert forall|k1: int, j1: int, k2: int, j2: int|
        0 <= k1 < t.len() && 0 <= j1 < t[k1].2.len() && 0 <= k2 < t.len() && 0 <= j2 < t[k2].2.len()
            && #[trigger] t[k1].2[j1].0 == #[trigger] t[k2].2[j2].0 implies k1 == k2 && j1 == j2 by {
        assert(metric_rank(t[k1].2[j1].0) == section_start(k1) + j1);
        assert(metric_rank(t[k2].2[j2].0) == section_start(k2) + j2);
        assert(section_start(k1) + j1 < section_start(k1) + t[k1].2.len());
        assert(section_start(k2) + j2 < section_start(k2) + t[k2].2.len());
    }
}

/// Whether `rows` are the rows `want` with their labels in the language of `i`.
pub open spec fn rows_are(rows: Seq<SvgRowLayout>, i: I18n, want: Seq<(SvgMetric, Seq<char>, Seq<char>)>) -> bool {
    &&& rows.len() == want.len()
    &&& forall|j: int|
        0 <= j < rows.len() ==> (#[trigger] rows[j]).metric == want[j].0 && rows[j].label@ == i.text_for(
            want[j].1,
        ) && rows[j].color@ == want[j].2
}

fn row_layout(i18n: &I18n, metric: SvgMetric, key: &str, color: &str) -> (r: SvgRowLayout)
    ensures
        r.metric == metric,
        r.label@ == i18n.text_for(key@),
        r.color@ == color@,
{
    SvgRowLayout { metric, label: t(i18n, key), color: string_from(color) }
}

/// The sections and rows of the comparison image, with their titles and labels
/// in the current language.
pub fn comparison_layout(i18n: &I18n) -> (r: Vec<SvgSectionLayout>)
    ensures
        r@.len() == comparison_layout_table().len(),
        forall|k: int|
            0 <= k < r@.len() ==> (#[trigger] r@[k]).title@ == i18n.text_for(comparison_layout_table()[k].0)
                && r@[k].color@ == comparison_layout_table()[k].1 && rows_are(
                r@[k].rows@,
                *i18n,
                comparison_layout_table()[k].2,
            ),
{
    let mut r: Vec<SvgSectionLayout> = Vec::new();
    {
        let mut rows: Vec<SvgRowLayout> = Vec::new();
        rows.push(row_layout(i18n, SvgMetric::CpuUsage, "cpu_usage_row", "#38bdf8"));
        rows.push(row_layout(i18n, SvgMetric::CpuTemp, "cpu_temp_row", "#fb923c"));
        rows.push(row_layout(i18n, SvgMetric::CpuFreq, "cpu_freq_row", "#818cf8"));
        rows.push(row_layout(i18n, SvgMetric::CpuPower, "cpu_power_row", "#34d399"));
        rows.push(row_layout(i18n, SvgMetric::CpuThrottling, "cpu_throttling_row", "#f8fafc"));
        proof {
            assert(rows_are(rows@, *i18n, comparison_layout_table()[0].2));
        }
        r.push(SvgSectionLayout { title: t(i18n, "cpu_metrics_group"), color: string_from("#38bdf8"), rows });
    }
    {
        let mut rows: Vec<SvgRowLayout> = Vec::new();
        rows.push(row_layout(i18n, SvgMetric::GpuUsage, "gpu_usage_row", "#38bdf8"));
        rows.push(row_layout(i18n, SvgMetric::GpuTemp, "gpu_temp_row", "#fb923c"));
        rows.push(row_layout(i18n, SvgMetric::GpuFreq, "gpu_freq_row", "#818cf8"));
        rows.push(row_layout(i18n, SvgMetric::VramFreq, "vram_freq_row", "#818cf8"));
        rows.push(row_layout(i18n, SvgMetric::GpuPower, "gpu_power_row", "#34d399"));
        rows.push(row_layout(i18n, SvgMetric::GpuThrottling, "gpu_throttling_row", "#f8fafc"));
        proof {
            assert(rows_are(rows@, *i18n, comparison_layout_table()[1].2));
        }
        r.push(SvgSectionLayout { title: t(i18n, "gpu_metrics_group"), color: string_from("#fbbf24"), rows });
    }
    {
        let mut rows: Vec<SvgRowLayout> = Vec::new();
        rows.push(row_layout(i18n, SvgMetric::Ram, "ram_row", "#38bdf8"));
        rows.push(row_layout(i18n, SvgMetric::Vram, "vram_row", "#c084fc"));
        proof {
            assert(rows_are(rows@, *i18n, comparison_layout_table()[2].2));
        }
        r.push(SvgSectionLayout { title: t(i18n, "memory_metrics_group"), color: string_from("#a855f7"), rows });
    }
    {
        let mut rows: Vec<SvgRowLayout> = Vec::new();
        rows.push(row_layout(i18n, SvgMetric::Duration, "duration_row", "#f8fafc"));
        rows.push(row_layout(i18n, SvgMetric::GpuMode, "gpu_mode", "#38bdf8"));
        rows.push(row_layout(i18n, SvgMetric::PowerProfile, "power_profile_row", "#38bdf8"));
        rows.push(row_layout(i18n, SvgMetric::AcPower, "ac_power_row", "#34d399"));
        rows.push(row_layout(i18n, SvgMetric::SystemInfo, "system_info_row", "#94a3b8"));
        proof {
            assert(rows_are(rows@, *i18n, comparison_layout_table()[3].2));
        }
        r.push(SvgSectionLayout { title: t(i18n, "other_metrics_group"), color: string_from("#94a3b8"), rows });
    }
    r
}

} // verus!
