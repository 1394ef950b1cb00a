//! Escaping for the export formats: CSV cells (RFC 4180, with formula-injection
//! protection) and XML text for SVG reports; the name of an exported history
//! file, the runs a comparison image shows, its size and the marks of its cells.
use vstd::prelude::*;
use crate::runs::int_text;
use crate::dates::{date_or, full_date_text, utc_time_text};
use crate::text::{
    append_strings, chars_of, clone_strings, contains_char, join, join_strings, push_str, push_string,
    replace_char, replace_char_chars, string_from, string_of,
};
use crate::runs::int_string;

verus! {

/// Characters that make a spreadsheet read a cell as a formula when it starts with one.
pub open spec fn is_formula_start(c: char) -> bool {
    c == '=' || c == '+' || c == '-' || c == '@' || c == '\t' || c == '\r'
}

/// The cell with a single quote put in front when it starts like a formula.
pub open spec fn csv_guarded(s: Seq<char>) -> Seq<char> {
    if s.len() > 0 && is_formula_start(s[0]) {
        seq!['\''] + s
    } else {
        s
    }
}

/// Whether a cell has to be quoted: it holds a comma, a quote or a line break.
pub open spec fn csv_needs_quotes(s: Seq<char>) -> bool {
    s.contains(',') || s.contains('"') || s.contains('\n') || s.contains('\r')
}

/// A CSV cell escaped for export: guarded against formulas, then, if needed,
/// quoted with its quotes doubled.
pub open spec fn csv_cell(s: Seq<char>) -> Seq<char> {
    let v = csv_guarded(s);
    if csv_needs_quotes(v) {
        seq!['"'] + replace_char(v, '"', "\"\""@) + seq!['"']
    } else {
        v
    }
}

/// Escapes a CSV cell value following RFC 4180 while preventing formula injection:
/// a value that begins with '=', '+', '-', '@', tab or carriage return gets a
/// single quote in front.
pub fn escape_csv_cell(s: &str) -> (r: String)
    ensures
        r@ == csv_cell(s@),
        r@.len() > 0 ==> !is_formula_start(r@[0]),
{
    proof {
        reveal_strlit("\"\"");
    }
    let v0 = chars_of(s);
    let mut v: Vec<char> = Vec::new();
    if v0.len() > 0 && (v0[0] == '=' || v0[0] == '+' || v0[0] == '-' || v0[0] == '@' || v0[0]
        == '\t' || v0[0] == '\r') {
        v.push('\'');
    }
    let mut i: usize = 0;
    let ghost pre = v@;
    while i < v0.len()
        invariant
            i <= v0@.len(),
            v@ == pre + v0@.take(i as int),
        decreases v0@.len() - i,
    {
        v.push(v0[i]);
        assert(v0@.take(i + 1) =~= v0@.take(i as int).push(v0@[i as int]));
        i += 1;
    }
    assert(v0@.take(v0@.len() as int) =~= v0@);
    assert(v@ =~= csv_guarded(s@));
    let c = v.as_slice();
    if contains_char(c, ',') || contains_char(c, '"') || contains_char(c, '\n') || contains_char(
        c,
        '\r',
    ) {
        let inner = replace_char_chars(c, '"', "\"\"");
        let mut out: Vec<char> = Vec::new();
        out.push('"');
        let mut k: usize = 0;
        while k < inner.len()
            invariant
                k <= inner@.len(),
                out@ == seq!['"'] + inner@.take(k as int),
            decreases inner@.len() - k,
        {
            out.push(inner[k]);
            assert(inner@.take(k + 1) =~= inner@.take(k as int).push(inner@[k as int]));
            k += 1;
        }
        out.push('"');
        assert(inner@.take(inner@.len() as int) =~= inner@);
        assert(out@ =~= seq!['"'] + inner@ + seq!['"']);
        string_of(out.as_slice())
    } else {
        string_of(c)
    }
}

// ---------------------------------------------------------------------------
// XML
// ---------------------------------------------------------------------------

/// XML text with `&`, `<`, `>`, `"` and `'` written as entities.
pub open spec fn xml_escaped(s: Seq<char>) -> Seq<char> {
    replace_char(
        replace_char(
            replace_char(replace_char(replace_char(s, '&', "&amp;"@), '<', "&lt;"@), '>', "&gt;"@),
            '"',
            "&quot;"@,
        ),
        '\'',
        "&apos;"@,
    )
}

/// Replacing `c` by a text without `d` leaves no `d` behind when there was none,
/// or when `d` is `c` itself.
pub proof fn lemma_replace_char_removes(s: Seq<char>, c: char, r: Seq<char>, d: char)
    requires
        !r.contains(d),
        d == c || !s.contains(d),
    ensures
        !replace_char(s, c, r).contains(d),
    decreases s.len(),
{
    if s.len() > 0 {
        let t = s.drop_last();
        assert(d == c || !t.contains(d)) by {
            if d != c && t.contains(d) {
                let k = choose|k: int| 0 <= k < t.len() && t[k] == d;
                assert(s[k] == d);
            }
        }
        lemma_replace_char_removes(t, c, r, d);
        let tail = if s.last() == c {
            r
        } else {
            seq![s.last()]
        };
        assert(!tail.contains(d)) by {
            if s.last() != c && tail.contains(d) {
                assert(tail[0] == s.last());
                assert(s[s.len() - 1] == d);
            }
        }
        let whole = replace_char(t, c, r) + tail;
        assert(!whole.contains(d)) by {
            if whole.contains(d) {
                let k = choose|k: int| 0 <= k < whole.len() && whole[k] == d;
                if k < replace_char(t, c, r).len() {
                    assert(replace_char(t, c, r)[k] == d);
                } else {
                    assert(tail[k - replace_char(t, c, r).len()] == d);
                }
            }
        }
    }
}

/// Escapes text for use inside XML (SVG) content and attribute values.
pub fn escape_xml(s: &str) -> (r: String)
    ensures
        r@ == xml_escaped(s@),
        !r@.contains('<'),
        !r@.contains('>'),
        !r@.contains('"'),
        !r@.contains('\''),
{
    proof {
        reveal_strlit("&amp;");
        reveal_strlit("&lt;");
        reveal_strlit("&gt;");
        reveal_strlit("&quot;");
        reveal_strlit("&apos;");
    }
    let v = chars_of(s);
    let v1 = replace_char_chars(v.as_slice(), '&', "&amp;");
    let v2 = replace_char_chars(v1.as_slice(), '<', "&lt;");
    let v3 = replace_char_chars(v2.as_slice(), '>', "&gt;");
    let v4 = replace_char_chars(v3.as_slice(), '"', "&quot;");
    let v5 = replace_char_chars(v4.as_slice(), '\'', "&apos;");
    proof {
        let amp = "&amp;"@;
        let lt = "&lt;"@;
        let gt = "&gt;"@;
        let quot = "&quot;"@;
        let apos = "&apos;"@;
        assert(!lt.contains('<') && !gt.contains('<') && !quot.contains('<') && !apos.contains('<')
            && !amp.contains('<')) by {
            assert(amp[0] != '<' && amp[1] != '<' && amp[2] != '<' && amp[3] != '<' && amp[4] != '<');
        }
        lemma_replace_char_removes(v1@, '<', lt, '<');
        lemma_replace_char_removes(v2@, '>', gt, '<');
        lemma_replace_char_removes(v3@, '"', quot, '<');
        lemma_replace_char_removes(v4@, '\'', apos, '<');
        assert(!lt.contains('>') && !gt.contains('>') && !quot.contains('>') && !apos.contains('>'));
        lemma_replace_char_removes(v2@, '>', gt, '>');
        lemma_replace_char_removes(v3@, '"', quot, '>');
        lemma_replace_char_removes(v4@, '\'', apos, '>');
        assert(!quot.contains('"') && !apos.contains('"'));
        lemma_replace_char_removes(v3@, '"', quot, '"');
        lemma_replace_char_removes(v4@, '\'', apos, '"');
        assert(!apos.contains('\''));
        lemma_replace_char_removes(v4@, '\'', apos, '\'');
    }
    string_of(v5.as_slice())
}

// ---------------------------------------------------------------------------
// Export files and selections
// ---------------------------------------------------------------------------

/// The name of the history file exported at `ts` (seconds since the epoch).
pub fn history_csv_file_name(ts: i64) -> (r: String)
    ensures
        r@ == "benchhub_history_"@ + int_text(ts as int) + ".csv"@,
{
    let mut s = string_from("benchhub_history_");
    let d = crate::runs::int_string(ts);
    push_str(&mut s, d.as_str());
    push_str(&mut s, ".csv");
    s
}

/// The positions, in query order, of the runs that are selected.
pub open spec fn selected_positions(ids: Seq<i64>, selected: Seq<i64>) -> Seq<int>
    decreases ids.len(),
{
    if ids.len() == 0 {
        Seq::empty()
    } else {
        let rest = selected_positions(ids.drop_last(), selected);
        if selected.contains(ids.last()) {
            rest.push(ids.len() - 1)
        } else {
            rest
        }
    }
}

/// The positions of the query's runs that a comparison image shows: the
/// selected ones, in the query's order.
pub fn runs_to_compare(ids: &[i64], selected: &[i64]) -> (r: Vec<usize>)
    ensures
        r@.map_values(|i: usize| i as int) == selected_positions(ids@, selected@),
{
    let mut r: Vec<usize> = Vec::new();
    let mut i: usize = 0;
    while i < ids.len()
        invariant
            i <= ids@.len(),
            r@.map_values(|k: usize| k as int) == selected_positions(ids@.take(i as int), selected@),
        decreases ids@.len() - i,
    {
        let ghost before = r@;
        assert(ids@.take(i + 1).drop_last() =~= ids@.take(i as int));
        let mut found = false;
        let mut j: usize = 0;
        while j < selected.len()
            invariant
                i < ids@.len(),
                j <= selected@.len(),
                found == exists|k: int| 0 <= k < j && selected@[k] == ids@[i as int],
            decreases selected@.len() - j,
        {
            if selected[j] == ids[i] {
                found = true;
            }
            j += 1;
        }
        if found {
            r.push(i);
            assert(r@.map_values(|k: usize| k as int) =~= before.map_values(|k: usize| k as int).push(
                i as int,
            ));
        }
        i += 1;
    }
    assert(ids@.take(i as int) =~= ids@);
    r
}

// ---------------------------------------------------------------------------
// The comparison image
// ---------------------------------------------------------------------------

/// The number of run columns the comparison image is laid out for (one at least).
pub open spec fn svg_columns(run_count: nat) -> nat {
    if run_count == 0 {
        1
    } else {
        run_count
    }
}

/// The size of the comparison image: a label column and one column per run, each
/// 220 wide, 24 of margin on each side, and a fixed height for its four sections.
pub struct SvgCanvas {
    pub content_width: usize,
    pub total_width: usize,
    pub total_height: usize,
}

/// The size of the comparison image for `run_count` runs.
pub fn comparison_svg_canvas(run_count: usize) -> (c: SvgCanvas)
    requires
        (svg_columns(run_count as nat) + 1) * 220 + 48 <= usize::MAX,
    ensures
        c.content_width == 220 + svg_columns(run_count as nat) * 220,
        c.total_width == c.content_width + 48,
        c.total_height == 1114,
{
    let columns: usize = if run_count == 0 {
        1
    } else {
        run_count
    };
    let content_width = 220 + columns * 220;
    let header_height: usize = 80;
    let overview_height: usize = 96;
    let section_gap: usize = 18;
    let section_header_height: usize = 26;
    let row_height: usize = 36;
    let rows: usize = 5 + 6 + 2 + 5;
    let sections: usize = 4;
    let footer_height: usize = 40;
    let total_height = header_height + overview_height + section_gap + sections * section_header_height
        + rows * (row_height + 4) + sections * (section_gap - 4) + footer_height;
    SvgCanvas { content_width, total_width: content_width + 48, total_height }
}

/// The width of the badge naming how many runs are compared, for a label of
/// `text_bytes` bytes: 8 per byte and 24 more, 170 at least.
pub open spec fn badge_width(text_bytes: nat) -> nat {
    if text_bytes * 8 + 24 > 170 {
        text_bytes * 8 + 24
    } else {
        170
    }
}

/// The width of the badge and its left edge, flush with the right of the
/// content (at 0 when wider than the content).
pub fn svg_badge(text_bytes: usize, content_width: usize) -> (r: (usize, usize))
    requires
        text_bytes * 8 + 24 <= usize::MAX,
    ensures
        r.0 == badge_width(text_bytes as nat),
        r.1 == if content_width >= r.0 {
            content_width - r.0
        } else {
            0
        },
{
    let w = text_bytes * 8 + 24;
    let width = if w > 170 {
        w
    } else {
        170
    };
    let x = if content_width >= width {
        content_width - width
    } else {
        0
    };
    (width, x)
}

/// The system summary in a cell of the comparison image: cut to 24 characters
/// and "..." when longer than 26, "-" when empty.
pub open spec fn svg_summary(s: Seq<char>) -> Seq<char> {
    if s.len() > 26 {
        s.take(24) + "..."@
    } else if s.len() == 0 {
        "-"@
    } else {
        s
    }
}

/// The system summary in a cell of the comparison image.
pub fn svg_summary_text(s: &str) -> (r: String)
    ensures
        r@ == svg_summary(s@),
{
    let v = chars_of(s);
    if v.len() > 26 {
        let mut t: Vec<char> = Vec::new();
        let mut i: usize = 0;
        while i < 24
            invariant
                v@.len() > 26,
                i <= 24,
                t@ == v@.take(i as int),
            decreases 24 - i,
        {
            t.push(v[i]);
            assert(v@.take(i + 1) =~= v@.take(i as int).push(v@[i as int]));
            i += 1;
        }
        let mut r = string_of(t.as_slice());
        push_str(&mut r, "...");
        r
    } else if v.len() == 0 {
        string_from("-")
    } else {
        string_from(s)
    }
}

/// A throttling note that the comparison image marks as throttled: not empty,
/// "Yok", "None", "Hayır" or "-".
pub open spec fn svg_throttled(note: Seq<char>) -> bool {
    note != "Yok"@ && note != "None"@ && note != "Hayır"@ && note != "-"@ && note.len() > 0
}

/// A graphics card note that names a power limit.
pub open spec fn svg_power_note(note: Seq<char>) -> bool {
    crate::text::contains(note, "Güç"@) || crate::text::contains(note, "Power"@)
}

/// The marks of a throttling cell in the comparison image: whether it is drawn
/// as throttled (red) and whether as power-limited (amber). Only the graphics
/// card's cell can show a power limit, which then takes the place of the red
/// mark.
pub fn svg_throttle_marks(note: &str, gpu: bool) -> (r: (bool, bool))
    ensures
        r == if gpu {
            (svg_throttled(note@) && !svg_power_note(note@), svg_power_note(note@))
        } else {
            (svg_throttled(note@), false)
        },
{
    let v = chars_of(note);
    let throttled = !crate::text::eq_str(v.as_slice(), "Yok") && !crate::text::eq_str(v.as_slice(), "None")
        && !crate::text::eq_str(v.as_slice(), "Hayır") && !crate::text::eq_str(v.as_slice(), "-") && v.len()
        > 0;
    if gpu {
        let power = crate::text::contains_str(v.as_slice(), "Güç") || crate::text::contains_str(
            v.as_slice(),
            "Power",
        );
        (throttled && !power, power)
    } else {
        (throttled, false)
    }
}

// ---------------------------------------------------------------------------
// The history CSV
// ---------------------------------------------------------------------------

/// A run as a line of the history CSV: its texts as stored, its score and
/// measurements as the caller wrote them (in the order of the header), and its
/// start time.
pub struct HistoryCsvRow {
    pub id: i64,
    pub benchmark_id: String,
    pub category: String,
    pub preset_or_version: String,
    pub gpu_mode: String,
    pub power_profile: String,
    pub score: String,
    pub status: String,
    pub timestamp: i64,
    pub measurements: Vec<String>,
    pub system_info_summary: String,
    pub log_path: String,
}

/// The cells of a run's CSV line: the id, the escaped texts, the score as
/// written, the escaped status and UTC date (to the second, "-" when it cannot be
/// written), the measurements as written, and the escaped system summary and log
/// path.
pub open spec fn history_csv_cells(r: HistoryCsvRow) -> Seq<Seq<char>> {
    seq![
        int_text(r.id as int),
        csv_cell(r.benchmark_id@),
        csv_cell(r.category@),
        csv_cell(r.preset_or_version@),
        csv_cell(r.gpu_mode@),
        csv_cell(r.power_profile@),
        r.score@,
        csv_cell(r.status@),
        csv_cell(date_or(utc_time_text(r.timestamp as int, "%Y-%m-%d %H:%M:%S"@), "-"@)),
    ] + r.measurements.deep_view() + seq![csv_cell(r.system_info_summary@), csv_cell(r.log_path@)]
}

/// The lines of the runs, each its cells joined by commas and ended by a newline.
pub open spec fn history_csv_lines(rows: Seq<HistoryCsvRow>) -> Seq<char>
    decreases rows.len(),
{
    if rows.len() == 0 {
        Seq::empty()
    } else {
        history_csv_lines(rows.drop_last()) + join(history_csv_cells(rows.last()), ","@) + "\n"@
    }
}

/// The history CSV: the header line, then one line per run.
pub open spec fn history_csv_text(header: Seq<char>, rows: Seq<HistoryCsvRow>) -> Seq<char> {
    header + "\n"@ + history_csv_lines(rows)
}

fn history_csv_row_cells(r: &HistoryCsvRow) -> (v: Vec<String>)
    ensures
        v.deep_view() == history_csv_cells(*r),
{
    let mut v: Vec<String> = Vec::new();
    push_string(&mut v, int_string(r.id));
    push_string(&mut v, escape_csv_cell(r.benchmark_id.as_str()));
    push_string(&mut v, escape_csv_cell(r.category.as_str()));
    push_string(&mut v, escape_csv_cell(r.preset_or_version.as_str()));
    push_string(&mut v, escape_csv_cell(r.gpu_mode.as_str()));
    push_string(&mut v, escape_csv_cell(r.power_profile.as_str()));
    push_string(&mut v, r.score.clone());
    push_string(&mut v, escape_csv_cell(r.status.as_str()));
    let date = full_date_text(r.timestamp);
    push_string(&mut v, escape_csv_cell(date.as_str()));
    append_strings(&mut v, clone_strings(&r.measurements));
    push_string(&mut v, escape_csv_cell(r.system_info_summary.as_str()));
    push_string(&mut v, escape_csv_cell(r.log_path.as_str()));
    assert(v.deep_view() =~= history_csv_cells(*r));
    v
}

/// The history CSV: `header`, then one line per run with its cells escaped and
/// joined by commas.
pub fn history_csv(header: &str, rows: &Vec<HistoryCsvRow>) -> (r: String)
    ensures
        r@ == history_csv_text(header@, rows@),
{
    let mut out = string_from(header);
    push_str(&mut out, "\n");
    let ghost start = out@;
    let mut i: usize = 0;
    assert(rows@.take(0) =~= Seq::<HistoryCsvRow>::empty());
    while i < rows.len()
        invariant
            i <= rows@.len(),
            start == header@ + "\n"@,
            out@ == start + history_csv_lines(rows@.take(i as int)),
        decreases rows@.len() - i,
    {
        let cells = history_csv_row_cells(&rows[i]);
        let line = join_strings(&cells, ",");
        push_str(&mut out, line.as_str());
        push_str(&mut out, "\n");
        proof {
            let t = rows@.take(i + 1);
            assert(t.drop_last() =~= rows@.take(i as int));
            assert(t.last() == rows@[i as int]);
        }
        i += 1;
    }
    assert(rows@.take(rows@.len() as int) =~= rows@);
    out
}

} // verus!
