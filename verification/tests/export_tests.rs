use benchhub::export::{
    comparison_svg_canvas, svg_badge, svg_summary_text, svg_throttle_marks,escape_csv_cell, escape_xml};

#[test]
fn test_csv_formula_injection_prevention() {
    assert_eq!(escape_csv_cell("=SUM(A1:A10)"), "'=SUM(A1:A10)");
    assert_eq!(escape_csv_cell("+12345"), "'+12345");
    assert_eq!(escape_csv_cell("-2+5"), "'-2+5");
    assert_eq!(escape_csv_cell("@cmd"), "'@cmd");
    assert_eq!(escape_csv_cell("\tcalc"), "'\tcalc");
    assert_eq!(escape_csv_cell("\rcalc"), "\"'\rcalc\"");

    assert_eq!(escape_csv_cell("=1+1,2"), "\"'=1+1,2\"");
    assert_eq!(escape_csv_cell("+foo\"bar\""), "\"'+foo\"\"bar\"\"\"");

    assert_eq!(escape_csv_cell("Geekbench 6"), "Geekbench 6");
    assert_eq!(escape_csv_cell("Standard, 1080p"), "\"Standard, 1080p\"");
}

#[test]
fn csv_cells_with_line_breaks_are_quoted() {
    assert_eq!(escape_csv_cell("a\nb"), "\"a\nb\"");
    assert_eq!(escape_csv_cell(""), "");
    assert_eq!(escape_csv_cell("say \"hi\""), "\"say \"\"hi\"\"\"");
}

#[test]
fn xml_special_characters_become_entities() {
    assert_eq!(
        escape_xml("<a href=\"x\">Tom & Jerry's</a>"),
        "&lt;a href=&quot;x&quot;&gt;Tom &amp; Jerry&apos;s&lt;/a&gt;"
    );
    assert_eq!(escape_xml("plain"), "plain");
    assert_eq!(escape_xml("&amp;"), "&amp;amp;");
}

#[test]
fn svg_canvas_grows_with_runs() {
    let one = comparison_svg_canvas(0);
    assert_eq!((one.content_width, one.total_width, one.total_height), (440, 488, 1114));
    let three = comparison_svg_canvas(3);
    assert_eq!((three.content_width, three.total_width), (880, 928));
}

#[test]
fn svg_badge_has_a_minimum_width() {
    assert_eq!(svg_badge(10, 880), (170, 710));
    assert_eq!(svg_badge(30, 880), (264, 616));
    assert_eq!(svg_badge(100, 440), (824, 0));
}

#[test]
fn svg_summary_is_cut_after_26_chars() {
    assert_eq!(svg_summary_text(""), "-");
    assert_eq!(svg_summary_text("Ryzen | AMD Radeon GPU"), "Ryzen | AMD Radeon GPU");
    assert_eq!(
        svg_summary_text("AMD Ryzen 7 | AMD Radeon GPU | Linux"),
        "AMD Ryzen 7 | AMD Radeon..."
    );
    assert_eq!(svg_summary_text("ççççççççççççççççççççççççççç"), "çççççççççççççççççççççççç...");
}

#[test]
fn svg_throttle_cells_are_marked() {
    assert_eq!(svg_throttle_marks("Yok", false), (false, false));
    assert_eq!(svg_throttle_marks("", true), (false, false));
    assert_eq!(svg_throttle_marks("Termal (%40)", false), (true, false));
    assert_eq!(svg_throttle_marks("Güç Limiti (%20)", true), (false, true));
    assert_eq!(svg_throttle_marks("Power Limit", false), (true, false));
    assert_eq!(svg_throttle_marks("Termal (%40)", true), (true, false));
}
