//! The fixed text of the printed document: everything but the title, the margins and the body.
use vstd::prelude::*;

use crate::sections::quiet;
use crate::text::{begins_with, finishes_with, occurs, occurs_at};

verus! {

/// From the start of the document to its title.
pub const DOCUMENT_OPEN: &'static str = r#"<!doctype html>
<html>
<head>
<meta charset="utf-8" />
<title>"#;

/// From behind the title to the margins of a page.
pub const DOCUMENT_STYLE: &'static str = r#" — Gridora Forge Report</title>
<style>
* { box-sizing: border-box; margin: 0; padding: 0; }
@page { size: letter; margin: 0; }
html, body { height: 100%; margin: 0; font-family: Arial, sans-serif; color: #111; background: #fff; }

/* Each .page is exactly one printed page (US Letter, 8.5in x 11in).
   Fixed physical units beat viewport-relative ones: mobile browsers report
   viewport height that fluctuates with the address bar, which corrupts
   page-break math.
   Margins are baked in as padding so the browser print dialog cannot override them. */
.page {
  width: 8.5in;
  height: 11in;
  padding: "#;

/// From behind the margins to the body.
pub const DOCUMENT_RULES: &'static str = r#"in;
  display: flex;
  flex-direction: column;
  overflow: hidden;
  page-break-after: always;
  break-after: page;
}
.page:last-child { page-break-after: auto; break-after: auto; }

/* Optional header / footer chrome */
.page-header,
.page-footer {
  flex: 0 0 auto;
  font-size: 10px;
  color: #666;
  line-height: 1.35;
}
.page-header { padding-bottom: 0.12in; }
.page-footer { padding-top: 0.12in; }

/* Main content area fills remaining page height */
.page-main {
  flex: 1 1 0;
  display: flex;
  flex-direction: column;
  gap: 0.12in;
  min-height: 0;
  overflow: hidden;
}

/* ---------- Cover / title page ---------- */
.cover-main {
  justify-content: center;
  align-items: center;
  text-align: center;
}
.cover-logo { margin-bottom: 0.25in; text-align: center; }
.cover-logo img { max-width: 3in; max-height: 1.5in; object-fit: contain; }
.cover-title { font-size: 28px; margin-bottom: 0.3in; }
.cover-detail { font-size: 14px; margin: 4px 0; }
.cover-notes { margin-top: 0.3in; font-size: 13px; }
.cover-notes p { margin: 6px 0 0 0; }

/* ---------- Page number label ---------- */
.page-label { flex: 0 0 auto; color: #555; font-size: 11px; }

/* ---------- Grid layouts (2×2, 2×3) ---------- */
.grid {
  display: grid;
  grid-template-columns: repeat(2, 1fr);
  gap: 0.15in;
  flex: 1 1 0;
  min-height: 0;
}
.grid.rows-2 { grid-template-rows: repeat(2, 1fr); }
.grid.rows-3 { grid-template-rows: repeat(3, 1fr); }
.cell {
  border: 1px solid #ccc;
  border-radius: 4px;
  overflow: hidden;
  display: flex;
  flex-direction: column;
  min-height: 0;
}
figure { margin: 0; display: flex; flex-direction: column; min-height: 0; flex: 1 1 0; }
.cell-media {
  flex: 1 1 0;
  min-height: 0;
  display: flex;
  align-items: center;
  justify-content: center;
  padding: 6px;
  background: #f5f5f5;
}
.cell-media img {
  max-width: 100%;
  max-height: 100%;
  display: block;
  object-fit: contain;
  transform-origin: center center;
}
.cell figcaption {
  flex: 0 0 auto;
  padding: 3px 6px;
  font-size: 10px;
  color: #333;
  line-height: 1.3;
  word-break: break-all;
  overflow-wrap: anywhere;
}
.cell figcaption .desc { font-weight: normal; color: #555; }
.empty-cell {
  align-items: center;
  justify-content: center;
  background: #fafafa;
  color: #999;
}

/* ---------- Stacked layouts (1-up, 2-up) ---------- */
.photo-block {
  border: 1px solid #ddd;
  border-radius: 4px;
  overflow: hidden;
  flex: 1 1 0;
  min-height: 0;
  display: flex;
  flex-direction: column;
}
.photo-media {
  flex: 1 1 0;
  min-height: 0;
  display: flex;
  align-items: center;
  justify-content: center;
  padding: 8px;
  background: #f5f5f5;
}
.photo-media img {
  max-width: 100%;
  max-height: 100%;
  display: block;
  object-fit: contain;
  transform-origin: center center;
}
.caption {
  flex: 0 0 auto;
  padding: 6px 8px;
  font-size: 12px;
  line-height: 1.4;
  word-break: break-all;
  overflow-wrap: anywhere;
}
.caption p { margin: 4px 0 0 0; color: #444; }

@media print {
  html, body { height: 100%; }
  body { print-color-adjust: exact; -webkit-print-color-adjust: exact; }
  .page { page-break-inside: avoid; }
}
</style>
</head>
<body>
"#;

/// From behind the body to the end.
pub const DOCUMENT_CLOSE: &'static str = r#"
<script>
window.onload = function() { window.print(); };
</script>
</body>
</html>"#;

// ---------------------------------------------------------------------------
// Laws
// ---------------------------------------------------------------------------

/// No section begins in the fixed text. The texts are spelled out once more, since the verifier
/// reads the characters of a text where it is written.
pub proof fn fixed_text_opens_nothing()
    ensures
        quiet(DOCUMENT_OPEN@),
        quiet(DOCUMENT_STYLE@),
        quiet(DOCUMENT_RULES@),
        quiet(DOCUMENT_CLOSE@),
{
    open_is_known();
    style_is_known();
    rules_are_known();
    close_is_known();
}

/// The fixed text is a whole document around a title, margins and a body: it sets letter-sized
/// pages in inches, never in parts of the screen, with rows for both grids, and prints itself.
pub proof fn fixed_text_is_for_letter_paper()
    ensures
        begins_with(DOCUMENT_OPEN@, "<!doctype html>"@),
        finishes_with(DOCUMENT_OPEN@, "<title>"@),
        begins_with(DOCUMENT_STYLE@, " \u{2014} Gridora Forge Report</title>"@),
        occurs(DOCUMENT_STYLE@, "@page { size: letter; margin: 0; }"@),
        finishes_with(
            DOCUMENT_STYLE@,
            ".page {\n  width: 8.5in;\n  height: 11in;\n  padding: "@,
        ),
        begins_with(DOCUMENT_RULES@, "in;\n"@),
        occurs(DOCUMENT_RULES@, ".grid.rows-2 { grid-template-rows: repeat(2, 1fr); }"@),
        occurs(DOCUMENT_RULES@, ".grid.rows-3 { grid-template-rows: repeat(3, 1fr); }"@),
        finishes_with(DOCUMENT_RULES@, "</style>\n</head>\n<body>\n"@),
        finishes_with(
            DOCUMENT_CLOSE@,
            "<script>\nwindow.onload = function() { window.print(); };\n</script>\n</body>\n</html>"@,
        ),
        !occurs(DOCUMENT_OPEN@, "vh"@),
        !occurs(DOCUMENT_STYLE@, "vh"@),
        !occurs(DOCUMENT_RULES@, "vh"@),
        !occurs(DOCUMENT_CLOSE@, "vh"@),
{
    open_is_known();
    style_is_known();
    rules_are_known();
    close_is_known();
}

proof fn open_is_known()
    ensures
        quiet(DOCUMENT_OPEN@),
        !occurs(DOCUMENT_OPEN@, "vh"@),
        begins_with(DOCUMENT_OPEN@, "<!doctype html>"@),
        finishes_with(DOCUMENT_OPEN@, "<title>"@),
{
    reveal_strlit(
        r#"<!doctype html>
<html>
<head>
<meta charset="utf-8" />
<title>"#,
    );
    reveal_strlit("vh");
    let s = DOCUMENT_OPEN@;
    assert forall|i: int| !occurs_at(s, "vh"@, i) by {
        if occurs_at(s, "vh"@, i) {
            let there = s.subrange(i, i + 2);
            assert(there[0] == s[i] && there[1] == s[i + 1]);
        }
    }
    reveal_strlit("<!doctype html>");
    assert(s.subrange(0, 15) =~= "<!doctype html>"@);
    assert(occurs_at(s, "<!doctype html>"@, 0));
    reveal_strlit("<title>");
    assert(s.subrange(55, 62) =~= "<title>"@);
    assert(occurs_at(s, "<title>"@, 55));
}

proof fn style_is_known()
    ensures
        quiet(DOCUMENT_STYLE@),
        !occurs(DOCUMENT_STYLE@, "vh"@),
        begins_with(DOCUMENT_STYLE@, " \u{2014} Gridora Forge Report</title>"@),
        occurs(DOCUMENT_STYLE@, "@page { size: letter; margin: 0; }"@),
        finishes_with(
            DOCUMENT_STYLE@,
            ".page {\n  width: 8.5in;\n  height: 11in;\n  padding: "@,
        ),
{
    reveal_strlit(
        r#" — Gridora Forge Report</title>
<style>
* { box-sizing: border-box; margin: 0; padding: 0; }
@page { size: letter; margin: 0; }
html, body { height: 100%; margin: 0; font-family: Arial, sans-serif; color: #111; background: #fff; }

/* Each .page is exactly one printed page (US Letter, 8.5in x 11in).
   Fixed physical units beat viewport-relative ones: mobile browsers report
   viewport height that fluctuates with the address bar, which corrupts
   page-break math.
   Margins are baked in as padding so the browser print dialog cannot override them. */
.page {
  width: 8.5in;
  height: 11in;
  padding: "#,
    );
    reveal_strlit("vh");
    let s = DOCUMENT_STYLE@;
    assert forall|i: int| !occurs_at(s, "vh"@, i) by {
        if occurs_at(s, "vh"@, i) {
            let there = s.subrange(i, i + 2);
            assert(there[0] == s[i] && there[1] == s[i + 1]);
        }
    }
    reveal_strlit(" \u{2014} Gridora Forge Report</title>");
    assert(s.subrange(0, 31) =~= " \u{2014} Gridora Forge Report</title>"@);
    assert(occurs_at(s, " \u{2014} Gridora Forge Report</title>"@, 0));
    reveal_strlit("@page { size: letter; margin: 0; }");
    assert(s.subrange(93, 127) =~= "@page { size: letter; margin: 0; }"@);
    assert(occurs_at(s, "@page { size: letter; margin: 0; }"@, 93));
    reveal_strlit(".page {\n  width: 8.5in;\n  height: 11in;\n  padding: ");
    assert(s.subrange(557, 608) =~= ".page {\n  width: 8.5in;\n  height: 11in;\n  padding: "@);
    assert(occurs_at(s, ".page {\n  width: 8.5in;\n  height: 11in;\n  padding: "@, 557));
}

#[verifier::spinoff_prover]
#[verifier::rlimit(60)]
proof fn rules_are_known()
    ensures
        quiet(DOCUMENT_RULES@),
        !occurs(DOCUMENT_RULES@, "vh"@),
        begins_with(DOCUMENT_RULES@, "in;\n"@),
        occurs(DOCUMENT_RULES@, ".grid.rows-2 { grid-template-rows: repeat(2, 1fr); }"@),
        occurs(DOCUMENT_RULES@, ".grid.rows-3 { grid-template-rows: repeat(3, 1fr); }"@),
        finishes_with(DOCUMENT_RULES@, "</style>\n</head>\n<body>\n"@),
{
    reveal_strlit(
        r#"in;
  display: flex;
  flex-direction: column;
  overflow: hidden;
  page-break-after: always;
  break-after: page;
}
.page:last-child { page-break-after: auto; break-after: auto; }

/* Optional header / footer chrome */
.page-header,
.page-footer {
  flex: 0 0 auto;
  font-size: 10px;
  color: #666;
  line-height: 1.35;
}
.page-header { padding-bottom: 0.12in; }
.page-footer { padding-top: 0.12in; }

/* Main content area fills remaining page height */
.page-main {
  flex: 1 1 0;
  display: flex;
  flex-direction: column;
  gap: 0.12in;
  min-height: 0;
  overflow: hidden;
}

/* ---------- Cover / title page ---------- */
.cover-main {
  justify-content: center;
  align-items: center;
  text-align: center;
}
.cover-logo { margin-bottom: 0.25in; text-align: center; }
.cover-logo img { max-width: 3in; max-height: 1.5in; object-fit: contain; }
.cover-title { font-size: 28px; margin-bottom: 0.3in; }
.cover-detail { font-size: 14px; margin: 4px 0; }
.cover-notes { margin-top: 0.3in; font-size: 13px; }
.cover-notes p { margin: 6px 0 0 0; }

/* ---------- Page number label ---------- */
.page-label { flex: 0 0 auto; color: #555; font-size: 11px; }

/* ---------- Grid layouts (2×2, 2×3) ---------- */
.grid {
  display: grid;
  grid-template-columns: repeat(2, 1fr);
  gap: 0.15in;
  flex: 1 1 0;
  min-height: 0;
}
.grid.rows-2 { grid-template-rows: repeat(2, 1fr); }
.grid.rows-3 { grid-template-rows: repeat(3, 1fr); }
.cell {
  border: 1px solid #ccc;
  border-radius: 4px;
  overflow: hidden;
  display: flex;
  flex-direction: column;
  min-height: 0;
}
figure { margin: 0; display: flex; flex-direction: column; min-height: 0; flex: 1 1 0; }
.cell-media {
  flex: 1 1 0;
  min-height: 0;
  display: flex;
  align-items: center;
  justify-content: center;
  padding: 6px;
  background: #f5f5f5;
}
.cell-media img {
  max-width: 100%;
  max-height: 100%;
  display: block;
  object-fit: contain;
  transform-origin: center center;
}
.cell figcaption {
  flex: 0 0 auto;
  padding: 3px 6px;
  font-size: 10px;
  color: #333;
  line-height: 1.3;
  word-break: break-all;
  overflow-wrap: anywhere;
}
.cell figcaption .desc { font-weight: normal; color: #555; }
.empty-cell {
  align-items: center;
  justify-content: center;
  background: #fafafa;
  color: #999;
}

/* ---------- Stacked layouts (1-up, 2-up) ---------- */
.photo-block {
  border: 1px solid #ddd;
  border-radius: 4px;
  overflow: hidden;
  flex: 1 1 0;
  min-height: 0;
  display: flex;
  flex-direction: column;
}
.photo-media {
  flex: 1 1 0;
  min-height: 0;
  display: flex;
  align-items: center;
  justify-content: center;
  padding: 8px;
  background: #f5f5f5;
}
.photo-media img {
  max-width: 100%;
  max-height: 100%;
  display: block;
  object-fit: contain;
  transform-origin: center center;
}
.caption {
  flex: 0 0 auto;
  padding: 6px 8px;
  font-size: 12px;
  line-height: 1.4;
  word-break: break-all;
  overflow-wrap: anywhere;
}
.caption p { margin: 4px 0 0 0; color: #444; }

@media print {
  html, body { height: 100%; }
  body { print-color-adjust: exact; -webkit-print-color-adjust: exact; }
  .page { page-break-inside: avoid; }
}
</style>
</head>
<body>
"#,
    );
    reveal_strlit("vh");
    let s = DOCUMENT_RULES@;
    assert forall|i: int| !occurs_at(s, "vh"@, i) by {
        if occurs_at(s, "vh"@, i) {
            let there = s.subrange(i, i + 2);
            assert(there[0] == s[i] && there[1] == s[i + 1]);
        }
    }
    reveal_strlit("in;\n");
    assert(s.subrange(0, 4) =~= "in;\n"@);
    assert(occurs_at(s, "in;\n"@, 0));
    reveal_strlit(".grid.rows-2 { grid-template-rows: repeat(2, 1fr); }");
    assert(s.subrange(1327, 1379) =~= ".grid.rows-2 { grid-template-rows: repeat(2, 1fr); }"@);
    assert(occurs_at(s, ".grid.rows-2 { grid-template-rows: repeat(2, 1fr); }"@, 1327));
    reveal_strlit(".grid.rows-3 { grid-template-rows: repeat(3, 1fr); }");
    assert(s.subrange(1380, 1432) =~= ".grid.rows-3 { grid-template-rows: repeat(3, 1fr); }"@);
    assert(occurs_at(s, ".grid.rows-3 { grid-template-rows: repeat(3, 1fr); }"@, 1380));
    reveal_strlit("</style>\n</head>\n<body>\n");
    assert(s.subrange(3137, 3161) =~= "</style>\n</head>\n<body>\n"@);
    assert(occurs_at(s, "</style>\n</head>\n<body>\n"@, 3137));
}

proof fn close_is_known()
    ensures
        quiet(DOCUMENT_CLOSE@),
        !occurs(DOCUMENT_CLOSE@, "vh"@),
        finishes_with(
            DOCUMENT_CLOSE@,
            "<script>\nwindow.onload = function() { window.print(); };\n</script>\n</body>\n</html>"@,
        ),
{
    reveal_strlit(
        r#"
<script>
window.onload = function() { window.print(); };
</script>
</body>
</html>"#,
    );
    reveal_strlit("vh");
    let s = DOCUMENT_CLOSE@;
    assert forall|i: int| !occurs_at(s, "vh"@, i) by {
        if occurs_at(s, "vh"@, i) {
            let there = s.subrange(i, i + 2);
            assert(there[0] == s[i] && there[1] == s[i + 1]);
        }
    }
    reveal_strlit("<script>\nwindow.onload = function() { window.print(); };\n</script>\n</body>\n</html>");
    assert(s.subrange(1, 83) =~= "<script>\nwindow.onload = function() { window.print(); };\n</script>\n</body>\n</html>"@);
    assert(occurs_at(s, "<script>\nwindow.onload = function() { window.print(); };\n</script>\n</body>\n</html>"@, 1));
}

} // verus!
