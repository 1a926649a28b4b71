//! The registry's web page: the list of the packages it holds.
use vstd::prelude::*;
use crate::text::{decimal, decimal_chars, push_chars, signed_decimal, signed_decimal_chars};

verus! {

/// A package as the web page lists it.
#[derive(Debug, Clone, PartialEq, Eq)]
pub struct UiRow {
    pub name: String,
    /// The greatest of its versions.
    pub latest: String,
    pub description: Option<String>,
    /// How many versions it has.
    pub count: i64,
}

/// The page up to the number of packages: document head, style sheet and header.
pub const PAGE_HEAD: &'static str = r#"<!DOCTYPE html><html><head><meta charset="utf-8">
<title>AXE Registry</title><style>
*{margin:0;padding:0;box-sizing:border-box}
body{background:#0a0a0a;color:#e0e0e0;font-family:'Space Grotesk',-apple-system,sans-serif}
.header{padding:32px;border-bottom:1px solid #1a1a1a;display:flex;align-items:center;gap:16px}
.header h1{font-size:20px;color:#D4AF37;letter-spacing:2px}
.header span{color:#666;font-size:12px}
.grid{padding:24px;display:grid;gap:12px}
.pkg{background:#111;border:1px solid #1a1a1a;border-radius:8px;padding:16px;display:flex;justify-content:space-between;align-items:center}
.pkg:hover{border-color:#D4AF37}
.pkg-name{font-family:'IBM Plex Mono',monospace;color:#D4AF37;font-size:14px}
.pkg-desc{color:#888;font-size:12px;margin-top:4px}
.pkg-ver{font-family:monospace;color:#666;font-size:12px}
.empty{text-align:center;padding:80px;color:#444}
</style></head><body>
<div class="header"><h1>AXE REGISTRY</h1><span>"#;

/// What follows the number of packages.
pub const PACKAGES_SUFFIX: &'static str = " packages";

/// Closes the header and opens the list of packages.
pub const GRID_OPEN: &'static str = r#"</span></div><div class="grid">"#;

/// The note shown when no package has been published.
pub const EMPTY_NOTE: &'static str = r#"<div class="empty">No packages published yet</div>"#;

/// Opens a package entry, before its name.
pub const ITEM_OPEN: &'static str = r#"<div class="pkg"><div><div class="pkg-name">"#;

/// Between a package's name and its description.
pub const ITEM_DESC: &'static str = r#"</div><div class="pkg-desc">"#;

/// Between a package's description and its latest version.
pub const ITEM_VERSION: &'static str = r#"</div></div><div class="pkg-ver">v"#;

/// Between the latest version and the number of versions.
pub const ITEM_COUNT: &'static str = " (";

/// The word after the number of versions.
pub const ITEM_VER_WORD: &'static str = " ver";

/// Closes a package entry.
pub const ITEM_CLOSE: &'static str = ")</div></div>";

/// Closes the list and the page.
pub const PAGE_TAIL: &'static str = "</div></body></html>";

/// The entry of one package on the page: name, description (empty where
/// there is none), latest version and number of versions, "ver" made
/// plural unless there is exactly one.
pub open spec fn item_html(r: UiRow) -> Seq<char> {
    ITEM_OPEN@ + r.name@ + ITEM_DESC@ + (match r.description {
        Some(d) => d@,
        None => Seq::<char>::empty(),
    }) + ITEM_VERSION@ + r.latest@ + ITEM_COUNT@ + signed_decimal(r.count as int) + ITEM_VER_WORD@
        + (if r.count != 1 {
        seq!['s']
    } else {
        Seq::<char>::empty()
    }) + ITEM_CLOSE@
}

/// The entries of the packages, in order.
pub open spec fn items_html(rows: Seq<UiRow>) -> Seq<char>
    decreases rows.len(),
{
    if rows.len() == 0 {
        Seq::empty()
    } else {
        items_html(rows.drop_last()) + item_html(rows.last())
    }
}

/// The page: head, number of packages, a note where there are none, the
/// entries, tail.
pub open spec fn page_html(rows: Seq<UiRow>) -> Seq<char> {
    PAGE_HEAD@ + decimal(rows.len()) + PACKAGES_SUFFIX@ + GRID_OPEN@ + (if rows.len() == 0 {
        EMPTY_NOTE@
    } else {
        Seq::<char>::empty()
    }) + items_html(rows) + PAGE_TAIL@
}

fn push_item(s: &mut String, r: &UiRow)
    ensures
        final(s)@ == old(s)@ + item_html(*r),
{
    let ghost start = s@;
    s.append(ITEM_OPEN);
    s.append(r.name.as_str());
    s.append(ITEM_DESC);
    match &r.description {
        Some(d) => s.append(d.as_str()),
        None => {},
    }
    s.append(ITEM_VERSION);
    s.append(r.latest.as_str());
    s.append(ITEM_COUNT);
    let c = signed_decimal_chars(r.count);
    push_chars(s, &c);
    s.append(ITEM_VER_WORD);
    if r.count != 1 {
        s.append("s");
        proof {
            reveal_strlit("s");
        }
    }
    s.append(ITEM_CLOSE);
    assert(s@ =~= start + item_html(*r));
}

/// The web page listing the packages `rows`.
pub fn web_ui(rows: &Vec<UiRow>) -> (html: String)
    ensures
        html@ == page_html(rows@),
{
    let mut s = String::new();
    s.append(PAGE_HEAD);
    let n = decimal_chars(rows.len() as u64);
    push_chars(&mut s, &n);
    s.append(PACKAGES_SUFFIX);
    s.append(GRID_OPEN);
    if rows.len() == 0 {
        s.append(EMPTY_NOTE);
    }
    let ghost prefix = s@;
    for i in 0..rows.len()
        invariant
            s@ == prefix + items_html(rows@.take(i as int)),
    {
        assert(rows@.take(i + 1).drop_last() =~= rows@.take(i as int));
        push_item(&mut s, &rows[i]);
    }
    assert(rows@.take(rows.len() as int) =~= rows@);
    s.append(PAGE_TAIL);
    assert(s@ =~= page_html(rows@));
    s
}

} // verus!
