use vstd::prelude::*;
use crate::sniff::{url_of, ParsedRequest};
use crate::text::{chars_of, extend_chars, string_of, trim, trimmed};

verus! {

pub open spec fn strings_view(v: Seq<String>) -> Seq<Seq<char>> {
    v.map_values(|s: String| s@)
}

pub open spec fn anchors_view(v: Seq<(String, Option<String>)>) -> Seq<(Seq<char>, Option<Seq<char>>)> {
    v.map_values(
        |p: (String, Option<String>)|
            (
                p.0@,
                match p.1 {
                    Some(h) => Some(h@),
                    None => None,
                },
            ),
    )
}

pub open spec fn grids_view(v: Seq<Vec<Vec<String>>>) -> Seq<Seq<Seq<Seq<char>>>> {
    v.map_values(|t: Vec<Vec<String>>| t@.map_values(|row: Vec<String>| strings_view(row@)))
}

/// The text of each element named `tag` of an HTML document, in document order.
pub uninterp spec fn element_texts(html: Seq<char>, tag: Seq<char>) -> Seq<Seq<char>>;

/// The text and the `href` attribute of each `a` element of an HTML document, in document
/// order.
pub uninterp spec fn anchor_items(html: Seq<char>) -> Seq<(Seq<char>, Option<Seq<char>>)>;

/// For each `table` element of an HTML document, for each `tr` within it, the text of each
/// `td` within that row.
pub uninterp spec fn table_grids(html: Seq<char>) -> Seq<Seq<Seq<Seq<char>>>>;

/// Whether `url::Url::parse` accepts the text.
pub uninterp spec fn url_accepted(s: Seq<char>) -> bool;

/// Relies on select's `Document::from`, `find(Name(tag))` and `Node::text`: the text of the
/// elements named `tag`, which depends on the document and the tag alone.
#[verifier::external_body]
fn texts_named(html: &str, tag: &str) -> (r: Vec<String>)
    ensures
        strings_view(r@) == element_texts(html@, tag@),
{
    let doc = select::document::Document::from(html);
    doc.find(select::predicate::Name(tag)).map(|n| n.text()).collect()
}

/// Relies on select's `Document::from`, `find(Name("a"))`, `Node::text` and `Node::attr`:
/// the anchors of the document, which depend on the document alone.
#[verifier::external_body]
fn anchors(html: &str) -> (r: Vec<(String, Option<String>)>)
    ensures
        anchors_view(r@) == anchor_items(html@),
{
    let doc = select::document::Document::from(html);
    doc.find(select::predicate::Name("a")).map(|n| (n.text(), n.attr("href").map(|h| h.to_string()))).collect()
}

/// Relies on select's `Document::from`, `find(Name(..))` and `Node::text`: the cells of the
/// tables of the document, which depend on the document alone.
#[verifier::external_body]
fn tables(html: &str) -> (r: Vec<Vec<Vec<String>>>)
    ensures
        grids_view(r@) == table_grids(html@),
{
    let doc = select::document::Document::from(html);
    doc.find(select::predicate::Name("table")).map(
        |t| t.find(select::predicate::Name("tr")).map(
            |row| row.find(select::predicate::Name("td")).map(|c| c.text()).collect(),
        ).collect(),
    ).collect()
}

/// Relies on `url::Url::parse`: whether it accepts the text, which depends on the text alone.
#[verifier::external_body]
fn url_parses(s: &str) -> (r: bool)
    ensures
        r == url_accepted(s@),
{
    url::Url::parse(s).is_ok()
}

/// Relies on chrono's `Local::now` and `format`: the local time now, as `%Y-%m-%d %H:%M:%S`.
#[verifier::external_body]
fn local_timestamp() -> (r: String) {
    chrono::Local::now().format("%Y-%m-%d %H:%M:%S").to_string()
}

/// What the extraction found in a page, with texts as the document gives them.
pub struct PageParts {
    /// The texts of `h1` to `h6`, one list for each level, in that order.
    pub headings: Vec<Vec<String>>,
    pub paragraphs: Vec<String>,
    /// The text and the `href` of each anchor.
    pub links: Vec<(String, Option<String>)>,
    /// For each table, its rows, each a list of cell texts.
    pub tables: Vec<Vec<Vec<String>>>,
}

/// One line `label: text` for each text, trimmed.
pub open spec fn tagged_lines(label: Seq<char>, texts: Seq<Seq<char>>) -> Seq<char>
    decreases texts.len(),
{
    if texts.len() == 0 {
        seq![]
    } else {
        tagged_lines(label, texts.drop_last()) + label + ": "@ + trim(texts.last()) + "\n"@
    }
}

pub open spec fn heading_label(k: int) -> Seq<char> {
    seq!['H', ((49 + k) as u8) as char]
}

/// The heading lines of the levels before `k`.
pub open spec fn heading_lines(h: Seq<Seq<Seq<char>>>, k: int) -> Seq<char>
    decreases k,
{
    if k <= 0 || k > h.len() {
        seq![]
    } else {
        heading_lines(h, k - 1) + tagged_lines(heading_label(k - 1), h[k - 1])
    }
}

/// One line `LINK: text (href)` for each anchor that has an `href`.
pub open spec fn link_lines(items: Seq<(Seq<char>, Option<Seq<char>>)>) -> Seq<char>
    decreases items.len(),
{
    if items.len() == 0 {
        seq![]
    } else {
        let rest = link_lines(items.drop_last());
        match items.last().1 {
            Some(href) => rest + "LINK: "@ + trim(items.last().0) + " ("@ + href + ")\n"@,
            None => rest,
        }
    }
}

/// The trimmed cell texts, separated by ` | `.
pub open spec fn joined_cells(cells: Seq<Seq<char>>) -> Seq<char>
    decreases cells.len(),
{
    if cells.len() == 0 {
        seq![]
    } else if cells.len() == 1 {
        trim(cells[0])
    } else {
        joined_cells(cells.drop_last()) + " | "@ + trim(cells.last())
    }
}

pub open spec fn row_lines(rows: Seq<Seq<Seq<char>>>) -> Seq<char>
    decreases rows.len(),
{
    if rows.len() == 0 {
        seq![]
    } else {
        row_lines(rows.drop_last()) + "  "@ + joined_cells(rows.last()) + "\n"@
    }
}

/// For each table a line `TABLE:`, then one indented line for each row.
pub open spec fn table_lines(t: Seq<Seq<Seq<Seq<char>>>>) -> Seq<char>
    decreases t.len(),
{
    if t.len() == 0 {
        seq![]
    } else {
        table_lines(t.drop_last()) + "TABLE:\n"@ + row_lines(t.last())
    }
}

/// The text recorded for a page: headings by level, paragraphs, links, then tables.
pub open spec fn content_text(
    h: Seq<Seq<Seq<char>>>,
    p: Seq<Seq<char>>,
    l: Seq<(Seq<char>, Option<Seq<char>>)>,
    t: Seq<Seq<Seq<Seq<char>>>>,
) -> Seq<char> {
    heading_lines(h, h.len() as int) + tagged_lines("P"@, p) + link_lines(l) + table_lines(t)
}

impl PageParts {
    pub open spec fn headings_view(&self) -> Seq<Seq<Seq<char>>> {
        self.headings@.map_values(|v: Vec<String>| strings_view(v@))
    }

    pub open spec fn content(&self) -> Seq<char> {
        content_text(
            self.headings_view(),
            strings_view(self.paragraphs@),
            anchors_view(self.links@),
            grids_view(self.tables@),
        )
    }
}

pub open spec fn tag_name(k: int) -> Seq<char> {
    seq!['h', ((49 + k) as u8) as char]
}

/// The text recorded for an HTML page.
pub open spec fn scraped_text(html: Seq<char>) -> Seq<char> {
    content_text(
        Seq::new(6, |k: int| element_texts(html, tag_name(k))),
        element_texts(html, "p"@),
        anchor_items(html),
        table_grids(html),
    )
}

fn push_str(out: &mut Vec<char>, s: &str)
    ensures
        final(out)@ == old(out)@ + s@,
{
    let c = chars_of(s);
    extend_chars(out, c.as_slice());
}

fn push_trimmed(out: &mut Vec<char>, s: &String)
    ensures
        final(out)@ == old(out)@ + trim(s@),
{
    let c = chars_of(s.as_str());
    let t = trimmed(c.as_slice());
    extend_chars(out, t.as_slice());
}

fn push_tagged(out: &mut Vec<char>, label: &[char], texts: &Vec<String>)
    ensures
        final(out)@ == old(out)@ + tagged_lines(label@, strings_view(texts@)),
{
    let ghost start = out@;
    let mut i: usize = 0;
    while i < texts.len()
        invariant
            i <= texts@.len(),
            out@ == start + tagged_lines(label@, strings_view(texts@.take(i as int))),
        decreases texts@.len() - i,
    {
        let ghost before = out@;
        extend_chars(out, label);
        push_str(out, ": ");
        push_trimmed(out, &texts[i]);
        push_str(out, "\n");
        assert(strings_view(texts@.take(i + 1)).drop_last() =~= strings_view(texts@.take(i as int)));
        i = i + 1;
        assert(out@ =~= start + tagged_lines(label@, strings_view(texts@.take(i as int))));
    }
    assert(texts@.take(texts@.len() as int) =~= texts@);
}

fn push_links(out: &mut Vec<char>, items: &Vec<(String, Option<String>)>)
    ensures
        final(out)@ == old(out)@ + link_lines(anchors_view(items@)),
{
    let ghost start = out@;
    let mut i: usize = 0;
    while i < items.len()
        invariant
            i <= items@.len(),
            out@ == start + link_lines(anchors_view(items@.take(i as int))),
        decreases items@.len() - i,
    {
        assert(anchors_view(items@.take(i + 1)).drop_last() =~= anchors_view(items@.take(i as int)));
        match &items[i].1 {
            Some(href) => {
                push_str(out, "LINK: ");
                push_trimmed(out, &items[i].0);
                push_str(out, " (");
                push_str(out, href.as_str());
                push_str(out, ")\n");
            },
            None => {},
        }
        i = i + 1;
        assert(out@ =~= start + link_lines(anchors_view(items@.take(i as int))));
    }
    assert(items@.take(items@.len() as int) =~= items@);
}

fn push_row(out: &mut Vec<char>, cells: &Vec<String>)
    ensures
        final(out)@ == old(out)@ + "  "@ + joined_cells(strings_view(cells@)) + "\n"@,
{
    let ghost start = out@;
    push_str(out, "  ");
    let ghost mid = out@;
    let mut i: usize = 0;
    while i < cells.len()
        invariant
            i <= cells@.len(),
            out@ == mid + joined_cells(strings_view(cells@.take(i as int))),
        decreases cells@.len() - i,
    {
        assert(strings_view(cells@.take(i + 1)).drop_last() =~= strings_view(cells@.take(i as int)));
        if i > 0 {
            push_str(out, " | ");
        }
        push_trimmed(out, &cells[i]);
        i = i + 1;
        assert(out@ =~= mid + joined_cells(strings_view(cells@.take(i as int))));
    }
    assert(cells@.take(cells@.len() as int) =~= cells@);
    push_str(out, "\n");
    assert(out@ =~= start + "  "@ + joined_cells(strings_view(cells@)) + "\n"@);
}

fn push_tables(out: &mut Vec<char>, t: &Vec<Vec<Vec<String>>>)
    ensures
        final(out)@ == old(out)@ + table_lines(grids_view(t@)),
{
    let ghost start = out@;
    let mut i: usize = 0;
    while i < t.len()
        invariant
            i <= t@.len(),
            out@ == start + table_lines(grids_view(t@.take(i as int))),
        decreases t@.len() - i,
    {
        assert(grids_view(t@.take(i + 1)).drop_last() =~= grids_view(t@.take(i as int)));
        let ghost before = out@;
        push_str(out, "TABLE:\n");
        let ghost mid = out@;
        let rows = &t[i];
        let ghost rv = rows@.map_values(|row: Vec<String>| strings_view(row@));
        let mut j: usize = 0;
        while j < rows.len()
            invariant
                j <= rows@.len(),
                rv == rows@.map_values(|row: Vec<String>| strings_view(row@)),
                out@ == mid + row_lines(rv.take(j as int)),
            decreases rows@.len() - j,
        {
            assert(rv.take(j + 1).drop_last() =~= rv.take(j as int));
            push_row(out, &rows[j]);
            j = j + 1;
            assert(out@ =~= mid + row_lines(rv.take(j as int)));
        }
        assert(rv.take(rows@.len() as int) =~= rv);
        assert(grids_view(t@.take(i + 1)).last() == rv);
        i = i + 1;
        assert(out@ =~= start + table_lines(grids_view(t@.take(i as int))));
    }
    assert(t@.take(t@.len() as int) =~= t@);
}

/// Writes out what the extraction found: the headings level by level, the paragraphs, the
/// links that have an `href`, then the tables.
pub fn render_content(parts: &PageParts) -> (r: String)
    requires
        parts.headings@.len() <= 6,
    ensures
        r@ == parts.content(),
{
    let mut out: Vec<char> = Vec::new();
    let ghost h = parts.headings_view();
    let mut k: usize = 0;
    while k < parts.headings.len()
        invariant
            k <= parts.headings@.len() <= 6,
            h == parts.headings_view(),
            out@ == heading_lines(h, k as int),
        decreases parts.headings@.len() - k,
    {
        let label: [char; 2] = ['H', ((49u8 + k as u8) as char)];
        assert(label@ =~= heading_label(k as int));
        push_tagged(&mut out, label.as_slice(), &parts.headings[k]);
        k = k + 1;
    }
    let p: [char; 1] = ['P'];
    proof {
        reveal_strlit("P");
    }
    assert(p@ =~= "P"@);
    push_tagged(&mut out, p.as_slice(), &parts.paragraphs);
    push_links(&mut out, &parts.links);
    push_tables(&mut out, &parts.tables);
    string_of(out.as_slice())
}

/// Extracts from an HTML page its headings, paragraphs, links and tables, and writes them
/// out.
pub fn scrape_page(html: &str) -> (r: String)
    ensures
        r@ == scraped_text(html@),
{
    let mut headings: Vec<Vec<String>> = Vec::new();
    let ghost want = Seq::new(6, |k: int| element_texts(html@, tag_name(k)));
    let mut k: usize = 0;
    while k < 6
        invariant
            k <= 6,
            headings@.len() == k,
            want == Seq::new(6, |k: int| element_texts(html@, tag_name(k))),
            forall|j: int| 0 <= j < k ==> strings_view(#[trigger] headings@[j]@) == want[j],
        decreases 6 - k,
    {
        let name: [char; 2] = ['h', ((49u8 + k as u8) as char)];
        assert(name@ =~= tag_name(k as int));
        let tag = string_of(name.as_slice());
        headings.push(texts_named(html, tag.as_str()));
        k = k + 1;
    }
    let parts = PageParts {
        headings,
        paragraphs: texts_named(html, "p"),
        links: anchors(html),
        tables: tables(html),
    };
    assert(parts.headings_view() =~= want);
    render_content(&parts)
}

/// The banner line that opens each archive record.
pub open spec fn banner() -> Seq<char> {
    "===================="@
}

/// An archive record: the banner, the URL, the time, the banner again and a blank line,
/// then the content, then a blank line that parts it from the next record.
pub open spec fn record_text(url: Seq<char>, ts: Seq<char>, content: Seq<char>) -> Seq<char> {
    banner() + "\nURL: "@ + url + "\nTimestamp: "@ + ts + "\n"@ + banner() + "\n\n"@ + content
        + "\n\n\n"@
}

/// An access log line: the time, ` - `, the URL and a line feed.
pub open spec fn access_text(ts: Seq<char>, url: Seq<char>) -> Seq<char> {
    ts + " - "@ + url + "\n"@
}

pub fn archive_record(url: &str, timestamp: &str, content: &str) -> (r: String)
    ensures
        r@ == record_text(url@, timestamp@, content@),
{
    let mut out: Vec<char> = Vec::new();
    push_str(&mut out, "====================");
    push_str(&mut out, "\nURL: ");
    push_str(&mut out, url);
    push_str(&mut out, "\nTimestamp: ");
    push_str(&mut out, timestamp);
    push_str(&mut out, "\n");
    push_str(&mut out, "====================");
    push_str(&mut out, "\n\n");
    push_str(&mut out, content);
    push_str(&mut out, "\n\n\n");
    string_of(out.as_slice())
}

pub fn access_line(timestamp: &str, url: &str) -> (r: String)
    ensures
        r@ == access_text(timestamp@, url@),
{
    let mut out: Vec<char> = Vec::new();
    push_str(&mut out, timestamp);
    push_str(&mut out, " - ");
    push_str(&mut out, url);
    push_str(&mut out, "\n");
    string_of(out.as_slice())
}

/// What follows once a connection's first request is known: the line for the access log,
/// and the URL to archive, if any.
pub struct Discovery {
    pub timestamp: String,
    pub log_line: String,
    pub fetch_url: Option<String>,
}

/// The access log line for `url` at `timestamp`, and `url` to archive where it parses as a
/// URL.
pub fn discovery_for(url: &str, timestamp: &str, parses: bool) -> (r: Discovery)
    ensures
        r.timestamp@ == timestamp@,
        r.log_line@ == access_text(timestamp@, url@),
        parses ==> (r.fetch_url matches Some(u) && u@ == url@),
        !parses ==> r.fetch_url is None,
{
    let fetch_url = if parses {
        Some(url.to_owned())
    } else {
        None
    };
    Discovery { timestamp: timestamp.to_owned(), log_line: access_line(timestamp, url), fetch_url }
}

/// Takes the time now, and writes what follows from a sniffed request.
pub fn discover(req: &ParsedRequest) -> (r: Discovery)
    ensures
        r.log_line@ == access_text(r.timestamp@, url_of(req.view())),
        match r.fetch_url {
            Some(u) => u@ == url_of(req.view()) && url_accepted(u@),
            None => !url_accepted(url_of(req.view())),
        },
{
    let url = req.url();
    let ts = local_timestamp();
    let ok = url_parses(url.as_str());
    discovery_for(url.as_str(), ts.as_str(), ok)
}

/// How an archival fetch ended: with the page's text, or with a description of the failure.
pub enum FetchOutcome {
    Page(String),
    Failed(String),
}

/// The one thing a finished fetch leaves: a record for the archive, or a line for the
/// error channel.
#[derive(Debug, PartialEq, Eq)]
pub enum Report {
    Archive(String),
    Error(String),
}

/// The report of a finished fetch: the archive record of the page, or the error line.
pub fn fetch_report(url: &str, timestamp: &str, outcome: &FetchOutcome) -> (r: Report)
    ensures
        match outcome {
            FetchOutcome::Page(html) => r matches Report::Archive(a) && a@ == record_text(
                url@,
                timestamp@,
                scraped_text(html@),
            ),
            FetchOutcome::Failed(e) => r matches Report::Error(m) && m@ == "Failed to fetch URL: "@
                + e@,
        },
{
    match outcome {
        FetchOutcome::Page(html) => {
            let content = scrape_page(html.as_str());
            Report::Archive(archive_record(url, timestamp, content.as_str()))
        },
        FetchOutcome::Failed(e) => {
            let mut out: Vec<char> = Vec::new();
            push_str(&mut out, "Failed to fetch URL: ");
            push_str(&mut out, e.as_str());
            Report::Error(string_of(out.as_slice()))
        },
    }
}

/// A finished fetch as the archive sees it: its URL, its time and its content.
pub type RecordView = (Seq<char>, Seq<char>, Seq<char>);

/// The archive after the records were appended in the order given.
pub open spec fn archive_of(rs: Seq<RecordView>) -> Seq<char>
    decreases rs.len(),
{
    if rs.len() == 0 {
        seq![]
    } else {
        archive_of(rs.drop_last()) + record_text(rs.last().0, rs.last().1, rs.last().2)
    }
}

proof fn lemma_archive_concat(a: Seq<RecordView>, b: Seq<RecordView>)
    ensures
        archive_of(a + b) == archive_of(a) + archive_of(b),
    decreases b.len(),
{
    if b.len() == 0 {
        assert(a + b =~= a);
        assert(archive_of(a) + archive_of(b) =~= archive_of(a));
    } else {
        assert((a + b).drop_last() =~= a + b.drop_last());
        lemma_archive_concat(a, b.drop_last());
        assert(archive_of(a + b) =~= archive_of(a) + archive_of(b));
    }
}

/// Whatever the order in which fetches finish, each one's record stands whole in the
/// archive, opening with the banner line, right after the records that finished before
/// it: appending `n` records leaves `n` records, one after another.
pub proof fn lemma_archive_holds_each(rs: Seq<RecordView>, i: int)
    requires
        0 <= i < rs.len(),
    ensures
        ({
            let start = archive_of(rs.take(i)).len() as int;
            let rec = record_text(rs[i].0, rs[i].1, rs[i].2);
            &&& archive_of(rs).subrange(start, start + rec.len()) == rec
            &&& archive_of(rs).subrange(start, start + banner().len() + 1) == banner() + seq!['\n']
        }),
{
    let rec = record_text(rs[i].0, rs[i].1, rs[i].2);
    let head = rs.take(i + 1);
    let tail = rs.skip(i + 1);
    assert(rs =~= head + tail);
    lemma_archive_concat(head, tail);
    assert(head.drop_last() =~= rs.take(i));
    let start = archive_of(rs.take(i)).len() as int;
    assert(archive_of(rs).subrange(start, start + rec.len()) =~= rec);
    reveal_strlit("====================");
    reveal_strlit("\nURL: ");
    assert(rec.take(banner().len() + 1int) =~= banner() + seq!['\n']);
    assert(archive_of(rs).subrange(start, start + banner().len() + 1) =~= rec.take(
        banner().len() + 1int,
    ));
}

} // verus!
