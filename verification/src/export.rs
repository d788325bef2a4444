//! Exporting a stored book: its chapters' texts gathered from the sections,
//! a plain-text file, and the documents of an EPUB package.

use vstd::prelude::*;
use vstd::string::*;
use crate::models::{BookRecord, ChapterRecord, SectionRecord};
use crate::numfmt::{digits_spec, i64_to_dec, signed_dec_spec, u64_to_dec};
use crate::parse::{replace_illegal_spec, Book, Chapter, Section};
use crate::pipeline::{BookRecordView, ChapterRecordView, SectionRecordView};
use crate::text::{
    chars_of, concat, from_chars, join_spec, replace_spec, replace_str, split_spec, split_str,
    str_views, trim_spec, trim_str,
};

verus! {

/// The contents of the sections of chapter `cid`, concatenated in order.
pub open spec fn chapter_text(sections: Seq<SectionRecordView>, cid: int) -> Seq<char>
    decreases sections.len(),
{
    if sections.len() == 0 {
        Seq::empty()
    } else {
        let r = chapter_text(sections.drop_last(), cid);
        if sections.last().1 == cid { r + sections.last().4 } else { r }
    }
}

/// Whether a chapter before position `k` has the same id as chapter `k`.
pub open spec fn id_seen_before(chapters: Seq<ChapterRecordView>, k: int) -> bool {
    exists|j: int| 0 <= j < k && chapters[j].0 == chapters[k].0
}

/// (title, text) of each chapter, in order; a chapter whose id already
/// occurred gets the empty text, since its sections went to the first one.
pub open spec fn group_spec(chapters: Seq<ChapterRecordView>, sections: Seq<SectionRecordView>) -> Seq<(Seq<char>, Seq<char>)> {
    Seq::new(
        chapters.len(),
        |k: int| (chapters[k].2, if id_seen_before(chapters, k) { Seq::empty() } else { chapter_text(sections, chapters[k].0) }),
    )
}

/// The views of (title, text) pairs.
pub open spec fn pair_views(v: Seq<(String, String)>) -> Seq<(Seq<char>, Seq<char>)> {
    v.map_values(|p: (String, String)| (p.0@, p.1@))
}

/// The views of chapter records.
pub open spec fn chapter_record_views(v: Seq<ChapterRecord>) -> Seq<ChapterRecordView> {
    v.map_values(|c: ChapterRecord| c@)
}

/// The views of section records.
pub open spec fn section_views_of(v: Seq<SectionRecord>) -> Seq<SectionRecordView> {
    v.map_values(|s: SectionRecord| s@)
}

fn text_of_chapter(sections: &Vec<SectionRecord>, cid: i64) -> (res: String)
    ensures
        res@ == chapter_text(section_views_of(sections@), cid as int),
{
    let ghost sv = section_views_of(sections@);
    let mut out = String::new();
    let mut i: usize = 0;
    while i < sections.len()
        invariant
            i <= sections.len(),
            sv == section_views_of(sections@),
            out@ == chapter_text(sv.take(i as int), cid as int),
        decreases sections.len() - i,
    {
        assert(sv.take(i + 1).drop_last() =~= sv.take(i as int));
        assert(sv.take(i + 1).last() == sections@[i as int]@);
        if sections[i].chapter_id == cid {
            out.append(sections[i].content.as_str());
        }
        i = i + 1;
    }
    assert(sv.take(sections.len() as int) =~= sv);
    out
}

/// Gathers the sections' contents per chapter: (title, text) for each
/// chapter in order, the text being its sections' contents concatenated in
/// the order of `sections`.
pub fn group_by_chapter(chapters: Vec<ChapterRecord>, sections: Vec<SectionRecord>) -> (res: Vec<(String, String)>)
    ensures
        pair_views(res@) == group_spec(chapter_record_views(chapters@), section_views_of(sections@)),
{
    let ghost cv = chapter_record_views(chapters@);
    let mut out: Vec<(String, String)> = Vec::new();
    let mut k: usize = 0;
    while k < chapters.len()
        invariant
            k <= chapters.len(),
            cv == chapter_record_views(chapters@),
            pair_views(out@) == group_spec(cv, section_views_of(sections@)).take(k as int),
        decreases chapters.len() - k,
    {
        let mut seen = false;
        let mut j: usize = 0;
        while j < k
            invariant
                j <= k < chapters.len(),
                cv == chapter_record_views(chapters@),
                seen == exists|q: int| 0 <= q < j && cv[q].0 == cv[k as int].0,
            decreases k - j,
        {
            assert(cv[j as int] == chapters@[j as int]@);
            assert(cv[k as int] == chapters@[k as int]@);
            if chapters[j].id == chapters[k].id {
                seen = true;
            }
            j = j + 1;
        }
        let text = if seen { String::new() } else { text_of_chapter(&sections, chapters[k].id) };
        assert(cv[k as int] == chapters@[k as int]@);
        let ghost before = out@;
        let pair = (chapters[k].title.clone(), text);
        out.push(pair);
        assert(pair_views(out@) =~= pair_views(before).push((pair.0@, pair.1@)));
        assert(group_spec(cv, section_views_of(sections@)).take(k + 1)
            =~= group_spec(cv, section_views_of(sections@)).take(k as int).push((pair.0@, pair.1@)));
        k = k + 1;
    }
    assert(group_spec(cv, section_views_of(sections@)).take(chapters.len() as int)
        =~= group_spec(cv, section_views_of(sections@)));
    out
}

/// `s` with the five XML special characters escaped (`&` first).
pub open spec fn escape_xml_spec(s: Seq<char>) -> Seq<char> {
    let a = replace_spec(s, "&"@, "&amp;"@);
    let b = replace_spec(a, "<"@, "&lt;"@);
    let c = replace_spec(b, ">"@, "&gt;"@);
    let d = replace_spec(c, "\""@, "&quot;"@);
    replace_spec(d, "'"@, "&apos;"@)
}

/// Escapes `&`, `<`, `>`, `"` and `'` for XML text and attributes.
pub fn escape_xml(s: &str) -> (res: String)
    ensures
        res@ == escape_xml_spec(s@),
{
    let a = replace_str(s, "&", "&amp;");
    let b = replace_str(a.as_str(), "<", "&lt;");
    let c = replace_str(b.as_str(), ">", "&gt;");
    let d = replace_str(c.as_str(), "\"", "&quot;");
    replace_str(d.as_str(), "'", "&apos;")
}

/// A download file name: characters not allowed in file names become `_`;
/// a name that is then blank becomes `book`.
pub open spec fn sanitize_filename_spec(name: Seq<char>) -> Seq<char> {
    let cleaned = replace_illegal_spec(name);
    if trim_spec(cleaned).len() == 0 { "book"@ } else { cleaned }
}

/// The file name offered for a download of the book `name`.
pub fn sanitize_filename(name: &str) -> (res: String)
    ensures
        res@ == sanitize_filename_spec(name@),
{
    let cs = chars_of(name);
    let mut m: Vec<char> = Vec::new();
    let mut i: usize = 0;
    while i < cs.len()
        invariant
            i <= cs.len(),
            cs@ == name@,
            m@ == replace_illegal_spec(name@).take(i as int),
        decreases cs.len() - i,
    {
        let c = cs[i];
        let d = if c == '\\' || c == '/' || c == ':' || c == '*' || c == '?' || c == '"' || c == '<' || c == '>' || c == '|' {
            '_'
        } else {
            c
        };
        m.push(d);
        assert(m@ =~= replace_illegal_spec(name@).take(i + 1));
        i = i + 1;
    }
    assert(m@ =~= replace_illegal_spec(name@));
    let cleaned = from_chars(m.as_slice());
    let t = trim_str(cleaned.as_str());
    if t.as_str().is_empty() {
        "book".to_owned()
    } else {
        cleaned
    }
}

/// The plain-text export: the title, `作者：` and the author, then each
/// chapter's title and trimmed text, each block set off by blank lines.
pub open spec fn txt_body_spec(title: Seq<char>, author: Seq<char>, grouped: Seq<(Seq<char>, Seq<char>)>) -> Seq<char>
    decreases grouped.len(),
{
    if grouped.len() == 0 {
        title + "\n\n作者："@ + author + "\n\n"@
    } else {
        let (t, c) = grouped.last();
        txt_body_spec(title, author, grouped.drop_last()) + "\n\n"@ + t + "\n\n"@ + trim_spec(c) + "\n"@
    }
}

/// The text download of a book: the offered file name (without `.txt`) and
/// the text (see `txt_body_spec`).
pub fn export_txt(book: BookRecord, chapters: Vec<ChapterRecord>, sections: Vec<SectionRecord>) -> (res: (String, String))
    ensures
        res.0@ == sanitize_filename_spec(book.title@),
        res.1@ == txt_body_spec(
            book.title@,
            book.author@,
            group_spec(chapter_record_views(chapters@), section_views_of(sections@)),
        ),
{
    let grouped = group_by_chapter(chapters, sections);
    let ghost gv = pair_views(grouped@);
    let mut out = concat(book.title.as_str(), "\n\n作者：");
    out.append(book.author.as_str());
    out.append("\n\n");
    let mut k: usize = 0;
    while k < grouped.len()
        invariant
            k <= grouped.len(),
            gv == pair_views(grouped@),
            out@ == txt_body_spec(book.title@, book.author@, gv.take(k as int)),
        decreases grouped.len() - k,
    {
        assert(gv.take(k + 1).drop_last() =~= gv.take(k as int));
        assert(gv.take(k + 1).last() == (grouped@[k as int].0@, grouped@[k as int].1@));
        out.append("\n\n");
        out.append(grouped[k].0.as_str());
        out.append("\n\n");
        let t = trim_str(grouped[k].1.as_str());
        out.append(t.as_str());
        out.append("\n");
        k = k + 1;
    }
    assert(gv.take(grouped.len() as int) =~= gv);
    (sanitize_filename(book.title.as_str()), out)
}

} // verus!

verus! {

/// The manifest and spine lines of chapters `1..=n`.
pub open spec fn opf_lists(n: nat) -> (Seq<char>, Seq<char>)
    decreases n,
{
    if n == 0 {
        (Seq::empty(), Seq::empty())
    } else {
        let (m, s) = opf_lists((n - 1) as nat);
        let i = digits_spec(n, 10);
        (
            m + "    <item id=\"chapter_"@ + i + "\" href=\"chapter_"@ + i + ".xhtml\" media-type=\"application/xhtml+xml\"/>\n"@,
            s + "    <itemref idref=\"chapter_"@ + i + "\"/>\n"@,
        )
    }
}

/// The package document of the EPUB for book `id` with `n` chapters,
/// modified at `now`.
pub open spec fn opf_spec(title: Seq<char>, author: Seq<char>, id: int, n: nat, now: Seq<char>) -> Seq<char> {
    let (manifest, spine) = opf_lists(n);
    "<?xml version=\"1.0\" encoding=\"UTF-8\"?>\n<package xmlns=\"http://www.idpf.org/2007/opf\" version=\"3.0\" unique-identifier=\"book-id\">\n  <metadata xmlns:dc=\"http://purl.org/dc/elements/1.1/\">\n    <dc:title>"@
        + escape_xml_spec(title)
        + "</dc:title>\n    <dc:creator>"@
        + escape_xml_spec(author)
        + "</dc:creator>\n    <dc:language>zh-CN</dc:language>\n    <dc:identifier id=\"book-id\">urn:banzhu:book:"@
        + signed_dec_spec(id)
        + "</dc:identifier>\n    <meta property=\"dcterms:modified\">"@
        + now
        + "</meta>\n  </metadata>\n  <manifest>\n    <item id=\"nav\" href=\"nav.xhtml\" media-type=\"application/xhtml+xml\" properties=\"nav\"/>\n    <item id=\"ncx\" href=\"toc.ncx\" media-type=\"application/x-dtbncx+xml\"/>\n"@
        + manifest
        + "  </manifest>\n  <spine toc=\"ncx\">\n"@
        + spine
        + "  </spine>\n</package>\n"@
}

/// The package document (`content.opf`) of the EPUB; `now` is the
/// modification time as `%Y-%m-%dT%H:%M:%SZ`.
pub fn build_opf(book: &BookRecord, chapter_count: usize, now: &str) -> (res: String)
    ensures
        res@ == opf_spec(book.title@, book.author@, book.id as int, chapter_count as nat, now@),
{
    let mut manifest = String::new();
    let mut spine = String::new();
    let mut i: usize = 0;
    while i < chapter_count
        invariant
            i <= chapter_count,
            (manifest@, spine@) == opf_lists(i as nat),
        decreases chapter_count - i,
    {
        let n = i + 1;
        let d = u64_to_dec(n as u64);
        manifest.append("    <item id=\"chapter_");
        manifest.append(d.as_str());
        manifest.append("\" href=\"chapter_");
        manifest.append(d.as_str());
        manifest.append(".xhtml\" media-type=\"application/xhtml+xml\"/>\n");
        spine.append("    <itemref idref=\"chapter_");
        spine.append(d.as_str());
        spine.append("\"/>\n");
        i = n;
    }
    let mut out = String::new();
    out.append("<?xml version=\"1.0\" encoding=\"UTF-8\"?>\n<package xmlns=\"http://www.idpf.org/2007/opf\" version=\"3.0\" unique-identifier=\"book-id\">\n  <metadata xmlns:dc=\"http://purl.org/dc/elements/1.1/\">\n    <dc:title>");
    out.append(escape_xml(book.title.as_str()).as_str());
    out.append("</dc:title>\n    <dc:creator>");
    out.append(escape_xml(book.author.as_str()).as_str());
    out.append("</dc:creator>\n    <dc:language>zh-CN</dc:language>\n    <dc:identifier id=\"book-id\">urn:banzhu:book:");
    out.append(i64_to_dec(book.id).as_str());
    out.append("</dc:identifier>\n    <meta property=\"dcterms:modified\">");
    out.append(now);
    out.append("</meta>\n  </metadata>\n  <manifest>\n    <item id=\"nav\" href=\"nav.xhtml\" media-type=\"application/xhtml+xml\" properties=\"nav\"/>\n    <item id=\"ncx\" href=\"toc.ncx\" media-type=\"application/x-dtbncx+xml\"/>\n");
    out.append(manifest.as_str());
    out.append("  </manifest>\n  <spine toc=\"ncx\">\n");
    out.append(spine.as_str());
    out.append("  </spine>\n</package>\n");
    out
}

/// The navigation points of the NCX for the given chapter titles.
pub open spec fn ncx_points(titles: Seq<Seq<char>>) -> Seq<char>
    decreases titles.len(),
{
    if titles.len() == 0 {
        Seq::empty()
    } else {
        let o = digits_spec(titles.len(), 10);
        ncx_points(titles.drop_last())
            + "    <navPoint id=\"chapter_"@ + o + "\" playOrder=\""@ + o
            + "\">\n      <navLabel><text>"@ + escape_xml_spec(titles.last())
            + "</text></navLabel>\n      <content src=\"chapter_"@ + o + ".xhtml\"/>\n    </navPoint>\n"@
    }
}

/// The titles of (title, text) pairs.
pub open spec fn titles_of(grouped: Seq<(Seq<char>, Seq<char>)>) -> Seq<Seq<char>> {
    grouped.map_values(|p: (Seq<char>, Seq<char>)| p.0)
}

/// The NCX table of contents of the EPUB for book `id`.
pub open spec fn ncx_spec(id: int, title: Seq<char>, titles: Seq<Seq<char>>) -> Seq<char> {
    "<?xml version=\"1.0\" encoding=\"UTF-8\"?>\n<ncx xmlns=\"http://www.daisy.org/z3986/2005/ncx/\" version=\"2005-1\">\n  <head>\n    <meta name=\"dtb:uid\" content=\"urn:banzhu:book:"@
        + signed_dec_spec(id)
        + "\"/>\n    <meta name=\"dtb:depth\" content=\"1\"/>\n    <meta name=\"dtb:totalPageCount\" content=\"0\"/>\n    <meta name=\"dtb:maxPageNumber\" content=\"0\"/>\n  </head>\n  <docTitle><text>"@
        + escape_xml_spec(title)
        + "</text></docTitle>\n  <navMap>\n"@
        + ncx_points(titles)
        + "  </navMap>\n</ncx>\n"@
}

/// The NCX table of contents (`toc.ncx`) of the EPUB.
pub fn build_ncx(book: &BookRecord, grouped: &Vec<(String, String)>) -> (res: String)
    ensures
        res@ == ncx_spec(book.id as int, book.title@, titles_of(pair_views(grouped@))),
{
    let ghost tv = titles_of(pair_views(grouped@));
    let mut points = String::new();
    let mut i: usize = 0;
    while i < grouped.len()
        invariant
            i <= grouped.len(),
            tv == titles_of(pair_views(grouped@)),
            points@ == ncx_points(tv.take(i as int)),
        decreases grouped.len() - i,
    {
        let n = i + 1;
        assert(tv.take(n as int).drop_last() =~= tv.take(i as int));
        assert(tv.take(n as int).last() == grouped@[i as int].0@);
        let o = u64_to_dec(n as u64);
        points.append("    <navPoint id=\"chapter_");
        points.append(o.as_str());
        points.append("\" playOrder=\"");
        points.append(o.as_str());
        points.append("\">\n      <navLabel><text>");
        points.append(escape_xml(grouped[i].0.as_str()).as_str());
        points.append("</text></navLabel>\n      <content src=\"chapter_");
        points.append(o.as_str());
        points.append(".xhtml\"/>\n    </navPoint>\n");
        i = n;
    }
    assert(tv.take(grouped.len() as int) =~= tv);
    let mut out = String::new();
    out.append("<?xml version=\"1.0\" encoding=\"UTF-8\"?>\n<ncx xmlns=\"http://www.daisy.org/z3986/2005/ncx/\" version=\"2005-1\">\n  <head>\n    <meta name=\"dtb:uid\" content=\"urn:banzhu:book:");
    out.append(i64_to_dec(book.id).as_str());
    out.append("\"/>\n    <meta name=\"dtb:depth\" content=\"1\"/>\n    <meta name=\"dtb:totalPageCount\" content=\"0\"/>\n    <meta name=\"dtb:maxPageNumber\" content=\"0\"/>\n  </head>\n  <docTitle><text>");
    out.append(escape_xml(book.title.as_str()).as_str());
    out.append("</text></docTitle>\n  <navMap>\n");
    out.append(points.as_str());
    out.append("  </navMap>\n</ncx>\n");
    out
}

/// The list items of the navigation document for the given chapter titles.
pub open spec fn nav_items(titles: Seq<Seq<char>>) -> Seq<char>
    decreases titles.len(),
{
    if titles.len() == 0 {
        Seq::empty()
    } else {
        nav_items(titles.drop_last()) + "      <li><a href=\"chapter_"@ + digits_spec(titles.len(), 10)
            + ".xhtml\">"@ + escape_xml_spec(titles.last()) + "</a></li>\n"@
    }
}

/// The navigation document of the EPUB.
pub open spec fn nav_spec(titles: Seq<Seq<char>>) -> Seq<char> {
    "<?xml version=\"1.0\" encoding=\"UTF-8\"?>\n<!DOCTYPE html>\n<html xmlns=\"http://www.w3.org/1999/xhtml\" xmlns:epub=\"http://www.idpf.org/2007/ops\">\n  <head><title>目录</title></head>\n  <body>\n    <nav epub:type=\"toc\" id=\"toc\">\n      <h1>目录</h1>\n      <ol>\n"@
        + nav_items(titles)
        + "      </ol>\n    </nav>\n  </body>\n</html>\n"@
}

/// The navigation document (`nav.xhtml`) of the EPUB.
pub fn build_nav(grouped: &Vec<(String, String)>) -> (res: String)
    ensures
        res@ == nav_spec(titles_of(pair_views(grouped@))),
{
    let ghost tv = titles_of(pair_views(grouped@));
    let mut items = String::new();
    let mut i: usize = 0;
    while i < grouped.len()
        invariant
            i <= grouped.len(),
            tv == titles_of(pair_views(grouped@)),
            items@ == nav_items(tv.take(i as int)),
        decreases grouped.len() - i,
    {
        let n = i + 1;
        assert(tv.take(n as int).drop_last() =~= tv.take(i as int));
        assert(tv.take(n as int).last() == grouped@[i as int].0@);
        let o = u64_to_dec(n as u64);
        items.append("      <li><a href=\"chapter_");
        items.append(o.as_str());
        items.append(".xhtml\">");
        items.append(escape_xml(grouped[i].0.as_str()).as_str());
        items.append("</a></li>\n");
        i = n;
    }
    assert(tv.take(grouped.len() as int) =~= tv);
    let mut out = String::new();
    out.append("<?xml version=\"1.0\" encoding=\"UTF-8\"?>\n<!DOCTYPE html>\n<html xmlns=\"http://www.w3.org/1999/xhtml\" xmlns:epub=\"http://www.idpf.org/2007/ops\">\n  <head><title>目录</title></head>\n  <body>\n    <nav epub:type=\"toc\" id=\"toc\">\n      <h1>目录</h1>\n      <ol>\n");
    out.append(items.as_str());
    out.append("      </ol>\n    </nav>\n  </body>\n</html>\n");
    out
}

/// The paragraphs of a chapter text: its lines (split at `\n`), trimmed,
/// blank ones dropped, each as an escaped `<p>` line.
pub open spec fn paragraph_lines(parts: Seq<Seq<char>>) -> Seq<Seq<char>>
    decreases parts.len(),
{
    if parts.len() == 0 {
        Seq::empty()
    } else {
        let r = paragraph_lines(parts.drop_last());
        let t = trim_spec(parts.last());
        if t.len() > 0 { r.push("    <p>"@ + escape_xml_spec(t) + "</p>"@) } else { r }
    }
}

/// The XHTML document of one chapter.
pub open spec fn chapter_xhtml_spec(title: Seq<char>, content: Seq<char>) -> Seq<char> {
    let ps = paragraph_lines(split_spec(content, "\n"@));
    let body = if ps.len() == 0 { Seq::empty() } else { join_spec(ps, "\n"@) + "\n"@ };
    let t = escape_xml_spec(title);
    "<?xml version=\"1.0\" encoding=\"UTF-8\"?>\n<!DOCTYPE html>\n<html xmlns=\"http://www.w3.org/1999/xhtml\">\n  <head><title>"@
        + t + "</title></head>\n  <body>\n    <h1>"@ + t + "</h1>\n"@ + body + "  </body>\n</html>\n"@
}

/// The XHTML document of one chapter: its title and one paragraph per
/// non-blank line.
pub fn build_chapter_xhtml(title: &str, content: &str) -> (res: String)
    ensures
        res@ == chapter_xhtml_spec(title@, content@),
{
    proof {
        reveal_strlit("\n");
    }
    let parts = split_str(content, "\n");
    let ghost pv = str_views(parts@);
    let mut body = String::new();
    let mut count: usize = 0;
    let mut i: usize = 0;
    while i < parts.len()
        invariant
            i <= parts.len(),
            pv == str_views(parts@),
            count == paragraph_lines(pv.take(i as int)).len(),
            count <= i,
            count > 0 ==> body@ == join_spec(paragraph_lines(pv.take(i as int)), "\n"@),
            count == 0 ==> body@.len() == 0,
        decreases parts.len() - i,
    {
        assert(pv.take(i + 1).drop_last() =~= pv.take(i as int));
        assert(pv.take(i + 1).last() == parts@[i as int]@);
        let t = trim_str(parts[i].as_str());
        if !t.as_str().is_empty() {
            if count > 0 {
                body.append("\n");
            }
            body.append("    <p>");
            body.append(escape_xml(t.as_str()).as_str());
            body.append("</p>");
            proof {
                let ps = paragraph_lines(pv.take(i + 1));
                if count == 0 {
                    assert(ps.len() == 1);
                    assert(body@ =~= join_spec(ps, "\n"@));
                } else {
                    assert(ps.drop_last() == paragraph_lines(pv.take(i as int)));
                    assert(body@ =~= join_spec(ps, "\n"@));
                }
            }
            count = count + 1;
        }
        i = i + 1;
    }
    assert(pv.take(parts.len() as int) =~= pv);
    if count > 0 {
        body.append("\n");
    }
    let t = escape_xml(title);
    let mut out = String::new();
    out.append("<?xml version=\"1.0\" encoding=\"UTF-8\"?>\n<!DOCTYPE html>\n<html xmlns=\"http://www.w3.org/1999/xhtml\">\n  <head><title>");
    out.append(t.as_str());
    out.append("</title></head>\n  <body>\n    <h1>");
    out.append(t.as_str());
    out.append("</h1>\n");
    out.append(body.as_str());
    out.append("  </body>\n</html>\n");
    out
}

} // verus!

verus! {

/// The lines of chapter `cid` in a text file: each of its sections with
/// content, trimmed, after a tab.
pub open spec fn chapter_lines(sections: Seq<SectionRecordView>, cid: int) -> Seq<char>
    decreases sections.len(),
{
    if sections.len() == 0 {
        Seq::empty()
    } else {
        let r = chapter_lines(sections.drop_last(), cid);
        let s = sections.last();
        if s.1 == cid && s.4.len() > 0 { r + "\t"@ + trim_spec(s.4) + "\n"@ } else { r }
    }
}

/// The chapters' part of a text file.
pub open spec fn chapters_part(chapters: Seq<ChapterRecordView>, sections: Seq<SectionRecordView>) -> Seq<char>
    decreases chapters.len(),
{
    if chapters.len() == 0 {
        Seq::empty()
    } else {
        chapters_part(chapters.drop_last(), sections) + "\n"@ + chapters.last().2 + "\n\n"@
            + chapter_lines(sections, chapters.last().0)
    }
}

/// The content of the text file a book is exported to: a header of title,
/// author, category, word count and introduction, then each chapter's title
/// and its sections' lines; trimmed as a whole.
pub open spec fn txt_file_spec(book: BookRecordView, chapters: Seq<ChapterRecordView>, sections: Seq<SectionRecordView>) -> Seq<char> {
    trim_spec(
        "书名："@ + book.title + "\n作者："@ + book.author + "\n分类："@ + book.category + "\n字数："@
            + signed_dec_spec(book.word_count) + "\n简介："@ + book.introduce + "\n\n"@
            + chapters_part(chapters, sections),
    )
}

proof fn lemma_chapter_lines_append(x: Seq<SectionRecordView>, y: Seq<SectionRecordView>, cid: int)
    ensures
        chapter_lines(x + y, cid) == chapter_lines(x, cid) + chapter_lines(y, cid),
    decreases y.len(),
{
    if y.len() == 0 {
        assert(x + y =~= x);
        assert(chapter_lines(x, cid) + Seq::<char>::empty() =~= chapter_lines(x, cid));
    } else {
        lemma_chapter_lines_append(x, y.drop_last(), cid);
        assert((x + y).drop_last() =~= x + y.drop_last());
        assert((x + y).last() == y.last());
        let r = chapter_lines(x, cid);
        let q = chapter_lines(y.drop_last(), cid);
        let t = "\t"@ + trim_spec(y.last().4) + "\n"@;
        assert(r + q + t =~= r + (q + t));
    }
}

proof fn lemma_chapter_lines_single(s: SectionRecordView, cid: int)
    ensures
        chapter_lines(seq![s], cid) == if s.1 == cid && s.4.len() > 0 {
            "\t"@ + trim_spec(s.4) + "\n"@
        } else {
            Seq::<char>::empty()
        },
{
    assert(seq![s].drop_last() =~= Seq::<SectionRecordView>::empty());
    assert(seq![s].last() == s);
    assert(chapter_lines(Seq::<SectionRecordView>::empty(), cid) == Seq::<char>::empty());
    if s.1 == cid && s.4.len() > 0 {
        assert(chapter_lines(seq![s], cid) == Seq::<char>::empty() + "\t"@ + trim_spec(s.4) + "\n"@);
        assert(Seq::<char>::empty() + "\t"@ + trim_spec(s.4) + "\n"@ =~= "\t"@ + trim_spec(s.4) + "\n"@);
    }
}

/// A section belongs to the lines of its own chapter only: under chapter
/// `cid`, a section whose chapter id is another contributes nothing, and one
/// of chapter `cid` with content contributes its content, trimmed, after a
/// tab and before a newline, in its place among the others.
pub proof fn law_section_lines_go_to_own_chapter(
    pre: Seq<SectionRecordView>,
    s: SectionRecordView,
    post: Seq<SectionRecordView>,
    cid: int,
)
    ensures
        s.1 != cid ==> chapter_lines(pre + seq![s] + post, cid) == chapter_lines(pre + post, cid),
        s.1 == cid && s.4.len() > 0 ==> chapter_lines(pre + seq![s] + post, cid)
            == chapter_lines(pre, cid) + "\t"@ + trim_spec(s.4) + "\n"@ + chapter_lines(post, cid),
        chapter_lines(Seq::<SectionRecordView>::empty(), cid) == Seq::<char>::empty(),
{
    lemma_chapter_lines_append(pre + seq![s], post, cid);
    lemma_chapter_lines_append(pre, seq![s], cid);
    lemma_chapter_lines_append(pre, post, cid);
    lemma_chapter_lines_single(s, cid);
    if s.1 != cid {
        assert(chapter_lines(pre, cid) + Seq::<char>::empty() =~= chapter_lines(pre, cid));
    } else if s.4.len() > 0 {
        let t = "\t"@ + trim_spec(s.4) + "\n"@;
        assert(chapter_lines(pre, cid) + t =~= chapter_lines(pre, cid) + "\t"@ + trim_spec(s.4) + "\n"@);
    }
}

proof fn lemma_chapters_part_foreign(
    chapters: Seq<ChapterRecordView>,
    pre: Seq<SectionRecordView>,
    s: SectionRecordView,
    post: Seq<SectionRecordView>,
)
    requires
        forall|k: int| 0 <= k < chapters.len() ==> #[trigger] chapters[k].0 != s.1,
    ensures
        chapters_part(chapters, pre + seq![s] + post) == chapters_part(chapters, pre + post),
    decreases chapters.len(),
{
    if chapters.len() > 0 {
        assert forall|k: int| 0 <= k < chapters.drop_last().len() implies #[trigger] chapters.drop_last()[k].0 != s.1 by {
            assert(chapters.drop_last()[k] == chapters[k]);
        }
        lemma_chapters_part_foreign(chapters.drop_last(), pre, s, post);
        assert(chapters.last().0 != s.1);
        law_section_lines_go_to_own_chapter(pre, s, post, chapters.last().0);
    }
}

/// The exported text file is unchanged by a section whose chapter id is that
/// of none of the book's chapters, wherever it stands among the sections.
pub proof fn law_txt_ignores_foreign_sections(
    book: BookRecordView,
    chapters: Seq<ChapterRecordView>,
    pre: Seq<SectionRecordView>,
    s: SectionRecordView,
    post: Seq<SectionRecordView>,
)
    requires
        forall|k: int| 0 <= k < chapters.len() ==> #[trigger] chapters[k].0 != s.1,
    ensures
        txt_file_spec(book, chapters, pre + seq![s] + post) == txt_file_spec(book, chapters, pre + post),
{
    lemma_chapters_part_foreign(chapters, pre, s, post);
}

fn lines_of_chapter(sections: &Vec<SectionRecord>, cid: i64) -> (res: String)
    ensures
        res@ == chapter_lines(section_views_of(sections@), cid as int),
{
    let ghost sv = section_views_of(sections@);
    let mut out = String::new();
    let mut i: usize = 0;
    while i < sections.len()
        invariant
            i <= sections.len(),
            sv == section_views_of(sections@),
            out@ == chapter_lines(sv.take(i as int), cid as int),
        decreases sections.len() - i,
    {
        assert(sv.take(i + 1).drop_last() =~= sv.take(i as int));
        assert(sv.take(i + 1).last() == sections@[i as int]@);
        if sections[i].chapter_id == cid && !sections[i].content.as_str().is_empty() {
            out.append("\t");
            out.append(trim_str(sections[i].content.as_str()).as_str());
            out.append("\n");
        }
        i = i + 1;
    }
    assert(sv.take(sections.len() as int) =~= sv);
    out
}

/// The content of the text file `<filename>.txt` a book is exported to by
/// the command line (see `txt_file_spec`).
pub fn txt_file_content(book: &BookRecord, chapters: &Vec<ChapterRecord>, sections: &Vec<SectionRecord>) -> (res: String)
    ensures
        res@ == txt_file_spec(book@, chapter_record_views(chapters@), section_views_of(sections@)),
{
    let mut head = String::new();
    head.append("书名：");
    head.append(book.title.as_str());
    head.append("\n作者：");
    head.append(book.author.as_str());
    head.append("\n分类：");
    head.append(book.category.as_str());
    head.append("\n字数：");
    head.append(i64_to_dec(book.word_count).as_str());
    head.append("\n简介：");
    head.append(book.introduce.as_str());
    head.append("\n\n");
    let ghost cv = chapter_record_views(chapters@);
    let mut body = String::new();
    let mut k: usize = 0;
    while k < chapters.len()
        invariant
            k <= chapters.len(),
            cv == chapter_record_views(chapters@),
            body@ == chapters_part(cv.take(k as int), section_views_of(sections@)),
        decreases chapters.len() - k,
    {
        assert(cv.take(k + 1).drop_last() =~= cv.take(k as int));
        assert(cv.take(k + 1).last() == chapters@[k as int]@);
        body.append("\n");
        body.append(chapters[k].title.as_str());
        body.append("\n\n");
        body.append(lines_of_chapter(sections, chapters[k].id).as_str());
        k = k + 1;
    }
    assert(cv.take(chapters.len() as int) =~= cv);
    head.append(body.as_str());
    trim_str(head.as_str())
}

} // verus!

verus! {

/// The introduction page of an EPUB made by the command line.
pub open spec fn epub_intro_spec(book: BookRecordView) -> Seq<char> {
    "<html><body><h1>"@ + book.title + "</h1><p>作者："@ + book.author + "</p><p>分类："@ + book.category
        + "</p><p>简介："@ + book.introduce + "</p></body></html>"@
}

/// The introduction page (title, author, category, introduction) of an EPUB
/// made by the command line.
pub fn epub_intro_html(book: &BookRecord) -> (res: String)
    ensures
        res@ == epub_intro_spec(book@),
{
    let mut out = "<html><body><h1>".to_owned();
    out.append(book.title.as_str());
    out.append("</h1><p>作者：");
    out.append(book.author.as_str());
    out.append("</p><p>分类：");
    out.append(book.category.as_str());
    out.append("</p><p>简介：");
    out.append(book.introduce.as_str());
    out.append("</p></body></html>");
    out
}

/// One `<p>` per non-blank line (trimmed) of a text.
pub open spec fn plain_paragraphs(lines: Seq<Seq<char>>) -> Seq<char>
    decreases lines.len(),
{
    if lines.len() == 0 {
        Seq::empty()
    } else {
        let t = trim_spec(lines.last());
        plain_paragraphs(lines.drop_last()) + if t.len() > 0 { "<p>"@ + t + "</p>"@ } else { Seq::empty() }
    }
}

/// The paragraphs of the sections of chapter `cid` that have content.
pub open spec fn chapter_paragraphs(sections: Seq<SectionRecordView>, cid: int) -> Seq<char>
    decreases sections.len(),
{
    if sections.len() == 0 {
        Seq::empty()
    } else {
        let s = sections.last();
        chapter_paragraphs(sections.drop_last(), cid)
            + if s.1 == cid && s.4.len() > 0 { plain_paragraphs(split_spec(s.4, "\n"@)) } else { Seq::empty() }
    }
}

/// A chapter page of an EPUB made by the command line.
pub open spec fn epub_chapter_spec(title: Seq<char>, cid: int, sections: Seq<SectionRecordView>) -> Seq<char> {
    "<html><body><h2>"@ + title + "</h2>"@ + chapter_paragraphs(sections, cid) + "</body></html>"@
}

fn paragraphs_of(content: &str) -> (res: String)
    ensures
        res@ == plain_paragraphs(split_spec(content@, "\n"@)),
{
    proof {
        reveal_strlit("\n");
    }
    let parts = split_str(content, "\n");
    let ghost pv = str_views(parts@);
    let mut out = String::new();
    let mut i: usize = 0;
    while i < parts.len()
        invariant
            i <= parts.len(),
            pv == str_views(parts@),
            pv == split_spec(content@, "\n"@),
            out@ == plain_paragraphs(pv.take(i as int)),
        decreases parts.len() - i,
    {
        assert(pv.take(i + 1).drop_last() =~= pv.take(i as int));
        assert(pv.take(i + 1).last() == parts@[i as int]@);
        let t = trim_str(parts[i].as_str());
        if !t.as_str().is_empty() {
            out.append("<p>");
            out.append(t.as_str());
            out.append("</p>");
        } else {
            assert(out@ + Seq::<char>::empty() =~= out@);
        }
        i = i + 1;
    }
    assert(pv.take(parts.len() as int) =~= pv);
    out
}

/// A chapter page of an EPUB made by the command line: the title as `<h2>`,
/// then one `<p>` per non-blank line of the chapter's sections.
pub fn epub_chapter_html(title: &str, chapter_id: i64, sections: &Vec<SectionRecord>) -> (res: String)
    ensures
        res@ == epub_chapter_spec(title@, chapter_id as int, section_views_of(sections@)),
{
    let ghost sv = section_views_of(sections@);
    let mut body = String::new();
    let mut i: usize = 0;
    while i < sections.len()
        invariant
            i <= sections.len(),
            sv == section_views_of(sections@),
            body@ == chapter_paragraphs(sv.take(i as int), chapter_id as int),
        decreases sections.len() - i,
    {
        assert(sv.take(i + 1).drop_last() =~= sv.take(i as int));
        assert(sv.take(i + 1).last() == sections@[i as int]@);
        if sections[i].chapter_id == chapter_id && !sections[i].content.as_str().is_empty() {
            body.append(paragraphs_of(sections[i].content.as_str()).as_str());
        } else {
            assert(body@ + Seq::<char>::empty() =~= body@);
        }
        i = i + 1;
    }
    assert(sv.take(sections.len() as int) =~= sv);
    let mut out = "<html><body><h2>".to_owned();
    out.append(title);
    out.append("</h2>");
    out.append(body.as_str());
    out.append("</body></html>");
    out
}

} // verus!

verus! {

/// The container document pointing at the package document.
pub open spec fn container_xml() -> Seq<char> {
    "<?xml version=\"1.0\" encoding=\"UTF-8\"?>\n<container version=\"1.0\" xmlns=\"urn:oasis:names:tc:opendocument:xmlns:container\">\n  <rootfiles>\n    <rootfile full-path=\"OEBPS/content.opf\" media-type=\"application/oebps-package+xml\"/>\n  </rootfiles>\n</container>\n"@
}

/// A file of an EPUB package: its path, its text, and whether it is stored
/// uncompressed.
pub type EpubEntry = (String, String, bool);

/// The abstract form of a package file.
pub open spec fn entry_view(e: EpubEntry) -> (Seq<char>, Seq<char>, bool) {
    (e.0@, e.1@, e.2)
}

/// The files of the EPUB of a book, in package order: the uncompressed
/// `mimetype`, the container, the package document, the NCX, the navigation
/// document and one page per chapter (text gathered per chapter).
pub open spec fn epub_entries_spec(
    book: BookRecordView,
    grouped: Seq<(Seq<char>, Seq<char>)>,
    now: Seq<char>,
) -> Seq<(Seq<char>, Seq<char>, bool)> {
    seq![
        ("mimetype"@, "application/epub+zip"@, true),
        ("META-INF/container.xml"@, container_xml(), false),
        ("OEBPS/content.opf"@, opf_spec(book.title, book.author, book.id, grouped.len(), now), false),
        ("OEBPS/toc.ncx"@, ncx_spec(book.id, book.title, titles_of(grouped)), false),
        ("OEBPS/nav.xhtml"@, nav_spec(titles_of(grouped)), false),
    ] + Seq::new(grouped.len(), |k: int| (
        "OEBPS/chapter_"@ + digits_spec((k + 1) as nat, 10) + ".xhtml"@,
        chapter_xhtml_spec(grouped[k].0, grouped[k].1),
        false,
    ))
}

/// The files of a book's EPUB download (see `epub_entries_spec`); `now` is
/// the modification time as `%Y-%m-%dT%H:%M:%SZ`.
pub fn epub_entries(book: &BookRecord, chapters: Vec<ChapterRecord>, sections: Vec<SectionRecord>, now: &str)
    -> (res: Vec<EpubEntry>)
    ensures
        res@.map_values(|e: EpubEntry| entry_view(e)) == epub_entries_spec(
            book@,
            group_spec(chapter_record_views(chapters@), section_views_of(sections@)),
            now@,
        ),
{
    let grouped = group_by_chapter(chapters, sections);
    let ghost gv = pair_views(grouped@);
    let mut out: Vec<EpubEntry> = Vec::new();
    out.push(("mimetype".to_owned(), "application/epub+zip".to_owned(), true));
    out.push(("META-INF/container.xml".to_owned(), "<?xml version=\"1.0\" encoding=\"UTF-8\"?>\n<container version=\"1.0\" xmlns=\"urn:oasis:names:tc:opendocument:xmlns:container\">\n  <rootfiles>\n    <rootfile full-path=\"OEBPS/content.opf\" media-type=\"application/oebps-package+xml\"/>\n  </rootfiles>\n</container>\n".to_owned(), false));
    out.push(("OEBPS/content.opf".to_owned(), build_opf(book, grouped.len(), now), false));
    assert(titles_of(gv) == titles_of(pair_views(grouped@)));
    out.push(("OEBPS/toc.ncx".to_owned(), build_ncx(book, &grouped), false));
    out.push(("OEBPS/nav.xhtml".to_owned(), build_nav(&grouped), false));
    let ghost head = out@.map_values(|e: EpubEntry| entry_view(e));
    assert(head.len() == 5);
    let mut i: usize = 0;
    while i < grouped.len()
        invariant
            i <= grouped.len(),
            gv == pair_views(grouped@),
            out@.len() == 5 + i,
            out@.map_values(|e: EpubEntry| entry_view(e)).take(5) == head,
            forall|k: int| 0 <= k < i ==> #[trigger] entry_view(out@[5 + k]) == (
                "OEBPS/chapter_"@ + digits_spec((k + 1) as nat, 10) + ".xhtml"@,
                chapter_xhtml_spec(gv[k].0, gv[k].1),
                false,
            ),
        decreases grouped.len() - i,
    {
        let n = i + 1;
        let mut name = "OEBPS/chapter_".to_owned();
        name.append(u64_to_dec(n as u64).as_str());
        name.append(".xhtml");
        assert(gv[i as int] == (grouped@[i as int].0@, grouped@[i as int].1@));
        let page = build_chapter_xhtml(grouped[i].0.as_str(), grouped[i].1.as_str());
        let ghost before = out@;
        out.push((name, page, false));
        assert(out@.map_values(|e: EpubEntry| entry_view(e)).take(5) =~= before.map_values(|e: EpubEntry| entry_view(e)).take(5));
        assert forall|k: int| 0 <= k < n implies #[trigger] entry_view(out@[5 + k]) == (
            "OEBPS/chapter_"@ + digits_spec((k + 1) as nat, 10) + ".xhtml"@,
            chapter_xhtml_spec(gv[k].0, gv[k].1),
            false,
        ) by {
            if k < i {
                assert(out@[5 + k] == before[5 + k]);
            }
        }
        i = n;
    }
    assert(out@.map_values(|e: EpubEntry| entry_view(e)) =~= epub_entries_spec(
        book@,
        group_spec(chapter_record_views(chapters@), section_views_of(sections@)),
        now@,
    )) by {
        let v = out@.map_values(|e: EpubEntry| entry_view(e));
        let sp = epub_entries_spec(book@, gv, now@);
        assert forall|k: int| 0 <= k < v.len() implies v[k] == sp[k] by {
            if k < 5 {
                assert(v.take(5)[k] == head[k]);
            } else {
                assert(v[k] == entry_view(out@[5 + (k - 5)]));
            }
        }
    }
    out
}

} // verus!

verus! {

/// The texts of the fetched sections of a chapter, each on a line of its own
/// (a section never fetched adds nothing).
pub open spec fn fetched_texts(sections: Seq<Section>) -> Seq<char>
    decreases sections.len(),
{
    if sections.len() == 0 {
        Seq::empty()
    } else {
        fetched_texts(sections.drop_last()) + match sections.last().content {
            Some(c) => c@ + "\n"@,
            None => Seq::empty(),
        }
    }
}

/// A chapter in a book's local text file: its title between blank lines,
/// then its sections' texts.
pub open spec fn chapter_block(c: Chapter) -> Seq<char> {
    "\n"@ + c.title@ + "\n\n"@ + match c.sections {
        Some(v) => fetched_texts(v@),
        None => Seq::empty(),
    }
}

/// The chapters of a book's local text file, in order.
pub open spec fn chapter_blocks(chapters: Seq<Chapter>) -> Seq<char>
    decreases chapters.len(),
{
    if chapters.len() == 0 {
        Seq::empty()
    } else {
        chapter_blocks(chapters.drop_last()) + chapter_block(chapters.last())
    }
}

/// The local text file of a downloaded book: title, author and introduction,
/// a blank line, then its chapters.
pub open spec fn local_txt_spec(book: Book, chapters: Seq<Chapter>) -> Seq<char> {
    "书名："@ + book.title@ + "\n作者："@ + book.author@ + "\n简介："@ + book.introduce@ + "\n\n"@
        + chapter_blocks(chapters)
}

fn fetched_texts_of(sections: &Vec<Section>) -> (res: String)
    ensures
        res@ == fetched_texts(sections@),
{
    let mut out = String::new();
    let mut i: usize = 0;
    while i < sections.len()
        invariant
            i <= sections.len(),
            out@ == fetched_texts(sections@.take(i as int)),
        decreases sections.len() - i,
    {
        assert(sections@.take(i + 1).drop_last() =~= sections@.take(i as int));
        if let Some(c) = &sections[i].content {
            out.append(c.as_str());
            out.append("\n");
        }
        i = i + 1;
    }
    assert(sections@.take(sections.len() as int) =~= sections@);
    out
}

/// The content of a downloaded book's local text file (see `local_txt_spec`).
pub fn local_txt_content(book: &Book, chapters: &Vec<Chapter>) -> (res: String)
    ensures
        res@ == local_txt_spec(*book, chapters@),
{
    let mut out = "书名：".to_owned();
    out.append(book.title.as_str());
    out.append("\n作者：");
    out.append(book.author.as_str());
    out.append("\n简介：");
    out.append(book.introduce.as_str());
    out.append("\n\n");
    let ghost head = out@;
    let mut i: usize = 0;
    while i < chapters.len()
        invariant
            i <= chapters.len(),
            out@ == head + chapter_blocks(chapters@.take(i as int)),
        decreases chapters.len() - i,
    {
        assert(chapters@.take(i + 1).drop_last() =~= chapters@.take(i as int));
        out.append("\n");
        out.append(chapters[i].title.as_str());
        out.append("\n\n");
        if let Some(v) = &chapters[i].sections {
            out.append(fetched_texts_of(v).as_str());
        }
        i = i + 1;
    }
    assert(chapters@.take(chapters.len() as int) =~= chapters@);
    out
}

/// The folder of a book's local text file: its category, or `其他分类`
/// when it has none.
pub open spec fn local_folder_spec(dir: Seq<char>, book: Book) -> Seq<char> {
    dir + "/"@ + if book.category@.len() == 0 { "其他分类"@ } else { book.category@ }
}

/// The folder under `dir` that a downloaded book's text file goes to.
pub fn local_txt_dir(dir: &str, book: &Book) -> (res: String)
    ensures
        res@ == local_folder_spec(dir@, *book),
{
    let mut out = concat(dir, "/");
    if book.category.as_str().is_empty() {
        out.append("其他分类");
    } else {
        out.append(book.category.as_str());
    }
    out
}

/// The path of a downloaded book's text file: `<folder>/<title>.txt`.
pub fn local_txt_path(dir: &str, book: &Book) -> (res: String)
    ensures
        res@ == local_folder_spec(dir@, *book) + "/"@ + book.title@ + ".txt"@,
{
    let mut out = local_txt_dir(dir, book);
    out.append("/");
    out.append(book.title.as_str());
    out.append(".txt");
    out
}

/// The path checked for an already downloaded book:
/// `<dir>/<category>/<title>.txt`, with the category as it is.
pub fn existing_txt_path(dir: &str, book: &Book) -> (res: String)
    ensures
        res@ == dir@ + "/"@ + book.category@ + "/"@ + book.title@ + ".txt"@,
{
    let mut out = concat(dir, "/");
    out.append(book.category.as_str());
    out.append("/");
    out.append(book.title.as_str());
    out.append(".txt");
    out
}

} // verus!
