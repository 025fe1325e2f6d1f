//! Paper attachments: which files are accepted, the names they are stored
//! under, and the text extracted from them. Reading and writing files, PDF
//! parsing and unpacking DOCX archives are the caller's.
use vstd::prelude::*;
use crate::patterns::{or_keep, regex_replace_all, replace_pattern, safe_name, safe_name_spec};
use crate::text::{
    append, cat, drop_empty, is_blank, join, join_spec, owned, replace, replace_spec, split_char, split_spec, str_eq, strs, trim,
    trim_spec, views,
};

verus! {

/// The name under which an attachment is stored: forbidden characters
/// replaced, trimmed, "未命名文件" when nothing is left.
pub fn safe_filename(name: &str) -> (r: String)
    ensures
        r@ == safe_name_spec(name@, "未命名文件"@),
{
    safe_name(name, "未命名文件")
}

/// The file suffixes that attachments may have.
pub open spec fn supported_suffix_list() -> Seq<Seq<char>> {
    seq!["docx"@, "pdf"@, "txt"@, "md"@]
}

/// The file suffixes that attachments may have.
pub fn supported_suffixes() -> (r: [&'static str; 4])
    ensures
        r@.map_values(|s: &str| s@) == supported_suffix_list(),
{
    let r = ["docx", "pdf", "txt", "md"];
    assert(r@.map_values(|s: &str| s@) =~= supported_suffix_list());
    r
}

/// Whether an attachment with this (lower-cased) suffix is accepted.
pub fn is_supported_suffix(suffix: &str) -> (r: bool)
    ensures
        r == supported_suffix_list().contains(suffix@),
{
    let list = supported_suffixes();
    let v: Vec<&str> = vec![list[0], list[1], list[2], list[3]];
    assert(strs(v@) =~= supported_suffix_list());
    crate::text::str_in(&v, suffix)
}

/// Refuses an attachment whose suffix is not supported.
pub fn check_suffix(suffix: &str) -> (r: Result<(), String>)
    ensures
        r is Ok <==> supported_suffix_list().contains(suffix@),
        r matches Err(e) ==> e@ == "暂不支持该附件格式："@ + suffix@,
{
    if is_supported_suffix(suffix) { Ok(()) } else { Err(crate::text::cat("暂不支持该附件格式：", suffix)) }
}

/// The largest attachment upload accepted, in bytes.
pub const MAX_ATTACHMENT_BYTES: usize = 41943040;

/// Refuses uploads over 40 MB.
pub fn check_attachment_size(len: usize) -> (r: Result<(), String>)
    ensures
        r is Ok <==> len <= MAX_ATTACHMENT_BYTES,
        r matches Err(e) ==> e@ == "附件超过 40MB，请缩小文件后再导入。"@,
{
    if len > MAX_ATTACHMENT_BYTES { Err(owned("附件超过 40MB，请缩小文件后再导入。")) } else { Ok(()) }
}

/// A saved attachment and what was read from it.
#[derive(Clone, Debug)]
pub struct AttachmentParseReport {
    pub stored_path: String,
    pub extracted_text: String,
    pub warning: Option<String>,
}

/// The XML entities decoded, one after the other.
pub open spec fn xml_entities_spec(v: Seq<char>) -> Seq<char> {
    replace_spec(
        replace_spec(replace_spec(replace_spec(replace_spec(v, "&amp;"@, "&"@), "&lt;"@, "<"@), "&gt;"@, ">"@), "&quot;"@, "\""@),
        "&apos;"@,
        "'"@,
    )
}

/// Decodes `&amp;`, `&lt;`, `&gt;`, `&quot;` and `&apos;`.
pub fn decode_xml_entities(value: &str) -> (r: String)
    ensures
        r@ == xml_entities_spec(value@),
{
    proof {
        reveal_strlit("&amp;");
        reveal_strlit("&lt;");
        reveal_strlit("&gt;");
        reveal_strlit("&quot;");
        reveal_strlit("&apos;");
    }
    let a = replace(value, "&amp;", "&");
    let b = replace(a.as_str(), "&lt;", "<");
    let c = replace(b.as_str(), "&gt;", ">");
    let d = replace(c.as_str(), "&quot;", "\"");
    replace(d.as_str(), "&apos;", "'")
}

/// The non-empty lines of a text, trimmed, one per line.
pub open spec fn compact_text_spec(value: Seq<char>) -> Seq<char> {
    join_spec(drop_empty(split_spec(value, |c: char| c == '\n').map_values(|l: Seq<char>| trim_spec(l))), "\n"@)
}

/// Drops blank lines and trims the others.
pub fn compact_text(value: &str) -> (r: String)
    ensures
        r@ == compact_text_spec(value@),
{
    let pieces = split_char(value, '\n');
    let ghost all = views(pieces@).map_values(|l: Seq<char>| trim_spec(l));
    let mut kept: Vec<String> = Vec::new();
    let mut i: usize = 0;
    while i < pieces.len()
        invariant
            i <= pieces@.len(),
            views(pieces@) == split_spec(value@, |c: char| c == '\n'),
            all == views(pieces@).map_values(|l: Seq<char>| trim_spec(l)),
            views(kept@) == drop_empty(all.take(i as int)),
        decreases pieces@.len() - i,
    {
        let t = trim(pieces[i].as_str());
        proof {
            assert(all.take(i + 1).drop_last() =~= all.take(i as int));
            assert(all.take(i + 1).last() == t@);
        }
        if !t.as_str().is_empty() {
            let ghost before = views(kept@);
            kept.push(t);
            assert(views(kept@) =~= before.push(t@));
        }
        i = i + 1;
    }
    assert(all.take(i as int) =~= all);
    join(&kept, "\n")
}

/// Paragraph ends in a DOCX body.
pub const PARAGRAPH_END_PATTERN: &'static str = "</w:p>";
/// Any XML tag.
pub const XML_TAG_PATTERN: &'static str = "<[^>]+>";

/// The text of a DOCX body: paragraph ends become line breaks, tags become
/// spaces, entities are decoded.
pub open spec fn docx_text_spec(xml: Seq<char>) -> Seq<char> {
    let a = or_keep(regex_replace_all(PARAGRAPH_END_PATTERN@, xml, "\n"@), xml);
    let b = or_keep(regex_replace_all(XML_TAG_PATTERN@, a, " "@), a);
    xml_entities_spec(b)
}

/// The text of a DOCX body.
pub fn docx_xml_to_text(xml: &str) -> (r: String)
    ensures
        r@ == docx_text_spec(xml@),
{
    let a = replace_pattern(PARAGRAPH_END_PATTERN, xml, "\n");
    let b = replace_pattern(XML_TAG_PATTERN, a.as_str(), " ");
    decode_xml_entities(b.as_str())
}

/// The text and warning of a plain-text attachment: the text itself, or a
/// warning when it is blank.
pub open spec fn plain_text_outcome(text: Seq<char>) -> (Seq<char>, Option<Seq<char>>) {
    if crate::text::is_blank_spec(text) {
        (seq![], Some("附件已保存，但没有提取到文本内容。"@))
    } else {
        (text, None)
    }
}

/// The plain values of a text-and-warning pair.
pub open spec fn outcome_view(r: (String, Option<String>)) -> (Seq<char>, Option<Seq<char>>) {
    (r.0@, crate::patterns::opt_view(r.1))
}

/// What a plain-text attachment yields.
pub fn plain_text_attachment(text: &str) -> (r: (String, Option<String>))
    ensures
        outcome_view(r) == plain_text_outcome(text@),
{
    if is_blank(text) {
        (String::new(), Some(owned("附件已保存，但没有提取到文本内容。")))
    } else {
        (owned(text), None)
    }
}

/// What a PDF attachment yields from the extractor's result: the compacted
/// text; a warning when nothing was left (perhaps a scanned PDF) or when
/// extraction failed.
pub open spec fn pdf_outcome(extracted: Result<Seq<char>, Seq<char>>) -> (Seq<char>, Option<Seq<char>>) {
    match extracted {
        Ok(t) => {
            let c = compact_text_spec(t);
            if c.len() == 0 {
                (seq![], Some("PDF 已保存，但没有提取到正文。它可能是扫描版 PDF，请人工核验后再用于 AI 推荐。"@))
            } else {
                (c, None)
            }
        },
        Err(e) => (seq![], Some("PDF 已保存，但正文解析失败："@ + e + "。扫描版或加密 PDF 需要人工核验。"@)),
    }
}

/// What a PDF attachment yields.
pub fn pdf_attachment(extracted: Result<&str, &str>) -> (r: (String, Option<String>))
    ensures
        outcome_view(r) == pdf_outcome(match extracted { Ok(t) => Ok(t@), Err(e) => Err(e@) }),
{
    match extracted {
        Ok(t) => {
            let c = compact_text(t);
            if c.as_str().is_empty() {
                (String::new(), Some(owned("PDF 已保存，但没有提取到正文。它可能是扫描版 PDF，请人工核验后再用于 AI 推荐。")))
            } else {
                (c, None)
            }
        },
        Err(e) => {
            let mut w = crate::text::cat("PDF 已保存，但正文解析失败：", e);
            crate::text::append(&mut w, "。扫描版或加密 PDF 需要人工核验。");
            (String::new(), Some(w))
        },
    }
}

/// What a DOCX attachment yields from its body XML: the compacted text; a
/// warning when nothing was left or when the archive could not be read.
pub open spec fn docx_outcome(body: Result<Seq<char>, Seq<char>>) -> (Seq<char>, Option<Seq<char>>) {
    match body {
        Ok(xml) => {
            let c = compact_text_spec(docx_text_spec(xml));
            if c.len() == 0 {
                (seq![], Some("DOCX 已保存，但没有提取到正文，请确认文档不是空文件或受保护文件。"@))
            } else {
                (c, None)
            }
        },
        Err(e) => (seq![], Some("DOCX 已保存，但正文解析失败："@ + e + "。请人工核验附件内容。"@)),
    }
}

/// What a DOCX attachment yields.
pub fn docx_attachment(body: Result<&str, &str>) -> (r: (String, Option<String>))
    ensures
        outcome_view(r) == docx_outcome(match body { Ok(t) => Ok(t@), Err(e) => Err(e@) }),
{
    match body {
        Ok(xml) => {
            let text = docx_xml_to_text(xml);
            let c = compact_text(text.as_str());
            if c.as_str().is_empty() {
                (String::new(), Some(owned("DOCX 已保存，但没有提取到正文，请确认文档不是空文件或受保护文件。")))
            } else {
                (c, None)
            }
        },
        Err(e) => {
            let mut w = crate::text::cat("DOCX 已保存，但正文解析失败：", e);
            crate::text::append(&mut w, "。请人工核验附件内容。");
            (String::new(), Some(w))
        },
    }
}

/// The name a stored attachment gets: the time stamp and the safe file name.
pub fn stored_attachment_name(stamp: &str, file_name: &str) -> (r: String)
    ensures
        r@ == stamp@ + "_"@ + safe_name_spec(file_name@, "未命名文件"@),
{
    let mut name = cat(stamp, "_");
    let safe = safe_filename(file_name);
    append(&mut name, safe.as_str());
    name
}

/// The refusal when the attachment to copy does not exist.
pub fn missing_attachment_error(path: &str) -> (r: String)
    ensures
        r@ == "论文附件不存在："@ + path@,
{
    cat("论文附件不存在：", path)
}

} // verus!
