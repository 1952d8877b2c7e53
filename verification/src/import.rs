//! Importing local documents: which files are accepted and how their text
//! is read, the text pulled out of Office XML, and the card an import
//! creates.
use vstd::prelude::*;
use crate::card::{byte_len, default_visibility, CardText, NewCard, MAX_CONTENT_BYTES};
use crate::text::{
    chars_of, decimal, lowercase_text, to_lowercase, join, join_texts, owned, push_decimal, push_text,
    replace_all, replace_chars, same_text, split_chars, split_on, starts_with_exec,
    string_of_range, text_starts_with, texts, utf8_text,
};

verus! {

// ---------------------------------------------------------------------------
// Accepted files
// ---------------------------------------------------------------------------

/// Message for a file of a kind that cannot be imported.
pub open spec fn msg_unsupported_file() -> Seq<char> {
    "仅支持 Markdown、TXT、PDF、DOCX、XLSX"@
}

/// How the text of an imported file is read.
#[derive(Debug)]
pub enum ImportSource {
    /// The file is read as UTF-8 text.
    PlainText,
    /// `pdftotext` converts the file; its output must be UTF-8.
    Pdf,
    /// The file is a zip archive whose `entry` holds the document XML.
    Office { entry: String },
}

/// An import source with the texts it holds.
pub enum ImportSourceView {
    PlainText,
    Pdf,
    Office { entry: Seq<char> },
}

impl View for ImportSource {
    type V = ImportSourceView;

    open spec fn view(&self) -> ImportSourceView {
        match self {
            ImportSource::PlainText => ImportSourceView::PlainText,
            ImportSource::Pdf => ImportSourceView::Pdf,
            ImportSource::Office { entry } => ImportSourceView::Office { entry: entry@ },
        }
    }
}

/// How a file with the (lower-case) extension `ext` is read; None when
/// such files are not accepted.
pub open spec fn import_source_of(ext: Seq<char>) -> Option<ImportSourceView> {
    if ext == "md"@ || ext == "markdown"@ || ext == "txt"@ {
        Some(ImportSourceView::PlainText)
    } else if ext == "pdf"@ {
        Some(ImportSourceView::Pdf)
    } else if ext == "docx"@ {
        Some(ImportSourceView::Office { entry: "word/document.xml"@ })
    } else if ext == "xlsx"@ {
        Some(ImportSourceView::Office { entry: "xl/sharedStrings.xml"@ })
    } else {
        None
    }
}

/// How a file with extension `ext` is read, or the refusal of its kind.
pub fn import_source(ext: &str) -> (r: Result<ImportSource, String>)
    ensures
        match import_source_of(ext@) {
            Some(s) => r matches Ok(x) && x@ == s,
            None => r matches Err(e) && e@ == msg_unsupported_file(),
        },
{
    if same_text(ext, "md") || same_text(ext, "markdown") || same_text(ext, "txt") {
        Ok(ImportSource::PlainText)
    } else if same_text(ext, "pdf") {
        Ok(ImportSource::Pdf)
    } else if same_text(ext, "docx") {
        Ok(ImportSource::Office { entry: owned("word/document.xml") })
    } else if same_text(ext, "xlsx") {
        Ok(ImportSource::Office { entry: owned("xl/sharedStrings.xml") })
    } else {
        Err(owned("仅支持 Markdown、TXT、PDF、DOCX、XLSX"))
    }
}

/// Checks that a file's extension is one that can be imported.
pub fn check_import_extension(ext: &str) -> (r: Result<(), String>)
    ensures
        import_source_of(ext@) is Some ==> r is Ok,
        import_source_of(ext@) is None ==> (r matches Err(e) && e@ == msg_unsupported_file()),
{
    match import_source(ext) {
        Ok(_) => Ok(()),
        Err(e) => Err(e),
    }
}

/// A bare file name, read the same way on every platform: not empty, not
/// `.` or `..`, and without `/`, `\` or `:`.
pub open spec fn is_plain_file_name(p: Seq<char>) -> bool {
    &&& p.len() > 0
    &&& p != "."@
    &&& p != ".."@
    &&& forall|i: int| 0 <= i < p.len() ==> #[trigger] p[i] != '/' && p[i] != '\\' && p[i] != ':'
}

/// The position of the last `c` in `s`.
pub open spec fn last_index_of_char(s: Seq<char>, c: char) -> Option<int>
    decreases s.len(),
{
    if s.len() == 0 {
        None
    } else if s.last() == c {
        Some(s.len() - 1)
    } else {
        last_index_of_char(s.drop_last(), c)
    }
}

/// The extension of a file name: the text after its last `.`, none when
/// it has no `.` or only a leading one.
pub open spec fn name_extension(name: Seq<char>) -> Option<Seq<char>> {
    match last_index_of_char(name, '.') {
        Some(i) => if i > 0 {
            Some(name.skip(i + 1))
        } else {
            None
        },
        None => None,
    }
}

/// The stem of a file name: the text before the `.` of its extension, the
/// whole name when it has no extension.
pub open spec fn name_stem(name: Seq<char>) -> Seq<char> {
    match last_index_of_char(name, '.') {
        Some(i) => if i > 0 {
            name.take(i)
        } else {
            name
        },
        None => name,
    }
}

/// The texts of an optional string.
pub open spec fn opt_view(o: Option<String>) -> Option<Seq<char>> {
    match o {
        Some(s) => Some(s@),
        None => None,
    }
}

/// A path separator: `/` on every platform, `\` on Windows as well.
pub open spec fn is_path_separator(c: char) -> bool {
    c == '/' || c == '\\'
}

/// The position of the last separator in a path.
pub open spec fn last_separator(p: Seq<char>) -> Option<int>
    decreases p.len(),
{
    if p.len() == 0 {
        None
    } else if is_path_separator(p.last()) {
        Some(p.len() - 1)
    } else {
        last_separator(p.drop_last())
    }
}

/// The last component of a path as text: what follows its last separator,
/// the whole path when it has none.
pub open spec fn path_tail(p: Seq<char>) -> Seq<char> {
    match last_separator(p) {
        Some(i) => p.skip(i + 1),
        None => p,
    }
}

/// A path that starts with two separators, which Windows reads as the
/// prefix of a network share or a device.
pub open spec fn starts_with_two_separators(p: Seq<char>) -> bool {
    p.len() >= 2 && is_path_separator(p[0]) && is_path_separator(p[1])
}

/// A path that every platform splits alike: `/` is its only separator, it
/// does not start with two of them, and it ends in a plain file name.
pub open spec fn is_portable_path(p: Seq<char>) -> bool {
    &&& !starts_with_two_separators(p)
    &&& forall|i: int| 0 <= i < p.len() ==> #[trigger] p[i] != '\\'
    &&& is_plain_file_name(path_tail(p))
}

/// A path, `\` separators allowed, whose last component is a plain file
/// name with an extension: Windows reads that component as the file name,
/// and where `\` is no separator the longer file name ends with it, so the
/// extension is the same on every platform.
pub open spec fn has_portable_extension(p: Seq<char>) -> bool {
    &&& !starts_with_two_separators(p)
    &&& is_plain_file_name(path_tail(p))
    &&& name_extension(path_tail(p)) is Some
}

/// The extension of a path, empty when it has none.
pub open spec fn extension_or_empty(p: Seq<char>) -> Seq<char> {
    match name_extension(path_tail(p)) {
        Some(e) => e,
        None => Seq::empty(),
    }
}

/// `Path::extension` of a path given as text. Where every platform splits
/// the path alike (`is_portable_path`), or its last component has an
/// extension (`has_portable_extension`), it is the extension of the last
/// component: the text after its last `.`, none without a `.` or with only
/// a leading one, as std documents it. Of other paths (a trailing
/// separator, a Windows share or drive-relative prefix, `\` read as a
/// separator or not) the result follows the platform and is left unsaid.
#[verifier::external_body]
fn path_extension(path: &str) -> (r: Option<String>)
    ensures
        is_portable_path(path@) || has_portable_extension(path@) ==> opt_view(r)
            == name_extension(path_tail(path@)),
{
    std::path::Path::new(path).extension().and_then(|e| e.to_str()).map(|e| e.to_string())
}

/// `Path::file_stem` of a path given as text. Where every platform splits
/// the path alike (`is_portable_path`), it is the last component without
/// its extension (the whole component when it has none). Of other paths
/// the result follows the platform and is left unsaid.
#[verifier::external_body]
fn path_file_stem(path: &str) -> (r: Option<String>)
    ensures
        is_portable_path(path@) ==> opt_view(r) == Some(name_stem(path_tail(path@))),
{
    std::path::Path::new(path).file_stem().and_then(|e| e.to_str()).map(|e| e.to_string())
}

/// `Path::file_name` of a path given as text. Where every platform splits
/// the path alike (`is_portable_path`), it is the path's last component.
/// Of other paths the result follows the platform and is left unsaid.
#[verifier::external_body]
fn path_file_name(path: &str) -> (r: Option<String>)
    ensures
        is_portable_path(path@) ==> opt_view(r) == Some(path_tail(path@)),
{
    std::path::Path::new(path).file_name().and_then(|e| e.to_str()).map(|e| e.to_string())
}

/// The file name of a path: its last component.
pub fn file_name_of(path: &str) -> (r: Option<String>)
    ensures
        is_portable_path(path@) ==> opt_view(r) == Some(path_tail(path@)),
{
    path_file_name(path)
}

/// The lower-case extension of a file path, empty when it has none.
pub fn import_extension(path: &str) -> (r: String)
    ensures
        exists|e: Seq<char>| r@ == #[trigger] lowercase_text(e),
        is_portable_path(path@) || has_portable_extension(path@) ==> r@ == lowercase_text(
            extension_or_empty(path@),
        ),
{
    let ext = match path_extension(path) {
        Some(e) => e,
        None => String::new(),
    };
    to_lowercase(ext.as_str())
}

// ---------------------------------------------------------------------------
// Reading the text
// ---------------------------------------------------------------------------

/// Message for a PDF that `pdftotext` could not convert.
pub open spec fn msg_pdf_failed() -> Seq<char> {
    "PDF 文本提取失败"@
}

/// The text of a PDF from what `pdftotext` reported: refused when the tool
/// failed, else its output when that is UTF-8 (an error otherwise).
pub fn pdf_text(succeeded: bool, stdout: Vec<u8>) -> (r: Result<String, String>)
    ensures
        !succeeded ==> (r matches Err(e) && e@ == msg_pdf_failed()),
        succeeded ==> (r is Ok <==> vstd::utf8::valid_utf8(stdout@)),
        succeeded ==> (r matches Ok(s) ==> s@ == vstd::utf8::decode_utf8(stdout@)),
{
    if !succeeded {
        return Err(owned("PDF 文本提取失败"));
    }
    utf8_text(stdout)
}

/// The text kept of one `>`-separated piece of the prepared XML: what
/// follows ` <w:t` or ` <t` at its start; other pieces are dropped.
pub open spec fn tag_tail(piece: Seq<char>) -> Option<Seq<char>> {
    if text_starts_with(piece, " <w:t"@) {
        Some(piece.skip(" <w:t"@.len() as int))
    } else if text_starts_with(piece, " <t"@) {
        Some(piece.skip(" <t"@.len() as int))
    } else {
        None
    }
}

/// The kept texts of the pieces, in order.
pub open spec fn kept_tails(pieces: Seq<Seq<char>>) -> Seq<Seq<char>>
    decreases pieces.len(),
{
    if pieces.len() == 0 {
        seq![]
    } else {
        let rest = kept_tails(pieces.drop_last());
        match tag_tail(pieces.last()) {
            Some(t) => rest.push(t),
            None => rest,
        }
    }
}

/// The XML after paragraph ends became line breaks, text-run ends became
/// spaces and a space was put before every `<`.
pub open spec fn prepared_xml(xml: Seq<char>) -> Seq<char> {
    replace_all(replace_all(replace_all(xml, "</w:p>"@, "\n"@), "</t>"@, " "@), "<"@, " <"@)
}

/// The text pulled out of Office XML: the prepared XML split at every
/// `>`, the kept tails of the pieces joined with spaces.
pub open spec fn office_text_of(xml: Seq<char>) -> Seq<char> {
    join_texts(kept_tails(split_on(prepared_xml(xml), '>')), " "@)
}

/// Pulls the text out of the XML of a Word document or Excel string table.
pub fn office_text(xml: &str) -> (r: String)
    ensures
        r@ == office_text_of(xml@),
{
    proof {
        reveal_strlit("</w:p>");
        reveal_strlit("</t>");
        reveal_strlit("<");
    }
    let v = chars_of(xml);
    let a = replace_chars(&v, &chars_of("</w:p>"), &chars_of("\n"));
    let b = replace_chars(&a, &chars_of("</t>"), &chars_of(" "));
    let c = replace_chars(&b, &chars_of("<"), &chars_of(" <"));
    let pieces = split_chars(&c, '>');
    let wt = chars_of(" <w:t");
    let t = chars_of(" <t");
    let mut kept: Vec<String> = Vec::new();
    let mut i: usize = 0;
    while i < pieces.len()
        invariant
            i <= pieces.len(),
            wt@ == " <w:t"@,
            t@ == " <t"@,
            texts(kept@) == kept_tails(texts(pieces@).take(i as int)),
        decreases pieces.len() - i,
    {
        let piece = chars_of(pieces[i].as_str());
        let ghost ps = texts(pieces@);
        assert(ps.take(i + 1).drop_last() == ps.take(i as int));
        assert(ps.take(i + 1).last() == piece@);
        let ghost before = kept@;
        if starts_with_exec(&piece, &wt) {
            kept.push(string_of_range(&piece, wt.len(), piece.len()));
            assert(texts(kept@) == texts(before).push(piece@.skip(wt@.len() as int)));
        } else if starts_with_exec(&piece, &t) {
            kept.push(string_of_range(&piece, t.len(), piece.len()));
            assert(texts(kept@) == texts(before).push(piece@.skip(t@.len() as int)));
        }
        i += 1;
    }
    assert(texts(pieces@).take(pieces.len() as int) == texts(pieces@));
    join(&kept, " ")
}

/// Message for a file whose text is over the size limit.
pub open spec fn msg_file_too_large() -> Seq<char> {
    "文件超过 2MB 限制"@
}

/// Checks the size of an imported text against `MAX_CONTENT_BYTES`.
pub fn check_import_size(content: &str) -> (r: Result<(), String>)
    ensures
        byte_len(content@) <= MAX_CONTENT_BYTES ==> r is Ok,
        byte_len(content@) > MAX_CONTENT_BYTES ==> (r matches Err(e) && e@ == msg_file_too_large()),
{
    if crate::card::text_byte_len(content) > MAX_CONTENT_BYTES {
        Err(owned("文件超过 2MB 限制"))
    } else {
        Ok(())
    }
}

// ---------------------------------------------------------------------------
// The imported card
// ---------------------------------------------------------------------------

/// The card an import creates from a file with stem `stem`, lower-case
/// extension `ext` and text `content`, on behalf of `actor` (the desktop
/// user when none is given).
pub open spec fn import_card_of(
    stem: Option<Seq<char>>,
    ext: Seq<char>,
    content: Seq<char>,
    actor: Seq<char>,
) -> CardText {
    CardText {
        title: match stem {
            Some(s) => s,
            None => "导入文档"@,
        },
        summary: "从本地文件导入"@,
        card_type: "知识"@,
        tags: seq![ext],
        source: "本地文件导入"@,
        visibility: "本机助手可读"@,
        status: "待验证"@,
        content: content,
        actor: if actor.len() == 0 {
            "desktop-user"@
        } else {
            actor
        },
    }
}

/// The card for an imported file whose stem is given.
pub fn import_card(stem: Option<String>, ext: &str, content: String, actor: &str) -> (r: NewCard)
    ensures
        r@ == import_card_of(
            match stem {
                Some(s) => Some(s@),
                None => None,
            },
            ext@,
            content@,
            actor@,
        ),
{
    let title = match stem {
        Some(s) => s,
        None => owned("导入文档"),
    };
    let mut tags: Vec<String> = Vec::new();
    tags.push(owned(ext));
    assert(texts(tags@) == seq![ext@]);
    let actor_text = if actor.is_empty() {
        owned("desktop-user")
    } else {
        owned(actor)
    };
    NewCard {
        title,
        summary: owned("从本地文件导入"),
        card_type: owned("知识"),
        tags,
        source: owned("本地文件导入"),
        visibility: default_visibility(),
        status: owned("待验证"),
        content,
        actor: actor_text,
    }
}

/// The card for an imported file at `path`; its title is the file stem
/// as the platform reads it: the last component of the path without its
/// extension.
pub fn import_card_for_path(path: &str, ext: &str, content: String, actor: &str) -> (r: NewCard)
    ensures
        exists|stem: Option<Seq<char>>| r@ == #[trigger] import_card_of(stem, ext@, content@, actor@),
        is_portable_path(path@) ==> r@ == import_card_of(
            Some(name_stem(path_tail(path@))),
            ext@,
            content@,
            actor@,
        ),
{
    let stem = path_file_stem(path);
    import_card(stem, ext, content, actor)
}

/// The name a copy of an imported file gets: `<now>-<file name>`, with
/// `import` for a path without file name.
pub open spec fn copy_name_of(now: nat, file_name: Option<Seq<char>>) -> Seq<char> {
    decimal(now) + "-"@ + match file_name {
        Some(f) => f,
        None => "import"@,
    }
}

/// The name of the copy kept of an imported file.
pub fn import_copy_name(now: u64, file_name: Option<String>) -> (r: String)
    ensures
        r@ == copy_name_of(
            now as nat,
            match file_name {
                Some(f) => Some(f@),
                None => None,
            },
        ),
{
    let mut r = String::new();
    push_decimal(&mut r, now);
    push_text(&mut r, "-");
    match file_name {
        Some(f) => push_text(&mut r, f.as_str()),
        None => push_text(&mut r, "import"),
    }
    r
}

/// The name of the copy kept of the imported file at `path`.
pub fn import_copy_name_for_path(now: u64, path: &str) -> (r: String)
    ensures
        exists|f: Option<Seq<char>>| r@ == #[trigger] copy_name_of(now as nat, f),
        is_portable_path(path@) ==> r@ == copy_name_of(now as nat, Some(path_tail(path@))),
{
    let name = path_file_name(path);
    let r = import_copy_name(now, name);
    r
}

/// The identifier of a card imported at `now`: `import-<now>`.
pub fn import_card_id(now: u64) -> (r: String)
    ensures
        r@ == "import-"@ + decimal(now as nat),
{
    let mut r = owned("import-");
    push_decimal(&mut r, now);
    r
}

} // verus!
