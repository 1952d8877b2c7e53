//! The local HTTP API: which endpoint a request reaches, with the card and
//! version it names, and the status each endpoint answers with.
use vstd::prelude::*;
use crate::text::{
    eq_ignore_ascii_case, parse_usize, parsed_usize, push_text, same_text_ignoring_ascii_case,
    utf8_text, chars_of, contains_exec, ends_with_exec, find_from, first_occurrence_from, owned,
    parse_i64, parsed_i64, starts_with_exec, string_of_range, text_contains, text_ends_with,
    text_starts_with,
};

verus! {

/// The request methods the API tells apart.
#[derive(PartialEq, Eq, Structural, Clone, Copy, Debug)]
pub enum Method {
    Get,
    Post,
    Patch,
    Delete,
    Options,
    Other,
}

/// The endpoint a request reaches, with what its path names.
#[derive(Debug)]
pub enum Route {
    Preflight,
    Health,
    Search,
    Context,
    Audit,
    ListCards,
    ListRelations { card_id: String },
    AddRelation { card_id: String },
    ListVersions { card_id: String },
    RestoreVersion { card_id: String, version_id: i64 },
    GetCard { card_id: String },
    Backup,
    CreateCard,
    Import,
    UpdateCard { card_id: String },
    DeleteRefused,
    NotFound,
}

/// A route with the texts it holds.
pub enum RouteView {
    Preflight,
    Health,
    Search,
    Context,
    Audit,
    ListCards,
    ListRelations { card_id: Seq<char> },
    AddRelation { card_id: Seq<char> },
    ListVersions { card_id: Seq<char> },
    RestoreVersion { card_id: Seq<char>, version_id: i64 },
    GetCard { card_id: Seq<char> },
    Backup,
    CreateCard,
    Import,
    UpdateCard { card_id: Seq<char> },
    DeleteRefused,
    NotFound,
}

impl View for Route {
    type V = RouteView;

    open spec fn view(&self) -> RouteView {
        match self {
            Route::Preflight => RouteView::Preflight,
            Route::Health => RouteView::Health,
            Route::Search => RouteView::Search,
            Route::Context => RouteView::Context,
            Route::Audit => RouteView::Audit,
            Route::ListCards => RouteView::ListCards,
            Route::ListRelations { card_id } => RouteView::ListRelations { card_id: card_id@ },
            Route::AddRelation { card_id } => RouteView::AddRelation { card_id: card_id@ },
            Route::ListVersions { card_id } => RouteView::ListVersions { card_id: card_id@ },
            Route::RestoreVersion { card_id, version_id } => RouteView::RestoreVersion {
                card_id: card_id@,
                version_id: *version_id,
            },
            Route::GetCard { card_id } => RouteView::GetCard { card_id: card_id@ },
            Route::Backup => RouteView::Backup,
            Route::CreateCard => RouteView::CreateCard,
            Route::Import => RouteView::Import,
            Route::UpdateCard { card_id } => RouteView::UpdateCard { card_id: card_id@ },
            Route::DeleteRefused => RouteView::DeleteRefused,
            Route::NotFound => RouteView::NotFound,
        }
    }
}

/// The prefix of every path that names a card.
pub open spec fn cards_prefix() -> Seq<char> {
    "/api/cards/"@
}

/// Whether a path names something under a card.
pub open spec fn under_cards(p: Seq<char>) -> bool {
    text_starts_with(p, cards_prefix())
}

/// A path that ends in `/relations` below a card.
pub open spec fn is_relations_path(p: Seq<char>) -> bool {
    under_cards(p) && text_ends_with(p, "/relations"@)
}

/// A path that ends in `/versions` below a card.
pub open spec fn is_versions_path(p: Seq<char>) -> bool {
    under_cards(p) && text_ends_with(p, "/versions"@)
}

/// A path that restores a card version.
pub open spec fn is_restore_path(p: Seq<char>) -> bool {
    under_cards(p) && text_contains(p, "/versions/"@) && text_ends_with(p, "/restore"@)
}

/// The text between the card prefix and a suffix of `n` characters.
pub open spec fn between_prefix_and(p: Seq<char>, n: nat) -> Seq<char> {
    p.subrange(cards_prefix().len() as int, p.len() - n)
}

/// The card and version a restore path names: the text before the first
/// `/versions/` and the number between it and the next one (or the end);
/// a missing or unreadable number counts as 0.
pub open spec fn restore_target(p: Seq<char>) -> (Seq<char>, i64) {
    let middle = between_prefix_and(p, "/restore"@.len());
    let sep = "/versions/"@;
    match first_occurrence_from(middle, sep, 0) {
        None => (middle, 0),
        Some(i) => {
            let after = i + sep.len();
            let end = match first_occurrence_from(middle, sep, after) {
                Some(j) => j,
                None => middle.len() as int,
            };
            (
                middle.subrange(0, i),
                match parsed_i64(middle.subrange(after, end)) {
                    Some(v) => v,
                    None => 0,
                },
            )
        },
    }
}

/// The inputs on which dispatching a request slices a path out of bounds:
/// a card relations or versions path too short to hold a card id.
pub open spec fn route_panics(m: Method, p: Seq<char>) -> bool {
    ||| (m == Method::Get || m == Method::Post) && is_relations_path(p) && p.len()
        < cards_prefix().len() + "/relations"@.len()
    ||| m == Method::Get && !is_relations_path(p) && is_versions_path(p) && p.len()
        < cards_prefix().len() + "/versions"@.len()
}

/// The endpoint that a request with method `m` and path `p` reaches; the
/// rules are tried in order.
pub open spec fn route_of(m: Method, p: Seq<char>) -> RouteView {
    if m == Method::Options {
        RouteView::Preflight
    } else if m == Method::Get && p == "/api/health"@ {
        RouteView::Health
    } else if m == Method::Get && p == "/api/search"@ {
        RouteView::Search
    } else if m == Method::Get && p == "/api/context"@ {
        RouteView::Context
    } else if m == Method::Get && p == "/api/audit"@ {
        RouteView::Audit
    } else if m == Method::Get && p == "/api/cards"@ {
        RouteView::ListCards
    } else if m == Method::Get && is_relations_path(p) {
        RouteView::ListRelations { card_id: between_prefix_and(p, "/relations"@.len()) }
    } else if m == Method::Post && is_relations_path(p) {
        RouteView::AddRelation { card_id: between_prefix_and(p, "/relations"@.len()) }
    } else if m == Method::Get && is_versions_path(p) {
        RouteView::ListVersions { card_id: between_prefix_and(p, "/versions"@.len()) }
    } else if m == Method::Post && is_restore_path(p) {
        RouteView::RestoreVersion {
            card_id: restore_target(p).0,
            version_id: restore_target(p).1,
        }
    } else if m == Method::Get && under_cards(p) {
        RouteView::GetCard { card_id: p.skip(cards_prefix().len() as int) }
    } else if m == Method::Post && p == "/api/backup"@ {
        RouteView::Backup
    } else if m == Method::Post && p == "/api/cards"@ {
        RouteView::CreateCard
    } else if m == Method::Post && p == "/api/import"@ {
        RouteView::Import
    } else if m == Method::Patch && under_cards(p) {
        RouteView::UpdateCard { card_id: p.skip(cards_prefix().len() as int) }
    } else if m == Method::Delete && under_cards(p) {
        RouteView::DeleteRefused
    } else {
        RouteView::NotFound
    }
}

struct PathShape {
    chars: Vec<char>,
    under_cards: bool,
    relations: bool,
    versions: bool,
    restore: bool,
}

fn path_shape(path: &str) -> (r: PathShape)
    ensures
        r.chars@ == path@,
        r.under_cards == under_cards(path@),
        r.relations == is_relations_path(path@),
        r.versions == is_versions_path(path@),
        r.restore == is_restore_path(path@),
{
    let chars = chars_of(path);
    let under = starts_with_exec(&chars, &chars_of("/api/cards/"));
    let rel = under && ends_with_exec(&chars, &chars_of("/relations"));
    let ver = under && ends_with_exec(&chars, &chars_of("/versions"));
    let restore = under && contains_exec(&chars, &chars_of("/versions/")) && ends_with_exec(
        &chars,
        &chars_of("/restore"),
    );
    PathShape { chars, under_cards: under, relations: rel, versions: ver, restore }
}

/// Whether dispatching this request would slice its path out of bounds
/// (see `route_panics`).
pub fn route_would_panic(method: Method, path: &str) -> (r: bool)
    ensures
        r == route_panics(method, path@),
{
    let shape = path_shape(path);
    let prefix_len = chars_of("/api/cards/").len();
    let rel_len = chars_of("/relations").len();
    let ver_len = chars_of("/versions").len();
    ((method == Method::Get || method == Method::Post) && shape.relations && shape.chars.len()
        - prefix_len < rel_len) || (method == Method::Get && !shape.relations && shape.versions
        && shape.chars.len() - prefix_len < ver_len)
}

fn restore_target_of(chars: &Vec<char>) -> (r: (String, i64))
    requires
        is_restore_path(chars@),
        chars@.len() >= cards_prefix().len() + "/restore"@.len(),
    ensures
        r.0@ == restore_target(chars@).0,
        r.1 == restore_target(chars@).1,
{
    let prefix_len = chars_of("/api/cards/").len();
    let suffix_len = chars_of("/restore").len();
    let middle_text = string_of_range(chars, prefix_len, chars.len() - suffix_len);
    let middle = chars_of(middle_text.as_str());
    let sep = chars_of("/versions/");
    match find_from(&middle, &sep, 0) {
        None => (middle_text, 0),
        Some(i) => {
            proof {
                crate::text::lemma_first_occurrence_some(middle@, sep@, 0);
            }
            let after = i + sep.len();
            let end = match find_from(&middle, &sep, after) {
                Some(j) => j,
                None => middle.len(),
            };
            proof {
                crate::text::lemma_first_occurrence_some(middle@, sep@, 0);
                if let Some(j) = first_occurrence_from(middle@, sep@, after as int) {
                    crate::text::lemma_first_occurrence_some(middle@, sep@, after as int);
                }
            }
            let id = string_of_range(&middle, 0, i);
            let number = string_of_range(&middle, after, end);
            let version = match parse_i64(number.as_str()) {
                Some(v) => v,
                None => 0,
            };
            (id, version)
        },
    }
}

/// The endpoint a request reaches.
pub fn route(method: Method, path: &str) -> (r: Route)
    requires
        !route_panics(method, path@),
    ensures
        r@ == route_of(method, path@),
{
    let shape = path_shape(path);
    let prefix_len = chars_of("/api/cards/").len();
    let n = shape.chars.len();
    if method == Method::Options {
        Route::Preflight
    } else if method == Method::Get && crate::text::same_text(path, "/api/health") {
        Route::Health
    } else if method == Method::Get && crate::text::same_text(path, "/api/search") {
        Route::Search
    } else if method == Method::Get && crate::text::same_text(path, "/api/context") {
        Route::Context
    } else if method == Method::Get && crate::text::same_text(path, "/api/audit") {
        Route::Audit
    } else if method == Method::Get && crate::text::same_text(path, "/api/cards") {
        Route::ListCards
    } else if method == Method::Get && shape.relations {
        let rel_len = chars_of("/relations").len();
        Route::ListRelations { card_id: string_of_range(&shape.chars, prefix_len, n - rel_len) }
    } else if method == Method::Post && shape.relations {
        let rel_len = chars_of("/relations").len();
        Route::AddRelation { card_id: string_of_range(&shape.chars, prefix_len, n - rel_len) }
    } else if method == Method::Get && shape.versions {
        let ver_len = chars_of("/versions").len();
        Route::ListVersions { card_id: string_of_range(&shape.chars, prefix_len, n - ver_len) }
    } else if method == Method::Post && shape.restore {
        proof {
            lemma_restore_path_long(path@);
        }
        let (card_id, version_id) = restore_target_of(&shape.chars);
        Route::RestoreVersion { card_id, version_id }
    } else if method == Method::Get && shape.under_cards {
        Route::GetCard { card_id: string_of_range(&shape.chars, prefix_len, n) }
    } else if method == Method::Post && crate::text::same_text(path, "/api/backup") {
        Route::Backup
    } else if method == Method::Post && crate::text::same_text(path, "/api/cards") {
        Route::CreateCard
    } else if method == Method::Post && crate::text::same_text(path, "/api/import") {
        Route::Import
    } else if method == Method::Patch && shape.under_cards {
        Route::UpdateCard { card_id: string_of_range(&shape.chars, prefix_len, n) }
    } else if method == Method::Delete && shape.under_cards {
        Route::DeleteRefused
    } else {
        Route::NotFound
    }
}

/// A restore path is long enough to hold the card prefix, `/versions/` and
/// `/restore`, so cutting the prefix and the suffix never fails.
proof fn lemma_restore_path_long(p: Seq<char>)
    requires
        is_restore_path(p),
    ensures
        p.len() >= cards_prefix().len() + "/restore"@.len(),
{
    reveal_strlit("/api/cards/");
    reveal_strlit("/versions/");
    reveal_strlit("/restore");
    let pre = "/api/cards/"@;
    let sep = "/versions/"@;
    let i = choose|i: int| crate::text::occurs_at(p, sep, i);
    let n = p.len();
    if n < 19 {
        assert forall|k: int| 0 <= k < 11 implies p[k] == pre[k] by {
            assert(p.subrange(0, 11)[k] == p[k]);
        }
        assert(p[i] == '/') by {
            assert(p.subrange(i, i + 10)[0] == p[i]);
        }
        assert(p[i + 1] == 'v') by {
            assert(p.subrange(i, i + 10)[1] == p[i + 1]);
        }
        assert(0 <= i <= 8);
        assert(false);
    }
}

/// The status an endpoint answers with when it succeeds: 204 for a
/// preflight, 201 for what creates something, 200 otherwise; the refused
/// delete and the unknown path never succeed and answer 405 and 404.
pub open spec fn success_status_of(r: RouteView) -> u16 {
    match r {
        RouteView::Preflight => 204,
        RouteView::AddRelation { .. } => 201,
        RouteView::Backup => 201,
        RouteView::CreateCard => 201,
        RouteView::Import => 201,
        RouteView::DeleteRefused => 405,
        RouteView::NotFound => 404,
        _ => 200,
    }
}

/// The status an endpoint answers with when it fails: 500 for listings and
/// backups, 404 for what reads one card, 400 for the rest.
pub open spec fn failure_status_of(r: RouteView) -> u16 {
    match r {
        RouteView::Audit => 500,
        RouteView::ListCards => 500,
        RouteView::Backup => 500,
        RouteView::ListRelations { .. } => 404,
        RouteView::ListVersions { .. } => 404,
        RouteView::GetCard { .. } => 404,
        RouteView::DeleteRefused => 405,
        RouteView::NotFound => 404,
        RouteView::Preflight => 204,
        RouteView::Health => 200,
        _ => 400,
    }
}

/// The status of a successful request to `route`.
pub fn success_status(route: &Route) -> (s: u16)
    ensures
        s == success_status_of(route@),
{
    match route {
        Route::Preflight => 204,
        Route::AddRelation { .. } => 201,
        Route::Backup => 201,
        Route::CreateCard => 201,
        Route::Import => 201,
        Route::DeleteRefused => 405,
        Route::NotFound => 404,
        _ => 200,
    }
}

/// The status of a failed request to `route`.
pub fn failure_status(route: &Route) -> (s: u16)
    ensures
        s == failure_status_of(route@),
{
    match route {
        Route::Audit => 500,
        Route::ListCards => 500,
        Route::Backup => 500,
        Route::ListRelations { .. } => 404,
        Route::ListVersions { .. } => 404,
        Route::GetCard { .. } => 404,
        Route::DeleteRefused => 405,
        Route::NotFound => 404,
        Route::Preflight => 204,
        Route::Health => 200,
        _ => 400,
    }
}

/// The error text an endpoint sends in place of the one it met: reading a
/// card reports a missing card, the refused delete and the unknown path
/// have fixed texts. None where the error met is sent as it is.
pub open spec fn fixed_error_of(r: RouteView) -> Option<Seq<char>> {
    match r {
        RouteView::GetCard { .. } => Some("卡片不存在"@),
        RouteView::DeleteRefused => Some("删除已有卡片不被支持"@),
        RouteView::NotFound => Some("not found"@),
        _ => None,
    }
}

/// The fixed error text of `route`, if it has one.
pub fn fixed_error(route: &Route) -> (r: Option<String>)
    ensures
        r matches Some(t) ==> fixed_error_of(route@) == Some(t@),
        r is None ==> fixed_error_of(route@) is None,
{
    match route {
        Route::GetCard { .. } => Some(owned("卡片不存在")),
        Route::DeleteRefused => Some(owned("删除已有卡片不被支持")),
        Route::NotFound => Some(owned("not found")),
        _ => None,
    }
}

/// A delete below a card is always refused with 405, whatever the path
/// names.
pub proof fn lemma_delete_always_refused(p: Seq<char>)
    requires
        under_cards(p),
    ensures
        route_of(Method::Delete, p) == RouteView::DeleteRefused,
        success_status_of(route_of(Method::Delete, p)) == 405,
        failure_status_of(route_of(Method::Delete, p)) == 405,
{
}

/// The length a request declares: the value of its first `Content-Length`
/// header (the name compared ignoring ASCII case) when that reads as a
/// `usize`. None means the body is read to its end.
pub open spec fn declared_length(headers: Seq<(Seq<char>, Seq<char>)>) -> Option<usize>
    decreases headers.len(),
{
    if headers.len() == 0 {
        None
    } else if eq_ignore_ascii_case("Content-Length"@, headers[0].0) {
        parsed_usize(headers[0].1)
    } else {
        declared_length(headers.drop_first())
    }
}

/// The length a request declares in its headers (name, value).
pub fn content_length(headers: &Vec<(String, String)>) -> (r: Option<usize>)
    ensures
        r == declared_length(crate::query::pair_texts(headers@)),
{
    let ghost hs = crate::query::pair_texts(headers@);
    let mut i: usize = 0;
    assert(hs.skip(0) == hs);
    while i < headers.len()
        invariant
            i <= headers.len(),
            hs == crate::query::pair_texts(headers@),
            declared_length(hs) == declared_length(hs.skip(i as int)),
        decreases headers.len() - i,
    {
        assert(hs.skip(i as int)[0] == hs[i as int]);
        assert(hs.skip(i as int).drop_first() == hs.skip(i + 1));
        if same_text_ignoring_ascii_case("Content-Length", headers[i].0.as_str()) {
            return parse_usize(headers[i].1.as_str());
        }
        i += 1;
    }
    None
}

/// The request body as text: valid UTF-8 reads as the text it encodes,
/// anything else is refused with a message that starts with
/// `请求体不是有效 UTF-8: `.
pub fn request_body_text(bytes: Vec<u8>) -> (r: Result<String, String>)
    ensures
        r is Ok <==> vstd::utf8::valid_utf8(bytes@),
        r matches Ok(s) ==> s@ == vstd::utf8::decode_utf8(bytes@),
        r matches Err(e) ==> "请求体不是有效 UTF-8: "@.is_prefix_of(e@),
{
    match utf8_text(bytes) {
        Ok(s) => Ok(s),
        Err(detail) => {
            let mut e = owned("请求体不是有效 UTF-8: ");
            push_text(&mut e, detail.as_str());
            assert(("请求体不是有效 UTF-8: "@ + detail@).subrange(0, "请求体不是有效 UTF-8: "@.len() as int) == "请求体不是有效 UTF-8: "@);
            Err(e)
        },
    }
}

} // verus!
