use personal_ai_workbench::query::{
    audit_limit, context_limit, parse_query, percent_decode, search_query, QueryParams,
};
use personal_ai_workbench::routes::{
    content_length, failure_status, fixed_error, request_body_text, route, route_would_panic,
    success_status, Method, Route,
};

#[test]
fn percent_decode_hex_and_plus() {
    assert_eq!(percent_decode("a%20b+c"), "a b c");
    assert_eq!(percent_decode("%E7%9F%A5%E8%AF%86"), "知识");
    assert_eq!(percent_decode("%e7%9f%a5"), "知");
}

#[test]
fn percent_decode_undoes_encoding() {
    let text = "知识 a+b/%";
    let mut encoded = String::new();
    for (i, byte) in text.bytes().enumerate() {
        if i % 2 == 0 {
            encoded.push_str(&format!("%{:02x}", byte));
        } else {
            encoded.push_str(&format!("%{:02X}", byte));
        }
    }
    assert_eq!(percent_decode(&encoded), text);
    assert_eq!(percent_decode("%e7%9F%A5"), "知");
}

#[test]
fn percent_decode_keeps_broken_escapes() {
    assert_eq!(percent_decode("100%"), "100%");
    assert_eq!(percent_decode("%4"), "%4");
    assert_eq!(percent_decode("%zz"), "%zz");
    assert_eq!(percent_decode("%41"), "A");
}

#[test]
fn percent_decode_plain_text_unchanged() {
    assert_eq!(percent_decode("工作台-notes_1"), "工作台-notes_1");
}

#[test]
fn percent_decode_repairs_invalid_utf8() {
    assert_eq!(percent_decode("%FF"), "\u{FFFD}");
}

#[test]
fn parse_query_path_and_params() {
    let (path, params) = parse_query("/api/cards?query=%E7%9F%A5&type=AI+%E4%BA%A7%E5%87%BA&flag&=x");
    assert_eq!(path, "/api/cards");
    assert_eq!(params.get("query").as_deref(), Some("知"));
    assert_eq!(params.get("type").as_deref(), Some("AI 产出"));
    assert_eq!(params.get("flag"), None);
    assert_eq!(params.get("").as_deref(), Some("x"));
}

#[test]
fn parse_query_later_value_wins() {
    let (path, params) = parse_query("/x?a=1&a=2&b=c=d");
    assert_eq!(path, "/x");
    assert_eq!(params.get("a").as_deref(), Some("2"));
    assert_eq!(params.get("b").as_deref(), Some("c=d"));
}

#[test]
fn parse_query_without_query() {
    let (path, params) = parse_query("/api/health");
    assert_eq!(path, "/api/health");
    assert_eq!(params.get("a"), None);
    let (path, _) = parse_query("/p?");
    assert_eq!(path, "/p");
}

#[test]
fn search_keywords() {
    let (_, p) = parse_query("/s?q=%20&query=x");
    assert_eq!(search_query(&p).unwrap_err(), "缺少搜索关键词 q");
    let (_, p) = parse_query("/s?query=rust");
    assert_eq!(search_query(&p).unwrap(), "rust");
    let (_, p) = parse_query("/s?q=a&query=b");
    assert_eq!(search_query(&p).unwrap(), "a");
    let p = QueryParams::new();
    assert!(search_query(&p).is_err());
}

#[test]
fn limits() {
    let (_, p) = parse_query("/a?limit=500");
    assert_eq!(audit_limit(&p), 200);
    assert_eq!(context_limit(&p), 20);
    let (_, p) = parse_query("/a?limit=7");
    assert_eq!(audit_limit(&p), 7);
    assert_eq!(context_limit(&p), 7);
    let (_, p) = parse_query("/a?limit=-3");
    assert_eq!(audit_limit(&p), 50);
    assert_eq!(context_limit(&p), 5);
    let (_, p) = parse_query("/a?limit=%2B12");
    assert_eq!(audit_limit(&p), 12);
}

fn id_of(r: &Route) -> String {
    match r {
        Route::ListRelations { card_id }
        | Route::AddRelation { card_id }
        | Route::ListVersions { card_id }
        | Route::GetCard { card_id }
        | Route::UpdateCard { card_id } => card_id.clone(),
        Route::RestoreVersion { card_id, .. } => card_id.clone(),
        _ => String::new(),
    }
}

#[test]
fn routes_fixed_paths() {
    assert!(matches!(route(Method::Options, "/anything"), Route::Preflight));
    assert!(matches!(route(Method::Get, "/api/health"), Route::Health));
    assert!(matches!(route(Method::Get, "/api/search"), Route::Search));
    assert!(matches!(route(Method::Get, "/api/context"), Route::Context));
    assert!(matches!(route(Method::Get, "/api/audit"), Route::Audit));
    assert!(matches!(route(Method::Get, "/api/cards"), Route::ListCards));
    assert!(matches!(route(Method::Post, "/api/backup"), Route::Backup));
    assert!(matches!(route(Method::Post, "/api/cards"), Route::CreateCard));
    assert!(matches!(route(Method::Post, "/api/import"), Route::Import));
    assert!(matches!(route(Method::Post, "/api/health"), Route::NotFound));
    assert!(matches!(route(Method::Other, "/api/cards"), Route::NotFound));
}

#[test]
fn routes_card_paths() {
    let r = route(Method::Get, "/api/cards/c1/relations");
    assert!(matches!(r, Route::ListRelations { .. }));
    assert_eq!(id_of(&r), "c1");
    let r = route(Method::Post, "/api/cards/卡片/relations");
    assert!(matches!(r, Route::AddRelation { .. }));
    assert_eq!(id_of(&r), "卡片");
    let r = route(Method::Get, "/api/cards/c1/versions");
    assert!(matches!(r, Route::ListVersions { .. }));
    assert_eq!(id_of(&r), "c1");
    let r = route(Method::Get, "/api/cards/c1");
    assert!(matches!(r, Route::GetCard { .. }));
    assert_eq!(id_of(&r), "c1");
    let r = route(Method::Patch, "/api/cards/c9");
    assert!(matches!(r, Route::UpdateCard { .. }));
    assert_eq!(id_of(&r), "c9");
    assert!(matches!(route(Method::Delete, "/api/cards/c9"), Route::DeleteRefused));
}

#[test]
fn routes_restore() {
    match route(Method::Post, "/api/cards/c1/versions/42/restore") {
        Route::RestoreVersion { card_id, version_id } => {
            assert_eq!(card_id, "c1");
            assert_eq!(version_id, 42);
        }
        other => panic!("unexpected {:?}", other),
    }
    match route(Method::Post, "/api/cards/c1/versions/x/restore") {
        Route::RestoreVersion { card_id, version_id } => {
            assert_eq!(card_id, "c1");
            assert_eq!(version_id, 0);
        }
        other => panic!("unexpected {:?}", other),
    }
    match route(Method::Post, "/api/cards/versions/restore") {
        Route::RestoreVersion { card_id, version_id } => {
            assert_eq!(card_id, "versions");
            assert_eq!(version_id, 0);
        }
        other => panic!("unexpected {:?}", other),
    }
    match route(Method::Post, "/api/cards/a/versions/7/versions/8/restore") {
        Route::RestoreVersion { card_id, version_id } => {
            assert_eq!(card_id, "a");
            assert_eq!(version_id, 7);
        }
        other => panic!("unexpected {:?}", other),
    }
}

#[test]
fn routes_that_would_slice_out_of_bounds() {
    assert!(route_would_panic(Method::Get, "/api/cards/relations"));
    assert!(route_would_panic(Method::Post, "/api/cards/relations"));
    assert!(route_would_panic(Method::Get, "/api/cards/versions"));
    assert!(!route_would_panic(Method::Post, "/api/cards/versions"));
    assert!(!route_would_panic(Method::Get, "/api/cards/x/relations"));
    assert!(!route_would_panic(Method::Patch, "/api/cards/relations"));
}

#[test]
fn statuses() {
    assert_eq!(success_status(&Route::Preflight), 204);
    assert_eq!(success_status(&Route::CreateCard), 201);
    assert_eq!(success_status(&Route::ListCards), 200);
    assert_eq!(failure_status(&Route::ListCards), 500);
    assert_eq!(failure_status(&Route::Search), 400);
    assert_eq!(failure_status(&route(Method::Get, "/api/cards/x")), 404);
    assert_eq!(failure_status(&Route::DeleteRefused), 405);
    assert_eq!(fixed_error(&Route::DeleteRefused).as_deref(), Some("删除已有卡片不被支持"));
    assert_eq!(fixed_error(&Route::NotFound).as_deref(), Some("not found"));
    assert_eq!(fixed_error(&route(Method::Get, "/api/cards/x")).as_deref(), Some("卡片不存在"));
    assert_eq!(fixed_error(&Route::Search), None);
}

#[test]
fn declared_body_length() {
    let headers = vec![("Host".to_string(), "x".to_string()), ("content-LENGTH".to_string(), "12".to_string())];
    assert_eq!(content_length(&headers), Some(12));
    let headers = vec![("Content-Length".to_string(), "abc".to_string()), ("Content-Length".to_string(), "3".to_string())];
    assert_eq!(content_length(&headers), None);
    assert_eq!(content_length(&vec![]), None);
}

#[test]
fn body_text() {
    assert_eq!(request_body_text("知识".as_bytes().to_vec()).unwrap(), "知识");
    let e = request_body_text(vec![0xff, 0x41]).unwrap_err();
    assert!(e.starts_with("请求体不是有效 UTF-8: "));
}
