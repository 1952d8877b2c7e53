use personal_ai_workbench::card::{favorite_flag, NewCard};
use personal_ai_workbench::import::{file_name_of, import_card_for_path, import_copy_name_for_path};
use personal_ai_workbench::json::tags_field_text;
use personal_ai_workbench::workspace::seconds_or_zero;
use personal_ai_workbench::digest::{content_sha256, file_object_id, sha256};
use personal_ai_workbench::import::{
    check_import_extension, check_import_size, import_card, import_card_id, import_copy_name,
    import_extension, import_source, office_text, pdf_text, ImportSource,
};
use personal_ai_workbench::json::{tags_from_json, tags_json};
use personal_ai_workbench::migrate::{file_object, migrate_card_row, unix_to_mysql, SqliteCardRow};
use personal_ai_workbench::query::parse_query;
use personal_ai_workbench::sql::{
    mysql_card_listing, mysql_search_listing, plan_context_search, sqlite_card_listing,
    sqlite_update_statement,
};
use personal_ai_workbench::text::{parse_i64, parse_usize, trim, u64_text, i64_text};
use personal_ai_workbench::update::{
    check_relation_inserted, check_relation_request, check_relation_target, checked_actor,
    plan_card_insert, plan_card_update, restore_card_outcome,
    restore_patch, soft_delete_outcome, CardPatch, StoredCard, StoredVersion,
};
use personal_ai_workbench::workspace::{
    after_bind, backup_entries, backup_file_name, backup_step, data_folders, data_location,
    data_root, local_api_address, mysql_settings, new_card_id, now_string,
    workspace_ready_message, zip_entry_name, BackupStep, BindStep,
};

const ABC_SHA256: &str = "ba7816bf8f01cfea414140de5dae2223b00361a396177a9cb410ff61f20015ad";

#[test]
fn sha256_in_hex() {
    assert_eq!(sha256(b"abc"), ABC_SHA256);
    assert_eq!(content_sha256("abc"), ABC_SHA256);
    assert_eq!(sha256(b"").len(), 64);
    assert_eq!(file_object_id("backup", b"abc"), format!("backup-{}", ABC_SHA256));
}

#[test]
fn integer_texts() {
    assert_eq!(parse_i64("-9223372036854775808"), Some(i64::MIN));
    assert_eq!(parse_i64("9223372036854775808"), None);
    assert_eq!(parse_i64("+17"), Some(17));
    assert_eq!(parse_i64("-"), None);
    assert_eq!(parse_i64(""), None);
    assert_eq!(parse_i64("1 "), None);
    assert_eq!(parse_usize("-0"), None);
    assert_eq!(parse_usize("+0"), Some(0));
    assert_eq!(u64_text(0), "0");
    assert_eq!(u64_text(1234567890), "1234567890");
    assert_eq!(i64_text(i64::MIN), "-9223372036854775808");
    assert_eq!(i64_text(-5), "-5");
}

#[test]
fn trimming() {
    assert_eq!(trim("\u{3000} 标题\t\n"), "标题");
    assert_eq!(trim("   "), "");
    assert_eq!(trim("a b"), "a b");
}

#[test]
fn timestamps_round_trip() {
    assert_eq!(unix_to_mysql("1700000000"), 1700000000);
    assert_eq!(unix_to_mysql("2024-01-01"), 0);
    assert_eq!(unix_to_mysql(&u64_text(1234)), 1234);
    let now = now_string();
    assert!(unix_to_mysql(&now) > 0);
}

#[test]
fn migrated_rows() {
    let row = SqliteCardRow {
        id: "c1".into(), title: "t".into(), summary: "s".into(), card_type: "知识".into(),
        tags: "[]".into(), source: "x".into(), source_path: None, visibility: "v".into(),
        status: "草稿".into(), favorite: 2, created_at: "10".into(), updated_at: "x".into(),
        deleted_at: Some("30".into()),
    };
    let m = migrate_card_row(row, "abc".into());
    assert!(m.favorite);
    assert_eq!(m.created, 10);
    assert_eq!(m.updated, 0);
    assert_eq!(m.deleted, Some(30));
    assert_eq!(m.content_hash, ABC_SHA256);
    let f = file_object("original", None, b"abc");
    assert_eq!(f.name, "file");
    assert_eq!(f.id, format!("original-{}", ABC_SHA256));
    assert_eq!(f.hash, ABC_SHA256);
}

#[test]
fn import_sources() {
    assert!(matches!(import_source("md").unwrap(), ImportSource::PlainText));
    assert!(matches!(import_source("markdown").unwrap(), ImportSource::PlainText));
    assert!(matches!(import_source("pdf").unwrap(), ImportSource::Pdf));
    match import_source("docx").unwrap() {
        ImportSource::Office { entry } => assert_eq!(entry, "word/document.xml"),
        _ => panic!("docx is an office file"),
    }
    match import_source("xlsx").unwrap() {
        ImportSource::Office { entry } => assert_eq!(entry, "xl/sharedStrings.xml"),
        _ => panic!("xlsx is an office file"),
    }
    assert_eq!(import_source("exe").unwrap_err(), "仅支持 Markdown、TXT、PDF、DOCX、XLSX");
    assert!(check_import_extension("txt").is_ok());
    assert!(check_import_extension("TXT").is_err());
    assert_eq!(import_extension("notes/Report.TXT"), "txt");
    assert_eq!(import_extension("README"), "");
}

#[test]
fn office_xml_text() {
    assert_eq!(office_text("<w:t xml:space=\"preserve\">Hi</w:t>"), " xml:space=\"preserve\"");
    assert_eq!(office_text("<w:p><w:t>A</w:t></w:p>"), "");
    assert_eq!(office_text("<si><t>x</t></si>"), "");
    assert_eq!(office_text("<tbl><tc>"), "bl c");
    assert_eq!(office_text("plain"), "");
}

#[test]
fn pdf_output() {
    assert_eq!(pdf_text(false, b"x".to_vec()).unwrap_err(), "PDF 文本提取失败");
    assert_eq!(pdf_text(true, "正文".as_bytes().to_vec()).unwrap(), "正文");
    assert!(pdf_text(true, vec![0xc3]).is_err());
}

#[test]
fn imported_cards() {
    assert!(check_import_size(&"x".repeat(2_000_000)).is_ok());
    assert_eq!(check_import_size(&"x".repeat(2_000_001)).unwrap_err(), "文件超过 2MB 限制");
    let c = import_card(None, "md", "body".into(), "");
    assert_eq!(c.title, "导入文档");
    assert_eq!(c.actor, "desktop-user");
    assert_eq!(c.tags, vec!["md".to_string()]);
    assert_eq!(c.status, "待验证");
    let c = import_card(Some("说明".into()), "pdf", "body".into(), "me");
    assert_eq!(c.title, "说明");
    assert_eq!(c.actor, "me");
    assert_eq!(import_card_id(5), "import-5");
    assert_eq!(import_copy_name(5, Some("a.md".into())), "5-a.md");
    assert_eq!(import_copy_name(5, None), "5-import");
}

#[test]
fn tag_json() {
    let tags = vec!["a".to_string(), "知识".to_string()];
    let text = tags_json(&tags).unwrap();
    assert_eq!(text, "[\"a\",\"知识\"]");
    assert_eq!(tags_from_json(&text), tags);
    assert_eq!(tags_from_json("not json"), Vec::<String>::new());
}

fn new_card() -> NewCard {
    NewCard {
        title: "  标题 ".into(), summary: String::new(), card_type: "知识".into(),
        tags: vec!["x".into()], source: String::new(), visibility: String::new(),
        status: String::new(), content: "abc".into(), actor: "me".into(),
    }
}

#[test]
fn insert_plan() {
    let p = plan_card_insert(&new_card(), "card-1".into()).unwrap();
    assert_eq!(p.id, "card-1");
    assert_eq!(p.title, "标题");
    assert_eq!(p.tags_json, "[\"x\"]");
    assert_eq!(p.content_hash, ABC_SHA256);
    let mut c = new_card();
    c.actor = " ".into();
    assert_eq!(plan_card_insert(&c, "id".into()).err().unwrap(), "缺少 actor，拒绝写入操作");
}

fn stored() -> StoredCard {
    StoredCard {
        title: Some("旧标题".into()), summary: None, tags_json: Some("[\"old\"]".into()),
        status: Some("草稿".into()), favorite: None, content: Some("abc".into()),
    }
}

fn empty_patch(actor: &str) -> CardPatch {
    CardPatch { title: None, summary: None, tags: None, status: None, favorite: None, content: None, actor: Some(actor.into()) }
}

#[test]
fn update_merges_patch() {
    let mut p = empty_patch(" me ");
    p.title = Some("新".into());
    p.favorite = Some(true);
    let u = plan_card_update(Some(stored()), p).ok().unwrap();
    assert_eq!(u.title, "新");
    assert_eq!(u.summary, "");
    assert_eq!(u.status, "草稿");
    assert_eq!(u.tags_json, "[\"old\"]");
    assert!(u.favorite);
    assert_eq!(u.content, "abc");
    assert_eq!(u.content_hash, ABC_SHA256);
    assert_eq!(u.actor, "me");
    assert_eq!(u.previous.title, "旧标题");
    assert_eq!(u.previous.tags_json, "[\"old\"]");
    assert_eq!(u.previous.content_hash, ABC_SHA256);
}

#[test]
fn empty_patch_keeps_card() {
    let u = plan_card_update(Some(stored()), empty_patch("me")).ok().unwrap();
    assert_eq!(u.title, u.previous.title);
    assert_eq!(u.status, u.previous.status);
    assert_eq!(u.content, u.previous.content);
    assert!(!u.favorite);
}

#[test]
fn update_refusals() {
    assert_eq!(plan_card_update(None, empty_patch("me")).err().unwrap(), "卡片不存在");
    let mut p = empty_patch("me");
    p.content = Some("x".repeat(2_000_001));
    assert_eq!(plan_card_update(Some(stored()), p).err().unwrap(), "正文超过 2MB 限制");
    assert_eq!(plan_card_update(Some(stored()), empty_patch("  ")).err().unwrap(), "缺少 actor，拒绝写入操作");
    let mut p = empty_patch("me");
    p.actor = None;
    assert_eq!(plan_card_update(Some(stored()), p).err().unwrap(), "缺少 actor，拒绝写入操作");
}

#[test]
fn restoring_a_version() {
    let v = StoredVersion {
        title: Some("v标题".into()), summary: Some("s".into()), tags_json: Some("[\"t\"]".into()),
        status: Some("已验证".into()), content: Some("old body".into()),
    };
    let p = restore_patch(v);
    assert_eq!(p.actor.as_deref(), Some("desktop-user"));
    let mut current = stored();
    current.favorite = Some(true);
    let u = plan_card_update(Some(current), p).ok().unwrap();
    assert_eq!(u.title, "v标题");
    assert_eq!(u.status, "已验证");
    assert_eq!(u.content, "old body");
    assert_eq!(u.tags_json, "[\"t\"]");
    assert!(u.favorite);
    let v = StoredVersion { title: None, summary: None, tags_json: Some("bad".into()), status: None, content: None };
    let p = restore_patch(v);
    assert!(p.tags.is_none());
    let u = plan_card_update(Some(stored()), p).ok().unwrap();
    assert_eq!(u.tags_json, "[\"old\"]");
    assert_eq!(u.content, "");
}

#[test]
fn actors_relations_and_bin() {
    assert_eq!(checked_actor(" me ").unwrap(), "me");
    assert_eq!(checked_actor("\t").unwrap_err(), "缺少 actor，拒绝写入操作");
    assert!(check_relation_request("me", "依赖").is_ok());
    assert_eq!(check_relation_request("me", "朋友").unwrap_err(), "不支持的关系类型");
    assert_eq!(check_relation_request("", "朋友").unwrap_err(), "缺少 actor，拒绝写入操作");
    assert_eq!(check_relation_target(0).unwrap_err(), "目标卡片不存在");
    assert!(check_relation_target(1).is_ok());
    assert_eq!(check_relation_inserted(0).unwrap_err(), "关系已存在");
    assert_eq!(soft_delete_outcome(0).unwrap_err(), "卡片不存在或已在回收站");
    assert_eq!(restore_card_outcome(0).unwrap_err(), "回收站中没有这张卡片");
    assert!(soft_delete_outcome(1).is_ok());
    assert!(restore_card_outcome(1).is_ok());
}

#[test]
fn mysql_listing() {
    let (_, p) = parse_query("/api/cards?query=ru&type=%E7%9F%A5%E8%AF%86&include_deleted=1");
    let q = mysql_card_listing(&p);
    assert!(q.sql.contains(" AND (c.title LIKE :q OR c.summary LIKE :q OR c.tags LIKE :q OR cc.content LIKE :q) AND c.card_type=:type ORDER BY c.updated_at DESC"));
    assert_eq!(q.binds, vec![("q".to_string(), "%ru%".to_string()), ("type".to_string(), "知识".to_string())]);
    let (_, p) = parse_query("/api/cards?query=%20");
    let q = mysql_card_listing(&p);
    assert!(q.binds.is_empty());
    assert!(q.sql.ends_with("WHERE 1=1 AND c.deleted_at IS NULL ORDER BY c.updated_at DESC"));
    let (_, p) = parse_query("/api/search?q=ab&tag=x");
    let (query, l) = mysql_search_listing(&p).unwrap();
    assert_eq!(query, "ab");
    assert_eq!(l.binds, vec![("q".to_string(), "%ab%".to_string()), ("tag".to_string(), "x".to_string())]);
}

#[test]
fn sqlite_listing() {
    let (_, p) = parse_query("/api/cards");
    let q = sqlite_card_listing(&p);
    assert!(q.values.is_empty());
    assert!(q.sql.ends_with("FROM cards WHERE deleted_at IS NULL ORDER BY updated_at DESC"));
    let (_, p) = parse_query("/api/cards?query=RuST&status=%E8%8D%89%E7%A8%BF");
    let q = sqlite_card_listing(&p);
    assert!(q.sql.ends_with("WHERE cards_fts MATCH ? AND cards.status = ? ORDER BY cards.updated_at DESC"));
    assert_eq!(q.values, vec!["rust*".to_string(), "草稿".to_string()]);
    let (_, p) = parse_query("/api/context?q=ab&limit=3");
    let s = plan_context_search(&p).ok().unwrap();
    assert_eq!(s.pattern, "ab*");
    assert_eq!(s.limit, 3);
}

#[test]
fn sqlite_update() {
    let mut p = empty_patch("me");
    p.title = Some("t".into());
    p.tags = Some(vec!["a".into()]);
    p.favorite = Some(false);
    let q = sqlite_update_statement(&p, "100", "c1").ok().unwrap();
    assert_eq!(q.sql, "UPDATE cards SET updated_at=?1,title=?2,tags=?3,favorite=?4 WHERE id=?5");
    assert_eq!(q.values, vec!["100", "t", "[\"a\"]", "0", "c1"]);
    let q = sqlite_update_statement(&empty_patch("me"), "100", "c1").ok().unwrap();
    assert_eq!(q.sql, "UPDATE cards SET updated_at=?1 WHERE id=?2");
}

#[test]
fn workspace_names() {
    assert_eq!(data_root(), "D:\\工作台数据");
    assert_eq!(data_location(), "D:\\工作台数据");
    assert_eq!(workspace_ready_message(2), "workspace_ready:cards=2:root=D:\\工作台数据");
    assert_eq!(new_card_id(9), "card-9");
    assert_eq!(backup_file_name(9), "workbench-9.zip");
    assert_eq!(backup_entries(), vec!["workbench.db", "cards", "originals", "assets", "inbox"]);
    assert_eq!(data_folders().len(), 5);
    assert_eq!(backup_step(true, false), BackupStep::AddFile);
    assert_eq!(backup_step(false, true), BackupStep::AddDirectory);
    assert_eq!(backup_step(false, false), BackupStep::Skip);
    assert_eq!(zip_entry_name("cards", Some("a.md".into())), "cards/a.md");
    assert_eq!(zip_entry_name("cards", None), "cards/file");
}

#[test]
fn loopback_only() {
    assert_eq!(local_api_address(), "127.0.0.1:37821");
    let m = mysql_settings();
    assert_eq!(m.host, "127.0.0.1");
    assert_eq!(m.port, 3306);
    assert_eq!(m.user, "root");
    assert_eq!(m.database, "personal_ai_workbench");
    assert_eq!(m.credential_service, "HermesWorkbench/MySQL");
}

#[test]
fn binding_retries() {
    assert_eq!(after_bind(0, true), BindStep::Serve);
    assert_eq!(after_bind(0, false), BindStep::Retry { report: 1, next: 1 });
    assert_eq!(after_bind(9, false), BindStep::GiveUp { report: 10 });
}

#[test]
fn bare_file_names() {
    assert_eq!(import_extension("Report.final.MD"), "md");
    assert_eq!(import_extension(".bashrc"), "");
    assert_eq!(import_extension("a."), "");
    assert_eq!(import_card_for_path("Report.final.md", "md", "x".into(), "me").title, "Report.final");
    assert_eq!(import_card_for_path(".bashrc", "", "x".into(), "me").title, ".bashrc");
    assert_eq!(import_copy_name_for_path(3, "说明.txt"), "3-说明.txt");
    assert_eq!(file_name_of("a.md").as_deref(), Some("a.md"));
    assert_eq!(file_name_of("dir/a.md").as_deref(), Some("a.md"));
}

#[test]
fn paths_with_directories() {
    let path = "/home/u/Report.final.MD";
    assert_eq!(import_extension(path), "md");
    assert_eq!(import_card_for_path(path, "md", "x".into(), "me").title, "Report.final");
    assert_eq!(import_copy_name_for_path(3, path), "3-Report.final.MD");
    assert_eq!(file_name_of(path).as_deref(), Some("Report.final.MD"));
    assert_eq!(import_extension("notes/.bashrc"), "");
    assert_eq!(import_extension("C:\\Users\\x\\a.md"), "md");
    assert_eq!(import_extension("docs/说明.DOCX"), "docx");
}

#[test]
fn card_fields_shown() {
    assert!(favorite_flag(1));
    assert!(!favorite_flag(2));
    assert!(!favorite_flag(0));
    assert_eq!(tags_field_text("[\"a\"]"), "[\"a\"]");
    assert_eq!(tags_field_text("{\"k\":1}"), "{\"k\":1}");
    assert_eq!(tags_field_text("not json"), "[]");
}

#[test]
fn clock_fallback() {
    assert_eq!(seconds_or_zero(Some(42)), 42);
    assert_eq!(seconds_or_zero(None), 0);
}
