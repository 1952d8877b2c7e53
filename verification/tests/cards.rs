use personal_ai_workbench::card::{
    card_markdown, color_for_type, default_cards, default_status, default_visibility,
    seed_card_id, validate_card, workspace_needs_seed, NewCard,
};

fn card(title: &str, content: &str) -> NewCard {
    NewCard {
        title: title.into(),
        summary: String::new(),
        card_type: "知识".into(),
        tags: vec![],
        source: "test".into(),
        visibility: default_visibility(),
        status: default_status(),
        content: content.into(),
        actor: "test".into(),
    }
}

#[test]
fn rejects_empty_title() {
    assert_eq!(validate_card(&card("  ", "正文")).unwrap_err(), "标题不能为空");
}

#[test]
fn rejects_content_over_two_megabytes() {
    assert_eq!(validate_card(&card("标题", &"x".repeat(2_000_001))).unwrap_err(), "正文超过 2MB 限制");
}

#[test]
fn accepts_valid_card() {
    assert!(validate_card(&card("标题", "正文")).is_ok());
}

#[test]
fn accepts_body_of_exactly_two_megabytes() {
    assert!(validate_card(&card("标题", &"x".repeat(2_000_000))).is_ok());
}

#[test]
fn counts_body_size_in_utf8_bytes() {
    // 666_667 three-byte characters are 2_000_001 bytes.
    assert_eq!(validate_card(&card("标题", &"正".repeat(666_667))).unwrap_err(), "正文超过 2MB 限制");
    assert!(validate_card(&card("标题", &"正".repeat(666_666))).is_ok());
}

#[test]
fn rejects_blank_type_then_missing_actor() {
    let mut c = card("标题", "正文");
    c.card_type = "\u{3000}\t".into();
    assert_eq!(validate_card(&c).unwrap_err(), "卡片类型不能为空");
    let mut c = card("标题", "正文");
    c.actor = " \n".into();
    assert_eq!(validate_card(&c).unwrap_err(), "缺少 actor，拒绝写入操作");
}

#[test]
fn title_check_comes_first() {
    let mut c = card("\u{2003}", &"x".repeat(2_000_001));
    c.actor = String::new();
    assert_eq!(validate_card(&c).unwrap_err(), "标题不能为空");
}

#[test]
fn defaults_of_new_cards() {
    assert_eq!(default_visibility(), "本机助手可读");
    assert_eq!(default_status(), "草稿");
}

#[test]
fn accent_colours() {
    assert_eq!(color_for_type("技能"), "#b69cff");
    assert_eq!(color_for_type("知识"), "#66d9ef");
    assert_eq!(color_for_type("用户画像"), "#f7a8d8");
    assert_eq!(color_for_type("偏好"), "#ffb86b");
    assert_eq!(color_for_type("AI 产出"), "#91e6a1");
    assert_eq!(color_for_type("项目资料"), "#ffd479");
}

#[test]
fn markdown_of_a_card() {
    let mut c = card("标题", "正文");
    c.tags = vec!["a".into(), "b".into()];
    assert_eq!(
        card_markdown(&c, "1700000000"),
        "---\ntitle: 标题\ntype: 知识\ntags: [a, b]\nsource: test\nstatus: 草稿\ncreated_at: 1700000000\n---\n\n正文\n"
    );
}

#[test]
fn seed_cards_are_valid() {
    let cards = default_cards();
    assert_eq!(cards.len(), 2);
    assert_eq!(cards[0].title, "工作台使用说明");
    assert_eq!(cards[1].card_type, "AI 产出");
    for c in &cards {
        assert!(validate_card(c).is_ok());
    }
    assert_eq!(seed_card_id(0), "seed-0");
    assert_eq!(seed_card_id(12), "seed-12");
    assert!(workspace_needs_seed(0));
    assert!(!workspace_needs_seed(3));
}
