//! Knowledge cards: the new-card record, its defaults, validation, the
//! accent colour of each card type, the Markdown file written for a card
//! and the cards a fresh workspace starts with.
use vstd::prelude::*;
use crate::text::{
    decimal, is_blank, is_blank_text, is_ws, join, join_texts, lemma_utf8_len_bound, owned,
    push_decimal, push_text, same_text, texts,
};
use vstd::utf8::encode_utf8;

verus! {

/// The largest body a card may have, in UTF-8 bytes.
pub const MAX_CONTENT_BYTES: usize = 2000000;

/// A card as a client submits it.
#[derive(Clone, Debug)]
pub struct NewCard {
    pub title: String,
    pub summary: String,
    pub card_type: String,
    pub tags: Vec<String>,
    pub source: String,
    pub visibility: String,
    pub status: String,
    pub content: String,
    pub actor: String,
}

/// The texts a card holds.
pub struct CardText {
    pub title: Seq<char>,
    pub summary: Seq<char>,
    pub card_type: Seq<char>,
    pub tags: Seq<Seq<char>>,
    pub source: Seq<char>,
    pub visibility: Seq<char>,
    pub status: Seq<char>,
    pub content: Seq<char>,
    pub actor: Seq<char>,
}

impl View for NewCard {
    type V = CardText;

    open spec fn view(&self) -> CardText {
        CardText {
            title: self.title@,
            summary: self.summary@,
            card_type: self.card_type@,
            tags: texts(self.tags@),
            source: self.source@,
            visibility: self.visibility@,
            status: self.status@,
            content: self.content@,
            actor: self.actor@,
        }
    }
}

/// Message for a card without title.
pub open spec fn msg_title_empty() -> Seq<char> {
    "标题不能为空"@
}

/// Message for a body over the size limit.
pub open spec fn msg_content_too_large() -> Seq<char> {
    "正文超过 2MB 限制"@
}

/// Message for a card without type.
pub open spec fn msg_type_empty() -> Seq<char> {
    "卡片类型不能为空"@
}

/// Message for a write without an actor.
pub open spec fn msg_actor_missing() -> Seq<char> {
    "缺少 actor，拒绝写入操作"@
}

/// The size of a text in UTF-8 bytes, as `str::len` counts it.
pub open spec fn byte_len(s: Seq<char>) -> nat {
    encode_utf8(s).len()
}

/// Why a card is refused, checked in this order: blank title, body over
/// the limit, blank type, blank actor. None when the card is accepted.
pub open spec fn card_problem(card: CardText) -> Option<Seq<char>> {
    if is_blank_text(card.title) {
        Some(msg_title_empty())
    } else if byte_len(card.content) > MAX_CONTENT_BYTES {
        Some(msg_content_too_large())
    } else if is_blank_text(card.card_type) {
        Some(msg_type_empty())
    } else if is_blank_text(card.actor) {
        Some(msg_actor_missing())
    } else {
        None
    }
}

/// The visibility a card gets when none is given.
pub fn default_visibility() -> (r: String)
    ensures
        r@ == "本机助手可读"@,
{
    owned("本机助手可读")
}

/// The status a card gets when none is given.
pub fn default_status() -> (r: String)
    ensures
        r@ == "草稿"@,
{
    owned("草稿")
}

/// The size of a text in UTF-8 bytes.
pub fn text_byte_len(s: &str) -> (n: usize)
    ensures
        n == byte_len(s@),
{
    s.as_bytes().len()
}

/// Checks the size of a card body against `MAX_CONTENT_BYTES`.
pub fn check_body_size(content: &str) -> (r: Result<(), String>)
    ensures
        byte_len(content@) <= MAX_CONTENT_BYTES ==> r is Ok,
        byte_len(content@) > MAX_CONTENT_BYTES ==> (r matches Err(e) && e@ == msg_content_too_large()),
{
    if text_byte_len(content) > MAX_CONTENT_BYTES {
        Err(owned("正文超过 2MB 限制"))
    } else {
        Ok(())
    }
}

/// Checks a card before it is stored: it needs a non-blank title, a body of
/// at most `MAX_CONTENT_BYTES` bytes, a non-blank type and a non-blank actor.
pub fn validate_card(card: &NewCard) -> (r: Result<(), String>)
    ensures
        match card_problem(card@) {
            None => r is Ok,
            Some(m) => r matches Err(e) && e@ == m,
        },
{
    if is_blank(card.title.as_str()) {
        return Err(owned("标题不能为空"));
    }
    if text_byte_len(card.content.as_str()) > MAX_CONTENT_BYTES {
        return Err(owned("正文超过 2MB 限制"));
    }
    if is_blank(card.card_type.as_str()) {
        return Err(owned("卡片类型不能为空"));
    }
    if is_blank(card.actor.as_str()) {
        return Err(owned("缺少 actor，拒绝写入操作"));
    }
    Ok(())
}

/// The accent colour shown for each card type; other types get a gold tone.
pub open spec fn accent_of(card_type: Seq<char>) -> Seq<char> {
    if card_type == "技能"@ {
        "#b69cff"@
    } else if card_type == "知识"@ {
        "#66d9ef"@
    } else if card_type == "用户画像"@ {
        "#f7a8d8"@
    } else if card_type == "偏好"@ {
        "#ffb86b"@
    } else if card_type == "AI 产出"@ {
        "#91e6a1"@
    } else {
        "#ffd479"@
    }
}

/// The accent colour of a card type.
pub fn color_for_type(card_type: &str) -> (r: String)
    ensures
        r@ == accent_of(card_type@),
{
    if same_text(card_type, "技能") {
        owned("#b69cff")
    } else if same_text(card_type, "知识") {
        owned("#66d9ef")
    } else if same_text(card_type, "用户画像") {
        owned("#f7a8d8")
    } else if same_text(card_type, "偏好") {
        owned("#ffb86b")
    } else if same_text(card_type, "AI 产出") {
        owned("#91e6a1")
    } else {
        owned("#ffd479")
    }
}

/// The SQLite store keeps the favourite flag as an integer; only 1 means
/// a favourite.
pub fn favorite_flag(stored: i64) -> (r: bool)
    ensures
        r == (stored == 1),
{
    stored == 1
}

/// The Markdown file of a card: a front matter block with title, type,
/// tags, source, status and creation stamp, then the body.
pub open spec fn markdown_of(card: CardText, stamp: Seq<char>) -> Seq<char> {
    "---\ntitle: "@ + card.title + "\ntype: "@ + card.card_type + "\ntags: ["@ + join_texts(
        card.tags,
        ", "@,
    ) + "]\nsource: "@ + card.source + "\nstatus: "@ + card.status + "\ncreated_at: "@ + stamp
        + "\n---\n\n"@ + card.content + "\n"@
}

/// Renders the Markdown file of a card created at `stamp`.
pub fn card_markdown(card: &NewCard, stamp: &str) -> (r: String)
    ensures
        r@ == markdown_of(card@, stamp@),
{
    let mut r = owned("---\ntitle: ");
    push_text(&mut r, card.title.as_str());
    push_text(&mut r, "\ntype: ");
    push_text(&mut r, card.card_type.as_str());
    push_text(&mut r, "\ntags: [");
    let tags = join(&card.tags, ", ");
    push_text(&mut r, tags.as_str());
    push_text(&mut r, "]\nsource: ");
    push_text(&mut r, card.source.as_str());
    push_text(&mut r, "\nstatus: ");
    push_text(&mut r, card.status.as_str());
    push_text(&mut r, "\ncreated_at: ");
    push_text(&mut r, stamp);
    push_text(&mut r, "\n---\n\n");
    push_text(&mut r, card.content.as_str());
    push_text(&mut r, "\n");
    r
}

/// The cards a fresh workspace starts with.
pub open spec fn seed_card(i: int) -> CardText {
    if i == 0 {
        CardText {
            title: "工作台使用说明"@,
            summary: "本地优先保存技能、知识、偏好和 AI 产出。"@,
            card_type: "知识"@,
            tags: seq!["工作台"@, "本地优先"@],
            source: "工作台初始化"@,
            visibility: "本机助手可读"@,
            status: "已验证"@,
            content: "# 工作台使用说明\n\n正文保存在 Markdown，索引保存在 SQLite。"@,
            actor: "system"@,
        }
    } else {
        CardText {
            title: "个人 AI 工作台愿景"@,
            summary: "统一管理 AI 生成的技能、知识、用户画像、偏好和项目资料。"@,
            card_type: "AI 产出"@,
            tags: seq!["产品构想"@, "桌面应用"@],
            source: "需求沟通"@,
            visibility: "本机助手可读"@,
            status: "草稿"@,
            content: "# 愿景\n\n把重要的 AI 产出沉淀为可检索、可追溯的个人资产。"@,
            actor: "system"@,
        }
    }
}

fn tag_list(a: &str, b: &str) -> (r: Vec<String>)
    ensures
        texts(r@) == seq![a@, b@],
{
    let mut r: Vec<String> = Vec::new();
    r.push(owned(a));
    r.push(owned(b));
    assert(texts(r@) =~= seq![a@, b@]);
    r
}

/// The two cards a fresh workspace is seeded with.
pub fn default_cards() -> (r: Vec<NewCard>)
    ensures
        r.len() == 2,
        forall|i: int| 0 <= i < 2 ==> #[trigger] r@[i]@ == seed_card(i),
{
    let mut r: Vec<NewCard> = Vec::new();
    r.push(
        NewCard {
            title: owned("工作台使用说明"),
            summary: owned("本地优先保存技能、知识、偏好和 AI 产出。"),
            card_type: owned("知识"),
            tags: tag_list("工作台", "本地优先"),
            source: owned("工作台初始化"),
            visibility: default_visibility(),
            status: owned("已验证"),
            content: owned("# 工作台使用说明\n\n正文保存在 Markdown，索引保存在 SQLite。"),
            actor: owned("system"),
        },
    );
    r.push(
        NewCard {
            title: owned("个人 AI 工作台愿景"),
            summary: owned("统一管理 AI 生成的技能、知识、用户画像、偏好和项目资料。"),
            card_type: owned("AI 产出"),
            tags: tag_list("产品构想", "桌面应用"),
            source: owned("需求沟通"),
            visibility: default_visibility(),
            status: owned("草稿"),
            content: owned("# 愿景\n\n把重要的 AI 产出沉淀为可检索、可追溯的个人资产。"),
            actor: owned("system"),
        },
    );
    r
}

/// Every card a workspace is seeded with passes validation.
pub proof fn lemma_seed_cards_valid(i: int)
    requires
        0 <= i < 2,
    ensures
        card_problem(seed_card(i)) is None,
{
    let c = seed_card(i);
    if i == 0 {
        reveal_strlit("工作台使用说明");
        reveal_strlit("知识");
        reveal_strlit("system");
        reveal_strlit("# 工作台使用说明\n\n正文保存在 Markdown，索引保存在 SQLite。");
    } else {
        reveal_strlit("个人 AI 工作台愿景");
        reveal_strlit("AI 产出");
        reveal_strlit("system");
        reveal_strlit("# 愿景\n\n把重要的 AI 产出沉淀为可检索、可追溯的个人资产。");
    }
    assert(!is_ws(c.title[0]));
    assert(!is_ws(c.card_type[0]));
    assert(!is_ws(c.actor[0]));
    lemma_utf8_len_bound(c.content);
}

/// The identifier of the `index`-th seed card: `seed-<index>`.
pub fn seed_card_id(index: usize) -> (r: String)
    ensures
        r@ == "seed-"@ + decimal(index as nat),
{
    let mut r = owned("seed-");
    push_decimal(&mut r, index as u64);
    r
}

/// A workspace is seeded only while it holds no card at all.
pub open spec fn needs_seed(card_count: int) -> bool {
    card_count <= 0
}

/// The number of cards a workspace holds after seeding was tried once.
pub open spec fn count_after_seeding(card_count: int) -> int {
    if needs_seed(card_count) {
        card_count + 2
    } else {
        card_count
    }
}

/// Whether a workspace holding `card_count` cards is seeded.
pub fn workspace_needs_seed(card_count: i64) -> (r: bool)
    ensures
        r == needs_seed(card_count as int),
{
    card_count <= 0
}

/// Seeding is idempotent: an empty workspace gets the two default cards,
/// one that holds cards gets none, and once seeding was tried the
/// workspace never needs it again, so a second seeding adds nothing.
pub proof fn lemma_seeding_is_idempotent(card_count: int)
    requires
        card_count >= 0,
    ensures
        needs_seed(card_count) <==> card_count == 0,
        !needs_seed(count_after_seeding(card_count)),
        count_after_seeding(count_after_seeding(card_count)) == count_after_seeding(card_count),
{
}

} // verus!
