//! Writes to cards: the record an insert stores, how a patch merges into
//! the stored card (with the version kept of what it replaces), the patch
//! that restores a version, and the checks on actors, relations and the
//! recycle bin.
use vstd::prelude::*;
use crate::card::{
    byte_len, card_problem, msg_actor_missing, msg_content_too_large, text_byte_len,
    validate_card, NewCard, MAX_CONTENT_BYTES,
};
use crate::digest::{content_sha256, text_digest};
use crate::json::{json_of_texts, tags_from_json, tags_in_json, tags_json, texts_of_json};
use crate::text::{is_blank, is_blank_text, owned, same_text, texts, trim, trim_text};

verus! {

/// The texts of an optional string.
pub open spec fn opt_text(o: Option<String>) -> Option<Seq<char>> {
    match o {
        Some(s) => Some(s@),
        None => None,
    }
}

/// An optional text with a fallback.
pub open spec fn text_or(o: Option<Seq<char>>, fallback: Seq<char>) -> Seq<char> {
    match o {
        Some(s) => s,
        None => fallback,
    }
}

fn string_or(o: Option<String>, fallback: &str) -> (r: String)
    ensures
        r@ == text_or(opt_text(o), fallback@),
{
    match o {
        Some(s) => s,
        None => owned(fallback),
    }
}

fn copy_or(o: &Option<String>, fallback: &str) -> (r: String)
    ensures
        r@ == text_or(opt_text(*o), fallback@),
{
    match o {
        Some(s) => s.clone(),
        None => owned(fallback),
    }
}

// ---------------------------------------------------------------------------
// Inserting a card
// ---------------------------------------------------------------------------

/// What an insert stores for a card.
pub struct CardInsert {
    pub id: String,
    pub title: String,
    pub tags_json: String,
    pub content_hash: String,
}

/// Prepares the insert of a validated card under `id`: the title is
/// stored trimmed, the tags as JSON and the body with its digest. A card
/// that fails validation is refused with the validation message; any other
/// card is accepted.
pub fn plan_card_insert(card: &NewCard, id: String) -> (r: Result<CardInsert, String>)
    ensures
        card_problem(card@) matches Some(m) ==> (r matches Err(e) && e@ == m),
        card_problem(card@) is None ==> r is Ok,
        r matches Ok(p) ==> {
            &&& card_problem(card@) is None
            &&& p.id@ == id@
            &&& p.title@ == trim_text(card.title@)
            &&& p.tags_json@ == json_of_texts(texts(card.tags@))
            &&& p.content_hash@ == text_digest(card.content@)
        },
{
    validate_card(card)?;
    let tags = tags_json(&card.tags)?;
    Ok(
        CardInsert {
            id,
            title: trim(card.title.as_str()),
            tags_json: tags,
            content_hash: content_sha256(card.content.as_str()),
        },
    )
}

// ---------------------------------------------------------------------------
// Patching a card
// ---------------------------------------------------------------------------

/// The changes a client asks for; absent fields stay as they are.
pub struct CardPatch {
    pub title: Option<String>,
    pub summary: Option<String>,
    pub tags: Option<Vec<String>>,
    pub status: Option<String>,
    pub favorite: Option<bool>,
    pub content: Option<String>,
    pub actor: Option<String>,
}

/// The texts of a patch.
#[verifier::ext_equal]
pub struct PatchText {
    pub title: Option<Seq<char>>,
    pub summary: Option<Seq<char>>,
    pub tags: Option<Seq<Seq<char>>>,
    pub status: Option<Seq<char>>,
    pub favorite: Option<bool>,
    pub content: Option<Seq<char>>,
    pub actor: Option<Seq<char>>,
}

impl View for CardPatch {
    type V = PatchText;

    open spec fn view(&self) -> PatchText {
        PatchText {
            title: opt_text(self.title),
            summary: opt_text(self.summary),
            tags: match self.tags {
                Some(t) => Some(texts(t@)),
                None => None,
            },
            status: opt_text(self.status),
            favorite: self.favorite,
            content: opt_text(self.content),
            actor: opt_text(self.actor),
        }
    }
}

/// A card as the store holds it; a column that could not be read is
/// absent.
pub struct StoredCard {
    pub title: Option<String>,
    pub summary: Option<String>,
    pub tags_json: Option<String>,
    pub status: Option<String>,
    pub favorite: Option<bool>,
    pub content: Option<String>,
}

/// The texts of a stored card.
#[verifier::ext_equal]
pub struct StoredText {
    pub title: Option<Seq<char>>,
    pub summary: Option<Seq<char>>,
    pub tags_json: Option<Seq<char>>,
    pub status: Option<Seq<char>>,
    pub favorite: Option<bool>,
    pub content: Option<Seq<char>>,
}

impl View for StoredCard {
    type V = StoredText;

    open spec fn view(&self) -> StoredText {
        StoredText {
            title: opt_text(self.title),
            summary: opt_text(self.summary),
            tags_json: opt_text(self.tags_json),
            status: opt_text(self.status),
            favorite: self.favorite,
            content: opt_text(self.content),
        }
    }
}

/// A version of a card kept before it changes.
pub struct VersionRecord {
    pub title: String,
    pub summary: String,
    pub tags_json: String,
    pub status: String,
    pub content: String,
    pub content_hash: String,
}

/// The texts of a kept version.
#[verifier::ext_equal]
pub struct VersionText {
    pub title: Seq<char>,
    pub summary: Seq<char>,
    pub tags_json: Seq<char>,
    pub status: Seq<char>,
    pub content: Seq<char>,
    pub content_hash: Seq<char>,
}

impl View for VersionRecord {
    type V = VersionText;

    open spec fn view(&self) -> VersionText {
        VersionText {
            title: self.title@,
            summary: self.summary@,
            tags_json: self.tags_json@,
            status: self.status@,
            content: self.content@,
            content_hash: self.content_hash@,
        }
    }
}

/// What a patch writes: the version kept of the card as it was, the new
/// fields, and the actor the change is recorded for.
pub struct CardUpdate {
    pub previous: VersionRecord,
    pub title: String,
    pub summary: String,
    pub tags_json: String,
    pub status: String,
    pub favorite: bool,
    pub content: String,
    pub content_hash: String,
    pub actor: String,
}

/// The texts of an update.
#[verifier::ext_equal]
pub struct UpdateText {
    pub previous: VersionText,
    pub title: Seq<char>,
    pub summary: Seq<char>,
    pub tags_json: Seq<char>,
    pub status: Seq<char>,
    pub favorite: bool,
    pub content: Seq<char>,
    pub content_hash: Seq<char>,
    pub actor: Seq<char>,
}

impl View for CardUpdate {
    type V = UpdateText;

    open spec fn view(&self) -> UpdateText {
        UpdateText {
            previous: self.previous@,
            title: self.title@,
            summary: self.summary@,
            tags_json: self.tags_json@,
            status: self.status@,
            favorite: self.favorite,
            content: self.content@,
            content_hash: self.content_hash@,
            actor: self.actor@,
        }
    }
}

/// Message for a card that does not exist.
pub open spec fn msg_card_missing() -> Seq<char> {
    "卡片不存在"@
}

/// The body a patch leaves: the patched one, else the stored one.
pub open spec fn patched_content(c: StoredText, patch: PatchText) -> Seq<char> {
    text_or(patch.content, text_or(c.content, Seq::empty()))
}

/// Why a patch is refused, checked in this order: the card does not
/// exist, the body would exceed the limit, the patch names no actor.
pub open spec fn update_problem(current: Option<StoredText>, patch: PatchText) -> Option<
    Seq<char>,
> {
    match current {
        None => Some(msg_card_missing()),
        Some(c) => if byte_len(patched_content(c, patch)) > MAX_CONTENT_BYTES {
            Some(msg_content_too_large())
        } else if trim_text(text_or(patch.actor, Seq::empty())).len() == 0 {
            Some(msg_actor_missing())
        } else {
            None
        },
    }
}

/// The tags a patch leaves: the patched list, else the stored one (no
/// tags when the stored text is not a JSON list).
pub open spec fn patched_tags(c: StoredText, patch: PatchText) -> Seq<Seq<char>> {
    match patch.tags {
        Some(t) => t,
        None => tags_in_json(text_or(c.tags_json, "[]"@)),
    }
}

/// What a patch writes to a stored card: every field it names replaces the
/// stored one, the others stay (an unreadable column counts as empty, as
/// `[]` for tags and false for the favourite flag); the version kept is
/// the card as stored.
pub open spec fn planned_update(c: StoredText, patch: PatchText) -> UpdateText {
    UpdateText {
        previous: VersionText {
            title: text_or(c.title, Seq::empty()),
            summary: text_or(c.summary, Seq::empty()),
            tags_json: text_or(c.tags_json, "[]"@),
            status: text_or(c.status, Seq::empty()),
            content: text_or(c.content, Seq::empty()),
            content_hash: text_digest(text_or(c.content, Seq::empty())),
        },
        title: text_or(patch.title, text_or(c.title, Seq::empty())),
        summary: text_or(patch.summary, text_or(c.summary, Seq::empty())),
        tags_json: json_of_texts(patched_tags(c, patch)),
        status: text_or(patch.status, text_or(c.status, Seq::empty())),
        favorite: match patch.favorite {
            Some(f) => f,
            None => match c.favorite {
                Some(f) => f,
                None => false,
            },
        },
        content: patched_content(c, patch),
        content_hash: text_digest(patched_content(c, patch)),
        actor: trim_text(text_or(patch.actor, Seq::empty())),
    }
}

/// The view of an optional stored card.
pub open spec fn stored_view(o: Option<StoredCard>) -> Option<StoredText> {
    match o {
        Some(c) => Some(c@),
        None => None,
    }
}

/// Merges a patch into the stored card (None when it does not exist);
/// refused exactly for the problems of `update_problem`.
pub fn plan_card_update(current: Option<StoredCard>, patch: CardPatch) -> (r: Result<
    CardUpdate,
    String,
>)
    ensures
        update_problem(stored_view(current), patch@) matches Some(m) ==> (r matches Err(e) && e@
            == m),
        update_problem(stored_view(current), patch@) is None ==> r is Ok,
        r matches Ok(u) ==> update_problem(stored_view(current), patch@) is None && u@
            == planned_update(stored_view(current)->0, patch@),
{
    let c = match current {
        None => {
            return Err(owned("卡片不存在"));
        },
        Some(c) => c,
    };
    proof {
        reveal_strlit("");
    }
    let old_content = copy_or(&c.content, "");
    let content = match patch.content {
        Some(x) => x,
        None => old_content.clone(),
    };
    if text_byte_len(content.as_str()) > MAX_CONTENT_BYTES {
        return Err(owned("正文超过 2MB 限制"));
    }
    let actor = trim(copy_or(&patch.actor, "").as_str());
    if actor.as_str().is_empty() {
        return Err(owned("缺少 actor，拒绝写入操作"));
    }
    let previous = VersionRecord {
        title: copy_or(&c.title, ""),
        summary: copy_or(&c.summary, ""),
        tags_json: copy_or(&c.tags_json, "[]"),
        status: copy_or(&c.status, ""),
        content_hash: content_sha256(old_content.as_str()),
        content: old_content,
    };
    let tags = match patch.tags {
        Some(t) => t,
        None => tags_from_json(copy_or(&c.tags_json, "[]").as_str()),
    };
    let tags_text = tags_json(&tags)?;
    let favorite = match patch.favorite {
        Some(f) => f,
        None => match c.favorite {
            Some(f) => f,
            None => false,
        },
    };
    let title = match patch.title {
        Some(t) => t,
        None => string_or(c.title, ""),
    };
    let summary = match patch.summary {
        Some(t) => t,
        None => string_or(c.summary, ""),
    };
    let status = match patch.status {
        Some(t) => t,
        None => string_or(c.status, ""),
    };
    let content_hash = content_sha256(content.as_str());
    Ok(
        CardUpdate {
            previous,
            title,
            summary,
            tags_json: tags_text,
            status,
            favorite,
            content,
            content_hash,
            actor,
        },
    )
}

// ---------------------------------------------------------------------------
// Restoring a version
// ---------------------------------------------------------------------------

/// A kept version as the store holds it; a column that could not be read
/// is absent.
pub struct StoredVersion {
    pub title: Option<String>,
    pub summary: Option<String>,
    pub tags_json: Option<String>,
    pub status: Option<String>,
    pub content: Option<String>,
}

/// The texts of a stored version.
#[verifier::ext_equal]
pub struct StoredVersionText {
    pub title: Option<Seq<char>>,
    pub summary: Option<Seq<char>>,
    pub tags_json: Option<Seq<char>>,
    pub status: Option<Seq<char>>,
    pub content: Option<Seq<char>>,
}

impl View for StoredVersion {
    type V = StoredVersionText;

    open spec fn view(&self) -> StoredVersionText {
        StoredVersionText {
            title: opt_text(self.title),
            summary: opt_text(self.summary),
            tags_json: opt_text(self.tags_json),
            status: opt_text(self.status),
            content: opt_text(self.content),
        }
    }
}

/// The patch that puts a version back: its title, summary, status and body
/// (empty where unreadable), its tags when they read as a JSON list, the
/// favourite flag untouched, recorded for the desktop user.
pub open spec fn restore_patch_of(v: StoredVersionText) -> PatchText {
    PatchText {
        title: Some(text_or(v.title, Seq::empty())),
        summary: Some(text_or(v.summary, Seq::empty())),
        tags: texts_of_json(text_or(v.tags_json, "[]"@)),
        status: Some(text_or(v.status, Seq::empty())),
        favorite: None,
        content: Some(text_or(v.content, Seq::empty())),
        actor: Some("desktop-user"@),
    }
}

/// The patch that restores a stored version.
pub fn restore_patch(version: StoredVersion) -> (r: CardPatch)
    ensures
        r@ == restore_patch_of(version@),
{
    proof {
        reveal_strlit("");
    }
    let tags_text = string_or(version.tags_json, "[]");
    let ghost v = version@;
    let tags = crate::json::texts_from_json(tags_text.as_str());
    let r = CardPatch {
        title: Some(string_or(version.title, "")),
        summary: Some(string_or(version.summary, "")),
        tags,
        status: Some(string_or(version.status, "")),
        favorite: None,
        content: Some(string_or(version.content, "")),
        actor: Some(owned("desktop-user")),
    };
    assert(r@ =~= restore_patch_of(v));
    r
}

/// Restoring a version of an existing card is refused only for a body over
/// the limit, and it brings back the version's title, summary, status and
/// body (and its tags when they read as a list) while keeping the
/// favourite flag.
pub proof fn lemma_restore_brings_back_version(c: StoredText, v: StoredVersionText)
    ensures
        byte_len(text_or(v.content, Seq::empty())) <= MAX_CONTENT_BYTES ==> update_problem(
            Some(c),
            restore_patch_of(v),
        ) is None,
        planned_update(c, restore_patch_of(v)).title == text_or(v.title, Seq::empty()),
        planned_update(c, restore_patch_of(v)).summary == text_or(v.summary, Seq::empty()),
        planned_update(c, restore_patch_of(v)).status == text_or(v.status, Seq::empty()),
        planned_update(c, restore_patch_of(v)).content == text_or(v.content, Seq::empty()),
        planned_update(c, restore_patch_of(v)).favorite == match c.favorite {
            Some(f) => f,
            None => false,
        },
        texts_of_json(text_or(v.tags_json, "[]"@)) matches Some(t) ==> planned_update(
            c,
            restore_patch_of(v),
        ).tags_json == json_of_texts(t),
{
    reveal_strlit("desktop-user");
    let a = "desktop-user"@;
    assert(!crate::text::is_ws(a[0]));
    assert(trim_text(a).len() > 0) by {
        crate::text::lemma_trim_keeps_nonblank(a, 0);
    }
}

/// A patch that names no field keeps every field of the card and only
/// records the version it had.
pub proof fn lemma_empty_patch_keeps_card(c: StoredText, actor: Seq<char>)
    ensures
        ({
            let p = PatchText {
                title: None,
                summary: None,
                tags: None,
                status: None,
                favorite: None,
                content: None,
                actor: Some(actor),
            };
            let u = planned_update(c, p);
            &&& u.title == u.previous.title
            &&& u.summary == u.previous.summary
            &&& u.status == u.previous.status
            &&& u.content == u.previous.content
            &&& u.content_hash == u.previous.content_hash
        }),
{
}

/// The version an update keeps is the card as it is stored, whatever the
/// patch names: two patches of one card keep the same version, whose body
/// is the stored body (empty when unreadable) with that body's digest.
pub proof fn lemma_update_keeps_stored_version(c: StoredText, p: PatchText, q: PatchText)
    ensures
        planned_update(c, p).previous == planned_update(c, q).previous,
        planned_update(c, p).previous.content == text_or(c.content, Seq::empty()),
        planned_update(c, p).previous.content_hash == text_digest(
            text_or(c.content, Seq::empty()),
        ),
        planned_update(c, p).previous.title == text_or(c.title, Seq::empty()),
        planned_update(c, p).previous.summary == text_or(c.summary, Seq::empty()),
        planned_update(c, p).previous.status == text_or(c.status, Seq::empty()),
        planned_update(c, p).previous.tags_json == text_or(c.tags_json, "[]"@),
{
}

/// A field a patch names is written as the patch gives it, whatever the
/// card held; a field it leaves out keeps the stored value, which is also
/// the one the kept version holds. The new body's digest is that of the
/// new body.
pub proof fn lemma_patch_fields_replace_stored(c: StoredText, d: StoredText, p: PatchText)
    ensures
        ({
            let u = planned_update(c, p);
            &&& p.title matches Some(t) ==> u.title == t
            &&& p.title is None ==> u.title == u.previous.title
            &&& p.summary matches Some(t) ==> u.summary == t
            &&& p.summary is None ==> u.summary == u.previous.summary
            &&& p.status matches Some(t) ==> u.status == t
            &&& p.status is None ==> u.status == u.previous.status
            &&& p.content matches Some(x) ==> u.content == x
            &&& p.content is None ==> u.content == u.previous.content
            &&& u.content_hash == text_digest(u.content)
            &&& p.tags matches Some(t) ==> u.tags_json == json_of_texts(t)
            &&& p.favorite matches Some(f) ==> u.favorite == f
            &&& p.favorite is None ==> u.favorite == (c.favorite == Some(true))
        }),
        p.favorite is Some ==> planned_update(c, p).favorite == planned_update(d, p).favorite,
        p.content is Some ==> planned_update(c, p).content == planned_update(d, p).content,
{
}

// ---------------------------------------------------------------------------
// Actors, relations and the recycle bin
// ---------------------------------------------------------------------------

/// The actor a write is recorded for: trimmed, and refused when blank.
pub fn checked_actor(actor: &str) -> (r: Result<String, String>)
    ensures
        is_blank_text(actor@) ==> (r matches Err(e) && e@ == msg_actor_missing()),
        !is_blank_text(actor@) ==> (r matches Ok(a) && a@ == trim_text(actor@)),
{
    if is_blank(actor) {
        Err(owned("缺少 actor，拒绝写入操作"))
    } else {
        Ok(trim(actor))
    }
}

/// The kinds of relation a card may have to another.
pub open spec fn is_relation_kind(t: Seq<char>) -> bool {
    t == "关联项目"@ || t == "相关知识"@ || t == "来源于"@ || t == "依赖"@
}

/// The relation kinds are exactly four: related project, related
/// knowledge, derived from, and depends on.
pub proof fn lemma_relation_kinds()
    ensures
        Set::new(|t: Seq<char>| is_relation_kind(t)) == set![
            "关联项目"@,
            "相关知识"@,
            "来源于"@,
            "依赖"@,
        ],
        is_relation_kind("关联项目"@),
        is_relation_kind("相关知识"@),
        is_relation_kind("来源于"@),
        is_relation_kind("依赖"@),
{
    assert(Set::new(|t: Seq<char>| is_relation_kind(t)) =~= set![
        "关联项目"@,
        "相关知识"@,
        "来源于"@,
        "依赖"@,
    ]);
}

/// Message for a relation of an unknown kind.
pub open spec fn msg_relation_kind() -> Seq<char> {
    "不支持的关系类型"@
}

/// Checks a relation request: it needs an actor, then a known kind.
pub fn check_relation_request(actor: &str, relation_type: &str) -> (r: Result<(), String>)
    ensures
        is_blank_text(actor@) ==> (r matches Err(e) && e@ == msg_actor_missing()),
        !is_blank_text(actor@) && !is_relation_kind(relation_type@) ==> (r matches Err(e) && e@
            == msg_relation_kind()),
        !is_blank_text(actor@) && is_relation_kind(relation_type@) ==> r is Ok,
        !is_blank_text(actor@) && (relation_type@ == "关联项目"@ || relation_type@ == "相关知识"@
            || relation_type@ == "来源于"@ || relation_type@ == "依赖"@) ==> r is Ok,
{
    if is_blank(actor) {
        return Err(owned("缺少 actor，拒绝写入操作"));
    }
    if same_text(relation_type, "关联项目") || same_text(relation_type, "相关知识") || same_text(
        relation_type,
        "来源于",
    ) || same_text(relation_type, "依赖") {
        Ok(())
    } else {
        Err(owned("不支持的关系类型"))
    }
}

/// A relation needs an existing target card (`count` cards carry its id).
pub fn check_relation_target(count: i64) -> (r: Result<(), String>)
    ensures
        count == 0 ==> (r matches Err(e) && e@ == "目标卡片不存在"@),
        count != 0 ==> r is Ok,
{
    if count == 0 {
        Err(owned("目标卡片不存在"))
    } else {
        Ok(())
    }
}

/// A relation that inserted no row was there already.
pub fn check_relation_inserted(changed: usize) -> (r: Result<(), String>)
    ensures
        changed == 0 ==> (r matches Err(e) && e@ == "关系已存在"@),
        changed != 0 ==> r is Ok,
{
    if changed == 0 {
        Err(owned("关系已存在"))
    } else {
        Ok(())
    }
}

/// Moving a card to the recycle bin must change a row.
pub fn soft_delete_outcome(affected: u64) -> (r: Result<(), String>)
    ensures
        affected == 0 ==> (r matches Err(e) && e@ == "卡片不存在或已在回收站"@),
        affected != 0 ==> r is Ok,
{
    if affected == 0 {
        Err(owned("卡片不存在或已在回收站"))
    } else {
        Ok(())
    }
}

/// Taking a card out of the recycle bin must change a row.
pub fn restore_card_outcome(affected: u64) -> (r: Result<(), String>)
    ensures
        affected == 0 ==> (r matches Err(e) && e@ == "回收站中没有这张卡片"@),
        affected != 0 ==> r is Ok,
{
    if affected == 0 {
        Err(owned("回收站中没有这张卡片"))
    } else {
        Ok(())
    }
}

} // verus!
