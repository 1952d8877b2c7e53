//! SQL statements assembled from request parameters and patches: the card
//! listings of the MySQL and SQLite stores, the context search and the
//! SQLite card update.
use vstd::prelude::*;
use crate::json::{json_of_texts, tags_json};
use crate::query::{
    context_limit, limit_of, search_query, search_text, QueryParams,
};
use crate::text::{
    decimal, is_blank, is_blank_text, join, join_texts, lowercase_text, owned, push_decimal,
    push_text, texts, to_lowercase,
};
use crate::update::{CardPatch, PatchText};

verus! {

// ---------------------------------------------------------------------------
// MySQL card listing
// ---------------------------------------------------------------------------

/// A statement with named parameters (name, value).
pub struct NamedQuery {
    pub sql: String,
    pub binds: Vec<(String, String)>,
}

/// The columns and joins every MySQL card listing starts with.
pub open spec fn mysql_list_head() -> Seq<char> {
    "SELECT c.id,c.title,c.summary,c.card_type,c.tags,c.source,c.source_path,c.visibility,c.status,c.favorite,CAST(UNIX_TIMESTAMP(c.created_at) AS SIGNED),CAST(UNIX_TIMESTAMP(c.updated_at) AS SIGNED),CAST(UNIX_TIMESTAMP(c.deleted_at) AS SIGNED),COALESCE(cc.content,'') FROM cards c LEFT JOIN card_contents cc ON cc.card_id=c.id WHERE 1=1"@
}

/// A listing state: the SQL so far and the named values so far.
pub type Listing = (Seq<char>, Seq<(Seq<char>, Seq<char>)>);

/// Adds `clause` with the value of parameter `name` when it is set.
pub open spec fn with_param(
    acc: Listing,
    params: Map<Seq<char>, Seq<char>>,
    name: Seq<char>,
    clause: Seq<char>,
) -> Listing {
    if params.contains_key(name) {
        (acc.0 + clause, acc.1.push((name, params[name])))
    } else {
        acc
    }
}

/// The keywords a MySQL listing matches: parameter `query`, if any.
pub open spec fn listing_keywords(params: Map<Seq<char>, Seq<char>>) -> Seq<char> {
    if params.contains_key("query"@) {
        params["query"@]
    } else {
        Seq::empty()
    }
}

/// The MySQL card listing for the parameters: non-blank `query` keywords
/// match title, summary, tags or body (as `%keywords%`); `type`, `status`
/// and `tag` filter exactly; cards in the recycle bin are left out unless
/// `include_deleted` is `1`; newest changes first.
pub open spec fn mysql_listing_of(params: Map<Seq<char>, Seq<char>>) -> Listing {
    let q = listing_keywords(params);
    let start: Listing = (mysql_list_head(), Seq::empty());
    let a: Listing = if !is_blank_text(q) {
        (
            start.0
                + " AND (c.title LIKE :q OR c.summary LIKE :q OR c.tags LIKE :q OR cc.content LIKE :q)"@,
            seq![("q"@, "%"@ + q + "%"@)],
        )
    } else {
        start
    };
    let b = with_param(a, params, "type"@, " AND c.card_type=:type"@);
    let c = with_param(b, params, "status"@, " AND c.status=:status"@);
    let d = with_param(c, params, "tag"@, " AND JSON_CONTAINS(c.tags, JSON_QUOTE(:tag))"@);
    let e = if !(params.contains_key("include_deleted"@) && params["include_deleted"@] == "1"@) {
        d.0 + " AND c.deleted_at IS NULL"@
    } else {
        d.0
    };
    (e + " ORDER BY c.updated_at DESC"@, d.1)
}

/// Unless `include_deleted` is `1`, a MySQL listing leaves out the cards
/// in the recycle bin.
pub proof fn lemma_listing_hides_recycle_bin(params: Map<Seq<char>, Seq<char>>)
    requires
        !(params.contains_key("include_deleted"@) && params["include_deleted"@] == "1"@),
    ensures
        crate::text::text_contains(mysql_listing_of(params).0, " AND c.deleted_at IS NULL"@),
{
    let q = listing_keywords(params);
    let start: Listing = (mysql_list_head(), Seq::empty());
    let a: Listing = if !is_blank_text(q) {
        (
            start.0
                + " AND (c.title LIKE :q OR c.summary LIKE :q OR c.tags LIKE :q OR cc.content LIKE :q)"@,
            seq![("q"@, "%"@ + q + "%"@)],
        )
    } else {
        start
    };
    let b = with_param(a, params, "type"@, " AND c.card_type=:type"@);
    let c = with_param(b, params, "status"@, " AND c.status=:status"@);
    let d = with_param(c, params, "tag"@, " AND JSON_CONTAINS(c.tags, JSON_QUOTE(:tag))"@);
    let clause = " AND c.deleted_at IS NULL"@;
    let sql = d.0 + clause + " ORDER BY c.updated_at DESC"@;
    assert(mysql_listing_of(params).0 == sql);
    assert(sql.subrange(d.0.len() as int, (d.0.len() + clause.len()) as int) =~= clause);
    assert(crate::text::occurs_at(sql, clause, d.0.len() as int));
}

/// With `include_deleted` set to `1` a MySQL listing also lists the cards
/// in the recycle bin: its statement is the one the same request without
/// that parameter gives, with the condition that leaves deleted cards out
/// taken away, and it binds the same values.
pub proof fn lemma_include_deleted_lists_recycle_bin(params: Map<Seq<char>, Seq<char>>)
    requires
        params.contains_key("include_deleted"@),
        params["include_deleted"@] == "1"@,
    ensures
        ({
            let with = mysql_listing_of(params);
            let without = mysql_listing_of(params.remove("include_deleted"@));
            &&& exists|x: Seq<char>|
                #![trigger x + " ORDER BY c.updated_at DESC"@]
                with.0 == x + " ORDER BY c.updated_at DESC"@ && without.0 == x
                    + " AND c.deleted_at IS NULL"@ + " ORDER BY c.updated_at DESC"@
            &&& with.1 == without.1
        }),
{
    reveal_strlit("include_deleted");
    reveal_strlit("query");
    reveal_strlit("type");
    reveal_strlit("status");
    reveal_strlit("tag");
    let other = params.remove("include_deleted"@);
    assert("query"@.len() != "include_deleted"@.len());
    assert("type"@.len() != "include_deleted"@.len());
    assert("status"@.len() != "include_deleted"@.len());
    assert("tag"@.len() != "include_deleted"@.len());
    assert(listing_keywords(other) == listing_keywords(params));
    let q = listing_keywords(params);
    let start: Listing = (mysql_list_head(), Seq::empty());
    let a: Listing = if !is_blank_text(q) {
        (
            start.0
                + " AND (c.title LIKE :q OR c.summary LIKE :q OR c.tags LIKE :q OR cc.content LIKE :q)"@,
            seq![("q"@, "%"@ + q + "%"@)],
        )
    } else {
        start
    };
    let b = with_param(a, params, "type"@, " AND c.card_type=:type"@);
    let c = with_param(b, params, "status"@, " AND c.status=:status"@);
    let d = with_param(c, params, "tag"@, " AND JSON_CONTAINS(c.tags, JSON_QUOTE(:tag))"@);
    assert(b == with_param(a, other, "type"@, " AND c.card_type=:type"@));
    assert(c == with_param(b, other, "status"@, " AND c.status=:status"@));
    assert(d == with_param(c, other, "tag"@, " AND JSON_CONTAINS(c.tags, JSON_QUOTE(:tag))"@));
    assert(!other.contains_key("include_deleted"@));
    assert(mysql_listing_of(params).0 == d.0 + " ORDER BY c.updated_at DESC"@);
    assert(mysql_listing_of(other).0 == d.0 + " AND c.deleted_at IS NULL"@
        + " ORDER BY c.updated_at DESC"@);
}

/// No character `x` in `s` is directly followed by `y`.
pub open spec fn lacks_adjacent(s: Seq<char>, x: char, y: char) -> bool {
    forall|j: int| 0 <= j && j + 1 < s.len() ==> !(#[trigger] s[j] == x && s[j + 1] == y)
}

/// `lacks_adjacent` checked from position `i` on, one position at a time.
spec fn adjacent_free_from(s: Seq<char>, x: char, y: char, i: int) -> bool
    decreases s.len() - i,
{
    if i < 0 || i + 1 >= s.len() {
        true
    } else {
        !(s[i] == x && s[i + 1] == y) && adjacent_free_from(s, x, y, i + 1)
    }
}

proof fn lemma_adjacent_free_from(s: Seq<char>, x: char, y: char, i: int)
    requires
        0 <= i,
        adjacent_free_from(s, x, y, i),
    ensures
        forall|j: int| i <= j && j + 1 < s.len() ==> !(#[trigger] s[j] == x && s[j + 1] == y),
    decreases s.len() - i,
{
    if i + 1 < s.len() {
        lemma_adjacent_free_from(s, x, y, i + 1);
    }
}

proof fn lemma_lacks_adjacent_concat(a: Seq<char>, b: Seq<char>, x: char, y: char)
    requires
        lacks_adjacent(a, x, y),
        lacks_adjacent(b, x, y),
        b.len() > 0 ==> b[0] != y,
    ensures
        lacks_adjacent(a + b, x, y),
{
    let s = a + b;
    assert forall|j: int| 0 <= j && j + 1 < s.len() implies !(#[trigger] s[j] == x && s[j + 1]
        == y) by {
        if j + 1 < a.len() {
            assert(s[j] == a[j] && s[j + 1] == a[j + 1]);
        } else if j + 1 == a.len() {
            assert(s[j + 1] == b[0]);
        } else {
            let k = j - a.len();
            assert(s[j] == b[k] && s[j + 1] == b[k + 1]);
        }
    }
}

/// The condition that leaves the recycle bin out of a listing.
pub open spec fn not_deleted_clause() -> Seq<char> {
    " AND c.deleted_at IS NULL"@
}

proof fn lemma_clause_needs_nu(s: Seq<char>)
    requires
        crate::text::text_contains(s, not_deleted_clause()),
    ensures
        !lacks_adjacent(s, 'N', 'U'),
{
    reveal_strlit(" AND c.deleted_at IS NULL");
    let p = not_deleted_clause();
    let i = choose|i: int| crate::text::occurs_at(s, p, i);
    assert(s.subrange(i, i + p.len()) == p);
    assert(s[i + 21] == p[21] && s[i + 22] == p[22]);
}

proof fn lemma_listing_pieces_lack_nu()
    ensures
        lacks_adjacent(mysql_list_head(), 'N', 'U'),
        lacks_adjacent(
            " AND (c.title LIKE :q OR c.summary LIKE :q OR c.tags LIKE :q OR cc.content LIKE :q)"@,
            'N',
            'U',
        ),
        lacks_adjacent(" AND c.card_type=:type"@, 'N', 'U'),
        lacks_adjacent(" AND c.status=:status"@, 'N', 'U'),
        lacks_adjacent(" AND JSON_CONTAINS(c.tags, JSON_QUOTE(:tag))"@, 'N', 'U'),
        lacks_adjacent(" ORDER BY c.updated_at DESC"@, 'N', 'U'),
        " AND (c.title LIKE :q OR c.summary LIKE :q OR c.tags LIKE :q OR cc.content LIKE :q)"@[0]
            == ' ',
        " AND c.card_type=:type"@[0] == ' ',
        " AND c.status=:status"@[0] == ' ',
        " AND JSON_CONTAINS(c.tags, JSON_QUOTE(:tag))"@[0] == ' ',
        " ORDER BY c.updated_at DESC"@[0] == ' ',
{
    reveal_strlit("SELECT c.id,c.title,c.summary,c.card_type,c.tags,c.source,c.source_path,c.visibility,c.status,c.favorite,CAST(UNIX_TIMESTAMP(c.created_at) AS SIGNED),CAST(UNIX_TIMESTAMP(c.updated_at) AS SIGNED),CAST(UNIX_TIMESTAMP(c.deleted_at) AS SIGNED),COALESCE(cc.content,'') FROM cards c LEFT JOIN card_contents cc ON cc.card_id=c.id WHERE 1=1");
    reveal_strlit(" AND (c.title LIKE :q OR c.summary LIKE :q OR c.tags LIKE :q OR cc.content LIKE :q)");
    reveal_strlit(" AND c.card_type=:type");
    reveal_strlit(" AND c.status=:status");
    reveal_strlit(" AND JSON_CONTAINS(c.tags, JSON_QUOTE(:tag))");
    reveal_strlit(" ORDER BY c.updated_at DESC");
    let h = mysql_list_head();
    assert(h.len() == 332);
    reveal_with_fuel(adjacent_free_from, 25);
    assert(adjacent_free_from(h, 'N', 'U', 320));
    assert(adjacent_free_from(h, 'N', 'U', 300));
    assert(adjacent_free_from(h, 'N', 'U', 280));
    assert(adjacent_free_from(h, 'N', 'U', 260));
    assert(adjacent_free_from(h, 'N', 'U', 240));
    assert(adjacent_free_from(h, 'N', 'U', 220));
    assert(adjacent_free_from(h, 'N', 'U', 200));
    assert(adjacent_free_from(h, 'N', 'U', 180));
    assert(adjacent_free_from(h, 'N', 'U', 160));
    assert(adjacent_free_from(h, 'N', 'U', 140));
    assert(adjacent_free_from(h, 'N', 'U', 120));
    assert(adjacent_free_from(h, 'N', 'U', 100));
    assert(adjacent_free_from(h, 'N', 'U', 80));
    assert(adjacent_free_from(h, 'N', 'U', 60));
    assert(adjacent_free_from(h, 'N', 'U', 40));
    assert(adjacent_free_from(h, 'N', 'U', 20));
    assert(adjacent_free_from(h, 'N', 'U', 0));
    lemma_adjacent_free_from(h, 'N', 'U', 0);
    let kw = " AND (c.title LIKE :q OR c.summary LIKE :q OR c.tags LIKE :q OR cc.content LIKE :q)"@;
    assert(adjacent_free_from(kw, 'N', 'U', 60));
    assert(adjacent_free_from(kw, 'N', 'U', 40));
    assert(adjacent_free_from(kw, 'N', 'U', 20));
    assert(adjacent_free_from(kw, 'N', 'U', 0));
    lemma_adjacent_free_from(kw, 'N', 'U', 0);
    let ty = " AND c.card_type=:type"@;
    assert(adjacent_free_from(ty, 'N', 'U', 0));
    lemma_adjacent_free_from(ty, 'N', 'U', 0);
    let st = " AND c.status=:status"@;
    assert(adjacent_free_from(st, 'N', 'U', 0));
    lemma_adjacent_free_from(st, 'N', 'U', 0);
    let tg = " AND JSON_CONTAINS(c.tags, JSON_QUOTE(:tag))"@;
    assert(adjacent_free_from(tg, 'N', 'U', 20));
    assert(adjacent_free_from(tg, 'N', 'U', 0));
    lemma_adjacent_free_from(tg, 'N', 'U', 0);
    let ord = " ORDER BY c.updated_at DESC"@;
    assert(adjacent_free_from(ord, 'N', 'U', 10));
    assert(adjacent_free_from(ord, 'N', 'U', 0));
    lemma_adjacent_free_from(ord, 'N', 'U', 0);
}

proof fn lemma_with_param_lacks_nu(
    acc: Listing,
    params: Map<Seq<char>, Seq<char>>,
    name: Seq<char>,
    clause: Seq<char>,
)
    requires
        lacks_adjacent(acc.0, 'N', 'U'),
        lacks_adjacent(clause, 'N', 'U'),
        clause.len() > 0 ==> clause[0] == ' ',
    ensures
        lacks_adjacent(with_param(acc, params, name, clause).0, 'N', 'U'),
{
    lemma_lacks_adjacent_concat(acc.0, clause, 'N', 'U');
}

/// With `include_deleted` set to `1` a MySQL listing keeps the cards in
/// the recycle bin: its statement holds no condition on `deleted_at`.
pub proof fn lemma_include_deleted_keeps_recycle_bin(params: Map<Seq<char>, Seq<char>>)
    requires
        params.contains_key("include_deleted"@),
        params["include_deleted"@] == "1"@,
    ensures
        !crate::text::text_contains(mysql_listing_of(params).0, not_deleted_clause()),
{
    lemma_listing_pieces_lack_nu();
    let q = listing_keywords(params);
    let start: Listing = (mysql_list_head(), Seq::empty());
    let kw = " AND (c.title LIKE :q OR c.summary LIKE :q OR c.tags LIKE :q OR cc.content LIKE :q)"@;
    let a: Listing = if !is_blank_text(q) {
        (start.0 + kw, seq![("q"@, "%"@ + q + "%"@)])
    } else {
        start
    };
    if !is_blank_text(q) {
        lemma_lacks_adjacent_concat(start.0, kw, 'N', 'U');
    }
    let b = with_param(a, params, "type"@, " AND c.card_type=:type"@);
    lemma_with_param_lacks_nu(a, params, "type"@, " AND c.card_type=:type"@);
    let c = with_param(b, params, "status"@, " AND c.status=:status"@);
    lemma_with_param_lacks_nu(b, params, "status"@, " AND c.status=:status"@);
    let d = with_param(c, params, "tag"@, " AND JSON_CONTAINS(c.tags, JSON_QUOTE(:tag))"@);
    lemma_with_param_lacks_nu(c, params, "tag"@, " AND JSON_CONTAINS(c.tags, JSON_QUOTE(:tag))"@);
    let ord = " ORDER BY c.updated_at DESC"@;
    lemma_lacks_adjacent_concat(d.0, ord, 'N', 'U');
    assert(mysql_listing_of(params).0 == d.0 + ord);
    if crate::text::text_contains(mysql_listing_of(params).0, not_deleted_clause()) {
        lemma_clause_needs_nu(mysql_listing_of(params).0);
    }
}

fn add_param(
    sql: &mut String,
    binds: &mut Vec<(String, String)>,
    params: &QueryParams,
    name: &str,
    clause: &str,
)
    ensures
        (final(sql)@, crate::query::pair_texts(final(binds)@)) == with_param(
            (old(sql)@, crate::query::pair_texts(old(binds)@)),
            params@,
            name@,
            clause@,
        ),
{
    match params.get(name) {
        Some(v) => {
            push_text(sql, clause);
            let ghost before = binds@;
            binds.push((owned(name), v));
            assert(crate::query::pair_texts(binds@) == crate::query::pair_texts(before).push(
                (name@, params@[name@]),
            ));
        },
        None => {},
    }
}

/// The MySQL statement that lists cards for the request parameters.
pub fn mysql_card_listing(params: &QueryParams) -> (r: NamedQuery)
    ensures
        (r.sql@, crate::query::pair_texts(r.binds@)) == mysql_listing_of(params@),
{
    let query = match params.get("query") {
        Some(q) => q,
        None => String::new(),
    };
    let mut sql = owned(
        "SELECT c.id,c.title,c.summary,c.card_type,c.tags,c.source,c.source_path,c.visibility,c.status,c.favorite,CAST(UNIX_TIMESTAMP(c.created_at) AS SIGNED),CAST(UNIX_TIMESTAMP(c.updated_at) AS SIGNED),CAST(UNIX_TIMESTAMP(c.deleted_at) AS SIGNED),COALESCE(cc.content,'') FROM cards c LEFT JOIN card_contents cc ON cc.card_id=c.id WHERE 1=1",
    );
    let mut binds: Vec<(String, String)> = Vec::new();
    if !is_blank(query.as_str()) {
        push_text(
            &mut sql,
            " AND (c.title LIKE :q OR c.summary LIKE :q OR c.tags LIKE :q OR cc.content LIKE :q)",
        );
        let mut pattern = owned("%");
        push_text(&mut pattern, query.as_str());
        push_text(&mut pattern, "%");
        binds.push((owned("q"), pattern));
        assert(crate::query::pair_texts(binds@) =~= seq![("q"@, "%"@ + query@ + "%"@)]);
    } else {
        assert(crate::query::pair_texts(binds@) =~= Seq::<(Seq<char>, Seq<char>)>::empty());
    }
    add_param(&mut sql, &mut binds, params, "type", " AND c.card_type=:type");
    add_param(&mut sql, &mut binds, params, "status", " AND c.status=:status");
    add_param(&mut sql, &mut binds, params, "tag", " AND JSON_CONTAINS(c.tags, JSON_QUOTE(:tag))");
    if !params.has_value("include_deleted", "1") {
        push_text(&mut sql, " AND c.deleted_at IS NULL");
    }
    push_text(&mut sql, " ORDER BY c.updated_at DESC");
    NamedQuery { sql, binds }
}

/// The keywords of a MySQL search and the parameters of the listing it
/// runs: the request's, with `query` set to the keywords.
pub fn mysql_search_listing(params: &QueryParams) -> (r: Result<(String, NamedQuery), String>)
    ensures
        is_blank_text(search_text(params@)) ==> (r matches Err(e) && e@
            == crate::query::msg_search_keyword_missing()),
        !is_blank_text(search_text(params@)) ==> (r matches Ok((q, l)) && q@ == search_text(
            params@,
        ) && (l.sql@, crate::query::pair_texts(l.binds@)) == mysql_listing_of(
            params@.insert("query"@, search_text(params@)),
        )),
{
    let query = search_query(params)?;
    let mut search = params.duplicate();
    search.insert(owned("query"), query.clone());
    let listing = mysql_card_listing(&search);
    Ok((query, listing))
}

// ---------------------------------------------------------------------------
// SQLite card listing and context search
// ---------------------------------------------------------------------------

/// A statement with positional parameters.
pub struct PositionalQuery {
    pub sql: String,
    pub values: Vec<String>,
}

/// The SQLite listing of all cards outside the recycle bin.
pub open spec fn sqlite_list_all() -> Seq<char> {
    "SELECT id,title,summary,card_type,tags,source,source_path,visibility,status,content_path,favorite,created_at,updated_at,deleted_at FROM cards WHERE deleted_at IS NULL ORDER BY updated_at DESC"@
}

/// The start of a filtered SQLite listing, before its conditions.
pub open spec fn sqlite_filter_head() -> Seq<char> {
    "SELECT cards.id,cards.title,cards.summary,cards.card_type,cards.tags,cards.source,cards.source_path,cards.visibility,cards.status,cards.content_path,cards.favorite,cards.created_at,cards.updated_at,deleted_at FROM cards JOIN cards_fts ON cards_fts.id = cards.id WHERE "@
}

/// The end of a filtered SQLite listing, after its conditions.
pub open spec fn sqlite_filter_tail() -> Seq<char> {
    " ORDER BY cards.updated_at DESC"@
}

/// Conditions and values so far.
pub type Filters = (Seq<Seq<char>>, Seq<Seq<char>>);

/// Adds a condition on parameter `name` with its value, when it is set.
pub open spec fn with_filter(
    acc: Filters,
    params: Map<Seq<char>, Seq<char>>,
    name: Seq<char>,
    clause: Seq<char>,
) -> Filters {
    if params.contains_key(name) {
        (acc.0.push(clause), acc.1.push(params[name]))
    } else {
        acc
    }
}

/// The conditions of a SQLite listing: the lower-cased `query` keywords as
/// a full-text prefix match, then exact `type`, `status` and `tag`.
pub open spec fn sqlite_filters_of(params: Map<Seq<char>, Seq<char>>) -> Filters {
    let start: Filters = if params.contains_key("query"@) {
        (seq!["cards_fts MATCH ?"@], seq![lowercase_text(params["query"@]) + "*"@])
    } else {
        (Seq::empty(), Seq::empty())
    };
    let b = with_filter(start, params, "type"@, "cards.card_type = ?"@);
    let c = with_filter(b, params, "status"@, "cards.status = ?"@);
    with_filter(
        c,
        params,
        "tag"@,
        "EXISTS (SELECT 1 FROM json_each(cards.tags) WHERE json_each.value = ?)"@,
    )
}

/// The SQLite card listing: every card outside the recycle bin when no
/// filter is given, else the cards meeting all conditions.
pub open spec fn sqlite_listing_of(params: Map<Seq<char>, Seq<char>>) -> (Seq<char>, Seq<
    Seq<char>,
>) {
    let f = sqlite_filters_of(params);
    if f.0.len() == 0 {
        (sqlite_list_all(), Seq::empty())
    } else {
        (sqlite_filter_head() + join_texts(f.0, " AND "@) + sqlite_filter_tail(), f.1)
    }
}

fn add_filter(
    clauses: &mut Vec<String>,
    values: &mut Vec<String>,
    params: &QueryParams,
    name: &str,
    clause: &str,
)
    ensures
        (texts(final(clauses)@), texts(final(values)@)) == with_filter(
            (texts(old(clauses)@), texts(old(values)@)),
            params@,
            name@,
            clause@,
        ),
{
    match params.get(name) {
        Some(v) => {
            let ghost c0 = clauses@;
            let ghost v0 = values@;
            clauses.push(owned(clause));
            values.push(v);
            assert(texts(clauses@) == texts(c0).push(clause@));
            assert(texts(values@) == texts(v0).push(params@[name@]));
        },
        None => {},
    }
}

/// The SQLite statement that lists cards for the request parameters.
pub fn sqlite_card_listing(params: &QueryParams) -> (r: PositionalQuery)
    ensures
        (r.sql@, texts(r.values@)) == sqlite_listing_of(params@),
{
    let mut clauses: Vec<String> = Vec::new();
    let mut values: Vec<String> = Vec::new();
    match params.get("query") {
        Some(q) => {
            clauses.push(owned("cards_fts MATCH ?"));
            let mut pattern = to_lowercase(q.as_str());
            push_text(&mut pattern, "*");
            values.push(pattern);
            assert(texts(clauses@) =~= seq!["cards_fts MATCH ?"@]);
            assert(texts(values@) =~= seq![lowercase_text(params@["query"@]) + "*"@]);
        },
        None => {
            assert(texts(clauses@) =~= Seq::<Seq<char>>::empty());
            assert(texts(values@) =~= Seq::<Seq<char>>::empty());
        },
    }
    add_filter(&mut clauses, &mut values, params, "type", "cards.card_type = ?");
    add_filter(&mut clauses, &mut values, params, "status", "cards.status = ?");
    add_filter(
        &mut clauses,
        &mut values,
        params,
        "tag",
        "EXISTS (SELECT 1 FROM json_each(cards.tags) WHERE json_each.value = ?)",
    );
    if clauses.len() == 0 {
        let v: Vec<String> = Vec::new();
        assert(texts(v@) =~= Seq::<Seq<char>>::empty());
        return PositionalQuery {
            sql: owned(
                "SELECT id,title,summary,card_type,tags,source,source_path,visibility,status,content_path,favorite,created_at,updated_at,deleted_at FROM cards WHERE deleted_at IS NULL ORDER BY updated_at DESC",
            ),
            values: v,
        };
    }
    let mut sql = owned(
        "SELECT cards.id,cards.title,cards.summary,cards.card_type,cards.tags,cards.source,cards.source_path,cards.visibility,cards.status,cards.content_path,cards.favorite,cards.created_at,cards.updated_at,deleted_at FROM cards JOIN cards_fts ON cards_fts.id = cards.id WHERE ",
    );
    let joined = join(&clauses, " AND ");
    push_text(&mut sql, joined.as_str());
    push_text(&mut sql, " ORDER BY cards.updated_at DESC");
    PositionalQuery { sql, values }
}

/// A full-text context search: the keywords, the prefix pattern matched
/// and how many cards to return.
pub struct ContextSearch {
    pub query: String,
    pub pattern: String,
    pub limit: usize,
}

/// The best-ranked cards outside the recycle bin whose text matches the
/// pattern.
pub open spec fn context_search_sql() -> Seq<char> {
    "SELECT cards.id,cards.title,cards.summary,cards.card_type,cards.tags,cards.source,cards.source_path,cards.visibility,cards.status,cards.content_path,cards.favorite,cards.created_at,cards.updated_at,cards.deleted_at FROM cards JOIN cards_fts ON cards_fts.id=cards.id WHERE cards.deleted_at IS NULL AND cards_fts MATCH ?1 ORDER BY bm25(cards_fts) LIMIT ?2"@
}

/// The statement of a context search.
pub fn context_search_statement() -> (r: String)
    ensures
        r@ == context_search_sql(),
{
    owned(
        "SELECT cards.id,cards.title,cards.summary,cards.card_type,cards.tags,cards.source,cards.source_path,cards.visibility,cards.status,cards.content_path,cards.favorite,cards.created_at,cards.updated_at,cards.deleted_at FROM cards JOIN cards_fts ON cards_fts.id=cards.id WHERE cards.deleted_at IS NULL AND cards_fts MATCH ?1 ORDER BY bm25(cards_fts) LIMIT ?2",
    )
}

/// Plans a context search: blank keywords are refused; the pattern is the
/// keywords followed by `*`; at most `limit` cards (5 by default, at most
/// 20).
pub fn plan_context_search(params: &QueryParams) -> (r: Result<ContextSearch, String>)
    ensures
        is_blank_text(search_text(params@)) ==> (r matches Err(e) && e@
            == crate::query::msg_search_keyword_missing()),
        !is_blank_text(search_text(params@)) ==> (r matches Ok(s) && s.query@ == search_text(
            params@,
        ) && s.pattern@ == search_text(params@) + "*"@ && s.limit == limit_of(params@, 5, 20)),
{
    let query = search_query(params)?;
    let limit = context_limit(params);
    let mut pattern = query.clone();
    push_text(&mut pattern, "*");
    Ok(ContextSearch { query, pattern, limit })
}

// ---------------------------------------------------------------------------
// SQLite card update
// ---------------------------------------------------------------------------

/// The columns a patch sets, with their values, in order: the change
/// stamp, then title, summary and status when given, the tags (as their
/// JSON) and the favourite flag (`1` or `0`) when given.
pub open spec fn assignments_of(stamp: Seq<char>, patch: PatchText) -> Seq<(Seq<char>, Seq<char>)> {
    let a = seq![("updated_at"@, stamp)];
    let b = match patch.title {
        Some(v) => a.push(("title"@, v)),
        None => a,
    };
    let c = match patch.summary {
        Some(v) => b.push(("summary"@, v)),
        None => b,
    };
    let d = match patch.status {
        Some(v) => c.push(("status"@, v)),
        None => c,
    };
    let e = match patch.tags {
        Some(t) => d.push(("tags"@, json_of_texts(t))),
        None => d,
    };
    match patch.favorite {
        Some(f) => e.push(
            (
                "favorite"@,
                if f {
                    "1"@
                } else {
                    "0"@
                },
            ),
        ),
        None => e,
    }
}

/// `column=?n` for the `n`-th (from 1) assignment.
pub open spec fn numbered_sets(a: Seq<(Seq<char>, Seq<char>)>) -> Seq<Seq<char>> {
    Seq::new(a.len(), |i: int| a[i].0 + "=?"@ + decimal((i + 1) as nat))
}

/// The SQLite update of card `id` for a patch made at `stamp`, with its
/// positional values; the card id is the last value.
pub open spec fn sqlite_update_of(stamp: Seq<char>, id: Seq<char>, patch: PatchText) -> (Seq<
    char,
>, Seq<Seq<char>>) {
    let a = assignments_of(stamp, patch);
    (
        "UPDATE cards SET "@ + join_texts(numbered_sets(a), ","@) + " WHERE id=?"@ + decimal(
            (a.len() + 1) as nat,
        ),
        a.map_values(|p: (Seq<char>, Seq<char>)| p.1).push(id),
    )
}

/// The state of an update being assembled: `sets` and `values` follow the
/// assignments `done`.
pub open spec fn assembled(sets: Seq<String>, values: Seq<String>, done: Seq<(Seq<char>, Seq<char>)>) -> bool {
    &&& texts(sets) == numbered_sets(done)
    &&& texts(values) == done.map_values(|p: (Seq<char>, Seq<char>)| p.1)
    &&& values.len() == done.len()
}

fn assign(
    sets: &mut Vec<String>,
    values: &mut Vec<String>,
    column: &str,
    value: String,
    Ghost(done): Ghost<Seq<(Seq<char>, Seq<char>)>>,
)
    requires
        assembled(old(sets)@, old(values)@, done),
        done.len() < 1000,
    ensures
        assembled(final(sets)@, final(values)@, done.push((column@, value@))),
{
    let ghost v0 = values@;
    let ghost s0 = sets@;
    let ghost val = value@;
    values.push(value);
    let mut set = owned(column);
    push_text(&mut set, "=?");
    push_decimal(&mut set, values.len() as u64);
    sets.push(set);
    let ghost d1 = done.push((column@, val));
    assert(texts(values@) == texts(v0).push(val));
    assert(texts(sets@) == texts(s0).push(column@ + "=?"@ + decimal(values@.len() as nat)));
    assert(texts(sets@) =~= numbered_sets(d1));
    assert(texts(values@) =~= d1.map_values(|p: (Seq<char>, Seq<char>)| p.1));
}

/// The SQLite statement that applies a patch made at `stamp` to card `id`;
/// it is always built.
pub fn sqlite_update_statement(patch: &CardPatch, stamp: &str, id: &str) -> (r: Result<
    PositionalQuery,
    String,
>)
    ensures
        r matches Ok(q) && (q.sql@, texts(q.values@)) == sqlite_update_of(stamp@, id@, patch@),
{
    let ghost a = assignments_of(stamp@, patch@);
    let mut sets: Vec<String> = Vec::new();
    let mut values: Vec<String> = Vec::new();
    let ghost mut done: Seq<(Seq<char>, Seq<char>)> = Seq::empty();
    assert(assembled(sets@, values@, done)) by {
        assert(texts(sets@) =~= numbered_sets(done));
        assert(texts(values@) =~= done.map_values(|p: (Seq<char>, Seq<char>)| p.1));
    }
    assign(&mut sets, &mut values, "updated_at", owned(stamp), Ghost(done));
    proof {
        done = done.push(("updated_at"@, stamp@));
    }
    if let Some(v) = &patch.title {
        assign(&mut sets, &mut values, "title", v.clone(), Ghost(done));
        proof {
            done = done.push(("title"@, v@));
        }
    }
    if let Some(v) = &patch.summary {
        assign(&mut sets, &mut values, "summary", v.clone(), Ghost(done));
        proof {
            done = done.push(("summary"@, v@));
        }
    }
    if let Some(v) = &patch.status {
        assign(&mut sets, &mut values, "status", v.clone(), Ghost(done));
        proof {
            done = done.push(("status"@, v@));
        }
    }
    if let Some(t) = &patch.tags {
        let j = tags_json(t)?;
        let ghost jv = j@;
        assign(&mut sets, &mut values, "tags", j, Ghost(done));
        proof {
            done = done.push(("tags"@, jv));
        }
    }
    if let Some(f) = patch.favorite {
        let v = if f {
            owned("1")
        } else {
            owned("0")
        };
        let ghost vv = v@;
        assign(&mut sets, &mut values, "favorite", v, Ghost(done));
        proof {
            done = done.push(("favorite"@, vv));
        }
    }
    assert(done == a);
    let mut sql = owned("UPDATE cards SET ");
    let joined = join(&sets, ",");
    push_text(&mut sql, joined.as_str());
    push_text(&mut sql, " WHERE id=?");
    push_decimal(&mut sql, (values.len() + 1) as u64);
    let ghost v0 = values@;
    values.push(owned(id));
    assert(texts(values@) == texts(v0).push(id@));
    Ok(PositionalQuery { sql, values })
}

} // verus!
