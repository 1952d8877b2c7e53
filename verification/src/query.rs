//! Request URLs: percent decoding, query parameters and the values the
//! endpoints read from them.
use vstd::prelude::*;
use vstd::utf8::{
    decode_utf8, encode_scalar, encode_utf8, encode_utf8_decode_utf8, encode_utf8_valid_utf8,
    valid_utf8,
};
use crate::text::{
    is_blank, is_blank_text, owned, parse_usize, parsed_usize,
    chars_of, find_char, lemma_index_of_char, split_on, split_once, sub_chars,
    string_of_range,
};

verus! {

// ---------------------------------------------------------------------------
// Percent decoding
// ---------------------------------------------------------------------------

/// The value of an ASCII hexadecimal digit.
pub open spec fn hex_value(b: u8) -> Option<u8> {
    if 48 <= b <= 57 {
        Some((b - 48) as u8)
    } else if 97 <= b <= 102 {
        Some((b - 87) as u8)
    } else if 65 <= b <= 70 {
        Some((b - 55) as u8)
    } else {
        None
    }
}

/// Byte-level decoding: `%` followed by two hexadecimal digits stands for
/// the byte they spell, `+` stands for a space, any other byte for itself.
/// A `%` whose two digits are missing or invalid is kept as it is.
pub open spec fn unescape(s: Seq<u8>) -> Seq<u8>
    decreases s.len(),
{
    if s.len() == 0 {
        seq![]
    } else if s[0] == 37 && 2 < s.len() && hex_value(s[1]) is Some && hex_value(s[2]) is Some {
        seq![(hex_value(s[1])->0 * 16 + hex_value(s[2])->0) as u8] + unescape(
            s.subrange(3, s.len() as int),
        )
    } else {
        seq![
            if s[0] == 43 {
                32u8
            } else {
                s[0]
            },
        ] + unescape(s.drop_first())
    }
}

/// What `String::from_utf8_lossy` makes of a byte sequence.
pub uninterp spec fn utf8_lossy(bytes: Seq<u8>) -> Seq<char>;

/// `String::from_utf8_lossy`: the bytes read as UTF-8, each invalid
/// sequence replaced by U+FFFD. Of the result this states its name and
/// that valid UTF-8 comes back as the text it encodes; how invalid input is
/// repaired is left unsaid.
#[verifier::external_body]
fn from_utf8_lossy(bytes: &[u8]) -> (r: String)
    ensures
        r@ == utf8_lossy(bytes@),
        valid_utf8(bytes@) ==> r@ == decode_utf8(bytes@),
{
    String::from_utf8_lossy(bytes).into_owned()
}

/// A percent-decoded text: the UTF-8 bytes of `s`, unescaped, read back
/// as UTF-8 with invalid sequences replaced.
pub open spec fn percent_decoded(s: Seq<char>) -> Seq<char> {
    utf8_lossy(unescape(encode_utf8(s)))
}

fn hex_digit(b: u8) -> (r: Option<u8>)
    ensures
        r == hex_value(b),
{
    if 48 <= b && b <= 57 {
        Some(b - 48)
    } else if 97 <= b && b <= 102 {
        Some(b - 87)
    } else if 65 <= b && b <= 70 {
        Some(b - 55)
    } else {
        None
    }
}

/// Unescapes a byte sequence.
pub fn unescape_bytes(bytes: &[u8]) -> (out: Vec<u8>)
    ensures
        out@ == unescape(bytes@),
{
    let mut out: Vec<u8> = Vec::new();
    let mut index: usize = 0;
    let n = bytes.len();
    assert(bytes@.subrange(0, n as int) == bytes@);
    assert(out@ + unescape(bytes@) == unescape(bytes@));
    while index < n
        invariant
            index <= n,
            n == bytes@.len(),
            out@ + unescape(bytes@.subrange(index as int, n as int)) == unescape(bytes@),
        decreases n - index,
    {
        let ghost rest = bytes@.subrange(index as int, n as int);
        if bytes[index] == 37 && n - index > 2 {
            let high = hex_digit(bytes[index + 1]);
            let low = hex_digit(bytes[index + 2]);
            if let (Some(h), Some(l)) = (high, low) {
                assert(rest.subrange(3, rest.len() as int) == bytes@.subrange(index + 3, n as int));
                out.push(h * 16 + l);
                index += 3;
                continue;
            }
        }
        assert(rest.drop_first() == bytes@.subrange(index + 1, n as int));
        out.push(if bytes[index] == 43 { 32u8 } else { bytes[index] });
        index += 1;
    }
    assert(bytes@.subrange(n as int, n as int) =~= Seq::<u8>::empty());
    assert(out@ + Seq::<u8>::empty() == out@);
    out
}

/// Decodes a percent-encoded URL component; `+` reads as a space. A text
/// without `%` and `+` comes back unchanged, and the percent encoding of a
/// text's UTF-8 bytes, in digits of either case, decodes back to that text.
pub fn percent_decode(value: &str) -> (r: String)
    ensures
        r@ == percent_decoded(value@),
        valid_utf8(unescape(encode_utf8(value@))) ==> r@ == decode_utf8(
            unescape(encode_utf8(value@)),
        ),
        (forall|i: int| 0 <= i < value@.len() ==> value@[i] != '%' && value@[i] != '+') ==> r@
            == value@,
        forall|s: Seq<char>| percent_escaped(value@, #[trigger] encode_utf8(s)) ==> r@ == s,
{
    let out = unescape_bytes(value.as_bytes());
    proof {
        if forall|i: int| 0 <= i < value@.len() ==> value@[i] != '%' && value@[i] != '+' {
            lemma_percent_decode_plain(value@);
        }
    }
    let r = from_utf8_lossy(out.as_slice());
    proof {
        assert forall|s: Seq<char>| percent_escaped(value@, #[trigger] encode_utf8(s)) implies r@
            == s by {
            lemma_percent_decode_undoes_encoding(s, value@);
        }
    }
    r
}

proof fn lemma_unescape_plain_prefix(a: Seq<u8>, b: Seq<u8>)
    requires
        forall|i: int| 0 <= i < a.len() ==> a[i] != 37 && a[i] != 43,
    ensures
        unescape(a + b) == a + unescape(b),
    decreases a.len(),
{
    if a.len() > 0 {
        let ab = a + b;
        assert(ab.drop_first() == a.drop_first() + b);
        lemma_unescape_plain_prefix(a.drop_first(), b);
        assert(a == seq![a[0]] + a.drop_first());
    } else {
        assert(a + b == b);
    }
}

proof fn lemma_encode_scalar_plain(c: char)
    requires
        c != '%',
        c != '+',
    ensures
        forall|i: int|
            0 <= i < encode_scalar(c as u32).len() ==> #[trigger] encode_scalar(c as u32)[i] != 37
                && encode_scalar(c as u32)[i] != 43,
{
    let u = c as u32;
    assert(forall|x: u32| #[trigger] (0xC0 | ((x >> 6) & 0x1F) as u8) >= 0x80) by (bit_vector);
    assert(forall|x: u32| #[trigger] (0xE0 | ((x >> 12) & 0x0F) as u8) >= 0x80) by (bit_vector);
    assert(forall|x: u32| #[trigger] (0xF0 | ((x >> 18) & 0x7) as u8) >= 0x80) by (bit_vector);
    assert(forall|x: u32| #[trigger] (0x80 | (x & 0x3F) as u8) >= 0x80) by (bit_vector);
    assert(forall|x: u32| #[trigger] (0x80 | ((x >> 6) & 0x3F) as u8) >= 0x80) by (bit_vector);
    assert(forall|x: u32| #[trigger] (0x80 | ((x >> 12) & 0x3F) as u8) >= 0x80) by (bit_vector);
    assert(forall|x: u32| x <= 0x7F ==> #[trigger] ((x & 0x7F) as u8) == x) by (bit_vector);
}

proof fn lemma_unescape_plain_text(s: Seq<char>)
    requires
        forall|i: int| 0 <= i < s.len() ==> s[i] != '%' && s[i] != '+',
    ensures
        unescape(encode_utf8(s)) == encode_utf8(s),
    decreases s.len(),
{
    if s.len() > 0 {
        lemma_encode_scalar_plain(s[0]);
        lemma_unescape_plain_text(s.drop_first());
        lemma_unescape_plain_prefix(encode_scalar(s[0] as u32), encode_utf8(s.drop_first()));
    }
}

proof fn lemma_percent_decode_plain(s: Seq<char>)
    requires
        forall|i: int| 0 <= i < s.len() ==> s[i] != '%' && s[i] != '+',
    ensures
        valid_utf8(unescape(encode_utf8(s))),
        decode_utf8(unescape(encode_utf8(s))) == s,
{
    lemma_unescape_plain_text(s);
    encode_utf8_valid_utf8(s);
    encode_utf8_decode_utf8(s);
}

/// The value of a hexadecimal digit character, of either case.
pub open spec fn hex_char_value(c: char) -> Option<u8> {
    if '0' <= c <= '9' {
        Some((c as u32 - 48) as u8)
    } else if 'a' <= c <= 'f' {
        Some((c as u32 - 87) as u8)
    } else if 'A' <= c <= 'F' {
        Some((c as u32 - 55) as u8)
    } else {
        None
    }
}

/// `t` spells `bytes` in percent encoding: each byte as `%` followed by two
/// hexadecimal digits of either case, the high one first.
pub open spec fn percent_escaped(t: Seq<char>, bytes: Seq<u8>) -> bool
    decreases bytes.len(),
{
    if bytes.len() == 0 {
        t.len() == 0
    } else {
        &&& t.len() >= 3
        &&& t[0] == '%'
        &&& hex_char_value(t[1]) == Some((bytes[0] / 16) as u8)
        &&& hex_char_value(t[2]) == Some((bytes[0] % 16) as u8)
        &&& percent_escaped(t.skip(3), bytes.drop_first())
    }
}

proof fn lemma_ascii_char_byte(c: char)
    requires
        c <= '\u{7f}',
    ensures
        (c as u8) as u32 == c as u32,
        encode_scalar(c as u32) == seq![c as u8],
{
    let u = c as u32;
    assert((u as u8) as u32 == u && (u & 0x7F) as u8 == u as u8) by (bit_vector)
        requires
            u < 128,
    ;
}

proof fn lemma_hex_char_byte(c: char)
    requires
        hex_char_value(c) is Some,
    ensures
        c <= '\u{7f}',
        hex_value(c as u8) == hex_char_value(c),
        encode_scalar(c as u32) == seq![c as u8],
{
    lemma_ascii_char_byte(c);
}

proof fn lemma_unescape_escaped(t: Seq<char>, bytes: Seq<u8>)
    requires
        percent_escaped(t, bytes),
    ensures
        unescape(encode_utf8(t)) == bytes,
    decreases bytes.len(),
{
    if bytes.len() == 0 {
        assert(t =~= Seq::<char>::empty());
        assert(bytes =~= Seq::<u8>::empty());
    } else {
        let rest = t.skip(3);
        lemma_unescape_escaped(rest, bytes.drop_first());
        lemma_ascii_char_byte(t[0]);
        lemma_hex_char_byte(t[1]);
        lemma_hex_char_byte(t[2]);
        let t1 = t.drop_first();
        let t2 = t1.drop_first();
        assert(t2.drop_first() =~= rest);
        let e = encode_utf8(t);
        assert(encode_utf8(t2) == seq![t[2] as u8] + encode_utf8(rest));
        assert(encode_utf8(t1) == seq![t[1] as u8] + encode_utf8(t2));
        assert(e == seq![t[0] as u8] + encode_utf8(t1));
        assert(e =~= seq![t[0] as u8, t[1] as u8, t[2] as u8] + encode_utf8(rest));
        assert(e.subrange(3, e.len() as int) =~= encode_utf8(rest));
        let b0 = bytes[0];
        assert(b0 / 16 * 16 + b0 % 16 == b0);
        assert(bytes =~= seq![b0] + bytes.drop_first());
    }
}

/// Percent decoding undoes percent encoding: a text that spells, as `%`
/// and two hexadecimal digits of either case, each byte of the UTF-8
/// encoding of `s` unescapes to valid UTF-8 that reads back as `s`.
pub proof fn lemma_percent_decode_undoes_encoding(s: Seq<char>, t: Seq<char>)
    requires
        percent_escaped(t, encode_utf8(s)),
    ensures
        valid_utf8(unescape(encode_utf8(t))),
        decode_utf8(unescape(encode_utf8(t))) == s,
{
    lemma_unescape_escaped(t, encode_utf8(s));
    encode_utf8_valid_utf8(s);
    encode_utf8_decode_utf8(s);
}

// ---------------------------------------------------------------------------
// Query parameters
// ---------------------------------------------------------------------------

/// The map that a sequence of name/value pairs sets up when they are
/// inserted in order: a later value for a name replaces an earlier one.
pub open spec fn pairs_map(s: Seq<(Seq<char>, Seq<char>)>) -> Map<Seq<char>, Seq<char>>
    decreases s.len(),
{
    if s.len() == 0 {
        Map::empty()
    } else {
        pairs_map(s.drop_last()).insert(s.last().0, s.last().1)
    }
}

/// The texts of a list of string pairs.
pub open spec fn pair_texts(e: Seq<(String, String)>) -> Seq<(Seq<char>, Seq<char>)> {
    e.map_values(|p: (String, String)| (p.0@, p.1@))
}

/// Named query parameters, each name holding one value.
pub struct QueryParams {
    entries: Vec<(String, String)>,
}

impl View for QueryParams {
    type V = Map<Seq<char>, Seq<char>>;

    closed spec fn view(&self) -> Map<Seq<char>, Seq<char>> {
        pairs_map(pair_texts(self.entries@))
    }
}

proof fn lemma_pairs_map_found(s: Seq<(Seq<char>, Seq<char>)>, k: Seq<char>, j: int)
    requires
        0 <= j < s.len(),
        s[j].0 == k,
        forall|t: int| j < t < s.len() ==> s[t].0 != k,
    ensures
        pairs_map(s).contains_key(k),
        pairs_map(s)[k] == s[j].1,
    decreases s.len(),
{
    if j < s.len() - 1 {
        lemma_pairs_map_found(s.drop_last(), k, j);
    }
}

proof fn lemma_pairs_map_absent(s: Seq<(Seq<char>, Seq<char>)>, k: Seq<char>)
    requires
        forall|t: int| 0 <= t < s.len() ==> s[t].0 != k,
    ensures
        !pairs_map(s).contains_key(k),
    decreases s.len(),
{
    if s.len() > 0 {
        lemma_pairs_map_absent(s.drop_last(), k);
    }
}

impl QueryParams {
    /// No parameters.
    pub fn new() -> (r: QueryParams)
        ensures
            r@ == Map::<Seq<char>, Seq<char>>::empty(),
    {
        QueryParams { entries: Vec::new() }
    }

    /// Sets `name` to `value`, replacing any earlier value.
    pub fn insert(&mut self, name: String, value: String)
        ensures
            final(self)@ == old(self)@.insert(name@, value@),
    {
        let ghost before = pair_texts(self.entries@);
        self.entries.push((name, value));
        assert(pair_texts(self.entries@).drop_last() == before);
    }

    /// The value of `name`, when it is set.
    pub fn get(&self, name: &str) -> (r: Option<String>)
        ensures
            r matches Some(v) ==> self@.contains_key(name@) && v@ == self@[name@],
            r is None ==> !self@.contains_key(name@),
    {
        let ghost s = pair_texts(self.entries@);
        let key = crate::text::owned(name);
        let mut i = self.entries.len();
        while i > 0
            invariant
                i <= self.entries.len(),
                s == pair_texts(self.entries@),
                key@ == name@,
                forall|t: int| i <= t < s.len() ==> s[t].0 != name@,
            decreases i,
        {
            i -= 1;
            if self.entries[i].0 == key {
                proof {
                    lemma_pairs_map_found(s, name@, i as int);
                }
                return Some(self.entries[i].1.clone());
            }
        }
        proof {
            lemma_pairs_map_absent(s, name@);
        }
        None
    }

    /// A copy with the same parameters.
    pub fn duplicate(&self) -> (r: QueryParams)
        ensures
            r@ == self@,
    {
        let mut entries: Vec<(String, String)> = Vec::new();
        let mut i: usize = 0;
        while i < self.entries.len()
            invariant
                i <= self.entries.len(),
                pair_texts(entries@) == pair_texts(self.entries@).take(i as int),
            decreases self.entries.len() - i,
        {
            let name = owned(self.entries[i].0.as_str());
            let value = owned(self.entries[i].1.as_str());
            let ghost before = entries@;
            entries.push((name, value));
            assert(pair_texts(entries@) == pair_texts(before).push(
                (self.entries@[i as int].0@, self.entries@[i as int].1@),
            ));
            assert(pair_texts(self.entries@).take(i + 1) == pair_texts(self.entries@).take(
                i as int,
            ).push(pair_texts(self.entries@)[i as int]));
            i += 1;
        }
        assert(pair_texts(self.entries@).take(self.entries.len() as int) == pair_texts(
            self.entries@,
        ));
        QueryParams { entries }
    }

    /// Whether `name` is set to exactly `value`.
    pub fn has_value(&self, name: &str, value: &str) -> (r: bool)
        ensures
            r == (self@.contains_key(name@) && self@[name@] == value@),
    {
        match self.get(name) {
            Some(v) => crate::text::same_text(v.as_str(), value),
            None => false,
        }
    }
}

/// The parameters that the `&`-separated pieces of a query set: a piece
/// `name=value` sets the decoded name to the decoded value, a piece without
/// `=` sets nothing.
pub open spec fn pieces_map(pieces: Seq<Seq<char>>) -> Map<Seq<char>, Seq<char>>
    decreases pieces.len(),
{
    if pieces.len() == 0 {
        Map::empty()
    } else {
        let m = pieces_map(pieces.drop_last());
        match split_once(pieces.last(), '=') {
            (k, Some(v)) => m.insert(percent_decoded(k), percent_decoded(v)),
            (_, None) => m,
        }
    }
}

/// The path of a URL: everything before the first `?`.
pub open spec fn url_path(url: Seq<char>) -> Seq<char> {
    split_once(url, '?').0
}

/// The query parameters of a URL: those of the text after the first `?`.
pub open spec fn url_params(url: Seq<char>) -> Map<Seq<char>, Seq<char>> {
    match split_once(url, '?').1 {
        Some(q) => pieces_map(split_on(q, '&')),
        None => Map::empty(),
    }
}

/// Splits a request URL into its path and its decoded query parameters.
pub fn parse_query(url: &str) -> (r: (String, QueryParams))
    ensures
        r.0@ == url_path(url@),
        r.1@ == url_params(url@),
{
    let v = chars_of(url);
    let mut params = QueryParams::new();
    proof {
        lemma_index_of_char(v@, '?');
    }
    match find_char(&v, '?', 0) {
        None => {
            assert(v@.subrange(0, v.len() as int) == v@);
            (string_of_range(&v, 0, v.len()), params)
        },
        Some(q) => {
            assert(v@.subrange(0, v.len() as int) == v@);
            let path = string_of_range(&v, 0, q);
            assert(v@.take(q as int) == v@.subrange(0, q as int));
            let ghost query = v@.skip(q + 1);
            let ghost mut done: Seq<Seq<char>> = Seq::empty();
            let mut start = q + 1;
            assert(v@.subrange(start as int, v.len() as int) == query);
            assert(path@ == url_path(url@));
            assert(url_params(url@) == pieces_map(split_on(query, '&')));
            loop
                invariant
                    q < start <= v.len(),
                    path@ == url_path(url@),
                    url_params(url@) == pieces_map(split_on(query, '&')),
                    query == v@.skip(q + 1),
                    split_on(query, '&') == done + split_on(
                        v@.subrange(start as int, v.len() as int),
                        '&',
                    ),
                    params@ == pieces_map(done),
                decreases v.len() - start,
            {
                let ghost rest = v@.subrange(start as int, v.len() as int);
                proof {
                    lemma_index_of_char(rest, '&');
                }
                let found = find_char(&v, '&', start);
                let end = match found {
                    Some(e) => e,
                    None => v.len(),
                };
                let piece = sub_chars(&v, start, end);
                proof {
                    lemma_index_of_char(piece@, '=');
                    match found {
                        Some(e) => {
                            assert(rest.take(e - start) == piece@);
                            assert(rest.skip(e - start + 1) == v@.subrange(e + 1, v.len() as int));
                            assert(split_on(rest, '&') == seq![piece@] + split_on(
                                v@.subrange(e + 1, v.len() as int),
                                '&',
                            ));
                        },
                        None => {
                            assert(rest == piece@);
                        },
                    }
                    assert((done.push(piece@)).drop_last() == done);
                }
                match find_char(&piece, '=', 0) {
                    Some(eq) => {
                        assert(piece@.subrange(0, piece.len() as int) == piece@);
                        let key = string_of_range(&piece, 0, eq);
                        let value = string_of_range(&piece, eq + 1, piece.len());
                        assert(piece@.take(eq as int) == key@);
                        assert(piece@.skip(eq + 1) == value@);
                        params.insert(percent_decode(key.as_str()), percent_decode(value.as_str()));
                    },
                    None => {
                        assert(piece@.subrange(0, piece.len() as int) == piece@);
                    },
                }
                proof {
                    done = done.push(piece@);
                }
                match found {
                    Some(e) => {
                        assert(split_on(query, '&') == done + split_on(
                            v@.subrange(e + 1, v.len() as int),
                            '&',
                        ));
                        start = e + 1;
                    },
                    None => {
                        assert(split_on(query, '&') == done);
                        return (path, params);
                    },
                }
            }
        },
    }
}

// ---------------------------------------------------------------------------
// Values the endpoints read from the parameters
// ---------------------------------------------------------------------------

/// Message for a search without keywords.
pub open spec fn msg_search_keyword_missing() -> Seq<char> {
    "缺少搜索关键词 q"@
}

/// The search keywords: parameter `q`, else `query`, else nothing.
pub open spec fn search_text(params: Map<Seq<char>, Seq<char>>) -> Seq<char> {
    if params.contains_key("q"@) {
        params["q"@]
    } else if params.contains_key("query"@) {
        params["query"@]
    } else {
        Seq::empty()
    }
}

/// The search keywords of a request; blank keywords are refused.
pub fn search_query(params: &QueryParams) -> (r: Result<String, String>)
    ensures
        is_blank_text(search_text(params@)) ==> (r matches Err(e) && e@
            == msg_search_keyword_missing()),
        !is_blank_text(search_text(params@)) ==> (r matches Ok(q) && q@ == search_text(params@)),
{
    let query = match params.get("q") {
        Some(q) => q,
        None => match params.get("query") {
            Some(q) => q,
            None => String::new(),
        },
    };
    if is_blank(query.as_str()) {
        Err(owned("缺少搜索关键词 q"))
    } else {
        Ok(query)
    }
}

/// The `limit` parameter when it reads as a `usize`, else `default`; in
/// either case at most `cap`.
pub open spec fn limit_of(params: Map<Seq<char>, Seq<char>>, default: nat, cap: nat) -> nat {
    let n = if params.contains_key("limit"@) && parsed_usize(params["limit"@]) is Some {
        parsed_usize(params["limit"@])->0 as nat
    } else {
        default
    };
    if n < cap {
        n
    } else {
        cap
    }
}

/// How many entries a limit parameter allows: never more than the cap; a
/// `limit` that reads as a number gives that number, capped; without a
/// `limit`, or with one that is no number, the default, capped.
pub proof fn lemma_limit_default_and_cap(params: Map<Seq<char>, Seq<char>>, default: nat, cap: nat)
    ensures
        limit_of(params, default, cap) <= cap,
        !params.contains_key("limit"@) ==> limit_of(params, default, cap) == if default < cap {
            default
        } else {
            cap
        },
        params.contains_key("limit"@) && parsed_usize(params["limit"@]) is None ==> limit_of(
            params,
            default,
            cap,
        ) == if default < cap {
            default
        } else {
            cap
        },
        forall|n: usize|
            params.contains_key("limit"@) && parsed_usize(params["limit"@]) == Some(n) ==> limit_of(
                params,
                default,
                cap,
            ) == if n < cap {
                n as nat
            } else {
                cap
            },
        !params.contains_key("limit"@) ==> limit_of(params, 50, 200) == 50 && limit_of(
            params,
            5,
            20,
        ) == 5,
{
}

/// Reads the `limit` parameter.
pub fn limit_param(params: &QueryParams, default: usize, cap: usize) -> (r: usize)
    ensures
        r == limit_of(params@, default as nat, cap as nat),
{
    let n = match params.get("limit") {
        Some(text) => match parse_usize(text.as_str()) {
            Some(n) => n,
            None => default,
        },
        None => default,
    };
    if n < cap {
        n
    } else {
        cap
    }
}

/// How many audit entries a listing returns: `limit`, 50 by default, at
/// most 200.
pub fn audit_limit(params: &QueryParams) -> (r: usize)
    ensures
        r == limit_of(params@, 50, 200),
        r <= 200,
        !params@.contains_key("limit"@) ==> r == 50,
{
    limit_param(params, 50, 200)
}

/// How many cards a context search returns: `limit`, 5 by default, at
/// most 20.
pub fn context_limit(params: &QueryParams) -> (r: usize)
    ensures
        r == limit_of(params@, 5, 20),
        r <= 20,
        !params@.contains_key("limit"@) ==> r == 5,
{
    limit_param(params, 5, 20)
}

} // verus!
