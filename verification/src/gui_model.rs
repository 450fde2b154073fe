//! The history as the menu lists it: search with category tags, one entry per
//! item with its shortened text, its age and its shortcut number.
use vstd::prelude::*;
use crate::application::fuzzy_search_service::{
    parse_query_filter, query_filter, skim_fuzzy_match, skim_score,
};
use crate::database::{
    opt_view, records_of, stored_category, Category, ClipboardItem, DataType, ItemRecord,
};
use crate::domain::entities::{current_time_millis, Category as DomainCategory};
use crate::ordering::{is_permutation_of_range, lemma_stable_order, stable_order, stable_order_exec};
use crate::text::{chars_of, concat, contains, decimal, format_i128, owned, seq_contains, string_of};

verus! {

broadcast use vstd::seq_lib::group_filter_ensures;

// ---------------------------------------------------------------------------
// Code detection
// ---------------------------------------------------------------------------

pub open spec fn newline_count(s: Seq<char>) -> nat {
    s.filter(|c: char| c == '\n').len()
}

/// The number of lines `str::lines` yields: one per line feed, and one more
/// for text after the last line feed.
pub open spec fn line_count(s: Seq<char>) -> nat {
    newline_count(s) + if s.len() > 0 && s.last() != '\n' {
        1nat
    } else {
        0nat
    }
}

/// Text looks like code: it has more than one line, or holds a brace, a
/// semicolon or a keyword of a common language.
pub open spec fn looks_like_code(s: Seq<char>) -> bool {
    ||| line_count(s) > 1
    ||| seq_contains(s, "{"@)
    ||| seq_contains(s, "}"@)
    ||| seq_contains(s, ";"@)
    ||| seq_contains(s, "fn "@)
    ||| seq_contains(s, "let "@)
    ||| seq_contains(s, "var "@)
    ||| seq_contains(s, "const "@)
    ||| seq_contains(s, "import "@)
    ||| seq_contains(s, "from "@)
    ||| seq_contains(s, "public "@)
    ||| seq_contains(s, "private "@)
    ||| seq_contains(s, "class "@)
}

fn has_several_lines(text: &str) -> (r: bool)
    ensures
        r == (line_count(text@) > 1),
{
    let v = chars_of(text);
    let ghost p = |c: char| c == '\n';
    let mut n: usize = 0;
    let mut i: usize = 0;
    while i < v.len()
        invariant
            v@ == text@,
            i <= v.len(),
            p == |c: char| c == '\n',
            n == text@.take(i as int).filter(p).len(),
            n <= i,
        decreases v.len() - i,
    {
        proof {
            assert(text@.take(i as int + 1) == text@.take(i as int).push(text@[i as int]));
            text@.take(i as int).lemma_filter_push(text@[i as int], p);
        }
        if v[i] == '\n' {
            n += 1;
        }
        i += 1;
    }
    assert(text@.take(v.len() as int) == text@);
    n > 1 || (n == 1 && v.len() > 0 && v[v.len() - 1] != '\n')
}

/// Whether text looks like code.
pub fn is_likely_code(text: &str) -> (r: bool)
    ensures
        r == looks_like_code(text@),
{
    if has_several_lines(text) {
        return true;
    }
    contains(text, "{") || contains(text, "}") || contains(text, ";") || contains(text, "fn ")
        || contains(text, "let ") || contains(text, "var ") || contains(text, "const ") || contains(
        text,
        "import ",
    ) || contains(text, "from ") || contains(text, "public ") || contains(text, "private ")
        || contains(text, "class ")
}

// ---------------------------------------------------------------------------
// Ages
// ---------------------------------------------------------------------------

pub open spec fn abs(x: int) -> int {
    if x < 0 {
        -x
    } else {
        x
    }
}

/// How long ago time `millis` was at time `now` (both in milliseconds):
/// just now below a minute, else in whole minutes, hours or days.
pub open spec fn relative_time(millis: i64, now: i64) -> Seq<char> {
    let diff = abs(now - millis) / 1000;
    if diff < 60 {
        "just now"@
    } else if diff < 3600 {
        decimal(diff / 60) + "m ago"@
    } else if diff < 86400 {
        decimal(diff / 3600) + "h ago"@
    } else {
        decimal(diff / 86400) + "d ago"@
    }
}

/// How long ago time `millis` was at time `now`.
pub fn format_relative_time_at(millis: i64, now: i64) -> (r: String)
    ensures
        r@ == relative_time(millis, now),
{
    let d: i128 = now as i128 - millis as i128;
    let a: i128 = if d < 0 {
        -d
    } else {
        d
    };
    let diff: i128 = a / 1000;
    if diff < 60 {
        owned("just now")
    } else if diff < 3600 {
        let n = format_i128(diff / 60);
        concat(n.as_str(), "m ago")
    } else if diff < 86400 {
        let n = format_i128(diff / 3600);
        concat(n.as_str(), "h ago")
    } else {
        let n = format_i128(diff / 86400);
        concat(n.as_str(), "d ago")
    }
}

/// How long ago time `millis` was, now.
pub fn format_relative_time(millis: i64) -> (r: String)
    ensures
        exists|now: i64| r@ == #[trigger] relative_time(millis, now),
{
    let now = current_time_millis();
    format_relative_time_at(millis, now)
}

// ---------------------------------------------------------------------------
// Search
// ---------------------------------------------------------------------------

pub open spec fn stored_opt(c: Option<DomainCategory>) -> Option<Category> {
    match c {
        Some(c) => Some(stored_category(c)),
        None => None,
    }
}

/// A query split into a stored category filter and the text it searches for.
pub open spec fn parsed_query(q: Seq<char>) -> (Option<Category>, Seq<char>) {
    (stored_opt(query_filter(q).0), query_filter(q).1)
}

/// A query split into its category filter and the text it searches for.
pub fn parse_query(query: &str) -> (r: (Option<Category>, String))
    ensures
        r.0 == parsed_query(query@).0,
        r.1@ == parsed_query(query@).1,
{
    let (c, rest) = parse_query_filter(query);
    let cat = match c {
        Some(c) => Some(Category::from_domain(c)),
        None => None,
    };
    (cat, rest)
}

/// The text a row is searched by: its text, or a label for an image.
pub open spec fn row_search_text(r: ItemRecord) -> Seq<char> {
    match r.value_text {
        Some(t) => t,
        None => "Изображение"@,
    }
}

pub open spec fn row_passes(r: ItemRecord, cat: Option<Category>, sq: Seq<char>) -> bool {
    &&& (cat matches Some(c) ==> r.category == Some(c))
    &&& (sq.len() > 0 ==> skim_score(row_search_text(r), sq) is Some)
}

pub open spec fn row_score(r: ItemRecord, sq: Seq<char>) -> i64 {
    if sq.len() > 0 {
        skim_score(row_search_text(r), sq)->0
    } else {
        100
    }
}

pub open spec fn row_keys(rows: Seq<ItemRecord>, sq: Seq<char>) -> Seq<(i128, i128)> {
    rows.map_values(|r: ItemRecord| ((-(row_score(r, sq) as i128)) as i128, 0i128))
}

/// The rows found for `query`: all rows for an empty query; otherwise the
/// rows that pass the query's filter, best score first, equal scores in
/// their order.
pub open spec fn filtered_rows(rows: Seq<ItemRecord>, query: Seq<char>) -> Seq<ItemRecord> {
    if query.len() == 0 {
        rows
    } else {
        let (cat, sq) = parsed_query(query);
        let p = rows.filter(|r: ItemRecord| row_passes(r, cat, sq));
        stable_order(row_keys(p, sq)).map_values(|k: usize| p[k as int])
    }
}

fn row_text(item: &ClipboardItem) -> (r: &str)
    ensures
        r@ == row_search_text(item@),
{
    match &item.value_text {
        Some(t) => t.as_str(),
        None => "Изображение",
    }
}

/// The rows found for `query`.
pub fn filter_items<'a>(items: &'a [ClipboardItem], query: &str) -> (r: Vec<&'a ClipboardItem>)
    ensures
        r@.len() == filtered_rows(records_of(items@), query@).len(),
        forall|i: int| 0 <= i < r@.len() ==> (*r@[i])@ == filtered_rows(records_of(items@), query@)[i],
{
    let ghost recs = records_of(items@);
    if query.unicode_len() == 0 {
        let mut all: Vec<&'a ClipboardItem> = Vec::new();
        let mut i: usize = 0;
        while i < items.len()
            invariant
                recs == records_of(items@),
                i <= items.len(),
                all@.len() == i,
                forall|k: int| 0 <= k < i ==> (*all@[k])@ == recs[k],
            decreases items.len() - i,
        {
            all.push(&items[i]);
            i += 1;
        }
        return all;
    }
    let (cat, sq) = parse_query(query);
    let ghost pred = |r: ItemRecord| row_passes(r, cat, sq@);
    let ghost p = recs.filter(pred);
    let has_text = sq.unicode_len() > 0;
    let mut kept: Vec<&'a ClipboardItem> = Vec::new();
    let mut keys: Vec<(i128, i128)> = Vec::new();
    let mut i: usize = 0;
    while i < items.len()
        invariant
            recs == records_of(items@),
            pred == |r: ItemRecord| row_passes(r, cat, sq@),
            i <= items.len(),
            has_text == (sq@.len() > 0),
            kept@.len() == recs.take(i as int).filter(pred).len(),
            forall|k: int| 0 <= k < kept@.len() ==> (*kept@[k])@ == recs.take(i as int).filter(pred)[k],
            keys@ == row_keys(recs.take(i as int).filter(pred), sq@),
        decreases items.len() - i,
    {
        let ghost before = recs.take(i as int).filter(pred);
        proof {
            assert(recs.take(i as int + 1) == recs.take(i as int).push(recs[i as int]));
            recs.take(i as int).lemma_filter_push(recs[i as int], pred);
        }
        let item = &items[i];
        let cat_ok = match cat {
            Some(c) => match item.category {
                Some(ic) => ic == c,
                None => false,
            },
            None => true,
        };
        if cat_ok {
            if has_text {
                match skim_fuzzy_match(row_text(item), sq.as_str()) {
                    Some(score) => {
                        kept.push(item);
                        keys.push((-(score as i128), 0i128));
                        assert(row_keys(before.push(item@), sq@) =~= row_keys(before, sq@).push(
                            ((-(score as i128)) as i128, 0i128),
                        ));
                    },
                    None => {},
                }
            } else {
                kept.push(item);
                keys.push((-100i128, 0i128));
                assert(row_keys(before.push(item@), sq@) =~= row_keys(before, sq@).push(
                    (-100i128, 0i128),
                ));
            }
        }
        i += 1;
    }
    assert(recs.take(items.len() as int) == recs);
    let order = stable_order_exec(&keys);
    proof {
        lemma_stable_order(keys@);
    }
    let mut out: Vec<&'a ClipboardItem> = Vec::new();
    let mut k: usize = 0;
    while k < order.len()
        invariant
            order@ == stable_order(keys@),
            keys@ == row_keys(p, sq@),
            kept@.len() == p.len(),
            forall|j: int| 0 <= j < kept@.len() ==> (*kept@[j])@ == p[j],
            is_permutation_of_range(order@, keys@.len()),
            k <= order.len(),
            out@.len() == k,
            forall|j: int| 0 <= j < k ==> (*out@[j])@ == p[order@[j] as int],
        decreases order.len() - k,
    {
        out.push(kept[order[k]]);
        k += 1;
    }
    out
}

// ---------------------------------------------------------------------------
// Entries
// ---------------------------------------------------------------------------

/// Characters of a row's text shown before it is cut short.
pub const ENTRY_TEXT_CHARS: usize = 100;

/// One line of the menu.
#[derive(Debug, Clone, PartialEq)]
pub struct ClipboardEntry {
    pub id: i32,
    pub text: String,
    pub timestamp: String,
    pub is_pinned: bool,
    pub is_image: bool,
    pub is_code: bool,
    pub shortcut_index: i32,
}

/// The text a row shows: its text cut to 100 characters with an ellipsis,
/// or a label for an image.
pub open spec fn entry_text(r: ItemRecord) -> Seq<char> {
    match r.value_text {
        Some(t) => if t.len() > ENTRY_TEXT_CHARS {
            t.take(ENTRY_TEXT_CHARS as int).push('…')
        } else {
            t
        },
        None => "📷 Изображение"@,
    }
}

/// The shortcut number of the entry at position `index`: 1 to 9 for the
/// first nine, 0 for the rest.
pub open spec fn shortcut_of(index: usize) -> i32 {
    if (index as i32) < 9 {
        ((index as i32) + 1) as i32
    } else {
        0
    }
}

/// `e` is the entry for row `r` at position `index`, its age shown as at
/// time `now`.
pub open spec fn entry_for(e: ClipboardEntry, r: ItemRecord, index: usize, now: i64) -> bool {
    &&& e.id == r.id as i32
    &&& e.text@ == entry_text(r)
    &&& e.timestamp@ == relative_time(r.last_used_at, now)
    &&& e.is_pinned == r.is_pinned
    &&& e.is_image == (r.data_type == DataType::Image)
    &&& e.is_code == (r.value_text matches Some(t) && looks_like_code(t))
    &&& e.shortcut_index == shortcut_of(index)
}

/// The menu entry for row `item` at position `index`, its age shown as at
/// time `now`.
pub fn item_to_entry_at(item: &ClipboardItem, index: usize, now: i64) -> (e: ClipboardEntry)
    ensures
        entry_for(e, item@, index, now),
{
    let text = match &item.value_text {
        Some(t) => {
            let v = chars_of(t.as_str());
            if v.len() > ENTRY_TEXT_CHARS {
                let mut cut: Vec<char> = Vec::new();
                let mut i: usize = 0;
                while i < ENTRY_TEXT_CHARS
                    invariant
                        i <= ENTRY_TEXT_CHARS < v.len(),
                        cut@ == v@.take(i as int),
                    decreases ENTRY_TEXT_CHARS - i,
                {
                    cut.push(v[i]);
                    assert(v@.take(i as int + 1) == v@.take(i as int).push(v@[i as int]));
                    i += 1;
                }
                cut.push('…');
                string_of(&cut)
            } else {
                t.clone()
            }
        },
        None => owned("📷 Изображение"),
    };
    let is_code = match &item.value_text {
        Some(t) => is_likely_code(t.as_str()),
        None => false,
    };
    let position = #[verifier::truncate] (index as i32);
    ClipboardEntry {
        id: #[verifier::truncate] (item.id as i32),
        text,
        timestamp: format_relative_time_at(item.last_used_at, now),
        is_pinned: item.is_pinned,
        is_image: item.data_type == DataType::Image,
        is_code,
        shortcut_index: if position < 9 {
            position + 1
        } else {
            0
        },
    }
}

/// The menu entry for row `item` at position `index`.
pub fn item_to_entry(item: &ClipboardItem, index: usize) -> (e: ClipboardEntry)
    ensures
        exists|now: i64| #[trigger] entry_for(e, item@, index, now),
{
    let now = current_time_millis();
    item_to_entry_at(item, index, now)
}

/// The menu's entries for the rows `items` and the search `query`, ages
/// shown as at time `now`.
pub fn history_entries_at(items: &[ClipboardItem], query: &str, now: i64) -> (r: Vec<ClipboardEntry>)
    ensures
        r@.len() == filtered_rows(records_of(items@), query@).len(),
        forall|i: int|
            0 <= i < r@.len() ==> #[trigger] entry_for(
                r@[i],
                filtered_rows(records_of(items@), query@)[i],
                i as usize,
                now,
            ),
{
    let found = filter_items(items, query);
    let mut out: Vec<ClipboardEntry> = Vec::new();
    let mut i: usize = 0;
    while i < found.len()
        invariant
            i <= found.len(),
            found@.len() == filtered_rows(records_of(items@), query@).len(),
            forall|k: int| 0 <= k < found@.len() ==> (*found@[k])@ == filtered_rows(records_of(items@), query@)[k],
            out@.len() == i,
            forall|k: int|
                0 <= k < i ==> #[trigger] entry_for(
                    out@[k],
                    filtered_rows(records_of(items@), query@)[k],
                    k as usize,
                    now,
                ),
        decreases found.len() - i,
    {
        out.push(item_to_entry_at(found[i], i, now));
        i += 1;
    }
    out
}

} // verus!

verus! {

proof fn lemma_no_line_feed(s: Seq<char>)
    requires
        forall|k: int| 0 <= k < s.len() ==> s[k] != '\n',
    ensures
        line_count(s) <= 1,
{
    let p = |c: char| c == '\n';
    if s.filter(p).len() > 0 {
        assert(p(s.filter(p)[0]));
        assert(s.filter(p).contains(s.filter(p)[0]));
        s.lemma_filter_contains_rev(p, s.filter(p)[0]);
    }
}

proof fn lemma_inner_line_feed(s: Seq<char>, k: int)
    requires
        0 <= k < s.len() - 1,
        s[k] == '\n',
    ensures
        line_count(s) > 1,
{
    let p = |c: char| c == '\n';
    let a = s.take(k);
    let b = s.subrange(k + 1, s.len() - 1);
    assert(s =~= a + seq![s[k]] + b + seq![s.last()]);
    Seq::filter_distributes_over_add(a + seq![s[k]] + b, seq![s.last()], p);
    Seq::filter_distributes_over_add(a + seq![s[k]], b, p);
    Seq::filter_distributes_over_add(a, seq![s[k]], p);
    reveal_with_fuel(Seq::filter, 2);
    assert(seq![s[k]].filter(p) =~= seq![s[k]]);
}

/// A menu entry is marked as code exactly when its row holds text with a
/// line feed that more text follows, or with a brace, a semicolon, or one of
/// the words `fn `, `let `, `var `, `const `, `import `, `from `, `public `,
/// `private `, `class `. An image is never marked as code.
pub proof fn lemma_code_mark(e: ClipboardEntry, r: ItemRecord, index: usize, now: i64)
    requires
        entry_for(e, r, index, now),
    ensures
        r.value_text is None ==> !e.is_code,
        r.value_text matches Some(t) ==> (e.is_code <==> {
            ||| (exists|k: int| 0 <= k < t.len() - 1 && t[k] == '\n')
            ||| seq_contains(t, seq!['{'])
            ||| seq_contains(t, seq!['}'])
            ||| seq_contains(t, seq![';'])
            ||| seq_contains(t, seq!['f', 'n', ' '])
            ||| seq_contains(t, seq!['l', 'e', 't', ' '])
            ||| seq_contains(t, seq!['v', 'a', 'r', ' '])
            ||| seq_contains(t, seq!['c', 'o', 'n', 's', 't', ' '])
            ||| seq_contains(t, seq!['i', 'm', 'p', 'o', 'r', 't', ' '])
            ||| seq_contains(t, seq!['f', 'r', 'o', 'm', ' '])
            ||| seq_contains(t, seq!['p', 'u', 'b', 'l', 'i', 'c', ' '])
            ||| seq_contains(t, seq!['p', 'r', 'i', 'v', 'a', 't', 'e', ' '])
            ||| seq_contains(t, seq!['c', 'l', 'a', 's', 's', ' '])
        }),
{
    reveal_strlit("{");
    reveal_strlit("}");
    reveal_strlit(";");
    reveal_strlit("fn ");
    reveal_strlit("let ");
    reveal_strlit("var ");
    reveal_strlit("const ");
    reveal_strlit("import ");
    reveal_strlit("from ");
    reveal_strlit("public ");
    reveal_strlit("private ");
    reveal_strlit("class ");
    assert("{"@ =~= seq!['{']);
    assert("}"@ =~= seq!['}']);
    assert(";"@ =~= seq![';']);
    assert("fn "@ =~= seq!['f', 'n', ' ']);
    assert("let "@ =~= seq!['l', 'e', 't', ' ']);
    assert("var "@ =~= seq!['v', 'a', 'r', ' ']);
    assert("const "@ =~= seq!['c', 'o', 'n', 's', 't', ' ']);
    assert("import "@ =~= seq!['i', 'm', 'p', 'o', 'r', 't', ' ']);
    assert("from "@ =~= seq!['f', 'r', 'o', 'm', ' ']);
    assert("public "@ =~= seq!['p', 'u', 'b', 'l', 'i', 'c', ' ']);
    assert("private "@ =~= seq!['p', 'r', 'i', 'v', 'a', 't', 'e', ' ']);
    assert("class "@ =~= seq!['c', 'l', 'a', 's', 's', ' ']);
    match r.value_text {
        Some(t) => {
            if exists|k: int| 0 <= k < t.len() - 1 && t[k] == '\n' {
                let k = choose|k: int| 0 <= k < t.len() - 1 && t[k] == '\n';
                lemma_inner_line_feed(t, k);
            } else if t.len() > 0 && t.last() == '\n' {
                let u = t.drop_last();
                assert forall|k: int| 0 <= k < u.len() implies u[k] != '\n' by {
                    assert(u[k] == t[k]);
                }
                lemma_no_line_feed(u);
                let p = |c: char| c == '\n';
                assert(t =~= u.push('\n'));
                u.lemma_filter_push('\n', p);
            } else {
                lemma_no_line_feed(t);
            }
        },
        None => {},
    }
}

/// What the menu's search finds. An empty query finds every row, in order.
/// Otherwise, with `cat` the category its tag names and `sq` the text it
/// searches for: every row found is one of the rows, of category `cat` when
/// the tag names one, and fuzzy-matches `sq` when `sq` is not empty; every
/// such row is found; and rows come best match score first.
pub proof fn lemma_filtered_rows(rows: Seq<ItemRecord>, query: Seq<char>)
    requires
        rows.len() <= usize::MAX,
    ensures
        query.len() == 0 ==> filtered_rows(rows, query) == rows,
        query.len() > 0 ==> {
            let cat = parsed_query(query).0;
            let sq = parsed_query(query).1;
            let r = filtered_rows(rows, query);
            &&& forall|i: int| 0 <= i < r.len() ==> rows.contains(#[trigger] r[i])
            &&& forall|i: int| 0 <= i < r.len() && cat is Some ==> (#[trigger] r[i]).category == cat
            &&& forall|i: int|
                0 <= i < r.len() && sq.len() > 0 ==> skim_score(row_search_text(#[trigger] r[i]), sq) is Some
            &&& forall|i: int, j: int|
                0 <= i < j < r.len() && sq.len() > 0 ==> skim_score(row_search_text(#[trigger] r[i]), sq)->0
                    >= skim_score(row_search_text(#[trigger] r[j]), sq)->0
            &&& forall|k: int|
                0 <= k < rows.len() && (cat matches Some(c) ==> rows[k].category == Some(c)) && (sq.len()
                    > 0 ==> skim_score(row_search_text(rows[k]), sq) is Some) ==> r.contains(#[trigger] rows[k])
        },
{
    if query.len() > 0 {
        let cat = parsed_query(query).0;
        let sq = parsed_query(query).1;
        let pred = |x: ItemRecord| row_passes(x, cat, sq);
        let p = rows.filter(pred);
        let keys = row_keys(p, sq);
        let o = stable_order(keys);
        lemma_stable_order(keys);
        let r = filtered_rows(rows, query);
        assert(r =~= o.map_values(|k: usize| p[k as int]));
        assert forall|i: int| 0 <= i < r.len() implies rows.contains(#[trigger] r[i]) && row_passes(r[i], cat, sq) by {
            assert(r[i] == p[o[i] as int]);
            assert(pred(p[o[i] as int]));
            rows.lemma_filter_contains_rev(pred, p[o[i] as int]);
        }
        assert forall|i: int| 0 <= i < r.len() && cat is Some implies (#[trigger] r[i]).category == cat by {
            assert(row_passes(r[i], cat, sq));
        }
        assert forall|i: int|
            0 <= i < r.len() && sq.len() > 0 implies skim_score(row_search_text(#[trigger] r[i]), sq) is Some by {
            assert(row_passes(r[i], cat, sq));
        }
        assert forall|i: int, j: int|
            0 <= i < j < r.len() && sq.len() > 0 implies skim_score(row_search_text(#[trigger] r[i]), sq)->0
                >= skim_score(row_search_text(#[trigger] r[j]), sq)->0 by {
            assert(crate::ordering::key_le(keys[o[i] as int], keys[o[j] as int]));
            assert(r[i] == p[o[i] as int] && r[j] == p[o[j] as int]);
        }
        assert forall|k: int|
            0 <= k < rows.len() && (cat matches Some(c) ==> rows[k].category == Some(c)) && (sq.len()
                > 0 ==> skim_score(row_search_text(rows[k]), sq) is Some) implies r.contains(#[trigger] rows[k]) by {
            assert(pred(rows[k]));
            assert(p.contains(rows[k]));
            let m = choose|m: int| 0 <= m < p.len() && p[m] == rows[k];
            assert(o.contains(m as usize));
            let i = choose|i: int| 0 <= i < o.len() && o[i] == m as usize;
            assert(r[i] == rows[k]);
        }
    }
}

/// A menu entry's shortcut is Alt+1 to Alt+9 for the first nine entries and
/// none (0) after them; its text is the row's text when that has at most 100
/// characters, else its first 100 characters and an ellipsis.
pub proof fn lemma_entry_shortcut_and_text(e: ClipboardEntry, r: ItemRecord, index: usize, now: i64)
    requires
        entry_for(e, r, index, now),
        index <= i32::MAX,
    ensures
        index < 9 ==> e.shortcut_index == index + 1,
        index >= 9 ==> e.shortcut_index == 0,
        r.value_text matches Some(t) ==> (t.len() <= 100 ==> e.text@ == t),
        r.value_text matches Some(t) ==> (t.len() > 100 ==> {
            &&& e.text@.len() == 101
            &&& forall|k: int| 0 <= k < 100 ==> e.text@[k] == t[k]
            &&& e.text@[100] == '…'
        }),
{
}

} // verus!
