//! Fuzzy search over clipboard items, with an optional category tag.
use vstd::prelude::*;
use crate::domain::entities::{Category, ClipboardItem, Content};
use crate::ordering::{is_permutation_of_range, lemma_stable_order, stable_order, stable_order_exec};
use crate::text::{chars_of, eq_ignore_ascii_case, equals_ignore_ascii_case, string_of, trim, trim_str};

verus! {

/// The score that `SkimMatcherV2::default()` gives pattern `pattern` against
/// `choice` (`FuzzyMatcher::fuzzy_match`), `None` when it does not match.
pub uninterp spec fn skim_score(choice: Seq<char>, pattern: Seq<char>) -> Option<i64>;

/// Scores `pattern` against `choice` with a default-configured
/// `fuzzy_matcher::skim::SkimMatcherV2` (`FuzzyMatcher::fuzzy_match`). The
/// matcher's configuration is fixed, so the score is a function of the two
/// texts; nothing more is claimed of it.
#[verifier::external_body]
pub(crate) fn skim_fuzzy_match(choice: &str, pattern: &str) -> (r: Option<i64>)
    ensures
        r == skim_score(choice@, pattern@),
{
    let matcher = fuzzy_matcher::skim::SkimMatcherV2::default();
    fuzzy_matcher::FuzzyMatcher::fuzzy_match(&matcher, choice, pattern)
}

/// The position of the first space in `q`, or its length when there is none.
pub open spec fn first_space(q: Seq<char>) -> int
    decreases q.len(),
{
    if q.len() == 0 {
        0
    } else if q[0] == ' ' {
        0
    } else {
        1 + first_space(q.drop_first())
    }
}

/// A query's tag: its text up to the first space.
pub open spec fn query_tag(q: Seq<char>) -> Seq<char> {
    q.take(first_space(q))
}

/// What a query searches for once its tag is removed: the text after the
/// first space, trimmed; empty when there is no space.
pub open spec fn query_rest(q: Seq<char>) -> Seq<char> {
    if first_space(q) < q.len() {
        trim(q.skip(first_space(q) + 1))
    } else {
        Seq::empty()
    }
}

/// The category named by a tag. Upper and lower case are not told apart;
/// for these tags that is what comparing the tag's `to_lowercase` gives.
pub open spec fn tag_category(tag: Seq<char>) -> Option<Category> {
    if eq_ignore_ascii_case(tag, "@url"@) {
        Some(Category::Url)
    } else if eq_ignore_ascii_case(tag, "@email"@) {
        Some(Category::Email)
    } else if eq_ignore_ascii_case(tag, "@account"@) {
        Some(Category::Account)
    } else if eq_ignore_ascii_case(tag, "@picture"@) {
        Some(Category::Picture)
    } else if eq_ignore_ascii_case(tag, "@other"@) {
        Some(Category::Other)
    } else {
        None
    }
}

/// A query split into a category filter and the text to search for: a query
/// that starts with `@` names a category in its first word and searches for
/// the rest; any other query searches for itself.
pub open spec fn query_filter(q: Seq<char>) -> (Option<Category>, Seq<char>) {
    if q.len() > 0 && q[0] == '@' {
        (tag_category(query_tag(q)), query_rest(q))
    } else {
        (None, q)
    }
}

/// The text an item is searched by: its text, or a label for an image.
pub open spec fn search_text(item: ClipboardItem) -> Seq<char> {
    match item.content {
        Content::Text(t) => t@,
        Content::Image(_) => "Изображение"@,
    }
}

/// Whether an item passes the category filter and, when there is text to
/// search for, matches it.
pub open spec fn passes(item: ClipboardItem, cat: Option<Category>, sq: Seq<char>) -> bool {
    &&& (cat matches Some(c) ==> item.category == Some(c))
    &&& (sq.len() > 0 ==> skim_score(search_text(item), sq) is Some)
}

/// An item's score: the match score, or 100 when only the category filters.
pub open spec fn score_of(item: ClipboardItem, sq: Seq<char>) -> i64 {
    if sq.len() > 0 {
        skim_score(search_text(item), sq)->0
    } else {
        100
    }
}

pub open spec fn passing(items: Seq<ClipboardItem>, cat: Option<Category>, sq: Seq<char>) -> Seq<ClipboardItem> {
    items.filter(|it: ClipboardItem| passes(it, cat, sq))
}

/// Sort keys: highest score first.
pub open spec fn score_keys(items: Seq<ClipboardItem>, sq: Seq<char>) -> Seq<(i128, i128)> {
    items.map_values(|it: ClipboardItem| ((-(score_of(it, sq) as i128)) as i128, 0i128))
}

/// The items found for `query`: every item for an empty query; otherwise the
/// items that pass the query's filter, highest score first, equal scores in
/// their order in `items`.
pub open spec fn search_result(items: Seq<ClipboardItem>, query: Seq<char>) -> Seq<ClipboardItem> {
    if query.len() == 0 {
        items
    } else {
        let (cat, sq) = query_filter(query);
        let p = passing(items, cat, sq);
        stable_order(score_keys(p, sq)).map_values(|k: usize| p[k as int])
    }
}

/// The category tag named by `tag`.
pub fn tag_category_exec(tag: &str) -> (r: Option<Category>)
    ensures
        r == tag_category(tag@),
{
    if equals_ignore_ascii_case(tag, "@url") {
        Some(Category::Url)
    } else if equals_ignore_ascii_case(tag, "@email") {
        Some(Category::Email)
    } else if equals_ignore_ascii_case(tag, "@account") {
        Some(Category::Account)
    } else if equals_ignore_ascii_case(tag, "@picture") {
        Some(Category::Picture)
    } else if equals_ignore_ascii_case(tag, "@other") {
        Some(Category::Other)
    } else {
        None
    }
}

proof fn lemma_first_space(q: Seq<char>, i: int)
    requires
        0 <= i <= q.len(),
        forall|j: int| 0 <= j < i ==> q[j] != ' ',
        i == q.len() || q[i] == ' ',
    ensures
        first_space(q) == i,
    decreases i,
{
    if i > 0 {
        lemma_first_space(q.drop_first(), i - 1);
    }
}

/// A query's tag and the rest it searches for.
pub fn split_query(query: &str) -> (r: (String, String))
    ensures
        r.0@ == query_tag(query@),
        r.1@ == query_rest(query@),
{
    let v = chars_of(query);
    let mut i: usize = 0;
    while i < v.len() && v[i] != ' '
        invariant
            v@ == query@,
            i <= v.len(),
            forall|j: int| 0 <= j < i ==> query@[j] != ' ',
        decreases v.len() - i,
    {
        i += 1;
    }
    proof {
        lemma_first_space(query@, i as int);
    }
    let mut tag: Vec<char> = Vec::new();
    let mut k: usize = 0;
    while k < i
        invariant
            v@ == query@,
            k <= i <= v.len(),
            tag@ == query@.take(k as int),
        decreases i - k,
    {
        tag.push(v[k]);
        assert(query@.take(k as int + 1) =~= query@.take(k as int).push(query@[k as int]));
        k += 1;
    }
    let tag_s = string_of(&tag);
    if i < v.len() {
        let mut rest: Vec<char> = Vec::new();
        let mut k: usize = i + 1;
        while k < v.len()
            invariant
                v@ == query@,
                i < v.len(),
                i + 1 <= k <= v.len(),
                rest@ == query@.subrange(i + 1, k as int),
            decreases v.len() - k,
        {
            rest.push(v[k]);
            assert(query@.subrange(i + 1, k + 1) =~= query@.subrange(i + 1, k as int).push(
                query@[k as int],
            ));
            k += 1;
        }
        assert(rest@ =~= query@.skip(i + 1));
        let rest_s = string_of(&rest);
        (tag_s, trim_str(rest_s.as_str()))
    } else {
        (tag_s, String::new())
    }
}

/// A query split into its category filter and the text it searches for.
pub fn parse_query_filter(query: &str) -> (r: (Option<Category>, String))
    ensures
        r.0 == query_filter(query@).0,
        r.1@ == query_filter(query@).1,
{
    let v = chars_of(query);
    if v.len() > 0 && v[0] == '@' {
        let (tag, rest) = split_query(query);
        (tag_category_exec(tag.as_str()), rest)
    } else {
        (None, crate::text::owned(query))
    }
}

/// Fuzzy search over clipboard items.
pub struct FuzzySearchService;

impl FuzzySearchService {
    pub fn new() -> (s: Self) {
        FuzzySearchService
    }

    fn get_search_text(item: &ClipboardItem) -> (r: &str)
        ensures
            r@ == search_text(*item),
    {
        match &item.content {
            Content::Text(text) => text.as_str(),
            Content::Image(_) => "Изображение",
        }
    }

    /// The items found for `query`: all of them for an empty query; with a
    /// leading `@` tag only items of the named category (none when the tag
    /// names no category); items whose text does not fuzzy-match the rest of
    /// the query are left out; best scores first.
    pub fn search<'a>(&self, items: &'a [ClipboardItem], query: &str) -> (r: Vec<&'a ClipboardItem>)
        ensures
            r@.len() == search_result(items@, query@).len(),
            forall|i: int| 0 <= i < r@.len() ==> *r@[i] == search_result(items@, query@)[i],
    {
        if query.unicode_len() == 0 {
            let mut all: Vec<&'a ClipboardItem> = Vec::new();
            let mut i: usize = 0;
            while i < items.len()
                invariant
                    i <= items.len(),
                    all@.len() == i,
                    forall|k: int| 0 <= k < i ==> *all@[k] == items@[k],
                decreases items.len() - i,
            {
                all.push(&items[i]);
                i += 1;
            }
            return all;
        }
        let (cat, sq) = parse_query_filter(query);
        let ghost p = passing(items@, cat, sq@);
        let has_text = sq.unicode_len() > 0;
        let mut kept: Vec<&'a ClipboardItem> = Vec::new();
        let mut keys: Vec<(i128, i128)> = Vec::new();
        let mut i: usize = 0;
        while i < items.len()
            invariant
                i <= items.len(),
                has_text == (sq@.len() > 0),
                kept@.len() == items@.take(i as int).filter(
                    |it: ClipboardItem| passes(it, cat, sq@),
                ).len(),
                forall|k: int|
                    0 <= k < kept@.len() ==> *kept@[k] == items@.take(i as int).filter(
                        |it: ClipboardItem| passes(it, cat, sq@),
                    )[k],
                keys@ == score_keys(
                    items@.take(i as int).filter(|it: ClipboardItem| passes(it, cat, sq@)),
                    sq@,
                ),
            decreases items.len() - i,
        {
            let ghost pred = |it: ClipboardItem| passes(it, cat, sq@);
            let ghost before = items@.take(i as int).filter(pred);
            proof {
                assert(items@.take(i as int + 1) == items@.take(i as int).push(items@[i as int]));
                items@.take(i as int).lemma_filter_push(items@[i as int], pred);
            }
            let item = &items[i];
            let cat_ok = match cat {
                Some(c) => match item.category {
                    Some(ic) => ic == c,
                    None => false,
                },
                None => true,
            };
            if cat_ok {
                if has_text {
                    match skim_fuzzy_match(Self::get_search_text(item), sq.as_str()) {
                        Some(score) => {
                            kept.push(item);
                            keys.push((-(score as i128), 0i128));
                            assert(score_keys(before.push(*item), sq@) =~= score_keys(before, sq@).push(
                                ((-(score as i128)) as i128, 0i128),
                            ));
                        },
                        None => {},
                    }
                } else {
                    kept.push(item);
                    keys.push((-100i128, 0i128));
                    assert(score_keys(before.push(*item), sq@) =~= score_keys(before, sq@).push(
                        (-100i128, 0i128),
                    ));
                }
            }
            i += 1;
        }
        assert(items@.take(items.len() as int) == items@);
        let order = stable_order_exec(&keys);
        proof {
            lemma_stable_order(keys@);
        }
        let mut out: Vec<&'a ClipboardItem> = Vec::new();
        let mut k: usize = 0;
        while k < order.len()
            invariant
                order@ == stable_order(keys@),
                keys@ == score_keys(p, sq@),
                kept@.len() == p.len(),
                forall|j: int| 0 <= j < kept@.len() ==> *kept@[j] == p[j],
                is_permutation_of_range(order@, keys@.len()),
                k <= order.len(),
                out@.len() == k,
                forall|j: int| 0 <= j < k ==> *out@[j] == p[order@[j] as int],
            decreases order.len() - k,
        {
            out.push(kept[order[k]]);
            k += 1;
        }
        out
    }
}

} // verus!

verus! {

broadcast use vstd::seq_lib::group_filter_ensures;

/// An empty query finds every item. Otherwise every item found passes the
/// query's filter (so with a category tag, is of that category) and is one
/// of the items searched; each passing item is found once; and items come
/// best score first.
pub proof fn lemma_search_result(items: Seq<ClipboardItem>, query: Seq<char>)
    requires
        items.len() <= usize::MAX,
    ensures
        query.len() == 0 ==> search_result(items, query) == items,
        query.len() > 0 ==> {
            let (cat, sq) = query_filter(query);
            let r = search_result(items, query);
            &&& r.len() == passing(items, cat, sq).len()
            &&& forall|i: int| 0 <= i < r.len() ==> #[trigger] passes(r[i], cat, sq) && items.contains(r[i])
            &&& forall|i: int, j: int|
                0 <= i < j < r.len() ==> score_of(#[trigger] r[i], sq) >= score_of(#[trigger] r[j], sq)
        },
{
    if query.len() > 0 {
        let (cat, sq) = query_filter(query);
        let pred = |it: ClipboardItem| passes(it, cat, sq);
        let p = passing(items, cat, sq);
        let keys = score_keys(p, sq);
        let o = stable_order(keys);
        lemma_stable_order(keys);
        let r = search_result(items, query);
        assert forall|i: int| 0 <= i < r.len() implies #[trigger] passes(r[i], cat, sq) && items.contains(r[i]) by {
            assert(r[i] == p[o[i] as int]);
            assert(pred(p[o[i] as int]));
            items.lemma_filter_contains_rev(pred, p[o[i] as int]);
        }
        assert forall|i: int, j: int| 0 <= i < j < r.len() implies score_of(#[trigger] r[i], sq) >= score_of(
            #[trigger] r[j],
            sq,
        ) by {
            assert(crate::ordering::key_le(keys[o[i] as int], keys[o[j] as int]));
        }
    }
}

/// What the search finds for a non-empty query, with `cat` the category its
/// tag names and `sq` the text it searches for: every item found is one of
/// the items, of category `cat` when the tag names one (whether or not text
/// follows the tag), and fuzzy-matches `sq` when `sq` is not empty; every
/// such item is found; and items come best match score first.
pub proof fn lemma_search_finds(items: Seq<ClipboardItem>, query: Seq<char>)
    requires
        items.len() <= usize::MAX,
        query.len() > 0,
    ensures
        ({
            let cat = query_filter(query).0;
            let sq = query_filter(query).1;
            let r = search_result(items, query);
            &&& forall|i: int| 0 <= i < r.len() ==> items.contains(#[trigger] r[i])
            &&& forall|i: int| 0 <= i < r.len() && cat is Some ==> (#[trigger] r[i]).category == cat
            &&& forall|i: int|
                0 <= i < r.len() && sq.len() > 0 ==> skim_score(search_text(#[trigger] r[i]), sq) is Some
            &&& forall|i: int, j: int|
                0 <= i < j < r.len() && sq.len() > 0 ==> skim_score(search_text(#[trigger] r[i]), sq)->0
                    >= skim_score(search_text(#[trigger] r[j]), sq)->0
            &&& forall|k: int|
                0 <= k < items.len() && (cat is Some ==> items[k].category == cat) && (sq.len() > 0
                    ==> skim_score(search_text(items[k]), sq) is Some) ==> r.contains(#[trigger] items[k])
        }),
{
    let cat = query_filter(query).0;
    let sq = query_filter(query).1;
    let pred = |it: ClipboardItem| passes(it, cat, sq);
    let p = passing(items, cat, sq);
    let keys = score_keys(p, sq);
    let o = stable_order(keys);
    lemma_stable_order(keys);
    let r = search_result(items, query);
    assert forall|i: int| 0 <= i < r.len() implies items.contains(#[trigger] r[i]) && passes(r[i], cat, sq) by {
        assert(r[i] == p[o[i] as int]);
        assert(pred(p[o[i] as int]));
        items.lemma_filter_contains_rev(pred, p[o[i] as int]);
    }
    assert forall|i: int| 0 <= i < r.len() && cat is Some implies (#[trigger] r[i]).category == cat by {
        assert(passes(r[i], cat, sq));
    }
    assert forall|i: int|
        0 <= i < r.len() && sq.len() > 0 implies skim_score(search_text(#[trigger] r[i]), sq) is Some by {
        assert(passes(r[i], cat, sq));
    }
    assert forall|i: int, j: int|
        0 <= i < j < r.len() && sq.len() > 0 implies skim_score(search_text(#[trigger] r[i]), sq)->0
            >= skim_score(search_text(#[trigger] r[j]), sq)->0 by {
        assert(crate::ordering::key_le(keys[o[i] as int], keys[o[j] as int]));
        assert(r[i] == p[o[i] as int] && r[j] == p[o[j] as int]);
    }
    assert forall|k: int|
        0 <= k < items.len() && (cat is Some ==> items[k].category == cat) && (sq.len() > 0
            ==> skim_score(search_text(items[k]), sq) is Some) implies r.contains(#[trigger] items[k]) by {
        assert(pred(items[k]));
        assert(p.contains(items[k]));
        let m = choose|m: int| 0 <= m < p.len() && p[m] == items[k];
        assert(o.contains(m as usize));
        let i = choose|i: int| 0 <= i < o.len() && o[i] == m as usize;
        assert(r[i] == items[k]);
    }
}

/// A query whose first word is `@url`, `@email`, `@account`, `@picture` or
/// `@other`, followed by a space, filters by that category and searches for
/// the rest of the query, trimmed.
pub proof fn lemma_tag_query(rest: Seq<char>)
    ensures
        query_filter(seq!['@', 'u', 'r', 'l', ' '] + rest) == (Some(Category::Url), trim(rest)),
        query_filter(seq!['@', 'e', 'm', 'a', 'i', 'l', ' '] + rest) == (Some(Category::Email), trim(rest)),
        query_filter(seq!['@', 'a', 'c', 'c', 'o', 'u', 'n', 't', ' '] + rest) == (
            Some(Category::Account),
            trim(rest),
        ),
        query_filter(seq!['@', 'p', 'i', 'c', 't', 'u', 'r', 'e', ' '] + rest) == (
            Some(Category::Picture),
            trim(rest),
        ),
        query_filter(seq!['@', 'o', 't', 'h', 'e', 'r', ' '] + rest) == (Some(Category::Other), trim(rest)),
{
    reveal_strlit("@url");
    reveal_strlit("@email");
    reveal_strlit("@account");
    reveal_strlit("@picture");
    reveal_strlit("@other");
    lemma_tag_word(seq!['@', 'u', 'r', 'l'], rest);
    lemma_tag_word(seq!['@', 'e', 'm', 'a', 'i', 'l'], rest);
    lemma_tag_word(seq!['@', 'a', 'c', 'c', 'o', 'u', 'n', 't'], rest);
    lemma_tag_word(seq!['@', 'p', 'i', 'c', 't', 'u', 'r', 'e'], rest);
    lemma_tag_word(seq!['@', 'o', 't', 'h', 'e', 'r'], rest);
    assert(seq!['@', 'u', 'r', 'l', ' '] + rest =~= seq!['@', 'u', 'r', 'l'] + seq![' '] + rest);
    assert(seq!['@', 'e', 'm', 'a', 'i', 'l', ' '] + rest =~= seq!['@', 'e', 'm', 'a', 'i', 'l'] + seq![' ']
        + rest);
    assert(seq!['@', 'a', 'c', 'c', 'o', 'u', 'n', 't', ' '] + rest =~= seq![
        '@',
        'a',
        'c',
        'c',
        'o',
        'u',
        'n',
        't',
    ] + seq![' '] + rest);
    assert(seq!['@', 'p', 'i', 'c', 't', 'u', 'r', 'e', ' '] + rest =~= seq![
        '@',
        'p',
        'i',
        'c',
        't',
        'u',
        'r',
        'e',
    ] + seq![' '] + rest);
    assert(seq!['@', 'o', 't', 'h', 'e', 'r', ' '] + rest =~= seq!['@', 'o', 't', 'h', 'e', 'r'] + seq![' ']
        + rest);
    assert("@url"@ =~= seq!['@', 'u', 'r', 'l']);
    assert("@email"@ =~= seq!['@', 'e', 'm', 'a', 'i', 'l']);
    assert("@account"@ =~= seq!['@', 'a', 'c', 'c', 'o', 'u', 'n', 't']);
    assert("@picture"@ =~= seq!['@', 'p', 'i', 'c', 't', 'u', 'r', 'e']);
    assert("@other"@ =~= seq!['@', 'o', 't', 'h', 'e', 'r']);
}

proof fn lemma_tag_word(word: Seq<char>, rest: Seq<char>)
    requires
        word.len() > 0,
        word[0] == '@',
        forall|j: int| 0 <= j < word.len() ==> word[j] != ' ',
    ensures
        query_filter(word + seq![' '] + rest) == (tag_category(word), trim(rest)),
{
    let q = word + seq![' '] + rest;
    lemma_first_space(q, word.len() as int);
    assert(q.take(word.len() as int) =~= word);
    assert(q.skip(word.len() as int + 1) =~= rest);
}

} // verus!
