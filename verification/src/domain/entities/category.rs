//! Kinds of clipboard content, detected from the text.
use vstd::prelude::*;
use crate::text::{contains_char, owned, seq_starts_with, starts_with};

verus! {

/// Kind of a clipboard item.
#[derive(Debug, Clone, Copy, PartialEq, Eq, Structural)]
pub enum Category {
    Url,
    Email,
    Account,
    Picture,
    Other,
}

/// An e-mail address.
pub const EMAIL_PATTERN: &'static str = "^[a-zA-Z0-9._%+-]+@[a-zA-Z0-9.-]+\\.[a-zA-Z]{2,}$";

/// A user name written with a leading `@`.
pub const AT_ACCOUNT_PATTERN: &'static str = "^@[a-zA-Z0-9_]+$";

/// A plain user name of 3 to 20 word characters.
pub const PLAIN_ACCOUNT_PATTERN: &'static str = "^[a-zA-Z0-9_]{3,20}$";

/// Whether regular expression `pattern` compiles and matches somewhere in
/// `text` (`regex::Regex::new` then `Regex::is_match`).
pub uninterp spec fn regex_matches(pattern: Seq<char>, text: Seq<char>) -> bool;

/// Compiles `pattern` with `regex::Regex::new` and tests `text` with
/// `Regex::is_match`; a pattern that does not compile matches nothing. The
/// contract claims that the answer is a function of the pattern and the text.
#[verifier::external_body]
fn regex_is_match(pattern: &str, text: &str) -> (r: bool)
    ensures
        r == regex_matches(pattern@, text@),
{
    match regex::Regex::new(pattern) {
        Ok(re) => re.is_match(text),
        Err(_) => false,
    }
}

/// The text reads as a URL: a web scheme or `www.` prefix, or both a dot
/// and a slash.
pub open spec fn looks_like_url(t: Seq<char>) -> bool {
    ||| seq_starts_with(t, "http://"@)
    ||| seq_starts_with(t, "https://"@)
    ||| seq_starts_with(t, "www."@)
    ||| (t.contains('.') && t.contains('/'))
}

/// The category of text `t`, given whether it matches the e-mail pattern,
/// the `@name` pattern and the plain user-name pattern.
pub open spec fn classify(t: Seq<char>, email: bool, at_account: bool, plain_account: bool) -> Category {
    if looks_like_url(t) {
        Category::Url
    } else if email {
        Category::Email
    } else if at_account || (plain_account && !t.contains(' ') && !t.contains('@')) {
        Category::Account
    } else {
        Category::Other
    }
}

/// The category of text `t`.
pub open spec fn category_of(t: Seq<char>) -> Category {
    classify(
        t,
        regex_matches(EMAIL_PATTERN@, t),
        regex_matches(AT_ACCOUNT_PATTERN@, t),
        regex_matches(PLAIN_ACCOUNT_PATTERN@, t),
    )
}

/// `t` starts with the characters of `p`.
pub open spec fn begins_with(t: Seq<char>, p: Seq<char>) -> bool {
    p.len() <= t.len() && forall|i: int| 0 <= i < p.len() ==> t[i] == p[i]
}

/// Text is taken for a URL exactly when it starts with `http://`,
/// `https://` or `www.`, or holds both a dot and a slash, whatever it matches
/// otherwise. So a date such as `12/05/2024` or a phrase such as `and/or`,
/// with a slash and no dot, is not a URL, nor is a dotted name with no slash.
pub proof fn lemma_url_detection(t: Seq<char>, email: bool, at_account: bool, plain_account: bool)
    ensures
        (classify(t, email, at_account, plain_account) == Category::Url) <==> {
            ||| begins_with(t, seq!['h', 't', 't', 'p', ':', '/', '/'])
            ||| begins_with(t, seq!['h', 't', 't', 'p', 's', ':', '/', '/'])
            ||| begins_with(t, seq!['w', 'w', 'w', '.'])
            ||| ((exists|i: int| 0 <= i < t.len() && t[i] == '.') && (exists|j: int|
                0 <= j < t.len() && t[j] == '/'))
        },
        (category_of(t) == Category::Url) == (classify(t, email, at_account, plain_account)
            == Category::Url),
{
    reveal_strlit("http://");
    reveal_strlit("https://");
    reveal_strlit("www.");
    let h = seq!['h', 't', 't', 'p', ':', '/', '/'];
    let hs = seq!['h', 't', 't', 'p', 's', ':', '/', '/'];
    let w = seq!['w', 'w', 'w', '.'];
    assert("http://"@ =~= h);
    assert("https://"@ =~= hs);
    assert("www."@ =~= w);
    if begins_with(t, h) {
        assert(t.subrange(0, 7) =~= h);
    }
    if seq_starts_with(t, h) {
        assert forall|i: int| 0 <= i < 7 implies t[i] == h[i] by {
            assert(t.subrange(0, 7)[i] == t[i]);
        }
    }
    if begins_with(t, hs) {
        assert(t.subrange(0, 8) =~= hs);
    }
    if seq_starts_with(t, hs) {
        assert forall|i: int| 0 <= i < 8 implies t[i] == hs[i] by {
            assert(t.subrange(0, 8)[i] == t[i]);
        }
    }
    if begins_with(t, w) {
        assert(t.subrange(0, 4) =~= w);
    }
    if seq_starts_with(t, w) {
        assert forall|i: int| 0 <= i < 4 implies t[i] == w[i] by {
            assert(t.subrange(0, 4)[i] == t[i]);
        }
    }
}

/// The name of a category, as `Display` and `Debug` write it.
pub open spec fn category_name(c: Category) -> Seq<char> {
    match c {
        Category::Url => "Url"@,
        Category::Email => "Email"@,
        Category::Account => "Account"@,
        Category::Picture => "Picture"@,
        Category::Other => "Other"@,
    }
}

/// Whether text `t` reads as a URL.
pub fn is_url_like(t: &str) -> (r: bool)
    ensures
        r == looks_like_url(t@),
{
    starts_with(t, "http://") || starts_with(t, "https://") || starts_with(t, "www.") || (
    contains_char(t, '.') && contains_char(t, '/'))
}

impl Category {
    /// Detects the category of a text.
    pub fn from_text(text: &str) -> (r: Category)
        ensures
            r == category_of(text@),
    {
        let email = regex_is_match(EMAIL_PATTERN, text);
        let at_account = regex_is_match(AT_ACCOUNT_PATTERN, text);
        let plain_account = regex_is_match(PLAIN_ACCOUNT_PATTERN, text);
        Self::from_matches(text, email, at_account, plain_account)
    }

    /// The category of `text` given whether it matches the e-mail pattern,
    /// the `@name` pattern and the plain user-name pattern.
    pub fn from_matches(text: &str, email: bool, at_account: bool, plain_account: bool) -> (r:
        Category)
        ensures
            r == classify(text@, email, at_account, plain_account),
    {
        if is_url_like(text) {
            Category::Url
        } else if email {
            Category::Email
        } else if at_account || (plain_account && !contains_char(text, ' ') && !contains_char(
            text,
            '@',
        )) {
            Category::Account
        } else {
            Category::Other
        }
    }

    /// The category's name, as `Display` writes it.
    pub fn name(&self) -> (r: String)
        ensures
            r@ == category_name(*self),
    {
        match self {
            Category::Url => owned("Url"),
            Category::Email => owned("Email"),
            Category::Account => owned("Account"),
            Category::Picture => owned("Picture"),
            Category::Other => owned("Other"),
        }
    }
}

} // verus!
