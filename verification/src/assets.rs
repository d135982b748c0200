//! The embedded web UI: which asset a request path names.

use vstd::prelude::*;
use vstd::string::StrSliceExecFns;
use vstd::string::StringExecFns;

verus! {

/// The text with every leading `/` removed.
pub open spec fn trim_leading_slashes(s: Seq<char>) -> Seq<char>
    decreases s.len(),
{
    if s.len() > 0 && s[0] == '/' {
        trim_leading_slashes(s.drop_first())
    } else {
        s
    }
}

pub open spec fn index_page() -> Seq<char> {
    seq!['i', 'n', 'd', 'e', 'x', '.', 'h', 't', 'm', 'l']
}

pub open spec fn login_page() -> Seq<char> {
    seq!['l', 'o', 'g', 'i', 'n', '.', 'h', 't', 'm', 'l']
}

/// The asset that a request path names: the root is the index page, `login`
/// the login page, and any other path the asset of that name.
pub open spec fn asset_for(path: Seq<char>) -> Seq<char> {
    let rest = trim_leading_slashes(path);
    if rest.len() == 0 {
        index_page()
    } else if rest == seq!['l', 'o', 'g', 'i', 'n'] {
        login_page()
    } else {
        rest
    }
}

proof fn lemma_trim_skip(s: Seq<char>, n: int)
    requires
        0 <= n <= s.len(),
        forall|i: int| 0 <= i < n ==> s[i] == '/',
        n == s.len() || s[n] != '/',
    ensures
        trim_leading_slashes(s) == s.skip(n),
    decreases n,
{
    if n > 0 {
        assert(s.drop_first().skip(n - 1) =~= s.skip(n));
        lemma_trim_skip(s.drop_first(), n - 1);
    } else {
        assert(s.skip(0) =~= s);
    }
}

/// The name of the asset that the request path `path` asks for.
pub fn asset_path(path: &str) -> (r: String)
    ensures
        r@ == asset_for(path@),
{
    let len = path.unicode_len();
    let mut n: usize = 0;
    while n < len && path.get_char(n) == '/'
        invariant
            len == path@.len(),
            n <= len,
            forall|i: int| 0 <= i < n ==> path@[i] == '/',
        decreases len - n,
    {
        n += 1;
    }
    let rest = path.substring_char(n, len);
    proof {
        lemma_trim_skip(path@, n as int);
        assert(rest@ =~= path@.skip(n as int));
        reveal_strlit("login");
        reveal_strlit("index.html");
        reveal_strlit("login.html");
        assert("login"@ =~= seq!['l', 'o', 'g', 'i', 'n']);
        assert("index.html"@ =~= index_page());
        assert("login.html"@ =~= login_page());
    }
    if n == len {
        String::from_str("index.html")
    } else if crate::text::str_eq(rest, "login") {
        String::from_str("login.html")
    } else {
        String::from_str(rest)
    }
}

} // verus!
