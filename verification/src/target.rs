//! The URL of a topic or a webhook, taken apart.

use vstd::prelude::*;

use crate::error::{Failure, TransportError};
use crate::text::{letters, spell};

verus! {

/// What an HTTP URL names.
#[verifier::ext_equal]
pub struct TargetModel {
    pub secure: bool,
    pub authority: Seq<char>,
    pub path: Seq<char>,
}

/// How far `rest` goes before its first slash.
pub open spec fn before_slash(rest: Seq<char>) -> nat
    decreases rest.len(),
{
    if rest.len() == 0 || rest[0] == '/' {
        0
    } else {
        1 + before_slash(rest.drop_first())
    }
}

/// What stands behind the scheme of a URL: the authority up to the first
/// slash, which is not empty, and the path from there, `/` where there is
/// none.
pub open spec fn behind_scheme(secure: bool, rest: Seq<char>) -> Option<TargetModel> {
    let cut = before_slash(rest) as int;
    if cut == 0 {
        None
    } else {
        Some(
            TargetModel {
                secure,
                authority: rest.take(cut),
                path: if cut == rest.len() {
                    seq!['/']
                } else {
                    rest.skip(cut)
                },
            },
        )
    }
}

/// What `url` names, or that it is no HTTP URL.
pub open spec fn target_of(url: Seq<char>) -> Result<TargetModel, Failure> {
    let named = if "http://"@.is_prefix_of(url) {
        behind_scheme(false, url.skip(7))
    } else if "https://"@.is_prefix_of(url) {
        behind_scheme(true, url.skip(8))
    } else {
        None
    };
    match named {
        Some(target) => Ok(target),
        None => Err(crate::error::lasting("not an HTTP URL: "@ + url)),
    }
}

/// The endpoint a target is at: its scheme and its authority.
pub open spec fn endpoint_of(target: TargetModel) -> Seq<char> {
    if target.secure {
        "https://"@ + target.authority
    } else {
        "http://"@ + target.authority
    }
}

/// What an HTTP URL names.
#[derive(Debug, PartialEq, Eq)]
pub struct HttpTarget {
    pub secure: bool,
    pub authority: String,
    pub path: String,
}

impl View for HttpTarget {
    type V = TargetModel;

    open spec fn view(&self) -> TargetModel {
        TargetModel { secure: self.secure, authority: self.authority@, path: self.path@ }
    }
}

/// Where `letters` says `scheme` at its start.
fn starts(letters: &Vec<char>, scheme: &str) -> (starts: bool)
    ensures
        starts == scheme@.is_prefix_of(letters@),
{
    let wanted = crate::text::letters(scheme);
    if wanted.len() > letters.len() {
        return false;
    }
    let start = spell(letters, 0, wanted.len());
    crate::text::same(start.as_str(), scheme)
}

/// What stands in `letters` behind a scheme that ends at `from`.
fn split(secure: bool, letters: &Vec<char>, from: usize) -> (target: Option<HttpTarget>)
    requires
        from <= letters@.len(),
    ensures
        behind_scheme(secure, letters@.skip(from as int)) == match target {
            Some(target) => Some(target@),
            None => None,
        },
{
    let ghost rest = letters@.skip(from as int);
    let mut cut: usize = from;
    assert(rest.skip(0) =~= rest);
    while cut < letters.len() && letters[cut] != '/'
        invariant
            from <= cut <= letters@.len(),
            rest == letters@.skip(from as int),
            before_slash(rest) == cut - from + before_slash(rest.skip(cut - from)),
        decreases letters@.len() - cut,
    {
        assert(rest.skip(cut - from).drop_first() =~= rest.skip(cut - from + 1));
        cut += 1;
    }
    if cut == from {
        return None;
    }
    let authority = spell(letters, from, cut);
    let path = if cut == letters.len() {
        let mut path = String::new();
        path.push('/');
        assert(path@ =~= seq!['/']);
        path
    } else {
        spell(letters, cut, letters.len())
    };
    assert(authority@ =~= rest.take(cut - from));
    assert(cut < letters@.len() ==> path@ =~= rest.skip(cut - from));
    Some(HttpTarget { secure, authority, path })
}

impl HttpTarget {
    /// What `url` names.
    ///
    /// # Errors
    /// Where `url` is not HTTP: no `http://` or `https://`, or nothing
    /// behind it.
    pub fn parse(url: &str) -> (target: Result<Self, TransportError>)
        ensures
            target_of(url@) == match target {
                Ok(target) => Ok::<TargetModel, Failure>(target@),
                Err(error) => Err(error@),
            },
    {
        proof {
            reveal_strlit("http://");
            reveal_strlit("https://");
        }
        let letters = letters(url);
        let named = if starts(&letters, "http://") {
            split(false, &letters, 7)
        } else if starts(&letters, "https://") {
            split(true, &letters, 8)
        } else {
            None
        };
        match named {
            Some(target) => Ok(target),
            None => {
                let mut message = "not an HTTP URL: ".to_owned();
                message.append(url);
                Err(TransportError::permanent(message.as_str()))
            },
        }
    }

    /// The endpoint to connect to: the scheme and the authority.
    #[must_use]
    pub fn endpoint(&self) -> (endpoint: String)
        ensures
            endpoint@ == endpoint_of(self@),
    {
        let mut endpoint = if self.secure {
            "https://".to_owned()
        } else {
            "http://".to_owned()
        };
        endpoint.append(self.authority.as_str());
        endpoint
    }
}

/// The words of a scheme, up to the authority.
pub open spec fn scheme(secure: bool) -> Seq<char> {
    if secure {
        "https://"@
    } else {
        "http://"@
    }
}

/// What stands before the first slash is the authority, where that has none of
/// its own.
proof fn lemma_before_slash(authority: Seq<char>, path: Seq<char>)
    requires
        !authority.contains('/'),
        path.len() > 0 ==> path[0] == '/',
    ensures
        before_slash(authority + path) == authority.len(),
    decreases authority.len(),
{
    let whole = authority + path;
    if authority.len() == 0 {
        assert(whole =~= path);
    } else {
        let rest = authority.drop_first();
        assert(whole.drop_first() =~= rest + path);
        assert(authority.contains(authority[0]));
        assert forall|letter: char| rest.contains(letter) implies authority.contains(letter) by {
            let at = choose|at: int| 0 <= at < rest.len() && rest[at] == letter;
            assert(authority[at + 1] == letter);
        }
        lemma_before_slash(rest, path);
    }
}

/// Nothing before the first slash is one.
proof fn lemma_no_slash_before(rest: Seq<char>)
    ensures
        before_slash(rest) <= rest.len(),
        !rest.take(before_slash(rest) as int).contains('/'),
        before_slash(rest) < rest.len() ==> rest[before_slash(rest) as int] == '/',
    decreases rest.len(),
{
    if rest.len() > 0 && rest[0] != '/' {
        let after = rest.drop_first();
        lemma_no_slash_before(after);
        let cut = before_slash(rest) as int;
        assert forall|at: int| 0 <= at < cut implies rest.take(cut)[at] != '/' by {
            if at > 0 {
                assert(after.take(cut - 1).contains(after.take(cut - 1)[at - 1]));
            }
        }
    }
}

/// A scheme, an authority and a path make the URL that names them, a path of
/// nothing standing for the root.
pub proof fn law_url_names_its_parts(secure: bool, authority: Seq<char>, path: Seq<char>)
    requires
        authority.len() > 0,
        !authority.contains('/'),
        path.len() > 0 ==> path[0] == '/',
    ensures
        target_of(scheme(secure) + authority + path) == Ok::<TargetModel, Failure>(
            TargetModel {
                secure,
                authority,
                path: if path.len() == 0 {
                    "/"@
                } else {
                    path
                },
            },
        ),
        endpoint_of(
            TargetModel { secure, authority, path },
        ) == scheme(secure) + authority,
{
    reveal_strlit("http://");
    reveal_strlit("https://");
    reveal_strlit("/");
    let url = scheme(secure) + authority + path;
    let rest = authority + path;
    lemma_before_slash(authority, path);
    assert(scheme(secure).is_prefix_of(url));
    assert(url.skip(scheme(secure).len() as int) =~= rest);
    if secure {
        assert(url[4] == 's');
        assert("http://"@[4] == ':');
        assert(!"http://"@.is_prefix_of(url)) by {
            if "http://"@.is_prefix_of(url) {
                assert(url.take(7)[4] == url[4]);
            }
        }
    }
    assert(rest.take(authority.len() as int) =~= authority);
    assert(rest.skip(authority.len() as int) =~= path);
    assert("/"@ =~= seq!['/']);
}

/// A URL that names something is made of what it names, and one that names
/// nothing is said to be no HTTP URL, for good.
pub proof fn law_only_such_a_url_names_something(url: Seq<char>)
    ensures
        match target_of(url) {
            Ok(target) => {
                &&& target.authority.len() > 0
                &&& !target.authority.contains('/')
                &&& target.path.len() > 0
                &&& target.path[0] == '/'
                &&& url == scheme(target.secure) + target.authority + target.path || (target.path
                    == "/"@ && url == scheme(target.secure) + target.authority)
            },
            Err(failure) => failure.message == "not an HTTP URL: "@ + url && !failure.retryable,
        },
{
    reveal_strlit("http://");
    reveal_strlit("https://");
    reveal_strlit("/");
    if let Ok(target) = target_of(url) {
        let from = scheme(target.secure).len() as int;
        let rest = url.skip(from);
        lemma_no_slash_before(rest);
        let cut = before_slash(rest) as int;
        assert("/"@ =~= seq!['/']);
        assert(scheme(target.secure).is_prefix_of(url));
        assert(url =~= scheme(target.secure) + rest);
        assert(rest =~= rest.take(cut) + rest.skip(cut));
        if cut == rest.len() {
            assert(url =~= scheme(target.secure) + target.authority);
        } else {
            assert(url =~= scheme(target.secure) + target.authority + target.path);
        }
    }
}

/// A target says what it holds.
pub proof fn law_a_target_says_what_it_holds(target: HttpTarget)
    ensures
        target@.secure == target.secure,
        target@.authority == target.authority@,
        target@.path == target.path@,
{
}

} // verus!
