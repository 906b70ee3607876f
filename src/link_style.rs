//! Hyperlink styles for commits and issues.
use crate::error::Error;
use crate::text::{chars_of, equal_folded, matches_folded, opt_str_view, string_of};
use vstd::prelude::*;
use vstd::string::*;

verus! {

/// The hyperlink style of commit and issue links. Defaults to `Github`.
#[derive(Debug, Copy, Clone, PartialEq, Eq, Structural)]
pub enum LinkStyle {
    Github,
    Gitlab,
    Stash,
    Cgit,
}

impl Default for LinkStyle {
    fn default() -> (r: Self)
        ensures
            r == LinkStyle::Github,
    {
        LinkStyle::Github
    }
}

/// The first eight characters of a commit hash, or all of a shorter one.
pub open spec fn short_hash(hash: Seq<char>) -> Seq<char> {
    if hash.len() <= 8 {
        hash
    } else {
        hash.subrange(0, 8)
    }
}

/// The link to an issue: under `repo` for the styles that have an issue
/// tracker, else the issue itself.
pub open spec fn issue_link_view(style: LinkStyle, issue: Seq<char>, repo: Option<Seq<char>>) -> Seq<
    char,
> {
    match repo {
        Some(link) => match style {
            LinkStyle::Github | LinkStyle::Gitlab => link + "/issues/"@ + issue,
            LinkStyle::Stash | LinkStyle::Cgit => issue,
        },
        None => issue,
    }
}

/// The link to a commit: under `repo` in the style's form, else the short
/// hash.
pub open spec fn commit_link_view(style: LinkStyle, hash: Seq<char>, repo: Option<Seq<char>>) -> Seq<
    char,
> {
    match repo {
        Some(link) => match style {
            LinkStyle::Github | LinkStyle::Gitlab => link + "/commit/"@ + hash,
            LinkStyle::Stash => link + "/commits/"@ + hash,
            LinkStyle::Cgit => link + "/commit/?id="@ + hash,
        },
        None => short_hash(hash),
    }
}

/// The style that `name` names, in any ASCII case.
pub open spec fn style_named(name: Seq<char>) -> Option<LinkStyle> {
    if equal_folded(name, "github"@, "GITHUB"@) {
        Some(LinkStyle::Github)
    } else if equal_folded(name, "gitlab"@, "GITLAB"@) {
        Some(LinkStyle::Gitlab)
    } else if equal_folded(name, "stash"@, "STASH"@) {
        Some(LinkStyle::Stash)
    } else if equal_folded(name, "cgit"@, "CGIT"@) {
        Some(LinkStyle::Cgit)
    } else {
        None
    }
}

/// The name of a style.
pub open spec fn style_name(style: LinkStyle) -> Seq<char> {
    match style {
        LinkStyle::Github => "Github"@,
        LinkStyle::Gitlab => "Gitlab"@,
        LinkStyle::Stash => "Stash"@,
        LinkStyle::Cgit => "Cgit"@,
    }
}

/// `head`, `mid` and `tail`, joined.
fn joined(head: &str, mid: &str, tail: &str) -> (r: String)
    ensures
        r@ == head@ + mid@ + tail@,
{
    let mut r = head.to_owned();
    r.append(mid);
    r.append(tail);
    r
}

/// The short form of a commit hash.
pub fn short_hash_of(hash: &str) -> (r: String)
    ensures
        r@ == short_hash(hash@),
{
    let cs = chars_of(hash);
    if cs.len() <= 8 {
        hash.to_owned()
    } else {
        string_of(&cs, 0, 8)
    }
}

impl LinkStyle {
    /// Gets a hyperlink url to an issue in this style.
    pub fn issue_link(&self, issue: &str, repo: Option<&str>) -> (r: String)
        ensures
            r@ == issue_link_view(*self, issue@, opt_str_view(repo)),
    {
        match repo {
            Some(link) => match self {
                LinkStyle::Github | LinkStyle::Gitlab => joined(link, "/issues/", issue),
                LinkStyle::Stash | LinkStyle::Cgit => issue.to_owned(),
            },
            None => issue.to_owned(),
        }
    }

    /// Gets a hyperlink url to a commit in this style.
    pub fn commit_link(&self, hash: &str, repo: Option<&str>) -> (r: String)
        ensures
            r@ == commit_link_view(*self, hash@, opt_str_view(repo)),
    {
        match repo {
            Some(link) => match self {
                LinkStyle::Github | LinkStyle::Gitlab => joined(link, "/commit/", hash),
                LinkStyle::Stash => joined(link, "/commits/", hash),
                LinkStyle::Cgit => joined(link, "/commit/?id=", hash),
            },
            None => short_hash_of(hash),
        }
    }

    /// The style that `name` names, in any ASCII case.
    pub fn from_name(name: &str) -> (r: Option<LinkStyle>)
        ensures
            r == style_named(name@),
    {
        proof {
            reveal_strlit("github");
            reveal_strlit("GITHUB");
            reveal_strlit("gitlab");
            reveal_strlit("GITLAB");
            reveal_strlit("stash");
            reveal_strlit("STASH");
            reveal_strlit("cgit");
            reveal_strlit("CGIT");
        }
        let cs = chars_of(name);
        if matches_folded(&cs, &chars_of("github"), &chars_of("GITHUB")) {
            Some(LinkStyle::Github)
        } else if matches_folded(&cs, &chars_of("gitlab"), &chars_of("GITLAB")) {
            Some(LinkStyle::Gitlab)
        } else if matches_folded(&cs, &chars_of("stash"), &chars_of("STASH")) {
            Some(LinkStyle::Stash)
        } else if matches_folded(&cs, &chars_of("cgit"), &chars_of("CGIT")) {
            Some(LinkStyle::Cgit)
        } else {
            None
        }
    }

    /// The name of this style.
    pub fn name(&self) -> (r: String)
        ensures
            r@ == style_name(*self),
    {
        match self {
            LinkStyle::Github => "Github".to_owned(),
            LinkStyle::Gitlab => "Gitlab".to_owned(),
            LinkStyle::Stash => "Stash".to_owned(),
            LinkStyle::Cgit => "Cgit".to_owned(),
        }
    }
}

impl std::str::FromStr for LinkStyle {
    type Err = Error;

    fn from_str(s: &str) -> Result<LinkStyle, Error> {
        match LinkStyle::from_name(s) {
            Some(style) => Ok(style),
            None => Err(Error::LinkStyle),
        }
    }
}

} // verus!
