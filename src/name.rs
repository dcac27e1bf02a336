use vstd::prelude::*;
use std::path::PathBuf;

verus! {

#[verifier::external_type_specification]
#[verifier::external_body]
pub struct ExPathBuf(std::path::PathBuf);

/// Relies on `PathBuf`'s `Clone`: the clone is the same path.
pub assume_specification[ <std::path::PathBuf as Clone>::clone ](p: &std::path::PathBuf) -> (r: std::path::PathBuf)
    ensures
        r == *p,
;

/// Relies on `str::strip_prefix`: the text after a leading ':', if there is one.
#[verifier::external_body]
fn strip_colon(s: &str) -> (r: Option<&str>)
    ensures
        match r {
            Some(rest) => s@.len() > 0 && s@[0] == ':' && rest@ == s@.drop_first(),
            None => s@.len() == 0 || s@[0] != ':',
        },
{
    s.strip_prefix(':')
}

/// Relies on `Path::join`: the folder extended by one path component.
#[verifier::external_body]
fn join_path(folder: &PathBuf, name: &str) -> (r: PathBuf) {
    folder.join(std::path::Path::new(name))
}

/// The name of a shape in generated documentation, with the local file and local name
/// that a prefixed name (`:local`) gets.
#[derive(Debug, PartialEq, Eq, Clone, Hash)]
pub struct Name {
    str: String,
    href: Option<String>,
    local_ref: Option<(PathBuf, String)>,
}

impl Name {
    pub closed spec fn view_str(&self) -> Seq<char> {
        self.str@
    }

    pub closed spec fn view_href(&self) -> Option<Seq<char>> {
        match self.href {
            Some(h) => Some(h@),
            None => None,
        }
    }

    pub closed spec fn view_local_name(&self) -> Option<Seq<char>> {
        match self.local_ref {
            Some((_, l)) => Some(l@),
            None => None,
        }
    }

    pub closed spec fn view_path(&self) -> Option<PathBuf> {
        match self.local_ref {
            Some((p, _)) => Some(p),
            None => None,
        }
    }

    /// A name `str`; when it starts with ':' the rest is its local name, and its local
    /// file is that local name inside `target_folder`.
    pub fn new(str: &str, href: Option<&str>, target_folder: &PathBuf) -> (r: Name)
        ensures
            r.view_str() == str@,
            r.view_href() == (match href {
                Some(h) => Some(h@),
                None => None::<Seq<char>>,
            }),
            r.view_local_name() == (if str@.len() > 0 && str@[0] == ':' {
                Some(str@.drop_first())
            } else {
                None
            }),
            r.view_path() is Some == (str@.len() > 0 && str@[0] == ':'),
    {
        let href = match href {
            Some(h) => Some(h.to_owned()),
            None => None,
        };
        match strip_colon(str) {
            Some(local_name) => Name {
                str: str.to_owned(),
                href,
                local_ref: Some((join_path(target_folder, local_name), local_name.to_owned())),
            },
            None => Name { str: str.to_owned(), href, local_ref: None },
        }
    }

    pub fn name(&self) -> (r: String)
        ensures
            r@ == self.view_str(),
    {
        self.str.clone()
    }

    pub fn href(&self) -> (r: Option<String>)
        ensures
            match r {
                Some(h) => self.view_href() == Some(h@),
                None => self.view_href() is None,
            },
    {
        match &self.href {
            Some(h) => Some(h.clone()),
            None => None,
        }
    }

    pub fn as_local_ref(&self) -> (r: Option<(PathBuf, String)>)
        ensures
            match r {
                Some((p, l)) => self.view_path() == Some(p) && self.view_local_name() == Some(l@),
                None => self.view_path() is None && self.view_local_name() is None,
            },
    {
        match &self.local_ref {
            Some((p, l)) => Some((p.clone(), l.clone())),
            None => None,
        }
    }

    pub fn as_path(&self) -> (r: Option<PathBuf>)
        ensures
            r == self.view_path(),
    {
        match &self.local_ref {
            Some((p, _)) => Some(p.clone()),
            None => None,
        }
    }

    pub fn as_local_href(&self) -> (r: Option<String>)
        ensures
            match r {
                Some(l) => self.view_local_name() == Some(l@),
                None => self.view_local_name() is None,
            },
    {
        match &self.local_ref {
            Some((_, l)) => Some(l.clone()),
            None => None,
        }
    }
}

} // verus!
