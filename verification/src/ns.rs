//! Namespace identifiers (`authority.package`) and fully qualified type
//! identifiers (`namespace` plus optional local name).

use vstd::prelude::*;
use vstd::string::StrSliceExecFns;
use vstd::string::StringExecFns;

use crate::strutil::{first_index_of, last_index_of, lemma_last_index_of, push_char, str_eq,
    substr};

verus! {

/// A namespace id, e.g. `app.bsky.feed.post`: everything before the last dot
/// is the authority, everything after it the package.
#[derive(PartialEq, Eq, PartialOrd, Ord, Hash, Debug)]
pub struct Nsid {
    pub authority: String,
    pub package: String,
}

/// Failure of a namespace-id parse.
#[derive(PartialEq, Eq, Structural, PartialOrd, Ord, Debug, Clone, Copy, Hash)]
pub enum InvalidNsid {
    /// The text holds no dot, so no authority can be split off.
    Authority,
}

/// The text form of a namespace id: authority, dot, package.
pub open spec fn nsid_text(n: Nsid) -> Seq<char> {
    n.authority@ + seq!['.'] + n.package@
}

/// What parsing a namespace id yields: the split of the text at its last
/// dot, or nothing when it has no dot.
pub open spec fn spec_parse_nsid(s: Seq<char>) -> Option<(Seq<char>, Seq<char>)> {
    let i = last_index_of(s, '.');
    if i >= 0 {
        Some((s.take(i), s.subrange(i + 1, s.len() as int)))
    } else {
        None
    }
}

impl Nsid {
    /// A namespace id from its two parts, taken verbatim.
    pub fn new(authority: &str, package: &str) -> (r: Self)
        ensures
            r.authority@ == authority@,
            r.package@ == package@,
    {
        Nsid { authority: authority.to_owned(), package: package.to_owned() }
    }

    /// Splits dotted text at its last dot; text without a dot is rejected.
    pub fn parse(s: &str) -> (r: Result<Self, InvalidNsid>)
        ensures
            match r {
                Ok(n) => spec_parse_nsid(s@) == Some((n.authority@, n.package@)),
                Err(e) => spec_parse_nsid(s@) is None && e == InvalidNsid::Authority,
            },
    {
        let n = s.unicode_len();
        let mut i: usize = n;
        while i > 0
            invariant
                i <= n,
                n == s@.len(),
                forall|j: int| i <= j < n ==> s@[j] != '.',
            decreases i,
        {
            let c = s.get_char(i - 1);
            if c == '.' {
                proof {
                    lemma_last_index_of(s@, '.');
                    let l = last_index_of(s@, '.');
                    assert(l == i - 1) by {
                        if l < i - 1 {
                            assert(s@[i - 1] != '.');
                        }
                        if l > i - 1 {
                            assert(s@[l] != '.');
                        }
                    }
                }
                let authority = substr(s, 0, i - 1);
                let package = substr(s, i, n);
                return Ok(Nsid { authority, package });
            }
            i = i - 1;
        }
        proof {
            lemma_last_index_of(s@, '.');
            let l = last_index_of(s@, '.');
            if l >= 0 {
                assert(s@[l] != '.');
            }
        }
        Err(InvalidNsid::Authority)
    }

    /// The dotted text form: authority, dot, package.
    pub fn to_string(&self) -> (r: String)
        ensures
            r@ == nsid_text(*self),
    {
        let mut out = self.authority.clone();
        push_char(&mut out, '.');
        out.append(self.package.as_str());
        proof {
            assert(out@ =~= nsid_text(*self));
        }
        out
    }
}

impl Clone for Nsid {
    /// An equal namespace id.
    fn clone(&self) -> (r: Self)
        ensures
            r == *self,
    {
        Nsid { authority: self.authority.clone(), package: self.package.clone() }
    }
}

impl core::str::FromStr for Nsid {
    type Err = InvalidNsid;

    fn from_str(s: &str) -> Result<Self, Self::Err> {
        Nsid::parse(s)
    }
}

/// Law: a namespace id whose package holds no dot survives the round trip
/// through its text form — parsing what `to_string` yields gives both parts
/// back verbatim.
pub proof fn lemma_nsid_round_trip(n: Nsid)
    requires
        !n.package@.contains('.'),
    ensures
        spec_parse_nsid(nsid_text(n)) == Some((n.authority@, n.package@)),
{
    let t = nsid_text(n);
    let a = n.authority@.len() as int;
    lemma_last_index_of(t, '.');
    let l = last_index_of(t, '.');
    assert(t[a] == '.');
    assert(l == a) by {
        if l < a {
            assert(t[a] != '.');
        }
        if l > a {
            assert(t[l] == n.package@[l - a - 1]);
            assert(!n.package@.contains('.') ==> n.package@[l - a - 1] != '.');
        }
    }
    assert(t.take(a) =~= n.authority@);
    assert(t.subrange(a + 1, t.len() as int) =~= n.package@);
}

/// A schema type identifier: a namespace and an optional local name, where
/// no name stands for the namespace's main definition (the literal local
/// name `main` is never stored).
#[derive(PartialEq, Eq, PartialOrd, Ord, Hash, Debug)]
pub struct TypeId {
    pub ns: Nsid,
    /// The local name, or `None` if the name was `main`.
    pub name: Option<String>,
}

/// The view of an optional owned name.
pub open spec fn name_view(o: Option<String>) -> Option<Seq<char>> {
    match o {
        Some(s) => Some(s@),
        None => None,
    }
}

/// The stored form of a local name: the literal `main` collapses to none.
pub open spec fn spec_local_name(name: Seq<char>) -> Option<Seq<char>> {
    if name == "main"@ {
        None
    } else {
        Some(name)
    }
}

/// What resolving reference text against a base namespace yields: the text
/// up to the first hash sign names the namespace (empty means the base), the
/// rest is the local name; text without a hash sign is rejected, as is a
/// namespace part that has no dot.
pub open spec fn spec_resolve(target: Seq<char>, base_a: Seq<char>, base_p: Seq<char>) -> Option<
    ((Seq<char>, Seq<char>), Option<Seq<char>>),
> {
    let h = first_index_of(target, 0, '#');
    if h < 0 {
        None
    } else {
        let nsid = target.take(h);
        let name = target.subrange(h + 1, target.len() as int);
        let nm = spec_local_name(name);
        if nsid.len() == 0 {
            Some(((base_a, base_p), nm))
        } else {
            match spec_parse_nsid(nsid) {
                Some((a, p)) => Some(((a, p), nm)),
                None => None,
            }
        }
    }
}

/// What parsing a type identifier yields: a split at the last hash sign
/// (none means the whole text is the namespace), the namespace part split at
/// its last dot.
pub open spec fn spec_parse_type_id(s: Seq<char>) -> Option<
    ((Seq<char>, Seq<char>), Option<Seq<char>>),
> {
    let h = last_index_of(s, '#');
    let nsid = if h >= 0 {
        s.take(h)
    } else {
        s
    };
    let nm = if h >= 0 {
        spec_local_name(s.subrange(h + 1, s.len() as int))
    } else {
        None
    };
    match spec_parse_nsid(nsid) {
        Some((a, p)) => Some(((a, p), nm)),
        None => None,
    }
}

impl TypeId {
    /// A type identifier from its parts, taken verbatim.
    pub fn new(ns: Nsid, name: Option<String>) -> (r: Self)
        ensures
            r.ns == ns,
            r.name == name,
    {
        TypeId { ns, name }
    }

    /// A type identifier for a named definition of a namespace; the literal
    /// name `main` collapses to the nameless main definition.
    pub fn of(ns: &Nsid, name: &str) -> (r: Self)
        ensures
            r.ns == *ns,
            name_view(r.name) == spec_local_name(name@),
    {
        if str_eq(name, "main") {
            TypeId { ns: ns.clone(), name: None }
        } else {
            TypeId { ns: ns.clone(), name: Some(name.to_owned()) }
        }
    }

    /// Resolves reference text of the form `ns#name`, `#name` or `ns#`
    /// against the namespace of the containing document.
    pub fn resolve(target: &str, base: &Nsid) -> (r: Result<Self, ()>)
        ensures
            match r {
                Ok(t) => spec_resolve(target@, base.authority@, base.package@) == Some(
                    ((t.ns.authority@, t.ns.package@), name_view(t.name)),
                ),
                Err(_) => spec_resolve(target@, base.authority@, base.package@) is None,
            },
    {
        let n = target.unicode_len();
        let mut h: usize = 0;
        while h < n
            invariant
                h <= n,
                n == target@.len(),
                forall|j: int| 0 <= j < h ==> target@[j] != '#',
            decreases n - h,
        {
            if target.get_char(h) == '#' {
                proof {
                    crate::strutil::lemma_first_index_of(target@, 0, h as int, '#');
                }
                let name = substr(target, h + 1, n);
                if h == 0 {
                    proof {
                        assert(target@.take(0) =~= Seq::<char>::empty());
                    }
                    return Ok(Self::of(base, name.as_str()));
                }
                let nsid_part = substr(target, 0, h);
                return match Nsid::parse(nsid_part.as_str()) {
                    Ok(nsid) => Ok(Self::of(&nsid, name.as_str())),
                    Err(_) => Err(()),
                };
            }
            h = h + 1;
        }
        proof {
            crate::strutil::lemma_first_index_of(target@, 0, n as int, '#');
        }
        Err(())
    }

    /// Parses `ns` or `ns#name` text, splitting at the last hash sign; the
    /// name `main` collapses to the nameless main definition.
    pub fn parse(s: &str) -> (r: Result<Self, InvalidNsid>)
        ensures
            match r {
                Ok(t) => spec_parse_type_id(s@) == Some(
                    ((t.ns.authority@, t.ns.package@), name_view(t.name)),
                ),
                Err(e) => spec_parse_type_id(s@) is None && e == InvalidNsid::Authority,
            },
    {
        let n = s.unicode_len();
        let mut i: usize = n;
        while i > 0
            invariant
                i <= n,
                n == s@.len(),
                forall|j: int| i <= j < n ==> s@[j] != '#',
            decreases i,
        {
            let c = s.get_char(i - 1);
            if c == '#' {
                proof {
                    lemma_last_index_of(s@, '#');
                    let l = last_index_of(s@, '#');
                    assert(l == i - 1) by {
                        if l < i - 1 {
                            assert(s@[i - 1] != '#');
                        }
                        if l > i - 1 {
                            assert(s@[l] != '#');
                        }
                    }
                }
                let nsid_part = substr(s, 0, i - 1);
                let name = substr(s, i, n);
                let ns = match Nsid::parse(nsid_part.as_str()) {
                    Ok(ns) => ns,
                    Err(e) => {
                        return Err(e);
                    },
                };
                if str_eq(name.as_str(), "main") {
                    return Ok(TypeId { ns, name: None });
                }
                return Ok(TypeId { ns, name: Some(name) });
            }
            i = i - 1;
        }
        proof {
            lemma_last_index_of(s@, '#');
            let l = last_index_of(s@, '#');
            if l >= 0 {
                assert(s@[l] != '#');
            }
        }
        match Nsid::parse(s) {
            Ok(ns) => Ok(TypeId { ns, name: None }),
            Err(e) => Err(e),
        }
    }

    /// The display form: the namespace alone, or namespace, colon, name.
    pub fn to_string(&self) -> (r: String)
        ensures
            r@ == match name_view(self.name) {
                None => nsid_text(self.ns),
                Some(nm) => nsid_text(self.ns) + seq![':'] + nm,
            },
    {
        let mut out = self.ns.to_string();
        match &self.name {
            None => out,
            Some(name) => {
                push_char(&mut out, ':');
                out.append(name.as_str());
                proof {
                    assert(out@ =~= nsid_text(self.ns) + seq![':']
                        + name_view(self.name)->Some_0);
                }
                out
            },
        }
    }
}

impl Clone for TypeId {
    /// An equal type identifier.
    fn clone(&self) -> (r: Self)
        ensures
            r == *self,
    {
        let name = match &self.name {
            Some(n) => Some(n.clone()),
            None => None,
        };
        TypeId { ns: self.ns.clone(), name }
    }
}

impl core::str::FromStr for TypeId {
    type Err = InvalidNsid;

    fn from_str(s: &str) -> Result<Self, Self::Err> {
        TypeId::parse(s)
    }
}

} // verus!
