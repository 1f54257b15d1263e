//! Schema reference shorthand: the unresolved `ns#name` form written inside
//! schema documents, and its resolution against the containing document's
//! namespace.

use vstd::prelude::*;
use vstd::string::StrSliceExecFns;
use vstd::string::StringExecFns;

use crate::ns::{name_view, nsid_text, spec_parse_nsid, spec_resolve, Nsid, TypeId};
use crate::strutil::{first_index_of, lemma_first_index_of, push_char, str_eq, substr};

verus! {

/// The metadata every schema type carries.
#[derive(PartialEq, Eq, Default, Clone, Debug)]
pub struct Metadata {
    pub description: Option<String>,
}

/// A reference type: a target named by shorthand text.
#[derive(PartialEq, Eq, Clone, Debug)]
pub struct Ref {
    pub metadata: Metadata,
    pub target: RefTarget,
}

/// A union type: a set of reference targets, open unless closed.
#[derive(PartialEq, Eq, Default, Clone, Debug)]
pub struct Union {
    pub metadata: Metadata,
    pub options: Vec<RefTarget>,
    pub closed: Option<bool>,
}

/// A token type: a named value with no payload.
#[derive(PartialEq, Eq, Default, Clone, Debug)]
pub struct Token {
    pub metadata: Metadata,
}

/// An unknown type: a value of unconstrained shape.
#[derive(PartialEq, Eq, Default, Clone, Debug)]
pub struct Unknown {
    pub metadata: Metadata,
}

/// A named type referenced by a `Ref` or `Union`: the unresolved shorthand.
/// No namespace means the containing document; no name means the main
/// definition.
#[derive(PartialEq, Eq, PartialOrd, Ord, Hash, Debug)]
pub struct RefTarget {
    pub ns: Option<Nsid>,
    pub name: Option<String>,
}

/// The view of an optional namespace id.
pub open spec fn ns_view(o: Option<Nsid>) -> Option<(Seq<char>, Seq<char>)> {
    match o {
        Some(n) => Some((n.authority@, n.package@)),
        None => None,
    }
}

/// What parsing reference shorthand yields: split at the first hash sign;
/// no hash sign means a bare namespace; an empty namespace part means the
/// containing document; the name `main` and (for the bare-document forms) an
/// empty name mean the main definition.
pub open spec fn spec_parse_ref_target(s: Seq<char>) -> Option<
    (Option<(Seq<char>, Seq<char>)>, Option<Seq<char>>),
> {
    let h = first_index_of(s, 0, '#');
    if h < 0 {
        match spec_parse_nsid(s) {
            Some(n) => Some((Some(n), None)),
            None => None,
        }
    } else {
        let ns = s.take(h);
        let name = s.subrange(h + 1, s.len() as int);
        if ns.len() == 0 {
            if name == "main"@ || name.len() == 0 {
                Some((None, None))
            } else {
                Some((None, Some(name)))
            }
        } else {
            match spec_parse_nsid(ns) {
                Some(n) => Some(
                    (
                        Some(n),
                        if name == "main"@ {
                            None
                        } else {
                            Some(name)
                        },
                    ),
                ),
                None => None,
            }
        }
    }
}

/// The wire text of a reference target: `#main`, `#name`, `ns` or `ns#name`.
pub open spec fn spec_ref_target_text(rt: RefTarget) -> Seq<char> {
    match (rt.ns, rt.name) {
        (None, None) => "#main"@,
        (None, Some(name)) => seq!['#'] + name@,
        (Some(ns), None) => nsid_text(ns),
        (Some(ns), Some(name)) => nsid_text(ns) + seq!['#'] + name@,
    }
}

impl RefTarget {
    /// A reference target from its parts; an empty name collapses to the
    /// main definition.
    pub fn new(ns: Option<Nsid>, name: &str) -> (r: Self)
        ensures
            r.ns == ns,
            name_view(r.name) == if name@.len() == 0 {
                None::<Seq<char>>
            } else {
                Some(name@)
            },
    {
        let name = if name.unicode_len() == 0 {
            None
        } else {
            Some(name.to_owned())
        };
        RefTarget { ns, name }
    }

    /// The explicit namespace, if the shorthand named one.
    pub fn ns(&self) -> (r: Option<&Nsid>)
        ensures
            match r {
                Some(n) => self.ns == Some(*n),
                None => self.ns is None,
            },
    {
        self.ns.as_ref()
    }

    /// The local name, if the shorthand named one.
    pub fn name(&self) -> (r: Option<&str>)
        ensures
            match r {
                Some(n) => name_view(self.name) == Some(n@),
                None => self.name is None,
            },
    {
        match &self.name {
            Some(n) => Some(n.as_str()),
            None => None,
        }
    }

    /// Resolves the shorthand against the namespace of the document that
    /// holds it: an absent namespace means that document; the name passes
    /// through, none meaning the main definition.
    pub fn resolve(&self, base: &Nsid) -> (r: TypeId)
        ensures
            r.ns == match self.ns {
                Some(n) => n,
                None => *base,
            },
            name_view(r.name) == name_view(self.name),
    {
        let ns = match &self.ns {
            Some(n) => n.clone(),
            None => base.clone(),
        };
        let name = match &self.name {
            Some(n) => Some(n.clone()),
            None => None,
        };
        TypeId { ns, name }
    }

    /// Parses reference shorthand; a namespace part without a dot is
    /// rejected.
    pub fn parse(s: &str) -> (r: Result<Self, ()>)
        ensures
            match r {
                Ok(rt) => spec_parse_ref_target(s@) == Some(
                    (ns_view(rt.ns), name_view(rt.name)),
                ),
                Err(_) => spec_parse_ref_target(s@) is None,
            },
    {
        let n = s.unicode_len();
        let mut h: usize = 0;
        while h < n
            invariant
                h <= n,
                n == s@.len(),
                forall|j: int| 0 <= j < h ==> s@[j] != '#',
            decreases n - h,
        {
            if s.get_char(h) == '#' {
                proof {
                    lemma_first_index_of(s@, 0, h as int, '#');
                }
                let name = substr(s, h + 1, n);
                if h == 0 {
                    proof {
                        assert(s@.take(0) =~= Seq::<char>::empty());
                    }
                    if name.unicode_len() == 0 || str_eq(name.as_str(), "main") {
                        return Ok(RefTarget { ns: None, name: None });
                    }
                    return Ok(RefTarget { ns: None, name: Some(name) });
                }
                let ns_part = substr(s, 0, h);
                let ns = match Nsid::parse(ns_part.as_str()) {
                    Ok(ns) => ns,
                    Err(_) => {
                        return Err(());
                    },
                };
                if str_eq(name.as_str(), "main") {
                    return Ok(RefTarget { ns: Some(ns), name: None });
                }
                return Ok(RefTarget { ns: Some(ns), name: Some(name) });
            }
            h = h + 1;
        }
        proof {
            lemma_first_index_of(s@, 0, n as int, '#');
        }
        match Nsid::parse(s) {
            Ok(ns) => Ok(RefTarget { ns: Some(ns), name: None }),
            Err(_) => Err(()),
        }
    }

    /// The wire text: `#main`, `#name`, `ns` or `ns#name`.
    pub fn to_string(&self) -> (r: String)
        ensures
            r@ == spec_ref_target_text(*self),
    {
        match (&self.ns, &self.name) {
            (None, None) => String::from_str("#main"),
            (None, Some(name)) => {
                let mut out = String::from_str("#");
                out.append(name.as_str());
                proof {
                    reveal_strlit("#");
                    assert(out@ =~= spec_ref_target_text(*self));
                }
                out
            },
            (Some(ns), None) => ns.to_string(),
            (Some(ns), Some(name)) => {
                let mut out = ns.to_string();
                push_char(&mut out, '#');
                out.append(name.as_str());
                proof {
                    assert(out@ =~= spec_ref_target_text(*self));
                }
                out
            },
        }
    }
}

impl Clone for RefTarget {
    /// An equal reference target.
    fn clone(&self) -> (r: Self)
        ensures
            r == *self,
    {
        let ns = match &self.ns {
            Some(n) => Some(n.clone()),
            None => None,
        };
        let name = match &self.name {
            Some(n) => Some(n.clone()),
            None => None,
        };
        RefTarget { ns, name }
    }
}

impl core::str::FromStr for RefTarget {
    type Err = ();

    fn from_str(s: &str) -> Result<Self, Self::Err> {
        RefTarget::parse(s)
    }
}

/// What resolving a parsed reference target against a base namespace yields:
/// the explicit namespace if one was named, else the base; the name passes
/// through.
pub open spec fn spec_resolve_view(
    v: (Option<(Seq<char>, Seq<char>)>, Option<Seq<char>>),
    base_a: Seq<char>,
    base_p: Seq<char>,
) -> ((Seq<char>, Seq<char>), Option<Seq<char>>) {
    (
        match v.0 {
            Some(n) => n,
            None => (base_a, base_p),
        },
        v.1,
    )
}

/// Law: the direct resolver and the parse-then-resolve path agree on every
/// reference text both accept, except the bare `#`, whose empty name the
/// direct resolver keeps and the shorthand parser collapses to the main
/// definition.
pub proof fn lemma_resolve_agreement(target: Seq<char>, base_a: Seq<char>, base_p: Seq<char>)
    requires
        spec_resolve(target, base_a, base_p) is Some,
        !(target.len() == 1 && target[0] == '#'),
    ensures
        spec_parse_ref_target(target) is Some,
        spec_resolve(target, base_a, base_p) == Some(
            spec_resolve_view(spec_parse_ref_target(target)->Some_0, base_a, base_p),
        ),
{
    crate::strutil::lemma_first_index_of_bounds(target, 0, '#');
    let h = first_index_of(target, 0, '#');
    let name = target.subrange(h + 1, target.len() as int);
    if h == 0 {
        assert(target[0] == '#');
        assert(target.len() > 1);
        assert(name.len() > 0);
    }
}

} // verus!
