//! `at://` resource URIs: an authority, an optional collection and an
//! optional record key, parsed by a small state machine over the delimiter
//! characters `@ / ? #`.

use vstd::prelude::*;
use vstd::string::StrSliceExecFns;
use vstd::string::StringExecFns;

use crate::identifier::{identifier_view, identifier_wf, spec_identifier_text,
    spec_parse_identifier, Identifier, IdentifierView, InvalidIdentifier};
use crate::handle::InvalidHandle;
use crate::ns::{nsid_text, spec_parse_nsid, InvalidNsid, Nsid};
use crate::rkey::{rkey_view, spec_parse_rkey, spec_rkey_text, Rkey, RkeyView};
use crate::strutil::{push_char, substr};

verus! {

/// Failure of an `at://` URI parse.
#[derive(PartialEq, Eq, Structural, Clone, Copy, Debug)]
pub enum InvalidUri {
    /// The text does not start with `at://`.
    Scheme,
    /// A path shape the grammar does not allow.
    Path,
    /// The authority is no valid repository identifier.
    Authority(InvalidIdentifier),
    /// The collection is no valid namespace id.
    Collection(InvalidNsid),
    /// A query string, which the grammar forbids.
    Query,
    /// A fragment, which the grammar forbids.
    Fragment,
    /// Userinfo credentials, which the grammar forbids.
    Credentials,
}

/// The scanning state: what the path holds so far, with the positions of the
/// slashes that opened the collection and the record.
#[derive(PartialEq, Eq, Structural, Copy, Clone, Debug)]
pub enum UriFormat {
    Repository,
    Collection(usize),
    Record(usize, usize),
}

impl Default for UriFormat {
    /// The initial scanning state: a bare repository.
    fn default() -> (r: Self)
        ensures
            r == UriFormat::Repository,
    {
        UriFormat::Repository
    }
}

/// A delimiter character of the URI grammar.
pub open spec fn is_uri_delim(c: char) -> bool {
    c == '@' || c == '/' || c == '?' || c == '#'
}

/// What one delimiter does to the scanning state: an error at position zero;
/// a trailing slash is ignored; a first slash opens the collection, a second
/// the record; queries, fragments and credentials are forbidden outright.
pub open spec fn spec_consume(st: UriFormat, end: int, i: int, c: char) -> Result<
    UriFormat,
    InvalidUri,
> {
    if i == 0 {
        Err(InvalidUri::Authority(InvalidIdentifier::Handle(InvalidHandle::Empty)))
    } else if c == '/' && i == end {
        Ok(st)
    } else if c == '/' && st is Repository {
        Ok(UriFormat::Collection(i as usize))
    } else if c == '/' && st is Collection {
        Ok(UriFormat::Record(st->Collection_0, i as usize))
    } else if c == '?' {
        Err(InvalidUri::Query)
    } else if c == '#' {
        Err(InvalidUri::Fragment)
    } else if c == '@' {
        Err(InvalidUri::Credentials)
    } else {
        Err(InvalidUri::Path)
    }
}

/// What scanning the text from position `i` onward does to the state:
/// delimiters are consumed in order, other characters pass.
pub open spec fn spec_scan(s: Seq<char>, i: int, st: UriFormat) -> Result<UriFormat, InvalidUri>
    decreases s.len() - i,
{
    if i < 0 || i >= s.len() {
        Ok(st)
    } else if is_uri_delim(s[i]) {
        match spec_consume(st, s.len() - 1, i, s[i]) {
            Ok(st2) => spec_scan(s, i + 1, st2),
            Err(e) => Err(e),
        }
    } else {
        spec_scan(s, i + 1, st)
    }
}

/// The ghost shape of a parsed `at://` URI: the authority, and the raw
/// namespace split and record-key class when present.
pub struct AtUriView {
    pub authority: IdentifierView,
    pub collection: Option<(Seq<char>, Seq<char>)>,
    pub record: Option<RkeyView>,
}

/// What slicing the text by the final state and parsing the three parts
/// yields.
pub open spec fn spec_target(st: UriFormat, s: Seq<char>) -> Result<AtUriView, InvalidUri> {
    let a = match st {
        UriFormat::Repository => s,
        UriFormat::Collection(i) => s.take(i as int),
        UriFormat::Record(i, _) => s.take(i as int),
    };
    let coll = match st {
        UriFormat::Repository => None,
        UriFormat::Collection(i) => Some(s.subrange(i + 1, s.len() as int)),
        UriFormat::Record(i, j) => Some(s.subrange(i + 1, j as int)),
    };
    let rec = match st {
        UriFormat::Record(_, j) => Some(s.subrange(j + 1, s.len() as int)),
        _ => None,
    };
    match spec_parse_identifier(a) {
        Err(e) => Err(InvalidUri::Authority(e)),
        Ok(av) => match coll {
            None => Ok(AtUriView { authority: av, collection: None, record: None }),
            Some(ctext) => match spec_parse_nsid(ctext) {
                None => Err(InvalidUri::Collection(InvalidNsid::Authority)),
                Some(cv) => Ok(
                    AtUriView {
                        authority: av,
                        collection: Some(cv),
                        record: match rec {
                            None => None,
                            Some(rt) => Some(spec_parse_rkey(rt)),
                        },
                    },
                ),
            },
        },
    }
}

/// Whether the text starts with the literal scheme `at://`.
pub open spec fn has_at_prefix(s: Seq<char>) -> bool {
    s.len() >= 5 && s.subrange(0, 5) == "at://"@
}

/// What parsing an `at://` URI yields: the text after the scheme is scanned
/// by the state machine, then sliced and parsed part by part.
pub open spec fn spec_parse_at_uri(s: Seq<char>) -> Result<AtUriView, InvalidUri> {
    if !has_at_prefix(s) {
        Err(InvalidUri::Scheme)
    } else {
        let body = s.subrange(5, s.len() as int);
        match spec_scan(body, 0, UriFormat::Repository) {
            Err(e) => Err(e),
            Ok(st) => spec_target(st, body),
        }
    }
}

/// Whether a state's slice positions lie within text of length `len`.
pub open spec fn format_wf(st: UriFormat, len: int) -> bool {
    match st {
        UriFormat::Repository => true,
        UriFormat::Collection(i) => i + 1 <= len,
        UriFormat::Record(i, j) => i < j && j + 1 <= len,
    }
}

impl UriFormat {
    /// Applies one delimiter occurrence to the state; `arg` carries the
    /// delimiter's position and character.
    pub fn consume(self, input: &str, arg: (usize, char)) -> (r: Result<UriFormat, InvalidUri>)
        requires
            input@.len() > 0,
        ensures
            r == spec_consume(self, input@.len() - 1, arg.0 as int, arg.1),
    {
        let (index, token) = arg;
        let end = input.unicode_len() - 1;
        if index == 0 {
            Err(InvalidUri::Authority(InvalidIdentifier::Handle(InvalidHandle::Empty)))
        } else if token == '/' && index == end {
            Ok(self)
        } else if token == '/' && matches!(self, UriFormat::Repository) {
            Ok(UriFormat::Collection(index))
        } else if token == '/' && matches!(self, UriFormat::Collection(_)) {
            let i = match self {
                UriFormat::Collection(i) => i,
                _ => 0,
            };
            Ok(UriFormat::Record(i, index))
        } else if token == '?' {
            Err(InvalidUri::Query)
        } else if token == '#' {
            Err(InvalidUri::Fragment)
        } else if token == '@' {
            Err(InvalidUri::Credentials)
        } else {
            Err(InvalidUri::Path)
        }
    }

    /// Slices the text by the state and parses authority, collection and
    /// record key.
    pub fn target(self, input: &str) -> (r: Result<AtUriTarget, InvalidUri>)
        requires
            format_wf(self, input@.len() as int),
        ensures
            match r {
                Ok(t) => spec_target(self, input@) == Ok::<AtUriView, InvalidUri>(target_view(t))
                    && target_wf(t),
                Err(e) => spec_target(self, input@) == Err::<AtUriView, InvalidUri>(e),
            },
    {
        let n = input.unicode_len();
        let (authority, collection, record) = match self {
            UriFormat::Repository => (substr(input, 0, n), None, None),
            UriFormat::Collection(i) => (
                substr(input, 0, i),
                Some(substr(input, i + 1, n)),
                None,
            ),
            UriFormat::Record(i, j) => (
                substr(input, 0, i),
                Some(substr(input, i + 1, j)),
                Some(substr(input, j + 1, n)),
            ),
        };
        proof {
            assert(input@.take(input@.len() as int) =~= input@);
        }
        let authority = match Identifier::parse(authority.as_str()) {
            Ok(a) => a,
            Err(e) => {
                return Err(InvalidUri::Authority(e));
            },
        };
        match collection {
            None => Ok(AtUriTarget::Repository(authority)),
            Some(ctext) => {
                let coll = match Nsid::parse(ctext.as_str()) {
                    Ok(c) => c,
                    Err(_) => {
                        return Err(InvalidUri::Collection(InvalidNsid::Authority));
                    },
                };
                match record {
                    None => Ok(AtUriTarget::Collection(authority, coll)),
                    Some(rtext) => Ok(
                        AtUriTarget::Record(authority, coll, Rkey::new(rtext.as_str())),
                    ),
                }
            },
        }
    }
}

/// A parsed `at://` URI: the authority, and the collection and record when
/// the path names them.  A record is only ever held inside a collection.
#[derive(PartialEq, Eq, PartialOrd, Ord, Hash, Debug)]
pub struct AtUri {
    pub authority: Identifier,
    pub resource: Option<AtUriResource>,
}

/// The collection named by a URI's path, with the record key if one follows.
#[derive(PartialEq, Eq, PartialOrd, Ord, Hash, Debug)]
pub struct AtUriResource {
    pub collection: Nsid,
    pub record: Option<Rkey>,
}

/// A URI's addressee, as an explicit three-case union.
#[derive(PartialEq, Eq, PartialOrd, Ord, Hash, Debug)]
pub enum AtUriTarget {
    Repository(Identifier),
    Collection(Identifier, Nsid),
    Record(Identifier, Nsid, Rkey),
}

/// The ghost shape of a URI value.
pub open spec fn at_uri_view(u: AtUri) -> AtUriView {
    AtUriView {
        authority: identifier_view(u.authority),
        collection: match u.resource {
            None => None,
            Some(r) => Some((r.collection.authority@, r.collection.package@)),
        },
        record: match u.resource {
            None => None,
            Some(r) => match r.record {
                None => None,
                Some(k) => Some(rkey_view(k)),
            },
        },
    }
}

/// The ghost shape of an addressee.
pub open spec fn target_view(t: AtUriTarget) -> AtUriView {
    match t {
        AtUriTarget::Repository(a) => AtUriView {
            authority: identifier_view(a),
            collection: None,
            record: None,
        },
        AtUriTarget::Collection(a, c) => AtUriView {
            authority: identifier_view(a),
            collection: Some((c.authority@, c.package@)),
            record: None,
        },
        AtUriTarget::Record(a, c, k) => AtUriView {
            authority: identifier_view(a),
            collection: Some((c.authority@, c.package@)),
            record: Some(rkey_view(k)),
        },
    }
}

/// Well-formedness of an addressee: its authority is.
pub open spec fn target_wf(t: AtUriTarget) -> bool {
    match t {
        AtUriTarget::Repository(a) => identifier_wf(a),
        AtUriTarget::Collection(a, _) => identifier_wf(a),
        AtUriTarget::Record(a, _, _) => identifier_wf(a),
    }
}

/// Well-formedness of a URI value: its authority is.
pub open spec fn at_uri_wf(u: AtUri) -> bool {
    identifier_wf(u.authority)
}

/// The URI built from an addressee.
pub open spec fn spec_uri_of(t: AtUriTarget) -> AtUri {
    match t {
        AtUriTarget::Repository(a) => AtUri { authority: a, resource: None },
        AtUriTarget::Collection(a, c) => AtUri {
            authority: a,
            resource: Some(AtUriResource { collection: c, record: None }),
        },
        AtUriTarget::Record(a, c, k) => AtUri {
            authority: a,
            resource: Some(AtUriResource { collection: c, record: Some(k) }),
        },
    }
}

/// The addressee a URI names.
pub open spec fn spec_target_of(u: AtUri) -> AtUriTarget {
    match u.resource {
        None => AtUriTarget::Repository(u.authority),
        Some(r) => match r.record {
            None => AtUriTarget::Collection(u.authority, r.collection),
            Some(k) => AtUriTarget::Record(u.authority, r.collection, k),
        },
    }
}

/// The text form of a URI: the scheme, the authority, and the path segments
/// that are present, never with a trailing slash.
pub open spec fn spec_at_uri_text(u: AtUri) -> Seq<char> {
    "at://"@ + spec_identifier_text(u.authority) + match u.resource {
        None => Seq::<char>::empty(),
        Some(r) => seq!['/'] + nsid_text(r.collection) + match r.record {
            None => Seq::<char>::empty(),
            Some(k) => seq!['/'] + spec_rkey_text(k),
        },
    }
}

impl AtUri {
    /// The URI addressing a given repository, collection or record.
    pub fn new(target: AtUriTarget) -> (r: Self)
        ensures
            r == spec_uri_of(target),
    {
        match target {
            AtUriTarget::Repository(authority) => AtUri { authority, resource: None },
            AtUriTarget::Collection(authority, collection) => AtUri {
                authority,
                resource: Some(AtUriResource { collection, record: None }),
            },
            AtUriTarget::Record(authority, collection, record) => AtUri {
                authority,
                resource: Some(AtUriResource { collection, record: Some(record) }),
            },
        }
    }

    /// The repository the URI addresses.
    pub fn authority(&self) -> (r: &Identifier)
        ensures
            *r == self.authority,
    {
        &self.authority
    }

    /// The collection and record parts, when the path names them.
    pub fn resource(&self) -> (r: Option<&AtUriResource>)
        ensures
            match r {
                Some(res) => self.resource == Some(*res),
                None => self.resource is None,
            },
    {
        self.resource.as_ref()
    }

    /// The collection the URI addresses, if any.
    pub fn collection(&self) -> (r: Option<&Nsid>)
        ensures
            match r {
                Some(c) => self.resource is Some && self.resource->Some_0.collection == *c,
                None => self.resource is None,
            },
    {
        match &self.resource {
            Some(res) => Some(&res.collection),
            None => None,
        }
    }

    /// The record key the URI addresses, if any.
    pub fn record(&self) -> (r: Option<&Rkey>)
        ensures
            match r {
                Some(k) => self.resource is Some && self.resource->Some_0.record == Some(*k),
                None => self.resource is None || self.resource->Some_0.record is None,
            },
    {
        match &self.resource {
            Some(res) => match &res.record {
                Some(k) => Some(k),
                None => None,
            },
            None => None,
        }
    }

    /// The URI's addressee as an explicit union.
    pub fn target(&self) -> (r: AtUriTarget)
        ensures
            r == spec_target_of(*self),
    {
        let authority = self.authority.clone();
        match &self.resource {
            None => AtUriTarget::Repository(authority),
            Some(res) => {
                let collection = res.collection.clone();
                match &res.record {
                    None => AtUriTarget::Collection(authority, collection),
                    Some(k) => AtUriTarget::Record(authority, collection, k.clone()),
                }
            },
        }
    }

    /// Parses `at://` URI text: the scheme, then the state machine over the
    /// delimiters, then the parts.
    pub fn parse(s: &str) -> (r: Result<Self, InvalidUri>)
        ensures
            match r {
                Ok(u) => spec_parse_at_uri(s@) == Ok::<AtUriView, InvalidUri>(at_uri_view(u))
                    && at_uri_wf(u),
                Err(e) => spec_parse_at_uri(s@) == Err::<AtUriView, InvalidUri>(e),
            },
    {
        let n = s.unicode_len();
        proof {
            reveal_strlit("at://");
        }
        if n < 5 || s.get_char(0) != 'a' || s.get_char(1) != 't' || s.get_char(2) != ':'
            || s.get_char(3) != '/' || s.get_char(4) != '/' {
            proof {
                if s@.len() >= 5 && s@.subrange(0, 5) == "at://"@ {
                    assert(s@.subrange(0, 5)[0] == 'a' && s@.subrange(0, 5)[1] == 't'
                        && s@.subrange(0, 5)[2] == ':' && s@.subrange(0, 5)[3] == '/'
                        && s@.subrange(0, 5)[4] == '/');
                }
            }
            return Err(InvalidUri::Scheme);
        }
        proof {
            assert(s@.subrange(0, 5) =~= "at://"@);
        }
        let body = substr(s, 5, n);
        let bn = body.unicode_len();
        let mut st = UriFormat::Repository;
        let mut i: usize = 0;
        while i < bn
            invariant
                i <= bn,
                bn == body@.len(),
                has_at_prefix(s@),
                body@ == s@.subrange(5, s@.len() as int),
                spec_scan(body@, 0, UriFormat::Repository) == spec_scan(body@, i as int, st),
                match st {
                    UriFormat::Repository => true,
                    UriFormat::Collection(ci) => ci < i && ci + 1 < bn,
                    UriFormat::Record(ci, ri) => ci < ri && ri < i && ri + 1 < bn,
                },
            decreases bn - i,
        {
            let c = body.get_char(i);
            if c == '@' || c == '/' || c == '?' || c == '#' {
                match st.consume(body.as_str(), (i, c)) {
                    Ok(st2) => {
                        st = st2;
                    },
                    Err(e) => {
                        return Err(e);
                    },
                }
            }
            i = i + 1;
        }
        match st.target(body.as_str()) {
            Ok(t) => Ok(AtUri::new(t)),
            Err(e) => Err(e),
        }
    }

    /// The text form, never with a trailing slash.
    pub fn to_string(&self) -> (r: String)
        ensures
            r@ == spec_at_uri_text(*self),
    {
        let mut out = String::from_str("at://");
        out.append(self.authority.to_string().as_str());
        match &self.resource {
            None => {
                proof {
                    assert(out@ =~= spec_at_uri_text(*self));
                }
                out
            },
            Some(res) => {
                push_char(&mut out, '/');
                out.append(res.collection.to_string().as_str());
                match &res.record {
                    None => {
                        proof {
                            assert(out@ =~= spec_at_uri_text(*self));
                        }
                        out
                    },
                    Some(k) => {
                        push_char(&mut out, '/');
                        out.append(k.to_string().as_str());
                        proof {
                            assert(out@ =~= spec_at_uri_text(*self));
                        }
                        out
                    },
                }
            },
        }
    }
}

impl Clone for AtUri {
    /// An equal URI.
    fn clone(&self) -> (r: Self)
        ensures
            r == *self,
    {
        let resource = match &self.resource {
            None => None,
            Some(res) => Some(res.clone()),
        };
        AtUri { authority: self.authority.clone(), resource }
    }
}

impl Clone for AtUriResource {
    /// An equal resource part.
    fn clone(&self) -> (r: Self)
        ensures
            r == *self,
    {
        let record = match &self.record {
            None => None,
            Some(k) => Some(k.clone()),
        };
        AtUriResource { collection: self.collection.clone(), record }
    }
}

impl Clone for AtUriTarget {
    /// An equal addressee.
    fn clone(&self) -> (r: Self)
        ensures
            r == *self,
    {
        match self {
            AtUriTarget::Repository(a) => AtUriTarget::Repository(a.clone()),
            AtUriTarget::Collection(a, c) => AtUriTarget::Collection(a.clone(), c.clone()),
            AtUriTarget::Record(a, c, k) => AtUriTarget::Record(a.clone(), c.clone(), k.clone()),
        }
    }
}

impl core::str::FromStr for AtUri {
    type Err = InvalidUri;

    fn from_str(s: &str) -> Result<Self, Self::Err> {
        AtUri::parse(s)
    }
}

/// Text that may stand inside a URI path segment: it holds no delimiter.
pub open spec fn uri_safe_text(s: Seq<char>) -> bool {
    forall|j: int| 0 <= j < s.len() ==> !is_uri_delim(s[j])
}

proof fn lemma_scan_skip(s: Seq<char>, i: int, k: int, st: UriFormat)
    requires
        0 <= i <= k <= s.len(),
        forall|j: int| i <= j < k ==> !is_uri_delim(s[j]),
    ensures
        spec_scan(s, i, st) == spec_scan(s, k, st),
    decreases k - i,
{
    if i < k {
        lemma_scan_skip(s, i + 1, k, st);
    }
}

/// Law: the text of a well-formed repository identifier is non-empty and
/// holds no URI delimiter.
pub proof fn lemma_identifier_text_uri_safe(i: Identifier)
    requires
        identifier_wf(i),
    ensures
        uri_safe_text(spec_identifier_text(i)),
        spec_identifier_text(i).len() > 0,
{
    let t = spec_identifier_text(i);
    match i {
        Identifier::Handle(h) => {
            crate::handle::lemma_handle_chars(h@);
            assert forall|j: int| 0 <= j < t.len() implies !is_uri_delim(t[j]) by {
                let c = t[j];
                assert(crate::handle::is_ascii_alpha(c) || crate::handle::is_ascii_digit(c) || c
                    == '-' || c == '.');
                assert(c as u32 != 64 && c as u32 != 47 && c as u32 != 63 && c as u32 != 35);
            }
        },
        Identifier::Did(d) => {
            reveal_strlit("did:plc:");
            reveal_strlit("did:web:");
            match d {
                crate::did::Did::Plc(p) => {
                    assert forall|j: int| 0 <= j < t.len() implies !is_uri_delim(t[j]) by {
                        if j < 8 {
                            assert(t[j] == "did:plc:"@[j]);
                        } else {
                            assert(t[j] == p@[j - 8]);
                            assert(crate::codec::general_val(p@[j - 8]) != -1);
                            assert(t[j] as u32 != 64 && t[j] as u32 != 47 && t[j] as u32 != 63
                                && t[j] as u32 != 35);
                        }
                    }
                },
                crate::did::Did::Web(h) => {
                    crate::handle::lemma_handle_chars(h@);
                    assert forall|j: int| 0 <= j < t.len() implies !is_uri_delim(t[j]) by {
                        if j < 8 {
                            assert(t[j] == "did:web:"@[j]);
                        } else {
                            assert(t[j] == h@[j - 8]);
                            let c = h@[j - 8];
                            assert(crate::handle::is_ascii_alpha(c) || crate::handle::is_ascii_digit(
                                c,
                            ) || c == '-' || c == '.');
                            assert(c as u32 != 64 && c as u32 != 47 && c as u32 != 63 && c as u32
                                != 35);
                        }
                    }
                },
            }
        },
    }
}

/// Law: a URI whose parts are well-formed and delimiter-free survives the
/// round trip through its text form — parsing what `to_string` yields gives
/// the URI back.  The collection's package may hold no dot, and a custom
/// record key must be non-empty, classification-safe and delimiter-free.
pub proof fn lemma_at_uri_round_trip(u: AtUri)
    requires
        at_uri_wf(u),
        spec_at_uri_text(u).len() <= usize::MAX,
        match u.resource {
            None => true,
            Some(r) => {
                &&& uri_safe_text(nsid_text(r.collection))
                &&& !r.collection.package@.contains('.')
                &&& match r.record {
                    None => true,
                    Some(k) => crate::rkey::rkey_text_safe(k) && uri_safe_text(spec_rkey_text(k))
                        && spec_rkey_text(k).len() > 0,
                }
            },
        },
    ensures
        spec_parse_at_uri(spec_at_uri_text(u)) == Ok::<AtUriView, InvalidUri>(at_uri_view(u)),
{
    let t = spec_at_uri_text(u);
    let a = spec_identifier_text(u.authority);
    lemma_identifier_text_uri_safe(u.authority);
    crate::identifier::lemma_identifier_round_trip(u.authority);
    reveal_strlit("at://");
    assert(t.subrange(0, 5) =~= "at://"@);
    let body = t.subrange(5, t.len() as int);
    let d1 = a.len() as int;
    match u.resource {
        None => {
            assert(body =~= a);
            lemma_scan_skip(body, 0, body.len() as int, UriFormat::Repository);
            assert(spec_target(UriFormat::Repository, body) == Ok::<AtUriView, InvalidUri>(
                at_uri_view(u),
            ));
        },
        Some(r) => {
            let c = nsid_text(r.collection);
            crate::ns::lemma_nsid_round_trip(r.collection);
            match r.record {
                None => {
                    assert(body =~= a + seq!['/'] + c);
                    assert forall|j: int| 0 <= j < d1 implies !is_uri_delim(body[j]) by {
                        assert(body[j] == a[j]);
                    }
                    lemma_scan_skip(body, 0, d1, UriFormat::Repository);
                    assert(body[d1] == '/');
                    let end = body.len() - 1;
                    assert(end == d1 + 1 + c.len() - 1);
                    assert(spec_consume(UriFormat::Repository, end, d1, '/') == Ok::<
                        UriFormat,
                        InvalidUri,
                    >(UriFormat::Collection(d1 as usize)));
                    let st = UriFormat::Collection(d1 as usize);
                    assert(spec_scan(body, d1, UriFormat::Repository) == spec_scan(
                        body,
                        d1 + 1,
                        st,
                    ));
                    assert forall|j: int| d1 + 1 <= j < body.len() implies !is_uri_delim(
                        body[j],
                    ) by {
                        assert(body[j] == c[j - d1 - 1]);
                    }
                    lemma_scan_skip(body, d1 + 1, body.len() as int, st);
                    assert(body.take(d1 as usize as int) =~= a);
                    assert(body.subrange(d1 as usize + 1, body.len() as int) =~= c);
                    assert(spec_target(st, body) == Ok::<AtUriView, InvalidUri>(at_uri_view(u)));
                },
                Some(k) => {
                    let rk = spec_rkey_text(k);
                    crate::rkey::lemma_rkey_round_trip(k);
                    let d2 = d1 + 1 + c.len() as int;
                    assert(body =~= a + seq!['/'] + c + seq!['/'] + rk);
                    assert forall|j: int| 0 <= j < d1 implies !is_uri_delim(body[j]) by {
                        assert(body[j] == a[j]);
                    }
                    lemma_scan_skip(body, 0, d1, UriFormat::Repository);
                    assert(body[d1] == '/');
                    let end = body.len() - 1;
                    assert(end == d2 + rk.len());
                    assert(spec_consume(UriFormat::Repository, end, d1, '/') == Ok::<
                        UriFormat,
                        InvalidUri,
                    >(UriFormat::Collection(d1 as usize)));
                    let st1 = UriFormat::Collection(d1 as usize);
                    assert(spec_scan(body, d1, UriFormat::Repository) == spec_scan(
                        body,
                        d1 + 1,
                        st1,
                    ));
                    assert forall|j: int| d1 + 1 <= j < d2 implies !is_uri_delim(body[j]) by {
                        assert(body[j] == c[j - d1 - 1]);
                    }
                    lemma_scan_skip(body, d1 + 1, d2, st1);
                    assert(body[d2] == '/');
                    assert(spec_consume(st1, end, d2, '/') == Ok::<UriFormat, InvalidUri>(
                        UriFormat::Record(d1 as usize, d2 as usize),
                    ));
                    let st2 = UriFormat::Record(d1 as usize, d2 as usize);
                    assert(spec_scan(body, d2, st1) == spec_scan(body, d2 + 1, st2));
                    assert forall|j: int| d2 + 1 <= j < body.len() implies !is_uri_delim(
                        body[j],
                    ) by {
                        assert(body[j] == rk[j - d2 - 1]);
                    }
                    lemma_scan_skip(body, d2 + 1, body.len() as int, st2);
                    assert(body.take(d1 as usize as int) =~= a);
                    assert(body.subrange(d1 as usize + 1, d2 as usize as int) =~= c);
                    assert(body.subrange(d2 as usize + 1, body.len() as int) =~= rk);
                    assert(spec_target(st2, body) == Ok::<AtUriView, InvalidUri>(at_uri_view(u)));
                },
            }
        },
    }
}

/// Law: a URI and its addressee are exact inverses — re-expressing a URI as
/// an addressee and building a URI from it gives the URI back.
pub proof fn lemma_uri_of_target(u: AtUri)
    ensures
        spec_uri_of(spec_target_of(u)) == u,
{
}

/// Law: building a URI from an addressee and re-expressing it gives the
/// addressee back.
pub proof fn lemma_target_of_uri(t: AtUriTarget)
    ensures
        spec_target_of(spec_uri_of(t)) == t,
{
}

} // verus!
