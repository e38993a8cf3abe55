//! Links of the full dialect.
//!
//! A link is either a bare URI string or a link object with an `href` and
//! optional `rel`, `describedby`, `title`, `type` and `hreflang` members.
//! On the wire the string form is a JSON string; the object form is a JSON
//! object holding exactly the populated members. The staged builder makes
//! `build` reachable only once an `href` is present.

use vstd::prelude::*;
use crate::json::{str_text, upsert, keys_distinct, push_char, push_str, write_escaped, map_upsert, JsonValue, json_text, obj_text, pairs_prefix};
use vstd::string::StrSliceExecFns;
use vstd::string::StringExecFns;

verus! {

/// A link: a bare URI string or a link object.
#[derive(Debug)]
pub struct Link(CoreLink);

#[derive(Debug)]
enum CoreLink {
    Uri(String),
    Object(LinkObject),
}

/// The object form of a link. Only `href` is mandatory; absent optional
/// members are left off the wire entirely, never written as null.
#[derive(Debug)]
pub struct LinkObject {
    href: String,
    rel: Option<String>,
    described_by: Option<Box<Link>>,
    title: Option<String>,
    kind: Option<String>,
    hreflang: Option<String>,
}

impl LinkObject {
    /// The characters of the mandatory `href` member.
    pub closed spec fn spec_href(&self) -> Seq<char> {
        self.href@
    }

    /// The characters of the `rel` member, when populated.
    pub closed spec fn spec_rel(&self) -> Option<Seq<char>> {
        match self.rel {
            Option::Some(r) => Option::Some(r@),
            Option::None => Option::None,
        }
    }

    /// The nested `describedby` link, when populated.
    pub closed spec fn spec_described_by(&self) -> Option<Link> {
        match self.described_by {
            Option::Some(b) => Option::Some(*b),
            Option::None => Option::None,
        }
    }

    /// The characters of the `title` member, when populated.
    pub closed spec fn spec_title(&self) -> Option<Seq<char>> {
        match self.title {
            Option::Some(t) => Option::Some(t@),
            Option::None => Option::None,
        }
    }

    /// The characters of the `type` member, when populated.
    pub closed spec fn spec_kind(&self) -> Option<Seq<char>> {
        match self.kind {
            Option::Some(t) => Option::Some(t@),
            Option::None => Option::None,
        }
    }

    /// The characters of the `hreflang` member, when populated.
    pub closed spec fn spec_hreflang(&self) -> Option<Seq<char>> {
        match self.hreflang {
            Option::Some(t) => Option::Some(t@),
            Option::None => Option::None,
        }
    }
}

impl Link {
    /// Whether this link is the bare string form.
    pub closed spec fn is_string_form(&self) -> bool {
        self.0 is Uri
    }

    /// The URI characters of the string form.
    pub closed spec fn uri_chars(&self) -> Seq<char> {
        self.0->Uri_0@
    }

    /// The link object of the object form.
    pub closed spec fn obj(&self) -> LinkObject {
        self.0->Object_0
    }

    /// Shorthand: a link that is the bare URI string.
    pub fn from_uri(uri: &str) -> (r: Link)
        ensures
            r.is_string_form(),
            r.uri_chars() == uri@,
    {
        Link(CoreLink::Uri(uri.to_owned()))
    }

    /// An empty staged builder; an `href` must be supplied before `build`
    /// is reachable.
    pub fn builder() -> (r: LinkBuilder<NoLinkData>) {
        LinkBuilder { data: NoLinkData }
    }
}

/// One optional member of the object form: the text it contributes to the
/// wire object, preceded by a comma since `href` always stands before it.
pub open spec fn opt_member_text(name: Seq<char>, v: Option<Seq<char>>) -> Seq<char> {
    match v {
        Option::Some(s) => seq![','] + seq!['"'] + name + seq!['"'] + seq![':'] + str_text(s),
        Option::None => Seq::empty(),
    }
}

/// One optional member whose value is already rendered JSON text.
pub open spec fn opt_raw_member_text(name: Seq<char>, v: Option<Seq<char>>) -> Seq<char> {
    match v {
        Option::Some(s) => seq![','] + seq!['"'] + name + seq!['"'] + seq![':'] + s,
        Option::None => Seq::empty(),
    }
}

/// The wire text of a link object, given the characters of its members:
/// an object holding `href` and exactly the populated optional members,
/// in the order href, rel, describedby, title, type, hreflang.
pub open spec fn link_object_text(
    href: Seq<char>,
    rel: Option<Seq<char>>,
    described_by: Option<Seq<char>>,
    title: Option<Seq<char>>,
    kind: Option<Seq<char>>,
    hreflang: Option<Seq<char>>,
) -> Seq<char> {
    seq!['{'] + seq!['"'] + "href"@ + seq!['"'] + seq![':'] + str_text(href) + opt_member_text(
        "rel"@,
        rel,
    ) + opt_raw_member_text("describedby"@, described_by) + opt_member_text("title"@, title)
        + opt_member_text("type"@, kind) + opt_member_text("hreflang"@, hreflang) + seq!['}']
}

/// The wire text of a link: a JSON string for the string form, else the
/// object of its populated members.
pub closed spec fn link_text(l: Link) -> Seq<char>
    decreases l,
{
    match l.0 {
        CoreLink::Uri(s) => str_text(s@),
        CoreLink::Object(o) => link_object_text(
            o.href@,
            o.spec_rel(),
            match o.described_by {
                Option::Some(b) => Option::Some(link_text(*b)),
                Option::None => Option::None,
            },
            o.spec_title(),
            o.spec_kind(),
            o.spec_hreflang(),
        ),
    }
}

/// A link in the string form is serialized as exactly the JSON string of
/// its URI.
pub proof fn lemma_string_form_link_text(l: Link)
    requires
        l.is_string_form(),
    ensures
        link_text(l) == str_text(l.uri_chars()),
{
}

/// A link in the object form is serialized as an object holding `href`
/// and exactly the populated optional members.
pub proof fn lemma_object_form_link_text(l: Link)
    requires
        !l.is_string_form(),
    ensures
        link_text(l) == link_object_text(
            l.obj().spec_href(),
            l.obj().spec_rel(),
            match l.obj().spec_described_by() {
                Option::Some(b) => Option::Some(link_text(b)),
                Option::None => Option::None,
            },
            l.obj().spec_title(),
            l.obj().spec_kind(),
            l.obj().spec_hreflang(),
        ),
{
}

/// Appends one optional string member: a comma, the quoted name, a colon
/// and the quoted escaped value; nothing when the member is absent.
fn write_opt_member(name: &str, v: &Option<String>, out: &mut String)
    ensures
        final(out)@ == old(out)@ + opt_member_text(
            name@,
            (match v {
                Option::Some(s) => Option::Some(s@),
                Option::None => Option::None,
            }),
        ),
{
    if let Option::Some(s) = v {
        push_char(out, ',');
        push_char(out, '"');
        push_str(out, name);
        push_char(out, '"');
        push_char(out, ':');
        push_char(out, '"');
        write_escaped(s.as_str(), out);
        push_char(out, '"');
        assert(out@ =~= old(out)@ + opt_member_text(name@, Option::Some(s@)));
    }
}

/// Appends the wire text of the object form of a link to `out`.
#[verifier::rlimit(100)]
fn write_link_object(o: &LinkObject, out: &mut String)
    ensures
        final(out)@ == old(out)@ + link_object_text(
            o.spec_href(),
            o.spec_rel(),
            (match o.spec_described_by() {
                Option::Some(b) => Option::Some(link_text(b)),
                Option::None => Option::None,
            }),
            o.spec_title(),
            o.spec_kind(),
            o.spec_hreflang(),
        ),
    decreases *o, 1int,
{
    push_char(out, '{');
    push_char(out, '"');
    push_str(out, "href");
    push_char(out, '"');
    push_char(out, ':');
    push_char(out, '"');
    write_escaped(o.href.as_str(), out);
    push_char(out, '"');
    let ghost a0: Seq<char> = seq!['{'] + seq!['"'] + "href"@ + seq!['"'] + seq![':'] + str_text(
        o.href@,
    );
    assert(out@ =~= old(out)@ + a0);
    let ghost before_rel: Seq<char> = out@;
    write_opt_member("rel", &o.rel, out);
    let ghost a1: Seq<char> = a0 + opt_member_text("rel"@, o.spec_rel());
    proof {
        vstd::seq_lib::lemma_concat_associative(
            old(out)@,
            a0,
            opt_member_text("rel"@, o.spec_rel()),
        );
    }
    assert(out@ == old(out)@ + a1);
    let ghost before_db: Seq<char> = out@;
    if let Option::Some(b) = &o.described_by {
        push_char(out, ',');
        push_char(out, '"');
        push_str(out, "describedby");
        push_char(out, '"');
        push_char(out, ':');
        proof {
            assert(decreases_to!(*o => o.described_by));
            assert(decreases_to!(o.described_by => o.described_by->Some_0));
        }
        write_link(&**b, out);
        assert(out@ =~= before_db + opt_raw_member_text(
            "describedby"@,
            Option::Some(link_text(**b)),
        ));
    }
    let ghost a2: Seq<char> = a1 + opt_raw_member_text(
        "describedby"@,
        match o.spec_described_by() {
            Option::Some(b) => Option::Some(link_text(b)),
            Option::None => Option::None,
        },
    );
    proof {
        vstd::seq_lib::lemma_concat_associative(
            old(out)@,
            a1,
            opt_raw_member_text(
                "describedby"@,
                match o.spec_described_by() {
                    Option::Some(b) => Option::Some(link_text(b)),
                    Option::None => Option::None,
                },
            ),
        );
        if o.described_by is None {
            assert(a2 =~= a1);
        }
    }
    assert(out@ == old(out)@ + a2);
    write_opt_member("title", &o.title, out);
    let ghost a3: Seq<char> = a2 + opt_member_text("title"@, o.spec_title());
    proof {
        vstd::seq_lib::lemma_concat_associative(
            old(out)@,
            a2,
            opt_member_text("title"@, o.spec_title()),
        );
    }
    assert(out@ == old(out)@ + a3);
    write_opt_member("type", &o.kind, out);
    let ghost a4: Seq<char> = a3 + opt_member_text("type"@, o.spec_kind());
    proof {
        vstd::seq_lib::lemma_concat_associative(
            old(out)@,
            a3,
            opt_member_text("type"@, o.spec_kind()),
        );
    }
    assert(out@ == old(out)@ + a4);
    write_opt_member("hreflang", &o.hreflang, out);
    let ghost a5: Seq<char> = a4 + opt_member_text("hreflang"@, o.spec_hreflang());
    proof {
        vstd::seq_lib::lemma_concat_associative(
            old(out)@,
            a4,
            opt_member_text("hreflang"@, o.spec_hreflang()),
        );
    }
    assert(out@ == old(out)@ + a5);
    push_char(out, '}');
    let ghost a6: Seq<char> = a5 + seq!['}'];
    proof {
        vstd::seq_lib::lemma_concat_associative(old(out)@, a5, seq!['}']);
    }
    assert(out@ == old(out)@ + a6);
}

/// Appends the wire text of `l` to `out`.
pub fn write_link(l: &Link, out: &mut String)
    ensures
        final(out)@ == old(out)@ + link_text(*l),
    decreases *l, 0int,
{
    match &l.0 {
        CoreLink::Uri(s) => {
            push_char(out, '"');
            write_escaped(s.as_str(), out);
            push_char(out, '"');
            assert(out@ =~= old(out)@ + link_text(*l));
        },
        CoreLink::Object(o) => {
            proof {
                assert(decreases_to!(*l => l.0));
                assert(decreases_to!(l.0 => l.0->Object_0));
            }
            write_link_object(o, out);
        },
    }
}

/// Marker: no link data supplied yet.
pub struct NoLinkData;

/// Builder data of the string form: the URI supplied so far.
pub struct StringLinkData(String);

/// Builder data of the object form.
pub struct ObjectLinkData(LinkObject);

/// The staged link builder. `build` exists only once an `href` has been
/// supplied; setting any optional member moves to the object form.
pub struct LinkBuilder<T> {
    data: T,
}

impl LinkBuilder<NoLinkData> {
    /// Supplies the mandatory `href`, making `build` reachable.
    pub fn href(self, href: &str) -> (r: LinkBuilder<StringLinkData>)
        ensures
            r.uri() == href@,
    {
        LinkBuilder { data: StringLinkData(href.to_owned()) }
    }
}

impl LinkBuilder<StringLinkData> {
    /// The URI supplied so far.
    pub closed spec fn uri(&self) -> Seq<char> {
        self.data.0@
    }

    /// Populates `rel`, moving to the object form.
    pub fn rel(self, rel: &str) -> (r: LinkBuilder<ObjectLinkData>)
        ensures
            r.obj().spec_href() == self.uri(),
            r.obj().spec_rel() == Option::Some(rel@),
            r.obj().spec_described_by() is None,
            r.obj().spec_title() is None,
            r.obj().spec_kind() is None,
            r.obj().spec_hreflang() is None,
    {
        LinkBuilder {
            data: ObjectLinkData(
                LinkObject {
                    href: self.data.0,
                    rel: Option::Some(rel.to_owned()),
                    described_by: Option::None,
                    title: Option::None,
                    kind: Option::None,
                    hreflang: Option::None,
                },
            ),
        }
    }

    /// Populates `describedby`, moving to the object form.
    pub fn described_by(self, link: Link) -> (r: LinkBuilder<ObjectLinkData>)
        ensures
            r.obj().spec_href() == self.uri(),
            r.obj().spec_rel() is None,
            r.obj().spec_described_by() == Option::Some(link),
            r.obj().spec_title() is None,
            r.obj().spec_kind() is None,
            r.obj().spec_hreflang() is None,
    {
        LinkBuilder {
            data: ObjectLinkData(
                LinkObject {
                    href: self.data.0,
                    rel: Option::None,
                    described_by: Option::Some(Box::new(link)),
                    title: Option::None,
                    kind: Option::None,
                    hreflang: Option::None,
                },
            ),
        }
    }

    /// Populates `title`, moving to the object form.
    pub fn title(self, title: &str) -> (r: LinkBuilder<ObjectLinkData>)
        ensures
            r.obj().spec_href() == self.uri(),
            r.obj().spec_rel() is None,
            r.obj().spec_described_by() is None,
            r.obj().spec_title() == Option::Some(title@),
            r.obj().spec_kind() is None,
            r.obj().spec_hreflang() is None,
    {
        LinkBuilder {
            data: ObjectLinkData(
                LinkObject {
                    href: self.data.0,
                    rel: Option::None,
                    described_by: Option::None,
                    title: Option::Some(title.to_owned()),
                    kind: Option::None,
                    hreflang: Option::None,
                },
            ),
        }
    }

    /// Populates `type`, moving to the object form.
    pub fn kind(self, kind: &str) -> (r: LinkBuilder<ObjectLinkData>)
        ensures
            r.obj().spec_href() == self.uri(),
            r.obj().spec_rel() is None,
            r.obj().spec_described_by() is None,
            r.obj().spec_title() is None,
            r.obj().spec_kind() == Option::Some(kind@),
            r.obj().spec_hreflang() is None,
    {
        LinkBuilder {
            data: ObjectLinkData(
                LinkObject {
                    href: self.data.0,
                    rel: Option::None,
                    described_by: Option::None,
                    title: Option::None,
                    kind: Option::Some(kind.to_owned()),
                    hreflang: Option::None,
                },
            ),
        }
    }

    /// Populates `hreflang`, moving to the object form.
    pub fn hreflang(self, hreflang: &str) -> (r: LinkBuilder<ObjectLinkData>)
        ensures
            r.obj().spec_href() == self.uri(),
            r.obj().spec_rel() is None,
            r.obj().spec_described_by() is None,
            r.obj().spec_title() is None,
            r.obj().spec_kind() is None,
            r.obj().spec_hreflang() == Option::Some(hreflang@),
    {
        LinkBuilder {
            data: ObjectLinkData(
                LinkObject {
                    href: self.data.0,
                    rel: Option::None,
                    described_by: Option::None,
                    title: Option::None,
                    kind: Option::None,
                    hreflang: Option::Some(hreflang.to_owned()),
                },
            ),
        }
    }

    /// Finishes the string form: the link is the bare URI string.
    pub fn build(self) -> (r: Link)
        ensures
            r.is_string_form(),
            r.uri_chars() == self.uri(),
    {
        Link(CoreLink::Uri(self.data.0))
    }
}

impl LinkBuilder<ObjectLinkData> {
    /// The link object assembled so far.
    pub closed spec fn obj(&self) -> LinkObject {
        self.data.0
    }

    /// Populates or replaces `rel`.
    pub fn rel(self, rel: &str) -> (r: LinkBuilder<ObjectLinkData>)
        ensures
            r.obj().spec_href() == self.obj().spec_href(),
            r.obj().spec_rel() == Option::Some(rel@),
            r.obj().spec_described_by() == self.obj().spec_described_by(),
            r.obj().spec_title() == self.obj().spec_title(),
            r.obj().spec_kind() == self.obj().spec_kind(),
            r.obj().spec_hreflang() == self.obj().spec_hreflang(),
    {
        LinkBuilder {
            data: ObjectLinkData(LinkObject { rel: Option::Some(rel.to_owned()), ..self.data.0 }),
        }
    }

    /// Populates or replaces `describedby`.
    pub fn described_by(self, link: Link) -> (r: LinkBuilder<ObjectLinkData>)
        ensures
            r.obj().spec_href() == self.obj().spec_href(),
            r.obj().spec_rel() == self.obj().spec_rel(),
            r.obj().spec_described_by() == Option::Some(link),
            r.obj().spec_title() == self.obj().spec_title(),
            r.obj().spec_kind() == self.obj().spec_kind(),
            r.obj().spec_hreflang() == self.obj().spec_hreflang(),
    {
        LinkBuilder {
            data: ObjectLinkData(
                LinkObject { described_by: Option::Some(Box::new(link)), ..self.data.0 },
            ),
        }
    }

    /// Populates or replaces `title`.
    pub fn title(self, title: &str) -> (r: LinkBuilder<ObjectLinkData>)
        ensures
            r.obj().spec_href() == self.obj().spec_href(),
            r.obj().spec_rel() == self.obj().spec_rel(),
            r.obj().spec_described_by() == self.obj().spec_described_by(),
            r.obj().spec_title() == Option::Some(title@),
            r.obj().spec_kind() == self.obj().spec_kind(),
            r.obj().spec_hreflang() == self.obj().spec_hreflang(),
    {
        LinkBuilder {
            data: ObjectLinkData(
                LinkObject { title: Option::Some(title.to_owned()), ..self.data.0 },
            ),
        }
    }

    /// Populates or replaces `type`.
    pub fn kind(self, kind: &str) -> (r: LinkBuilder<ObjectLinkData>)
        ensures
            r.obj().spec_href() == self.obj().spec_href(),
            r.obj().spec_rel() == self.obj().spec_rel(),
            r.obj().spec_described_by() == self.obj().spec_described_by(),
            r.obj().spec_title() == self.obj().spec_title(),
            r.obj().spec_kind() == Option::Some(kind@),
            r.obj().spec_hreflang() == self.obj().spec_hreflang(),
    {
        LinkBuilder {
            data: ObjectLinkData(LinkObject { kind: Option::Some(kind.to_owned()), ..self.data.0 }),
        }
    }

    /// Populates or replaces `hreflang`.
    pub fn hreflang(self, hreflang: &str) -> (r: LinkBuilder<ObjectLinkData>)
        ensures
            r.obj().spec_href() == self.obj().spec_href(),
            r.obj().spec_rel() == self.obj().spec_rel(),
            r.obj().spec_described_by() == self.obj().spec_described_by(),
            r.obj().spec_title() == self.obj().spec_title(),
            r.obj().spec_kind() == self.obj().spec_kind(),
            r.obj().spec_hreflang() == Option::Some(hreflang@),
    {
        LinkBuilder {
            data: ObjectLinkData(
                LinkObject { hreflang: Option::Some(hreflang.to_owned()), ..self.data.0 },
            ),
        }
    }

    /// Finishes the object form: the link holds exactly the populated
    /// members.
    pub fn build(self) -> (r: Link)
        ensures
            !r.is_string_form(),
            r.obj() == self.obj(),
    {
        Link(CoreLink::Object(self.data.0))
    }
}

/// A named collection of links. Keys are unique and keep insertion order.
#[derive(Debug)]
pub struct LinksObject {
    entries: Vec<(String, Link)>,
}

impl LinksObject {
    /// The named links, in insertion order.
    pub closed spec fn entries(&self) -> Seq<(String, Link)> {
        self.entries@
    }

    /// Keys are unique.
    pub closed spec fn wf(&self) -> bool {
        keys_distinct(self.entries@)
    }

    /// An empty collection.
    pub fn new() -> (r: LinksObject)
        ensures
            r.entries() == Seq::<(String, Link)>::empty(),
            r.wf(),
    {
        LinksObject { entries: Vec::new() }
    }

    /// Inserts a named link, replacing the link under an existing name.
    pub fn insert(&mut self, name: String, link: Link)
        requires
            old(self).wf(),
        ensures
            final(self).entries() == upsert(old(self).entries(), name, link),
            final(self).wf(),
    {
        proof {
            crate::json::lemma_upsert_distinct(self.entries@, name, link);
        }
        map_upsert(&mut self.entries, name, link);
    }

    /// Whether no link has been inserted.
    pub fn is_empty(&self) -> (r: bool)
        ensures
            r == (self.entries().len() == 0),
    {
        self.entries.len() == 0
    }

    /// The number of links.
    pub fn len(&self) -> (r: usize)
        ensures
            r == self.entries().len(),
    {
        self.entries.len()
    }
}

/// The text of the first `i` named links of a links object body.
pub open spec fn link_pairs_prefix(ps: Seq<(String, Link)>, i: int) -> Seq<char>
    decreases i,
{
    if i <= 0 || i > ps.len() {
        Seq::empty()
    } else {
        let entry = str_text(ps[i - 1].0@) + seq![':'] + link_text(ps[i - 1].1);
        if i == 1 {
            entry
        } else {
            link_pairs_prefix(ps, i - 1) + seq![','] + entry
        }
    }
}

/// The wire text of a links object: a JSON object of its named links in
/// insertion order.
pub open spec fn links_object_text(ls: LinksObject) -> Seq<char> {
    seq!['{'] + link_pairs_prefix(ls.entries(), ls.entries().len() as int) + seq!['}']
}

/// Appends the wire text of `ls` to `out`.
pub fn write_links_object(ls: &LinksObject, out: &mut String)
    ensures
        final(out)@ == old(out)@ + links_object_text(*ls),
{
    push_char(out, '{');
    let ghost entry: Seq<char> = out@;
    let n: usize = ls.entries.len();
    let mut i: usize = 0;
    while i < n
        invariant
            0 <= i <= n,
            n == ls.entries@.len(),
            out@ == entry + link_pairs_prefix(ls.entries@, i as int),
        decreases n - i,
    {
        if i > 0 {
            push_char(out, ',');
        }
        push_char(out, '"');
        let key: &String = &ls.entries[i].0;
        write_escaped(key.as_str(), out);
        push_char(out, '"');
        push_char(out, ':');
        write_link(&ls.entries[i].1, out);
        proof {
            if i == 0 {
                assert(out@ =~= entry + link_pairs_prefix(ls.entries@, 1));
            } else {
                assert(out@ =~= entry + link_pairs_prefix(ls.entries@, i as int + 1));
            }
        }
        i = i + 1;
    }
    push_char(out, '}');
    assert(out@ =~= old(out)@ + links_object_text(*ls));
}


/// The JSON values a link reads back from: the bare string form.
pub open spec fn is_link_json(v: JsonValue) -> bool {
    v is Str
}

/// The JSON object members a link map reads back from: every value a
/// string-form link.
pub open spec fn is_links_object_json(entries: Seq<(String, JsonValue)>) -> bool {
    forall|j: int| 0 <= j < entries.len() ==> is_link_json(#[trigger] entries[j].1)
}

/// Reads a link back from its JSON value. Decoding is strict: only the
/// string form is accepted, since the wire cannot distinguish a link
/// object from any other object without attempting shapes in a fixed
/// order, and the object shape is tried by the containing resource
/// before this bare scalar.
pub fn link_from_json(v: JsonValue) -> (r: Option<Link>)
    ensures
        (r matches Option::Some(l) ==> link_text(l) == json_text(v)),
        r is Some <==> is_link_json(v),
{
    match v {
        JsonValue::Str(s) => Option::Some(Link(CoreLink::Uri(s))),
        _ => Option::None,
    }
}

pub proof fn lemma_link_pairs_prefix_push(s: Seq<(String, Link)>, x: (String, Link), i: int)
    requires
        0 <= i <= s.len(),
    ensures
        link_pairs_prefix(s.push(x), i) == link_pairs_prefix(s, i),
    decreases i,
{
    if i > 0 {
        lemma_link_pairs_prefix_push(s, x, i - 1);
        assert(s.push(x)[i - 1] == s[i - 1]);
    }
}

/// Reads a named link map back from the members of a JSON object.
pub fn links_object_from_json(entries: Vec<(String, JsonValue)>) -> (r: Option<LinksObject>)
    ensures
        (r matches Option::Some(ls) ==> links_object_text(ls) == obj_text(entries)),
        r is Some <==> is_links_object_json(entries@),
{
    let ghost orig: Vec<(String, JsonValue)> = entries;
    let mut rest = entries;
    let mut out: Vec<(String, Link)> = Vec::new();
    let mut failed: bool = false;
    while rest.len() > 0 && !failed
        invariant
            failed ==> !is_links_object_json(orig@),
            !failed ==> {
                &&& out@.len() + rest@.len() == orig@.len()
                &&& rest@ == orig@.subrange(out@.len() as int, orig@.len() as int)
                &&& link_pairs_prefix(out@, out@.len() as int) == pairs_prefix(
                    orig,
                    out@.len() as int,
                )
                &&& (forall|j: int|
                    0 <= j < out@.len() ==> (#[trigger] out@[j].0@) == orig@[j].0@ && link_text(
                        out@[j].1,
                    ) == json_text(orig@[j].1))
                &&& (forall|j: int| 0 <= j < out@.len() ==> is_link_json(#[trigger] orig@[j].1))
            },
        decreases rest@.len(),
    {
        let ghost k: int = out@.len() as int;
        let (key, val) = rest.remove(0);
        assert((key, val) == orig@[k]);
        match link_from_json(val) {
            Option::Some(link) => {
                let ghost out_before: Seq<(String, Link)> = out@;
                out.push((key, link));
                proof {
                    lemma_link_pairs_prefix_push(out_before, (key, link), k);
                    assert(out@ =~= out_before.push((key, link)));
                    assert(rest@ =~= orig@.subrange(out@.len() as int, orig@.len() as int));
                    assert(link_pairs_prefix(out@, k + 1) == pairs_prefix(orig, k + 1));
                }
            },
            Option::None => {
                proof {
                    assert(0 <= k < orig@.len());
                    assert(!is_link_json(orig@[k].1));
                    assert(!is_links_object_json(orig@)) by {
                        if is_links_object_json(orig@) {
                            assert(is_link_json(orig@[k].1));
                        }
                    }
                }
                failed = true;
            },
        }
    }
    if failed {
        Option::None
    } else {
        assert(is_links_object_json(orig@));
        let ls = LinksObject { entries: out };
        assert(links_object_text(ls) =~= obj_text(orig));
        Option::Some(ls)
    }
}

} // verus!
