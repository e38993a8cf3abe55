//! The server-side page model: health status, resource type tags, and
//! the ad-hoc link/resource/document shapes the correspondence listing is
//! served from, with the fixture that fills them.
//!
//! The HTTP transport around these values lives outside the library;
//! here stand the values themselves and their exact wire text.

use vstd::prelude::*;
use crate::json::{str_text, push_char, push_str, write_escaped, JsonValue, lemma_upsert_empty, lemma_upsert_missing};
use crate::v2;
use vstd::string::StrSliceExecFns;
use vstd::string::StringExecFns;

verus! {

/// Whether the service is up.
#[derive(Debug, PartialEq, Eq, Structural)]
pub enum HealthStatus {
    Up,
    Down,
}

impl HealthStatus {
    /// The status label.
    pub fn label(&self) -> (r: String)
        ensures
            r@ == (match *self {
                HealthStatus::Up => "Up"@,
                HealthStatus::Down => "Down"@,
            }),
    {
        match self {
            HealthStatus::Up => String::from_str("Up"),
            HealthStatus::Down => String::from_str("Down"),
        }
    }
}

/// The current health of the service.
pub fn health_status() -> (r: HealthStatus)
    ensures
        r == HealthStatus::Up,
{
    HealthStatus::Up
}

/// The resource types the listing serves.
#[derive(Debug, PartialEq, Eq, Structural)]
pub enum ResourceType {
    CorrespondenceOverview,
    CorrespondenceTeaser,
    TransmissionTeaser,
}

impl ResourceType {
    /// The type tag as presented to readers.
    pub fn label(&self) -> (r: String)
        ensures
            r@ == (match *self {
                ResourceType::CorrespondenceOverview => "correspondence:overview"@,
                ResourceType::CorrespondenceTeaser => "correspondence:teaser"@,
                ResourceType::TransmissionTeaser => "transmission:teaser"@,
            }),
    {
        match self {
            ResourceType::CorrespondenceOverview => String::from_str("correspondence:overview"),
            ResourceType::CorrespondenceTeaser => String::from_str("correspondence:teaser"),
            ResourceType::TransmissionTeaser => String::from_str("transmission:teaser"),
        }
    }

    /// The type tag as it stands on the wire: the variant name.
    pub open spec fn wire_chars(&self) -> Seq<char> {
        match *self {
            ResourceType::CorrespondenceOverview => "CorrespondenceOverview"@,
            ResourceType::CorrespondenceTeaser => "CorrespondenceTeaser"@,
            ResourceType::TransmissionTeaser => "TransmissionTeaser"@,
        }
    }

    /// Appends the wire form of the type tag to `out`.
    pub fn write_wire(&self, out: &mut String)
        ensures
            final(out)@ == old(out)@ + seq!['"'] + self.wire_chars() + seq!['"'],
    {
        push_char(out, '"');
        match self {
            ResourceType::CorrespondenceOverview => push_str(out, "CorrespondenceOverview"),
            ResourceType::CorrespondenceTeaser => push_str(out, "CorrespondenceTeaser"),
            ResourceType::TransmissionTeaser => push_str(out, "TransmissionTeaser"),
        }
        push_char(out, '"');
        assert(out@ =~= old(out)@ + seq!['"'] + self.wire_chars() + seq!['"']);
    }
}

/// A listing link: relation, target, and what the target is.
#[derive(Debug)]
pub struct Link {
    rel: String,
    href: String,
    target_title: String,
    target_type: Option<String>,
}

impl Link {
    /// The characters of `rel`.
    pub closed spec fn spec_rel(&self) -> Seq<char> {
        self.rel@
    }

    /// The characters of `href`.
    pub closed spec fn spec_href(&self) -> Seq<char> {
        self.href@
    }

    /// The characters of the target's title.
    pub closed spec fn spec_target_title(&self) -> Seq<char> {
        self.target_title@
    }

    /// The characters of the target's type, when known.
    pub closed spec fn spec_target_type(&self) -> Option<Seq<char>> {
        match self.target_type {
            Option::Some(t) => Option::Some(t@),
            Option::None => Option::None,
        }
    }

    /// A link with the given members.
    pub fn new(rel: &str, href: &str, target_title: &str, target_type: Option<String>) -> (r: Link)
        ensures
            r.spec_rel() == rel@,
            r.spec_href() == href@,
            r.spec_target_title() == target_title@,
            r.spec_target_type() == (match target_type {
                Option::Some(t) => Option::Some(t@),
                Option::None => Option::None::<Seq<char>>,
            }),
    {
        Link {
            rel: rel.to_owned(),
            href: href.to_owned(),
            target_title: target_title.to_owned(),
            target_type,
        }
    }
}

/// The wire text of a listing link: all four members, `target_type` as
/// null when unknown.
pub closed spec fn link_text(l: Link) -> Seq<char> {
    seq!['{'] + seq!['"'] + "rel"@ + seq!['"'] + seq![':'] + str_text(l.rel@) + seq![','] + seq![
        '"',
    ] + "href"@ + seq!['"'] + seq![':'] + str_text(l.href@) + seq![','] + seq!['"']
        + "target_title"@ + seq!['"'] + seq![':'] + str_text(l.target_title@) + seq![','] + seq![
        '"',
    ] + "target_type"@ + seq!['"'] + seq![':'] + (match l.target_type {
        Option::Some(t) => str_text(t@),
        Option::None => "null"@,
    }) + seq!['}']
}

/// Appends the wire text of `l` to `out`.
#[verifier::rlimit(100)]
pub fn write_link(l: &Link, out: &mut String)
    ensures
        final(out)@ == old(out)@ + link_text(*l),
{
    push_char(out, '{');
    push_char(out, '"');
    push_str(out, "rel");
    push_char(out, '"');
    push_char(out, ':');
    push_char(out, '"');
    write_escaped(l.rel.as_str(), out);
    push_char(out, '"');
    push_char(out, ',');
    push_char(out, '"');
    push_str(out, "href");
    push_char(out, '"');
    push_char(out, ':');
    push_char(out, '"');
    write_escaped(l.href.as_str(), out);
    push_char(out, '"');
    push_char(out, ',');
    push_char(out, '"');
    push_str(out, "target_title");
    push_char(out, '"');
    push_char(out, ':');
    push_char(out, '"');
    write_escaped(l.target_title.as_str(), out);
    push_char(out, '"');
    push_char(out, ',');
    push_char(out, '"');
    push_str(out, "target_type");
    push_char(out, '"');
    push_char(out, ':');
    match &l.target_type {
        Option::Some(t) => {
            push_char(out, '"');
            write_escaped(t.as_str(), out);
            push_char(out, '"');
        },
        Option::None => {
            push_str(out, "null");
        },
    }
    push_char(out, '}');
    assert(out@ =~= old(out)@ + link_text(*l));
}

/// The text of the first `i` links of a relationship's link list.
pub open spec fn link_items_prefix(xs: Seq<Link>, i: int) -> Seq<char>
    decreases i,
{
    if i <= 0 || i > xs.len() {
        Seq::empty()
    } else {
        let entry = link_text(xs[i - 1]);
        if i == 1 {
            entry
        } else {
            link_items_prefix(xs, i - 1) + seq![','] + entry
        }
    }
}

/// The text of the first `i` named link lists of a relationship map.
pub open spec fn rel_pairs_prefix(ps: Seq<(String, Vec<Link>)>, i: int) -> Seq<char>
    decreases i,
{
    if i <= 0 || i > ps.len() {
        Seq::empty()
    } else {
        let entry = str_text(ps[i - 1].0@) + seq![':'] + seq!['['] + link_items_prefix(
            ps[i - 1].1@,
            ps[i - 1].1@.len() as int,
        ) + seq![']'];
        if i == 1 {
            entry
        } else {
            rel_pairs_prefix(ps, i - 1) + seq![','] + entry
        }
    }
}

/// The text of the first `i` attributes of a listing resource.
pub open spec fn attr_pairs_prefix(ps: Seq<(String, String)>, i: int) -> Seq<char>
    decreases i,
{
    if i <= 0 || i > ps.len() {
        Seq::empty()
    } else {
        let entry = str_text(ps[i - 1].0@) + seq![':'] + str_text(ps[i - 1].1@);
        if i == 1 {
            entry
        } else {
            attr_pairs_prefix(ps, i - 1) + seq![','] + entry
        }
    }
}

/// A listing resource: type tag, URI, attributes, and optional named
/// link lists.
#[derive(Debug)]
pub struct Resource {
    kind: ResourceType,
    uri: String,
    attributes: Vec<(String, String)>,
    relationships: Option<Vec<(String, Vec<Link>)>>,
}

impl Resource {
    /// The type tag.
    pub closed spec fn spec_kind(&self) -> ResourceType {
        self.kind
    }

    /// The characters of the URI.
    pub closed spec fn spec_uri(&self) -> Seq<char> {
        self.uri@
    }

    /// The attributes, in insertion order.
    pub closed spec fn spec_attributes(&self) -> Seq<(String, String)> {
        self.attributes@
    }

    /// The named link lists, when present.
    pub closed spec fn spec_relationships(&self) -> Option<Seq<(String, Vec<Link>)>> {
        match self.relationships {
            Option::Some(v) => Option::Some(v@),
            Option::None => Option::None,
        }
    }

    /// A resource with the given members.
    pub fn new(
        kind: ResourceType,
        uri: &str,
        attributes: Vec<(String, String)>,
        relationships: Option<Vec<(String, Vec<Link>)>>,
    ) -> (r: Resource)
        ensures
            r.spec_kind() == kind,
            r.spec_uri() == uri@,
            r.spec_attributes() == attributes@,
            r.spec_relationships() == (match relationships {
                Option::Some(v) => Option::Some(v@),
                Option::None => Option::None::<Seq<(String, Vec<Link>)>>,
            }),
    {
        Resource { kind, uri: uri.to_owned(), attributes, relationships }
    }
}

/// The wire text of a listing resource: the type tag under `kind`, the
/// URI, the attribute object, and the relationship map or null.
pub closed spec fn resource_text(r: Resource) -> Seq<char> {
    seq!['{'] + seq!['"'] + "kind"@ + seq!['"'] + seq![':'] + seq!['"'] + r.kind.wire_chars()
        + seq!['"'] + seq![','] + seq!['"'] + "uri"@ + seq!['"'] + seq![':'] + str_text(r.uri@)
        + seq![','] + seq!['"'] + "attributes"@ + seq!['"'] + seq![':'] + (seq!['{']
        + attr_pairs_prefix(r.attributes@, r.attributes@.len() as int) + seq!['}']) + seq![',']
        + seq!['"'] + "relationships"@ + seq!['"'] + seq![':'] + (match r.relationships {
        Option::Some(v) => seq!['{'] + rel_pairs_prefix(v@, v@.len() as int) + seq!['}'],
        Option::None => "null"@,
    }) + seq!['}']
}

/// Appends the wire text of `r` to `out`.
#[verifier::rlimit(100)]
pub fn write_resource(r: &Resource, out: &mut String)
    ensures
        final(out)@ == old(out)@ + resource_text(*r),
{
    push_char(out, '{');
    push_char(out, '"');
    push_str(out, "kind");
    push_char(out, '"');
    push_char(out, ':');
    r.kind.write_wire(out);
    push_char(out, ',');
    push_char(out, '"');
    push_str(out, "uri");
    push_char(out, '"');
    push_char(out, ':');
    push_char(out, '"');
    write_escaped(r.uri.as_str(), out);
    push_char(out, '"');
    push_char(out, ',');
    push_char(out, '"');
    push_str(out, "attributes");
    push_char(out, '"');
    push_char(out, ':');
    push_char(out, '{');
    let ghost attr_entry: Seq<char> = out@;
    let n: usize = r.attributes.len();
    let mut i: usize = 0;
    while i < n
        invariant
            0 <= i <= n,
            n == r.attributes@.len(),
            out@ == attr_entry + attr_pairs_prefix(r.attributes@, i as int),
        decreases n - i,
    {
        if i > 0 {
            push_char(out, ',');
        }
        push_char(out, '"');
        write_escaped(r.attributes[i].0.as_str(), out);
        push_char(out, '"');
        push_char(out, ':');
        push_char(out, '"');
        write_escaped(r.attributes[i].1.as_str(), out);
        push_char(out, '"');
        proof {
            if i == 0 {
                assert(out@ =~= attr_entry + attr_pairs_prefix(r.attributes@, 1));
            } else {
                assert(out@ =~= attr_entry + attr_pairs_prefix(r.attributes@, i as int + 1));
            }
        }
        i = i + 1;
    }
    push_char(out, '}');
    let ghost a0: Seq<char> = seq!['{'] + seq!['"'] + "kind"@ + seq!['"'] + seq![':'] + seq!['"']
        + r.kind.wire_chars() + seq!['"'] + seq![','] + seq!['"'] + "uri"@ + seq!['"'] + seq![':']
        + str_text(r.uri@) + seq![','] + seq!['"'] + "attributes"@ + seq!['"'] + seq![':'] + (seq![
        '{',
    ] + attr_pairs_prefix(r.attributes@, r.attributes@.len() as int) + seq!['}']);
    assert(out@ =~= old(out)@ + a0);
    push_char(out, ',');
    push_char(out, '"');
    push_str(out, "relationships");
    push_char(out, '"');
    push_char(out, ':');
    let ghost before_rels: Seq<char> = out@;
    match &r.relationships {
        Option::Some(v) => {
            push_char(out, '{');
            let ghost rel_entry: Seq<char> = out@;
            let m: usize = v.len();
            let mut j: usize = 0;
            while j < m
                invariant
                    0 <= j <= m,
                    m == v@.len(),
                    out@ == rel_entry + rel_pairs_prefix(v@, j as int),
                decreases m - j,
            {
                if j > 0 {
                    push_char(out, ',');
                }
                push_char(out, '"');
                write_escaped(v[j].0.as_str(), out);
                push_char(out, '"');
                push_char(out, ':');
                push_char(out, '[');
                let ghost link_entry: Seq<char> = out@;
                let links: &Vec<Link> = &v[j].1;
                let w: usize = links.len();
                let mut k: usize = 0;
                while k < w
                    invariant
                        0 <= k <= w,
                        w == links@.len(),
                        out@ == link_entry + link_items_prefix(links@, k as int),
                    decreases w - k,
                {
                    if k > 0 {
                        push_char(out, ',');
                    }
                    write_link(&links[k], out);
                    proof {
                        if k == 0 {
                            assert(out@ =~= link_entry + link_items_prefix(links@, 1));
                        } else {
                            assert(out@ =~= link_entry + link_items_prefix(links@, k as int + 1));
                        }
                    }
                    k = k + 1;
                }
                push_char(out, ']');
                proof {
                    if j == 0 {
                        assert(out@ =~= rel_entry + rel_pairs_prefix(v@, 1));
                    } else {
                        assert(out@ =~= rel_entry + rel_pairs_prefix(v@, j as int + 1));
                    }
                }
                j = j + 1;
            }
            push_char(out, '}');
            assert(out@ =~= before_rels + (seq!['{'] + rel_pairs_prefix(v@, v@.len() as int)
                + seq!['}']));
        },
        Option::None => {
            push_str(out, "null");
        },
    }
    push_char(out, '}');
    let ghost rels_part: Seq<char> = match &r.relationships {
        Option::Some(v) => seq!['{'] + rel_pairs_prefix(v@, v@.len() as int) + seq!['}'],
        Option::None => "null"@,
    };
    let ghost a1: Seq<char> = a0 + (seq![','] + seq!['"'] + "relationships"@ + seq!['"'] + seq![
        ':',
    ]) + rels_part + seq!['}'];
    assert(out@ =~= old(out)@ + a1);
    assert(a1 =~= resource_text(*r));
}

/// A listing document: the primary resource and optional included
/// resources.
#[derive(Debug)]
pub struct Document {
    data: Resource,
    included: Option<Vec<Resource>>,
}

impl Document {
    /// The primary resource.
    pub closed spec fn spec_data(&self) -> Resource {
        self.data
    }

    /// The included resources, when present.
    pub closed spec fn spec_included(&self) -> Option<Seq<Resource>> {
        match self.included {
            Option::Some(v) => Option::Some(v@),
            Option::None => Option::None,
        }
    }

    /// A document with the given members.
    pub fn new(data: Resource, included: Option<Vec<Resource>>) -> (r: Document)
        ensures
            r.spec_data() == data,
            r.spec_included() == (match included {
                Option::Some(v) => Option::Some(v@),
                Option::None => Option::None::<Seq<Resource>>,
            }),
    {
        Document { data, included }
    }

    /// The document's exact wire text.
    pub fn to_json_text(&self) -> (r: String)
        ensures
            r@ == document_text(*self),
    {
        let mut out = String::new();
        write_document(self, &mut out);
        out
    }
}

/// The text of the first `i` included resources.
pub open spec fn included_items_prefix(xs: Seq<Resource>, i: int) -> Seq<char>
    decreases i,
{
    if i <= 0 || i > xs.len() {
        Seq::empty()
    } else {
        let entry = resource_text(xs[i - 1]);
        if i == 1 {
            entry
        } else {
            included_items_prefix(xs, i - 1) + seq![','] + entry
        }
    }
}

/// The wire text of a listing document: the primary resource under
/// `data`, then the included array or null.
pub closed spec fn document_text(d: Document) -> Seq<char> {
    seq!['{'] + seq!['"'] + "data"@ + seq!['"'] + seq![':'] + resource_text(d.data) + seq![',']
        + seq!['"'] + "included"@ + seq!['"'] + seq![':'] + (match d.included {
        Option::Some(v) => seq!['['] + included_items_prefix(v@, v@.len() as int) + seq![']'],
        Option::None => "null"@,
    }) + seq!['}']
}

/// Appends the wire text of `d` to `out`.
#[verifier::rlimit(100)]
pub fn write_document(d: &Document, out: &mut String)
    ensures
        final(out)@ == old(out)@ + document_text(*d),
{
    push_char(out, '{');
    push_char(out, '"');
    push_str(out, "data");
    push_char(out, '"');
    push_char(out, ':');
    write_resource(&d.data, out);
    push_char(out, ',');
    push_char(out, '"');
    push_str(out, "included");
    push_char(out, '"');
    push_char(out, ':');
    let ghost before_inc: Seq<char> = out@;
    match &d.included {
        Option::Some(v) => {
            push_char(out, '[');
            let ghost entry: Seq<char> = out@;
            let n: usize = v.len();
            let mut i: usize = 0;
            while i < n
                invariant
                    0 <= i <= n,
                    n == v@.len(),
                    out@ == entry + included_items_prefix(v@, i as int),
                decreases n - i,
            {
                if i > 0 {
                    push_char(out, ',');
                }
                write_resource(&v[i], out);
                proof {
                    if i == 0 {
                        assert(out@ =~= entry + included_items_prefix(v@, 1));
                    } else {
                        assert(out@ =~= entry + included_items_prefix(v@, i as int + 1));
                    }
                }
                i = i + 1;
            }
            push_char(out, ']');
            assert(out@ =~= before_inc + (seq!['['] + included_items_prefix(v@, v@.len() as int)
                + seq![']']));
        },
        Option::None => {
            push_str(out, "null");
        },
    }
    push_char(out, '}');
    assert(out@ =~= old(out)@ + document_text(*d));
}

/// The correspondence listing: an overview resource that links two
/// correspondences, with the two correspondence teasers and one
/// transmission teaser included.
pub fn correspondences_document() -> (r: Document)
    ensures
        r.spec_data().spec_kind() == ResourceType::CorrespondenceOverview,
        r.spec_data().spec_uri() == "/correspondences"@,
        r.spec_data().spec_attributes().len() == 1,
        r.spec_data().spec_attributes()[0].0@ == "title"@,
        r.spec_data().spec_attributes()[0].1@ == "Correspondences"@,
        (r.spec_data().spec_relationships() matches Option::Some(rels) && rels.len() == 1
            && rels[0].0@ == "correspondences"@ && rels[0].1@.len() == 2),
        (r.spec_included() matches Option::Some(inc) && inc.len() == 3 && inc[0].spec_kind()
            == ResourceType::CorrespondenceTeaser && inc[0].spec_uri() == "/correspondences/1"@
            && inc[1].spec_kind() == ResourceType::CorrespondenceTeaser && inc[1].spec_uri()
            == "/correspondences/2"@ && inc[2].spec_kind() == ResourceType::TransmissionTeaser
            && inc[2].spec_uri() == "/transmission/d7c80354-a8a9-4a02-ac3d-da79f9b64150"@),
{
    let mut correspondence_links: Vec<Link> = Vec::new();
    correspondence_links.push(
        Link::new("item", "/correspondences/1", "Keeping in touch", Option::None),
    );
    correspondence_links.push(
        Link::new("item", "/correspondences/2", "Amicis development", Option::None),
    );
    let mut correspondences: Vec<(String, Vec<Link>)> = Vec::new();
    correspondences.push(("correspondences".to_owned(), correspondence_links));
    let mut overview_attrs: Vec<(String, String)> = Vec::new();
    overview_attrs.push(("title".to_owned(), "Correspondences".to_owned()));
    let data = Resource::new(
        ResourceType::CorrespondenceOverview,
        "/correspondences",
        overview_attrs,
        Option::Some(correspondences),
    );

    let mut transmission_links: Vec<Link> = Vec::new();
    transmission_links.push(
        Link::new(
            "item",
            "/transmission/d7c80354-a8a9-4a02-ac3d-da79f9b64150",
            "Trying this out",
            Option::None,
        ),
    );
    let mut transmissions: Vec<(String, Vec<Link>)> = Vec::new();
    transmissions.push(("transmissions".to_owned(), transmission_links));

    let mut teaser_one_attrs: Vec<(String, String)> = Vec::new();
    teaser_one_attrs.push(("title".to_owned(), "Keeping in touch".to_owned()));
    let mut teaser_two_attrs: Vec<(String, String)> = Vec::new();
    teaser_two_attrs.push(("title".to_owned(), "Amicis development".to_owned()));
    let mut transmission_attrs: Vec<(String, String)> = Vec::new();
    transmission_attrs.push(("subject".to_owned(), "Trying this out".to_owned()));
    transmission_attrs.push(("body".to_owned(), "Wazzup, bruh?".to_owned()));

    let mut included: Vec<Resource> = Vec::new();
    included.push(
        Resource::new(
            ResourceType::CorrespondenceTeaser,
            "/correspondences/1",
            teaser_one_attrs,
            Option::Some(transmissions),
        ),
    );
    included.push(
        Resource::new(
            ResourceType::CorrespondenceTeaser,
            "/correspondences/2",
            teaser_two_attrs,
            Option::None,
        ),
    );
    included.push(
        Resource::new(
            ResourceType::TransmissionTeaser,
            "/transmission/d7c80354-a8a9-4a02-ac3d-da79f9b64150",
            transmission_attrs,
            Option::None,
        ),
    );
    Document::new(data, Option::Some(included))
}


/// How many characters of a subject the teaser preview keeps.
pub const PREVIEW_LEN: usize = 65;

/// A transmission teaser: id, body, and the subject cut to a preview.
#[derive(Debug)]
pub struct TransmissionTeaser {
    id: String,
    body: String,
    subject: String,
}

impl TransmissionTeaser {
    /// The characters of the id.
    pub closed spec fn spec_id(&self) -> Seq<char> {
        self.id@
    }

    /// The characters of the body.
    pub closed spec fn spec_body(&self) -> Seq<char> {
        self.body@
    }

    /// The characters of the subject preview.
    pub closed spec fn spec_subject(&self) -> Seq<char> {
        self.subject@
    }

    /// A teaser for the given transmission. The subject is cut to the
    /// preview length and finished with an ellipsis, so it must reach
    /// that length.
    pub fn new(id: &str, body: &str, subject: &str) -> (r: TransmissionTeaser)
        requires
            subject@.len() >= PREVIEW_LEN,
        ensures
            r.spec_id() == id@,
            r.spec_body() == body@,
            r.spec_subject() == subject@.subrange(0, PREVIEW_LEN as int) + "..."@,
    {
        let prefix: &str = subject.substring_char(0, PREVIEW_LEN);
        let preview: String = prefix.to_owned().concat("...");
        TransmissionTeaser { id: id.to_owned(), body: body.to_owned(), subject: preview }
    }

    /// A copy with the same characters in every field.
    pub fn duplicate(&self) -> (r: TransmissionTeaser)
        ensures
            r.spec_id() == self.spec_id(),
            r.spec_body() == self.spec_body(),
            r.spec_subject() == self.spec_subject(),
    {
        TransmissionTeaser {
            id: self.id.clone(),
            body: self.body.clone(),
            subject: self.subject.clone(),
        }
    }

    /// The teaser as a simplified-dialect relationship object: an
    /// `item` link to the transmission with its title as an extension.
    pub fn into_relationship_object(self) -> (r: v2::RelationshipObject)
        ensures
            r.spec_rel() == "item"@,
            r.spec_href() == "/api/transmissions/"@ + self.spec_id(),
            r.spec_extensions().len() == 1,
            r.spec_extensions()[0].0@ == "title"@,
            (r.spec_extensions()[0].1 matches JsonValue::Str(s) && s@ == "Trying this out"@),
    {
        proof {
            reveal_strlit("title");
            reveal_strlit("rel");
            reveal_strlit("href");
            reveal_strlit("type");
            assert("title"@.len() == 5);
            assert("rel"@.len() == 3);
            assert("href"@.len() == 4);
            assert("type"@.len() == 4);
            assert("title"@ != "rel"@);
            assert("title"@ != "href"@);
            assert("title"@ != "type"@);
        }
        let href: String = String::from_str("/api/transmissions/").concat(self.id.as_str());
        let key: String = "title".to_owned();
        let val = JsonValue::Str(String::from_str("Trying this out"));
        let r = v2::RelationshipObject::builder().rel("item").href(href.as_str()).extension(
            key,
            val,
        ).build();
        proof {
            lemma_upsert_empty(key, val);
        }
        r
    }

    /// The teaser as a simplified-dialect resource.
    pub fn into_resource(self) -> (r: v2::Resource)
        ensures
            r.spec_kind() == "transmission:teaser"@,
            r.spec_uri() == "/api/transmissions/"@ + self.spec_id(),
            r.spec_attributes().entries().len() == 2,
            r.spec_attributes().entries()[0].0@ == "body"@,
            (r.spec_attributes().entries()[0].1 matches JsonValue::Str(s) && s@
                == self.spec_body()),
            r.spec_attributes().entries()[1].0@ == "subject"@,
            (r.spec_attributes().entries()[1].1 matches JsonValue::Str(s) && s@
                == self.spec_subject()),
            r.spec_relationships().entries().len() == 0,
    {
        proof {
            reveal_strlit("body");
            reveal_strlit("subject");
        }
        let uri: String = String::from_str("/api/transmissions/").concat(self.id.as_str());
        let key_body: String = "body".to_owned();
        let val_body = JsonValue::Str(self.body);
        let key_subject: String = "subject".to_owned();
        let val_subject = JsonValue::Str(self.subject);
        let r = v2::Resource::builder().kind("transmission:teaser").uri(uri.as_str()).attribute(
            key_body,
            val_body,
        ).attribute(key_subject, val_subject).build();
        proof {
            assert("body"@.len() == 4);
            assert("subject"@.len() == 7);
            assert("body"@ != "subject"@);
            lemma_upsert_empty(key_body, val_body);
            lemma_upsert_missing(seq![(key_body, val_body)], key_subject, val_subject);
        }
        r
    }
}

/// A correspondence teaser: id, title, and its transmission teasers.
#[derive(Debug)]
pub struct CorrespondenceTeaser {
    id: String,
    title: String,
    transmissions: Vec<TransmissionTeaser>,
}

impl CorrespondenceTeaser {
    /// The characters of the id.
    pub closed spec fn spec_id(&self) -> Seq<char> {
        self.id@
    }

    /// The characters of the title.
    pub closed spec fn spec_title(&self) -> Seq<char> {
        self.title@
    }

    /// The transmission teasers, in order.
    pub closed spec fn spec_transmissions(&self) -> Seq<TransmissionTeaser> {
        self.transmissions@
    }

    /// A teaser for the given correspondence.
    pub fn new(id: &str, title: &str, transmissions: Vec<TransmissionTeaser>) -> (r:
        CorrespondenceTeaser)
        ensures
            r.spec_id() == id@,
            r.spec_title() == title@,
            r.spec_transmissions() == transmissions@,
    {
        CorrespondenceTeaser { id: id.to_owned(), title: title.to_owned(), transmissions }
    }

    /// A copy with the same characters in every field.
    pub fn duplicate(&self) -> (r: CorrespondenceTeaser)
        ensures
            r.spec_id() == self.spec_id(),
            r.spec_title() == self.spec_title(),
            r.spec_transmissions().len() == self.spec_transmissions().len(),
            forall|j: int|
                0 <= j < self.spec_transmissions().len() ==> (#[trigger] r.spec_transmissions()[j]).spec_id()
                    == self.spec_transmissions()[j].spec_id() && r.spec_transmissions()[j].spec_body()
                    == self.spec_transmissions()[j].spec_body()
                    && r.spec_transmissions()[j].spec_subject()
                    == self.spec_transmissions()[j].spec_subject(),
    {
        let mut transmissions: Vec<TransmissionTeaser> = Vec::new();
        let n: usize = self.transmissions.len();
        let mut i: usize = 0;
        while i < n
            invariant
                0 <= i <= n,
                n == self.transmissions@.len(),
                transmissions@.len() == i,
                forall|j: int|
                    0 <= j < i ==> (#[trigger] transmissions@[j]).spec_id()
                        == self.transmissions@[j].spec_id() && transmissions@[j].spec_body()
                        == self.transmissions@[j].spec_body() && transmissions@[j].spec_subject()
                        == self.transmissions@[j].spec_subject(),
            decreases n - i,
        {
            transmissions.push(self.transmissions[i].duplicate());
            i = i + 1;
        }
        CorrespondenceTeaser { id: self.id.clone(), title: self.title.clone(), transmissions }
    }

    /// The teaser as a simplified-dialect relationship object: an
    /// `item` link to the correspondence with its title as an extension.
    pub fn into_relationship_object(self) -> (r: v2::RelationshipObject)
        ensures
            r.spec_rel() == "item"@,
            r.spec_href() == "/api/correspondences/"@ + self.spec_id(),
            r.spec_extensions().len() == 1,
            r.spec_extensions()[0].0@ == "title"@,
            (r.spec_extensions()[0].1 matches JsonValue::Str(s) && s@ == self.spec_title()),
    {
        proof {
            reveal_strlit("title");
            reveal_strlit("rel");
            reveal_strlit("href");
            reveal_strlit("type");
            assert("title"@.len() == 5);
            assert("rel"@.len() == 3);
            assert("href"@.len() == 4);
            assert("type"@.len() == 4);
            assert("title"@ != "rel"@);
            assert("title"@ != "href"@);
            assert("title"@ != "type"@);
        }
        let href: String = String::from_str("/api/correspondences/").concat(self.id.as_str());
        let key: String = "title".to_owned();
        let val = JsonValue::Str(self.title);
        let r = v2::RelationshipObject::builder().rel("item").href(href.as_str()).extension(
            key,
            val,
        ).build();
        proof {
            lemma_upsert_empty(key, val);
        }
        r
    }

    /// The teaser as a simplified-dialect resource: title and
    /// transmission count as attributes, and, when it has transmissions,
    /// a `transmissions` relationship listing them as `item` links.
    pub fn into_resource(self) -> (r: v2::Resource)
        requires
            self.spec_transmissions().len() <= 0x7fffffffffffffff,
        ensures
            r.spec_kind() == "correspondence:teaser"@,
            r.spec_uri() == "/api/correspondences/"@ + self.spec_id(),
            r.spec_attributes().entries().len() == 2,
            r.spec_attributes().entries()[0].0@ == "title"@,
            (r.spec_attributes().entries()[0].1 matches JsonValue::Str(s) && s@
                == self.spec_title()),
            r.spec_attributes().entries()[1].0@ == "transmission_count"@,
            (r.spec_attributes().entries()[1].1 matches JsonValue::Int(n) && n
                == self.spec_transmissions().len()),
            self.spec_transmissions().len() == 0 ==> r.spec_relationships().entries().len() == 0,
            self.spec_transmissions().len() > 0 ==> (r.spec_relationships().entries().len() == 1
                && r.spec_relationships().entries()[0].0@ == "transmissions"@ && {
                let slot = r.spec_relationships().entries()[0].1;
                !slot.is_single() && slot.spec_multi().len() == self.spec_transmissions().len()
                    && forall|j: int|
                    0 <= j < slot.spec_multi().len() ==> (#[trigger] slot.spec_multi()[j]).spec_rel()
                        == "item"@ && slot.spec_multi()[j].spec_href() == "/api/transmissions/"@
                        + self.spec_transmissions()[j].spec_id()
            }),
    {
        proof {
            reveal_strlit("title");
            reveal_strlit("transmission_count");
        }
        let uri: String = String::from_str("/api/correspondences/").concat(self.id.as_str());
        let count: i64 = self.transmissions.len() as i64;
        let key_title: String = "title".to_owned();
        let val_title = JsonValue::Str(self.title);
        let key_count: String = "transmission_count".to_owned();
        let val_count = JsonValue::Int(count);
        let builder = v2::Resource::builder().kind("correspondence:teaser").uri(
            uri.as_str(),
        ).attribute(key_title, val_title).attribute(key_count, val_count);
        proof {
            assert("title"@.len() == 5);
            assert("transmission_count"@.len() == 18);
            assert("title"@ != "transmission_count"@);
            lemma_upsert_empty(key_title, val_title);
            lemma_upsert_missing(seq![(key_title, val_title)], key_count, val_count);
        }
        if self.transmissions.len() == 0 {
            builder.build()
        } else {
            let mut transmissions = self.transmissions;
            let ghost orig: Seq<TransmissionTeaser> = transmissions@;
            let mut objs: Vec<v2::RelationshipObject> = Vec::new();
            while transmissions.len() > 0
                invariant
                    objs@.len() + transmissions@.len() == orig.len(),
                    transmissions@ == orig.subrange(objs@.len() as int, orig.len() as int),
                    forall|j: int|
                        0 <= j < objs@.len() ==> (#[trigger] objs@[j]).spec_rel() == "item"@
                            && objs@[j].spec_href() == "/api/transmissions/"@
                            + orig[j].spec_id(),
                decreases transmissions@.len(),
            {
                let t = transmissions.remove(0);
                assert(t == orig[objs@.len() as int]);
                objs.push(t.into_relationship_object());
                proof {
                    assert(transmissions@ =~= orig.subrange(objs@.len() as int, orig.len() as int));
                }
            }
            let slot = v2::Relationship::from_vec(objs);
            let key_rel: String = "transmissions".to_owned();
            let r = builder.relationship(key_rel, slot).build();
            proof {
                lemma_upsert_empty(key_rel, slot);
            }
            r
        }
    }
}

/// All the correspondence teasers, for the overview resource.
#[derive(Debug)]
pub struct CorrespondenceOverview {
    teasers: Vec<CorrespondenceTeaser>,
}

impl CorrespondenceOverview {
    /// The teasers, in order.
    pub closed spec fn spec_teasers(&self) -> Seq<CorrespondenceTeaser> {
        self.teasers@
    }

    /// An overview of the given teasers.
    pub fn new(teasers: Vec<CorrespondenceTeaser>) -> (r: CorrespondenceOverview)
        ensures
            r.spec_teasers() == teasers@,
    {
        CorrespondenceOverview { teasers }
    }

    /// The overview as a simplified-dialect resource: a title attribute
    /// and a `correspondences` relationship listing every teaser as an
    /// `item` link.
    pub fn into_resource(self) -> (r: v2::Resource)
        ensures
            r.spec_kind() == "correspondence:overview"@,
            r.spec_uri() == "/api/correspondences"@,
            r.spec_attributes().entries().len() == 1,
            r.spec_attributes().entries()[0].0@ == "title"@,
            (r.spec_attributes().entries()[0].1 matches JsonValue::Str(s) && s@
                == "Correspondences"@),
            r.spec_relationships().entries().len() == 1,
            r.spec_relationships().entries()[0].0@ == "correspondences"@,
            !r.spec_relationships().entries()[0].1.is_single(),
            r.spec_relationships().entries()[0].1.spec_multi().len() == self.spec_teasers().len(),
            forall|j: int|
                0 <= j < self.spec_teasers().len() ==> (#[trigger] r.spec_relationships().entries()[0].1.spec_multi()[j]).spec_rel()
                    == "item"@
                    && r.spec_relationships().entries()[0].1.spec_multi()[j].spec_href()
                    == "/api/correspondences/"@ + self.spec_teasers()[j].spec_id(),
    {
        proof {
            reveal_strlit("title");
        }
        let mut teasers = self.teasers;
        let ghost orig: Seq<CorrespondenceTeaser> = teasers@;
        let mut objs: Vec<v2::RelationshipObject> = Vec::new();
        while teasers.len() > 0
            invariant
                objs@.len() + teasers@.len() == orig.len(),
                teasers@ == orig.subrange(objs@.len() as int, orig.len() as int),
                forall|j: int|
                    0 <= j < objs@.len() ==> (#[trigger] objs@[j]).spec_rel() == "item"@
                        && objs@[j].spec_href() == "/api/correspondences/"@ + orig[j].spec_id(),
            decreases teasers@.len(),
        {
            let t = teasers.remove(0);
            assert(t == orig[objs@.len() as int]);
            objs.push(t.into_relationship_object());
            proof {
                assert(teasers@ =~= orig.subrange(objs@.len() as int, orig.len() as int));
            }
        }
        let slot = v2::Relationship::from_vec(objs);
        let key_title: String = "title".to_owned();
        let val_title = JsonValue::Str(String::from_str("Correspondences"));
        let key_rel: String = "correspondences".to_owned();
        let r = v2::Resource::builder().kind("correspondence:overview").uri(
            "/api/correspondences",
        ).attribute(key_title, val_title).relationship(key_rel, slot).build();
        proof {
            lemma_upsert_empty(key_title, val_title);
            lemma_upsert_empty(key_rel, slot);
        }
        r
    }
}

/// The home-screen example: an overview of two correspondences, with
/// both teasers and the transmission teaser included, built around the
/// given transmission id.
pub fn home_screen_example_document(transmission_id: &str) -> (r: v2::Document)
    ensures
        r.spec_data().spec_kind() == "correspondence:overview"@,
        r.spec_data().spec_uri() == "/api/correspondences"@,
        (r.spec_includes() matches Option::Some(inc) && inc.len() == 3 && inc[0].spec_kind()
            == "correspondence:teaser"@ && inc[0].spec_uri() == "/api/correspondences/1"@
            && inc[1].spec_kind() == "correspondence:teaser"@ && inc[1].spec_uri()
            == "/api/correspondences/2"@ && inc[2].spec_kind() == "transmission:teaser"@
            && inc[2].spec_uri() == "/api/transmissions/"@ + transmission_id@),
{
    proof {
        reveal_strlit(
            "Trying this out. Here is some snipped content for the preview text. This will be cut out.",
        );
    }
    let transmission = TransmissionTeaser::new(
        transmission_id,
        "Wazzup, bruh?",
        "Trying this out. Here is some snipped content for the preview text. This will be cut out.",
    );
    let transmission_copy = transmission.duplicate();
    let mut first_list: Vec<TransmissionTeaser> = Vec::new();
    first_list.push(transmission);
    let first = CorrespondenceTeaser::new("1", "Keeping in touch", first_list);
    let second = CorrespondenceTeaser::new("2", "Amicis development", Vec::new());
    let first_copy = first.duplicate();
    let second_copy = second.duplicate();
    let mut teasers: Vec<CorrespondenceTeaser> = Vec::new();
    teasers.push(first);
    teasers.push(second);
    let overview = CorrespondenceOverview::new(teasers);
    let mut included: Vec<v2::Resource> = Vec::new();
    included.push(first_copy.into_resource());
    included.push(second_copy.into_resource());
    proof {
        reveal_strlit("/api/correspondences/");
        reveal_strlit("1");
        reveal_strlit("2");
        reveal_strlit("/api/correspondences/1");
        reveal_strlit("/api/correspondences/2");
        assert("/api/correspondences/"@.len() == 21);
        assert("1"@.len() == 1);
        assert("2"@.len() == 1);
        assert("/api/correspondences/1"@.len() == 22);
        assert("/api/correspondences/2"@.len() == 22);
        assert("/api/correspondences/"@ + "1"@ =~= "/api/correspondences/1"@);
        assert("/api/correspondences/"@ + "2"@ =~= "/api/correspondences/2"@);
    }
    v2::Document::builder().data(overview.into_resource()).includes_all(included).includes(
        transmission_copy.into_resource(),
    ).build()
}

} // verus!
