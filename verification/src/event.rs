use vstd::prelude::*;

verus! {

/// Spec-level image of a qualified name.
#[verifier::ext_equal]
pub struct NameV {
    pub local: Seq<char>,
    pub prefix: Option<Seq<char>>,
    pub uri: Option<Seq<char>>,
}

/// A qualified XML name: a local name, an optional namespace prefix, and the
/// optional namespace URI the prefix was bound to.
#[derive(Debug, PartialEq, Eq)]
pub struct Name {
    pub local: String,
    pub prefix: Option<String>,
    pub uri: Option<String>,
}

impl DeepView for Name {
    type V = NameV;

    open spec fn deep_view(&self) -> NameV {
        NameV { local: self.local@, prefix: self.prefix.deep_view(), uri: self.uri.deep_view() }
    }
}

/// Spec-level image of an attribute.
#[verifier::ext_equal]
pub struct AttributeV {
    pub name: NameV,
    pub value: Seq<char>,
}

/// One attribute of an element: a qualified name and a string value.
#[derive(Debug, PartialEq, Eq)]
pub struct Attribute {
    pub name: Name,
    pub value: String,
}

impl DeepView for Attribute {
    type V = AttributeV;

    open spec fn deep_view(&self) -> AttributeV {
        AttributeV { name: self.name.deep_view(), value: self.value@ }
    }
}

/// Spec-level image of a parse event.
#[verifier::ext_equal]
pub enum EventV {
    StartDocument,
    EndDocument,
    StartElement {
        name: NameV,
        attributes: Seq<AttributeV>,
        namespace: Seq<(Seq<char>, Seq<char>)>,
    },
    EndElement { name: NameV },
    Characters(Seq<char>),
    CData(Seq<char>),
    Comment(Seq<char>),
    Whitespace(Seq<char>),
    ProcessingInstruction { name: Seq<char>, data: Option<Seq<char>> },
    Doctype(Seq<char>),
}

/// One unit of XML structure met during a streaming parse, in document order.
/// An element start carries the in-scope namespace bindings as (prefix, URI)
/// pairs, so that a serializer can reproduce the declarations.
#[derive(Debug, PartialEq, Eq)]
pub enum Event {
    StartDocument,
    EndDocument,
    StartElement {
        name: Name,
        attributes: Vec<Attribute>,
        namespace: Vec<(String, String)>,
    },
    EndElement { name: Name },
    Characters(String),
    CData(String),
    Comment(String),
    Whitespace(String),
    ProcessingInstruction { name: String, data: Option<String> },
    Doctype(String),
}

impl DeepView for Event {
    type V = EventV;

    open spec fn deep_view(&self) -> EventV {
        match self {
            Event::StartDocument => EventV::StartDocument,
            Event::EndDocument => EventV::EndDocument,
            Event::StartElement { name, attributes, namespace } => EventV::StartElement {
                name: name.deep_view(),
                attributes: attributes.deep_view(),
                namespace: namespace.deep_view(),
            },
            Event::EndElement { name } => EventV::EndElement { name: name.deep_view() },
            Event::Characters(s) => EventV::Characters(s@),
            Event::CData(s) => EventV::CData(s@),
            Event::Comment(s) => EventV::Comment(s@),
            Event::Whitespace(s) => EventV::Whitespace(s@),
            Event::ProcessingInstruction { name, data } => EventV::ProcessingInstruction {
                name: name@,
                data: data.deep_view(),
            },
            Event::Doctype(s) => EventV::Doctype(s@),
        }
    }
}

/// The local name that marks an inclusion directive.
pub open spec fn directive_local() -> Seq<char> {
    "include"@
}

/// The namespace prefix that marks an inclusion directive.
pub open spec fn directive_prefix() -> Seq<char> {
    "xi"@
}

/// The local name of the attribute that carries the inclusion target.
pub open spec fn href_local() -> Seq<char> {
    "href"@
}

/// Whether a qualified name is the one of an inclusion directive: local name
/// `include` under the namespace prefix `xi`.
pub open spec fn is_directive_name(n: NameV) -> bool {
    n.local == directive_local() && n.prefix == Some(directive_prefix())
}

/// Whether an event opens an inclusion directive.
pub open spec fn is_directive_start(e: EventV) -> bool {
    e matches EventV::StartElement { name, .. } && is_directive_name(name)
}

/// Whether an event closes an inclusion directive.
pub open spec fn is_directive_end(e: EventV) -> bool {
    e matches EventV::EndElement { name } && is_directive_name(name)
}

/// Whether an event is a document boundary marker. These are stripped during
/// expansion, so nested documents never leak their boundaries into the merged
/// stream.
pub open spec fn is_document_marker(e: EventV) -> bool {
    e is StartDocument || e is EndDocument
}

/// Whether expansion drops an event without substitute: directive ends and
/// document boundary markers contribute nothing to the output.
pub open spec fn is_dropped(e: EventV) -> bool {
    is_directive_end(e) || is_document_marker(e)
}

/// The value of the first attribute whose local name is `href`, if any.
/// The attribute's own prefix is not consulted.
pub open spec fn first_href(attrs: Seq<AttributeV>) -> Option<Seq<char>>
    decreases attrs.len(),
{
    if attrs.len() == 0 {
        None
    } else if attrs[0].name.local == href_local() {
        Some(attrs[0].value)
    } else {
        first_href(attrs.drop_first())
    }
}

/// The inclusion target named by an event: the first `href` attribute of an
/// element start. Any other event names none.
pub open spec fn href_of(e: EventV) -> Option<Seq<char>> {
    match e {
        EventV::StartElement { attributes, .. } => first_href(attributes),
        _ => None,
    }
}

/// String equality, decided character by character.
pub fn str_eq(a: &str, b: &str) -> (r: bool)
    ensures
        r == (a@ == b@),
{
    let n = a.unicode_len();
    if n != b.unicode_len() {
        return false;
    }
    let mut i: usize = 0;
    while i < n
        invariant
            0 <= i <= n,
            n == a@.len(),
            n == b@.len(),
            forall|j: int| 0 <= j < i ==> a@[j] == b@[j],
        decreases n - i,
    {
        if a.get_char(i) != b.get_char(i) {
            return false;
        }
        i = i + 1;
    }
    proof {
        assert(a@ =~= b@);
    }
    true
}

/// Whether a qualified name is the one of an inclusion directive.
pub fn name_is_directive(n: &Name) -> (r: bool)
    ensures
        r == is_directive_name(n.deep_view()),
{
    if !str_eq(n.local.as_str(), "include") {
        return false;
    }
    match &n.prefix {
        Some(p) => str_eq(p.as_str(), "xi"),
        None => false,
    }
}

/// Whether an event opens an inclusion directive.
pub fn event_is_directive_start(e: &Event) -> (r: bool)
    ensures
        r == is_directive_start(e.deep_view()),
{
    match e {
        Event::StartElement { name, .. } => name_is_directive(name),
        _ => false,
    }
}

/// Whether expansion drops the event: a directive end or a document boundary.
pub fn event_is_dropped(e: &Event) -> (r: bool)
    ensures
        r == is_dropped(e.deep_view()),
{
    match e {
        Event::EndElement { name } => name_is_directive(name),
        Event::StartDocument => true,
        Event::EndDocument => true,
        _ => false,
    }
}

/// The value of the first `href` attribute, if any.
pub fn find_href(attrs: &Vec<Attribute>) -> (r: Option<String>)
    ensures
        r.deep_view() == first_href(attrs.deep_view()),
{
    let ghost av = attrs.deep_view();
    proof {
        assert(av.skip(0) =~= av);
    }
    let n = attrs.len();
    let mut i: usize = 0;
    while i < n
        invariant
            0 <= i <= n,
            n == attrs.len(),
            av == attrs.deep_view(),
            first_href(av) == first_href(av.skip(i as int)),
        decreases n - i,
    {
        let a = &attrs[i];
        if str_eq(a.name.local.as_str(), "href") {
            proof {
                assert(av.skip(i as int)[0] == av[i as int]);
                assert(av[i as int] == a.deep_view());
            }
            return Some(a.value.clone());
        }
        proof {
            assert(av.skip(i as int)[0] == av[i as int]);
            assert(av.skip(i as int).drop_first() =~= av.skip(i + 1));
        }
        i = i + 1;
    }
    proof {
        assert(av.skip(n as int) =~= Seq::<AttributeV>::empty());
    }
    None
}

/// The inclusion target named by an event, if any.
pub fn event_href(e: &Event) -> (r: Option<String>)
    ensures
        r.deep_view() == href_of(e.deep_view()),
{
    match e {
        Event::StartElement { attributes, .. } => find_href(attributes),
        _ => None,
    }
}

fn clone_opt_string(o: &Option<String>) -> (r: Option<String>)
    ensures
        r.deep_view() == o.deep_view(),
{
    match o {
        Some(s) => Some(s.clone()),
        None => None,
    }
}

fn clone_name(n: &Name) -> (r: Name)
    ensures
        r.deep_view() == n.deep_view(),
{
    Name { local: n.local.clone(), prefix: clone_opt_string(&n.prefix), uri: clone_opt_string(&n.uri) }
}

fn clone_attributes(attrs: &Vec<Attribute>) -> (r: Vec<Attribute>)
    ensures
        r.deep_view() == attrs.deep_view(),
{
    let mut out: Vec<Attribute> = Vec::new();
    let n = attrs.len();
    let mut i: usize = 0;
    while i < n
        invariant
            0 <= i <= n,
            n == attrs.len(),
            out.deep_view() =~= attrs.deep_view().subrange(0, i as int),
        decreases n - i,
    {
        let a = &attrs[i];
        let ghost before = out.deep_view();
        out.push(Attribute { name: clone_name(&a.name), value: a.value.clone() });
        proof {
            assert(out.deep_view() =~= before.push(attrs.deep_view()[i as int]));
        }
        i = i + 1;
    }
    proof {
        assert(out.deep_view() =~= attrs.deep_view());
    }
    out
}

fn clone_namespace(ns: &Vec<(String, String)>) -> (r: Vec<(String, String)>)
    ensures
        r.deep_view() == ns.deep_view(),
{
    let mut out: Vec<(String, String)> = Vec::new();
    let n = ns.len();
    let mut i: usize = 0;
    while i < n
        invariant
            0 <= i <= n,
            n == ns.len(),
            out.deep_view() =~= ns.deep_view().subrange(0, i as int),
        decreases n - i,
    {
        let p = &ns[i];
        let ghost before = out.deep_view();
        out.push((p.0.clone(), p.1.clone()));
        proof {
            assert(out.deep_view() =~= before.push(ns.deep_view()[i as int]));
        }
        i = i + 1;
    }
    proof {
        assert(out.deep_view() =~= ns.deep_view());
    }
    out
}

/// A copy of an event, equal to the original at the spec level.
pub fn clone_event(e: &Event) -> (r: Event)
    ensures
        r.deep_view() == e.deep_view(),
{
    match e {
        Event::StartDocument => Event::StartDocument,
        Event::EndDocument => Event::EndDocument,
        Event::StartElement { name, attributes, namespace } => Event::StartElement {
            name: clone_name(name),
            attributes: clone_attributes(attributes),
            namespace: clone_namespace(namespace),
        },
        Event::EndElement { name } => Event::EndElement { name: clone_name(name) },
        Event::Characters(s) => Event::Characters(s.clone()),
        Event::CData(s) => Event::CData(s.clone()),
        Event::Comment(s) => Event::Comment(s.clone()),
        Event::Whitespace(s) => Event::Whitespace(s.clone()),
        Event::ProcessingInstruction { name, data } => Event::ProcessingInstruction {
            name: name.clone(),
            data: clone_opt_string(data),
        },
        Event::Doctype(s) => Event::Doctype(s.clone()),
    }
}

} // verus!
