//! End-to-end scenarios through the real XML parser and writer: strings are
//! parsed into the library's events, expanded, and serialized back.

use xml::attribute::OwnedAttribute;
use xml::name::OwnedName;
use xml::namespace::Namespace;
use xml::reader::EventReader;
use xml::reader::XmlEvent as ReaderEvent;
use xml::EmitterConfig;

use xml_include::error::IncludeError;
use xml_include::event::Attribute;
use xml_include::event::Event;
use xml_include::event::Name;
use xml_include::expand::expand_file;
use xml_include::expand::Expansion;
use xml_include::expand::FileSet;
use xml_include::expand::ParsedFile;
use xml_include::path::Reference;

fn to_name(n: OwnedName) -> Name {
    Name { local: n.local_name, prefix: n.prefix, uri: n.namespace }
}

fn from_name(n: &Name) -> OwnedName {
    OwnedName {
        local_name: n.local.clone(),
        namespace: n.uri.clone(),
        prefix: n.prefix.clone(),
    }
}

fn to_event(e: ReaderEvent) -> Event {
    match e {
        ReaderEvent::StartDocument { .. } => Event::StartDocument,
        ReaderEvent::EndDocument => Event::EndDocument,
        ReaderEvent::StartElement { name, attributes, namespace } => Event::StartElement {
            name: to_name(name),
            attributes: attributes
                .into_iter()
                .map(|a| Attribute { name: to_name(a.name), value: a.value })
                .collect(),
            namespace: namespace.0.into_iter().collect(),
        },
        ReaderEvent::EndElement { name } => Event::EndElement { name: to_name(name) },
        ReaderEvent::CData(s) => Event::CData(s),
        ReaderEvent::Comment(s) => Event::Comment(s),
        ReaderEvent::Characters(s) => Event::Characters(s),
        ReaderEvent::Whitespace(s) => Event::Whitespace(s),
        ReaderEvent::ProcessingInstruction { name, data } => {
            Event::ProcessingInstruction { name, data }
        }
        ReaderEvent::Doctype { syntax } => Event::Doctype(syntax),
    }
}

fn from_event(e: &Event) -> ReaderEvent {
    match e {
        Event::StartDocument => ReaderEvent::StartDocument {
            version: xml::common::XmlVersion::Version10,
            encoding: "UTF-8".to_string(),
            standalone: None,
        },
        Event::EndDocument => ReaderEvent::EndDocument,
        Event::StartElement { name, attributes, namespace } => ReaderEvent::StartElement {
            name: from_name(name),
            attributes: attributes
                .iter()
                .map(|a| OwnedAttribute { name: from_name(&a.name), value: a.value.clone() })
                .collect(),
            namespace: Namespace(namespace.iter().cloned().collect()),
        },
        Event::EndElement { name } => ReaderEvent::EndElement { name: from_name(name) },
        Event::CData(s) => ReaderEvent::CData(s.clone()),
        Event::Comment(s) => ReaderEvent::Comment(s.clone()),
        Event::Characters(s) => ReaderEvent::Characters(s.clone()),
        Event::Whitespace(s) => ReaderEvent::Whitespace(s.clone()),
        Event::ProcessingInstruction { name, data } => ReaderEvent::ProcessingInstruction {
            name: name.clone(),
            data: data.clone(),
        },
        Event::Doctype(syntax) => ReaderEvent::Doctype { syntax: syntax.clone() },
    }
}

fn parse_str(source: &str) -> ParsedFile {
    let mut events = Vec::new();
    let mut error = None;
    for item in EventReader::new(source.as_bytes()) {
        match item {
            Ok(e) => events.push(to_event(e)),
            Err(e) => {
                error = Some(e.to_string());
                break;
            }
        }
    }
    ParsedFile { events, error }
}

fn serialize(events: &[Event]) -> String {
    let mut writer = EmitterConfig::new().perform_indent(true).create_writer(Vec::new());
    for e in events {
        let reader_event = from_event(e);
        if let Some(we) = reader_event.as_writer_event() {
            writer.write(we).unwrap();
        }
    }
    String::from_utf8(writer.into_inner()).unwrap()
}

/// The document body, with the XML declaration and all whitespace removed.
fn body_without_whitespace(s: &str) -> String {
    let body = match s.find("?>") {
        Some(i) if s.starts_with("<?xml") => &s[i + 2..],
        _ => s,
    };
    body.replace([' ', '\n', '\t'], "")
}

fn expect_done(e: Expansion) -> Vec<Event> {
    match e {
        Expansion::Done(v) => v,
        Expansion::NeedFile(p) => panic!("expansion asked for a file: {p}"),
        Expansion::Failed(err) => panic!("expansion failed: {}", err.message()),
        Expansion::DepthExceeded => panic!("expansion ran out of depth"),
    }
}

#[test]
fn concrete_scenario_doc_includes_item() {
    // root.xml: <doc><xi:include href="a.xml"/></doc>, as its event stream.
    let root = ParsedFile {
        events: vec![
            Event::StartDocument,
            Event::StartElement {
                name: Name { local: "doc".to_string(), prefix: None, uri: None },
                attributes: Vec::new(),
                namespace: Vec::new(),
            },
            Event::StartElement {
                name: Name {
                    local: "include".to_string(),
                    prefix: Some("xi".to_string()),
                    uri: None,
                },
                attributes: vec![Attribute {
                    name: Name { local: "href".to_string(), prefix: None, uri: None },
                    value: "a.xml".to_string(),
                }],
                namespace: Vec::new(),
            },
            Event::EndElement {
                name: Name {
                    local: "include".to_string(),
                    prefix: Some("xi".to_string()),
                    uri: None,
                },
            },
            Event::EndElement { name: Name { local: "doc".to_string(), prefix: None, uri: None } },
            Event::EndDocument,
        ],
        error: None,
    };
    // a.xml: <item>1</item>, through the real parser.
    let child = parse_str("<item>1</item>");
    assert!(child.error.is_none());

    let mut files = FileSet::new();
    files.insert("a.xml".to_string(), child);
    let reference = Reference { path: "root.xml".to_string(), is_file: true };
    let out = expect_done(expand_file(&root, Some(&reference), &files, 8));

    let rendered = serialize(&out);
    assert_eq!(body_without_whitespace(&rendered), "<doc><item>1</item></doc>");
}

#[test]
fn parsed_document_without_directives_round_trips() {
    let parsed = parse_str("<a><b>hi</b><c kind=\"x\"/></a>");
    assert!(parsed.error.is_none());
    let out = expect_done(expand_file(&parsed, None, &FileSet::new(), 8));
    let rendered = serialize(&out);
    assert_eq!(
        body_without_whitespace(&rendered),
        "<a><b>hi</b><ckind=\"x\"/></a>"
    );
}

#[test]
fn malformed_included_file_fails_the_whole_resolution() {
    let root = ParsedFile {
        events: vec![
            Event::StartDocument,
            Event::StartElement {
                name: Name {
                    local: "include".to_string(),
                    prefix: Some("xi".to_string()),
                    uri: None,
                },
                attributes: vec![Attribute {
                    name: Name { local: "href".to_string(), prefix: None, uri: None },
                    value: "/broken.xml".to_string(),
                }],
                namespace: Vec::new(),
            },
            Event::EndDocument,
        ],
        error: None,
    };
    let broken = parse_str("<doc><open></doc>");
    assert!(broken.error.is_some());
    let mut files = FileSet::new();
    files.insert("/broken.xml".to_string(), broken);
    match expand_file(&root, None, &files, 8) {
        Expansion::Failed(IncludeError::XmlReadError(_)) => {}
        _ => panic!("expected the included file's read error"),
    }
}

#[test]
fn declared_namespace_survives_parsing_and_expansion() {
    let root = parse_str(
        "<doc xmlns:xi=\"http://www.w3.org/2001/XInclude\"><xi:include href=\"a.xml\"/></doc>",
    );
    assert!(root.error.is_none());
    let child = parse_str("<item>1</item>");
    let mut files = FileSet::new();
    files.insert("a.xml".to_string(), child);
    let reference = Reference { path: "root.xml".to_string(), is_file: true };
    let out = expect_done(expand_file(&root, Some(&reference), &files, 8));
    // The directive is gone, the item stands in its place.
    assert!(out.iter().all(|e| !matches!(
        e,
        Event::StartElement { name: Name { prefix: Some(p), .. }, .. } if p == "xi"
    )));
    let rendered = serialize(&out);
    let body = body_without_whitespace(&rendered);
    assert!(body.contains("<item>1</item>"), "unexpected output: {body}");
    assert!(!body.contains("xi:include"), "unexpected output: {body}");
}
