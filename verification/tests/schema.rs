use atprose::concrete::{Integer, Text};
use atprose::container::{Object, Property, Record, RecordKey};
use atprose::document::{Definition, Document};
use atprose::meta::{Metadata, RefTarget};
use atprose::ns::{Nsid, TypeId};

#[test]
fn test_ref_target_from_str() {
    assert_eq!(
        "#viewRecord".parse::<RefTarget>().unwrap(),
        RefTarget::new(None, "viewRecord")
    );

    assert_eq!(
        "app.bsky.feed.defs#generatorView"
            .parse::<RefTarget>()
            .unwrap(),
        RefTarget::new(Some(Nsid::new("app.bsky.feed", "defs")), "generatorView")
    );
}

#[test]
fn ref_target_forms() {
    let main_here = RefTarget { ns: None, name: None };
    assert_eq!("".parse::<RefTarget>(), Err(()));
    assert_eq!("#".parse::<RefTarget>(), Ok(main_here.clone()));
    assert_eq!("#main".parse::<RefTarget>(), Ok(main_here.clone()));
    assert_eq!(
        "app.bsky.feed.defs".parse::<RefTarget>(),
        Ok(RefTarget {
            ns: Some(Nsid::new("app.bsky.feed", "defs")),
            name: None
        })
    );
    assert_eq!(
        "app.bsky.feed.defs#main".parse::<RefTarget>(),
        Ok(RefTarget {
            ns: Some(Nsid::new("app.bsky.feed", "defs")),
            name: None
        })
    );
    assert_eq!("nodot#x".parse::<RefTarget>(), Err(()));

    assert_eq!(main_here.to_string(), "#main");
    assert_eq!(
        RefTarget::new(None, "viewRecord").to_string(),
        "#viewRecord"
    );
    assert_eq!(
        RefTarget::new(Some(Nsid::new("app.bsky.feed", "defs")), "x").to_string(),
        "app.bsky.feed.defs#x"
    );
    assert_eq!(
        RefTarget::new(Some(Nsid::new("app.bsky.feed", "defs")), "").to_string(),
        "app.bsky.feed.defs"
    );
}

#[test]
fn ref_target_resolution() {
    let base = Nsid::new("app.bsky.feed", "defs");

    let target = "#viewRecord".parse::<RefTarget>().unwrap();
    let resolved = target.resolve(&base);
    assert_eq!(resolved.ns, base);
    assert_eq!(resolved.name, Some("viewRecord".to_owned()));

    let target = "app.bsky.feed.defs#generatorView".parse::<RefTarget>().unwrap();
    let other_base = Nsid::new("com.example", "other");
    let resolved = target.resolve(&other_base);
    assert_eq!(resolved.ns, Nsid::new("app.bsky.feed", "defs"));
    assert_eq!(resolved.name, Some("generatorView".to_owned()));
}

#[test]
fn type_id_resolution_agrees_with_ref_targets() {
    let base = Nsid::new("app.bsky.feed", "defs");

    let direct = TypeId::resolve("#viewRecord", &base).unwrap();
    let via_target = "#viewRecord"
        .parse::<RefTarget>()
        .unwrap()
        .resolve(&base);
    assert_eq!(direct, via_target);

    let direct = TypeId::resolve("app.bsky.feed.defs#generatorView", &base).unwrap();
    let via_target = "app.bsky.feed.defs#generatorView"
        .parse::<RefTarget>()
        .unwrap()
        .resolve(&base);
    assert_eq!(direct, via_target);

    assert_eq!(TypeId::resolve("no-hash-sign", &base), Err(()));
    assert_eq!(TypeId::resolve("nodot#x", &base), Err(()));
}

#[test]
fn type_id_text_forms() {
    let id: TypeId = "app.bsky.feed.post".parse().unwrap();
    assert_eq!(id.ns.authority, "app.bsky.feed");
    assert_eq!(id.ns.package, "post");
    assert_eq!(id.name, None);

    let id: TypeId = "app.bsky.feed.defs#postView".parse().unwrap();
    assert_eq!(id.ns.authority, "app.bsky.feed");
    assert_eq!(id.ns.package, "defs");
    assert_eq!(id.name, Some("postView".to_owned()));
    assert_eq!(id.to_string(), "app.bsky.feed.defs:postView");

    let id: TypeId = "app.bsky.feed.defs#main".parse().unwrap();
    assert_eq!(id.name, None);
    assert_eq!(id.to_string(), "app.bsky.feed.defs");

    assert_eq!(
        "org".parse::<TypeId>(),
        Err(atprose::ns::InvalidNsid::Authority)
    );
}

#[test]
fn nsid_splits_at_the_last_dot() {
    let id: Nsid = "app.bsky.feed.post".parse().unwrap();
    assert_eq!(id.authority, "app.bsky.feed");
    assert_eq!(id.package, "post");
    assert_eq!(id.to_string(), "app.bsky.feed.post");
    assert_eq!(id.to_string().parse::<Nsid>().unwrap(), id);

    assert_eq!(
        "nodot".parse::<Nsid>(),
        Err(atprose::ns::InvalidNsid::Authority)
    );
}

#[test]
fn record_key_formats() {
    assert_eq!("tid".parse::<RecordKey>(), Ok(RecordKey::Tid));
    assert_eq!("any".parse::<RecordKey>(), Ok(RecordKey::Any));
    assert_eq!(
        "literal:self".parse::<RecordKey>(),
        Ok(RecordKey::Literal("self".to_owned()))
    );
    assert_eq!("other".parse::<RecordKey>(), Err(()));

    assert_eq!(RecordKey::Tid.to_string(), "tid");
    assert_eq!(RecordKey::Any.to_string(), "any");
    assert_eq!(
        RecordKey::Literal("self".to_owned()).to_string(),
        "literal:self"
    );
    assert_eq!(RecordKey::default(), RecordKey::Tid);
}

#[test]
fn document_definitions_become_type_ids() {
    let mut doc = Document::new(Nsid::new("app.bsky.feed", "defs"));
    assert_eq!(doc.version, atprose::document::Version(1));

    let text = Definition::String(Text::default());
    let number = Definition::Integer(Integer::default());
    let record = Definition::Record(Record::new(RecordKey::Tid, Object::default()));
    doc.defs.push(("main".to_owned(), record.clone()));
    doc.defs.push(("postView".to_owned(), text.clone()));
    doc.defs.push(("count".to_owned(), number.clone()));

    let types = doc.into_types();
    assert_eq!(types.len(), 3);
    assert_eq!(types[0].0, TypeId::new(Nsid::new("app.bsky.feed", "defs"), None));
    assert_eq!(types[0].1, record);
    assert_eq!(
        types[1].0,
        TypeId::new(
            Nsid::new("app.bsky.feed", "defs"),
            Some("postView".to_owned())
        )
    );
    assert_eq!(types[1].1, text);
    assert_eq!(
        types[2].0,
        TypeId::new(Nsid::new("app.bsky.feed", "defs"), Some("count".to_owned()))
    );
    assert_eq!(types[2].1, number);
}

#[test]
fn metadata_defaults_to_empty() {
    assert_eq!(Metadata::default(), Metadata { description: None });
    let p = Property::String(Text::default());
    assert_eq!(p, Property::String(Text::default()));
}
