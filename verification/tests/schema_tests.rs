use charm_source::charm::CharmSource;
use charm_source::errors::{JujuError, OutputFault, SchemaError};
use charm_source::schema::{Config, ConfigOption, Metadata, ResourceType};
use charm_source::yaml::Yaml;

fn parse_metadata(text: &str) -> Result<Metadata, JujuError> {
    Metadata::parse(text.as_bytes())
}

fn parse_config(text: &str) -> Result<Config, JujuError> {
    Config::parse(text.as_bytes())
}

#[test]
fn minimal_metadata_round_trip_absent_sections() {
    let m = parse_metadata("name: myapp\ndescription: a charm\nsummary: short\n").unwrap();
    assert_eq!(m.name, "myapp");
    assert_eq!(m.description, "a charm");
    assert_eq!(m.summary, "short");
    assert!(m.containers.is_empty());
    assert!(m.resources.is_empty());
    assert!(m.requires_relations.is_empty());
    assert!(m.provides_relations.is_empty());
}

#[test]
fn minimal_metadata_round_trip_empty_sections() {
    let m = parse_metadata(
        "name: myapp\ndescription: a charm\nsummary: short\ncontainers: {}\nresources: {}\nrequires: {}\nprovides: {}\n",
    )
    .unwrap();
    assert!(m.containers.is_empty());
    assert!(m.resources.is_empty());
    assert!(m.requires_relations.is_empty());
    assert!(m.provides_relations.is_empty());
}

#[test]
fn metadata_unknown_top_level_field_rejected() {
    let r = parse_metadata("name: a\ndescription: b\nsummary: c\nsurprise: d\n");
    assert_eq!(r, Err(JujuError::Schema(SchemaError::UnknownField)));
}

#[test]
fn metadata_unknown_nested_field_rejected() {
    let r = parse_metadata(
        "name: a\ndescription: b\nsummary: c\nresources:\n  img:\n    type: oci-image\n    description: x\n    extra: nope\n",
    );
    assert_eq!(r, Err(JujuError::Schema(SchemaError::UnknownField)));
}

#[test]
fn metadata_missing_required_field_rejected() {
    let r = parse_metadata("name: a\nsummary: c\n");
    assert_eq!(r, Err(JujuError::Schema(SchemaError::MissingField)));
}

#[test]
fn metadata_duplicate_key_rejected() {
    // serde_yaml already refuses duplicate mapping keys while reading the
    // document, so this surfaces as a syntax failure.
    let r = parse_metadata("name: a\nname: b\ndescription: c\nsummary: d\n");
    assert_eq!(r, Err(JujuError::Schema(SchemaError::Syntax)));
}

#[test]
fn metadata_full_document() {
    let m = parse_metadata(
        "name: myapp\ndescription: d\nsummary: s\ncontainers:\n  web:\n    resource: img\nresources:\n  img:\n    type: oci-image\n    description: the image\n    upstream-source: ubuntu:20.04\nrequires:\n  db:\n    interface: pgsql\n    scope: container\n    versions: [v1, v2]\nprovides:\n  http:\n    interface: http\n",
    )
    .unwrap();
    assert_eq!(m.containers.len(), 1);
    assert_eq!(m.containers[0].0, "web");
    assert_eq!(m.containers[0].1.resource, "img");
    assert_eq!(m.resources.len(), 1);
    assert_eq!(m.resources[0].1.kind, ResourceType::OciImage);
    assert_eq!(m.resources[0].1.upstream_source.as_deref(), Some("ubuntu:20.04"));
    assert_eq!(m.requires_relations.len(), 1);
    let (dbname, db) = &m.requires_relations[0];
    assert_eq!(dbname, "db");
    assert_eq!(db.interface, "pgsql");
    assert_eq!(
        db.scope,
        Some(charm_source::schema::RelationScope::Container)
    );
    assert_eq!(db.versions, vec!["v1".to_string(), "v2".to_string()]);
    assert_eq!(m.provides_relations.len(), 1);
}

#[test]
fn metadata_wrong_type_rejected() {
    let r = parse_metadata("name: a\ndescription: b\nsummary: 3\n");
    assert_eq!(r, Err(JujuError::Schema(SchemaError::WrongType)));
}

#[test]
fn metadata_bad_resource_type_rejected() {
    let r = parse_metadata(
        "name: a\ndescription: b\nsummary: c\nresources:\n  img:\n    type: floppy\n    description: x\n",
    );
    assert_eq!(r, Err(JujuError::Schema(SchemaError::WrongType)));
}

#[test]
fn config_round_trip() {
    let c = parse_config(
        "options:\n  title:\n    type: string\n    description: the title\n  count:\n    type: int\n    default: 4\n    description: how many\n  on:\n    type: boolean\n    default: true\n    description: switch\n",
    )
    .unwrap();
    assert_eq!(c.options.len(), 3);
    match &c.options[0].1 {
        ConfigOption::String { default, description } => {
            assert_eq!(*default, None);
            assert_eq!(description, "the title");
        }
        other => panic!("expected a string option, got {:?}", other),
    }
    match &c.options[1].1 {
        ConfigOption::Integer { default, description } => {
            assert_eq!(*default, 4);
            assert_eq!(description, "how many");
        }
        other => panic!("expected an integer option, got {:?}", other),
    }
    match &c.options[2].1 {
        ConfigOption::Boolean { default, .. } => assert!(*default),
        other => panic!("expected a boolean option, got {:?}", other),
    }
}

#[test]
fn config_unknown_top_level_field_rejected() {
    let r = parse_config("options: {}\nextra: 1\n");
    assert_eq!(r, Err(JujuError::Schema(SchemaError::UnknownField)));
}

#[test]
fn config_unknown_option_field_rejected() {
    let r = parse_config(
        "options:\n  a:\n    type: string\n    description: x\n    whatever: 2\n",
    );
    assert_eq!(r, Err(JujuError::Schema(SchemaError::UnknownField)));
}

#[test]
fn config_integer_default_required() {
    let r = parse_config("options:\n  a:\n    type: int\n    description: x\n");
    assert_eq!(r, Err(JujuError::Schema(SchemaError::MissingField)));
}

#[test]
fn config_options_section_required() {
    let r = parse_config("{}\n");
    assert_eq!(r, Err(JujuError::Schema(SchemaError::MissingField)));
}

#[test]
fn from_documents_optional_config() {
    let md = b"name: a\ndescription: b\nsummary: c\n".to_vec();
    let c = CharmSource::from_documents("src", None, &md).unwrap();
    assert!(c.config.is_none());
    assert_eq!(c.metadata.name, "a");

    let cfg = b"options: {}\n".to_vec();
    let c = CharmSource::from_documents("src", Some(&cfg), &md).unwrap();
    assert!(c.config.is_some());
}

#[test]
fn from_documents_bad_metadata_fails() {
    let md = b"not: metadata\n".to_vec();
    let r = CharmSource::from_documents("src", None, &md);
    assert!(matches!(r, Err(JujuError::Schema(_))));
}

#[test]
fn output_faults_have_distinct_cases() {
    // Each parser failure carries its own case.
    assert_ne!(OutputFault::NoNewline, OutputFault::NoUrlField);
    assert_ne!(OutputFault::TooShort, OutputFault::NoSpace);
}

#[test]
fn metadata_must_be_a_mapping() {
    let r = parse_metadata("- just\n- a list\n");
    assert_eq!(r, Err(JujuError::Schema(SchemaError::NotMapping)));
}

#[test]
fn duplicate_keys_in_a_tree_are_rejected() {
    // A document tree can carry a repeated name even though the document
    // reader refuses one; the schema check catches it on its own.
    fn entry() -> (String, Yaml) {
        (
            "img".to_string(),
            Yaml::Mapping(vec![
                ("type".to_string(), Yaml::Str("file".to_string())),
                ("description".to_string(), Yaml::Str("x".to_string())),
            ]),
        )
    }
    let doc = Yaml::Mapping(vec![
        ("name".to_string(), Yaml::Str("a".to_string())),
        ("description".to_string(), Yaml::Str("b".to_string())),
        ("summary".to_string(), Yaml::Str("c".to_string())),
        (
            "resources".to_string(),
            Yaml::Mapping(vec![entry(), entry()]),
        ),
    ]);
    let r = Metadata::from_yaml(&doc);
    assert_eq!(r, Err(SchemaError::DuplicateKey));
}

#[test]
fn null_config_document_means_no_config() {
    let md = b"name: a\ndescription: b\nsummary: c\n".to_vec();
    let empty = b"".to_vec();
    let c = CharmSource::from_documents("src", Some(&empty), &md).unwrap();
    assert!(c.config.is_none());
    let null_doc = b"null\n".to_vec();
    let c = CharmSource::from_documents("src", Some(&null_doc), &md).unwrap();
    assert!(c.config.is_none());
}
