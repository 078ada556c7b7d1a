use vstd::prelude::*;
use crate::assoc::{
    assoc_get, distinct_keys, lookup, pair_seq_view, str_eq, strs_view,
};
use crate::errors::{JujuError, SchemaError};
use crate::yaml::{lemma_list_view, lemma_mapping_view, parse_yaml_doc, yaml_doc_of, yamls_view, Yaml, YamlV};

verus! {

// ---------------------------------------------------------------------------
// The schema model: a charm's declared config options, containers, resources
// and relation interfaces.  Mappings are vectors of key/value pairs with
// distinct keys; each type has a mathematical view with strings as character
// sequences.
// ---------------------------------------------------------------------------

/// One declared config option: a string, integer or boolean, each with a
/// description; the string default is optional, the others are required.
#[derive(Debug, Clone, PartialEq)]
pub enum ConfigOption {
    String { default: Option<String>, description: String },
    Integer { default: i64, description: String },
    Boolean { default: bool, description: String },
}

/// Model of a `ConfigOption`.
pub enum ConfigOptionV {
    String { default: Option<Seq<char>>, description: Seq<char> },
    Integer { default: int, description: Seq<char> },
    Boolean { default: bool, description: Seq<char> },
}

impl View for ConfigOption {
    type V = ConfigOptionV;

    open spec fn view(&self) -> ConfigOptionV {
        match self {
            ConfigOption::String { default, description } => ConfigOptionV::String {
                default: match default {
                    Some(d) => Some(d@),
                    None => None,
                },
                description: description@,
            },
            ConfigOption::Integer { default, description } => ConfigOptionV::Integer {
                default: *default as int,
                description: description@,
            },
            ConfigOption::Boolean { default, description } => ConfigOptionV::Boolean {
                default: *default,
                description: description@,
            },
        }
    }
}

/// A charm's config.yaml: its declared options by name.
#[derive(Debug, Clone, PartialEq)]
pub struct Config {
    pub options: Vec<(String, ConfigOption)>,
}

impl View for Config {
    type V = Seq<(Seq<char>, ConfigOptionV)>;

    open spec fn view(&self) -> Seq<(Seq<char>, ConfigOptionV)> {
        pair_seq_view(self.options@)
    }
}

/// A container declaration: the name of its backing image resource.
#[derive(Debug, Clone, PartialEq)]
pub struct Container {
    pub resource: String,
}

/// Model of a `Container`.
pub struct ContainerV {
    pub resource: Seq<char>,
}

impl View for Container {
    type V = ContainerV;

    open spec fn view(&self) -> ContainerV {
        ContainerV { resource: self.resource@ }
    }
}

/// The closed set of resource kinds; only `OciImage` resources are pulled
/// locally before a push.
#[derive(Debug, Clone, Copy, PartialEq, Eq, Structural)]
pub enum ResourceType {
    File,
    OciImage,
    Pypi,
    Url,
}

/// A declared resource: its kind, description and optional upstream default.
#[derive(Debug, Clone, PartialEq)]
pub struct Resource {
    pub kind: ResourceType,
    pub description: String,
    pub upstream_source: Option<String>,
}

/// Model of a `Resource`.
pub struct ResourceV {
    pub kind: ResourceType,
    pub description: Seq<char>,
    pub upstream_source: Option<Seq<char>>,
}

impl View for Resource {
    type V = ResourceV;

    open spec fn view(&self) -> ResourceV {
        ResourceV {
            kind: self.kind,
            description: self.description@,
            upstream_source: match &self.upstream_source {
                Some(s) => Some(s@),
                None => None,
            },
        }
    }
}

/// The scope of a relation endpoint; absent means global.
#[derive(Debug, Clone, Copy, PartialEq, Eq, Structural)]
pub enum RelationScope {
    Global,
    Container,
}

/// A relation endpoint: interface name, optional scope, optional schema
/// reference and supported versions.
#[derive(Debug, Clone, PartialEq)]
pub struct Interface {
    pub interface: String,
    pub scope: Option<RelationScope>,
    pub schema: Option<String>,
    pub versions: Vec<String>,
}

/// Model of an `Interface`.
pub struct InterfaceV {
    pub interface: Seq<char>,
    pub scope: Option<RelationScope>,
    pub schema: Option<Seq<char>>,
    pub versions: Seq<Seq<char>>,
}

impl View for Interface {
    type V = InterfaceV;

    open spec fn view(&self) -> InterfaceV {
        InterfaceV {
            interface: self.interface@,
            scope: self.scope,
            schema: match &self.schema {
                Some(s) => Some(s@),
                None => None,
            },
            versions: strs_view(self.versions@),
        }
    }
}

/// A charm's metadata.yaml: identity, containers, resources and the relation
/// interfaces it requires and provides.  All four mappings default to empty
/// when absent from the document.
#[derive(Debug, Clone, PartialEq)]
pub struct Metadata {
    pub name: String,
    pub description: String,
    pub summary: String,
    pub containers: Vec<(String, Container)>,
    pub resources: Vec<(String, Resource)>,
    pub requires_relations: Vec<(String, Interface)>,
    pub provides_relations: Vec<(String, Interface)>,
}

/// Model of a `Metadata`.
pub struct MetadataV {
    pub name: Seq<char>,
    pub description: Seq<char>,
    pub summary: Seq<char>,
    pub containers: Seq<(Seq<char>, ContainerV)>,
    pub resources: Seq<(Seq<char>, ResourceV)>,
    pub requires_relations: Seq<(Seq<char>, InterfaceV)>,
    pub provides_relations: Seq<(Seq<char>, InterfaceV)>,
}

impl View for Metadata {
    type V = MetadataV;

    open spec fn view(&self) -> MetadataV {
        MetadataV {
            name: self.name@,
            description: self.description@,
            summary: self.summary@,
            containers: pair_seq_view(self.containers@),
            resources: pair_seq_view(self.resources@),
            requires_relations: pair_seq_view(self.requires_relations@),
            provides_relations: pair_seq_view(self.provides_relations@),
        }
    }
}

impl Metadata {
    /// Each of the four mappings binds every name at most once.
    pub open spec fn wf(&self) -> bool {
        distinct_keys(self@.containers) && distinct_keys(self@.resources) && distinct_keys(
            self@.requires_relations,
        ) && distinct_keys(self@.provides_relations)
    }
}

// ---------------------------------------------------------------------------
// Field extraction from a mapping node, with the exact value each extractor
// yields.
// ---------------------------------------------------------------------------

/// A required string field.
pub open spec fn spec_req_str(es: Seq<(Seq<char>, YamlV)>, k: Seq<char>) -> Result<
    Seq<char>,
    SchemaError,
> {
    match lookup(es, k) {
        Option::None => Err(SchemaError::MissingField),
        Option::Some(YamlV::Str(s)) => Ok(s),
        Option::Some(_) => Err(SchemaError::WrongType),
    }
}

/// An optional string field; absent or null means none.
pub open spec fn spec_opt_str(es: Seq<(Seq<char>, YamlV)>, k: Seq<char>) -> Result<
    Option<Seq<char>>,
    SchemaError,
> {
    match lookup(es, k) {
        Option::None => Ok(None),
        Option::Some(YamlV::Null) => Ok(None),
        Option::Some(YamlV::Str(s)) => Ok(Some(s)),
        Option::Some(_) => Err(SchemaError::WrongType),
    }
}

/// A required integer field.
pub open spec fn spec_req_int(es: Seq<(Seq<char>, YamlV)>, k: Seq<char>) -> Result<
    int,
    SchemaError,
> {
    match lookup(es, k) {
        Option::None => Err(SchemaError::MissingField),
        Option::Some(YamlV::Int(i)) => Ok(i),
        Option::Some(_) => Err(SchemaError::WrongType),
    }
}

/// A required boolean field.
pub open spec fn spec_req_bool(es: Seq<(Seq<char>, YamlV)>, k: Seq<char>) -> Result<
    bool,
    SchemaError,
> {
    match lookup(es, k) {
        Option::None => Err(SchemaError::MissingField),
        Option::Some(YamlV::Bool(b)) => Ok(b),
        Option::Some(_) => Err(SchemaError::WrongType),
    }
}

fn get_req_str(entries: &Vec<(String, Yaml)>, k: &str) -> (r: Result<String, SchemaError>)
    ensures
        match r {
            Ok(s) => spec_req_str(pair_seq_view(entries@), k@) == Ok::<_, SchemaError>(s@),
            Err(e) => spec_req_str(pair_seq_view(entries@), k@) == Err::<Seq<char>, _>(e),
        },
{
    match assoc_get(entries, k) {
        Option::None => Err(SchemaError::MissingField),
        Option::Some(Yaml::Str(s)) => Ok(s.clone()),
        Option::Some(_) => Err(SchemaError::WrongType),
    }
}

fn get_opt_str(entries: &Vec<(String, Yaml)>, k: &str) -> (r: Result<Option<String>, SchemaError>)
    ensures
        match r {
            Ok(Some(s)) => spec_opt_str(pair_seq_view(entries@), k@) == Ok::<_, SchemaError>(
                Some(s@),
            ),
            Ok(None) => spec_opt_str(pair_seq_view(entries@), k@) == Ok::<_, SchemaError>(
                None::<Seq<char>>,
            ),
            Err(e) => spec_opt_str(pair_seq_view(entries@), k@) == Err::<Option<Seq<char>>, _>(e),
        },
{
    match assoc_get(entries, k) {
        Option::None => Ok(None),
        Option::Some(Yaml::Null) => Ok(None),
        Option::Some(Yaml::Str(s)) => Ok(Some(s.clone())),
        Option::Some(_) => Err(SchemaError::WrongType),
    }
}

fn get_req_i64(entries: &Vec<(String, Yaml)>, k: &str) -> (r: Result<i64, SchemaError>)
    ensures
        match r {
            Ok(i) => spec_req_int(pair_seq_view(entries@), k@) == Ok::<_, SchemaError>(i as int),
            Err(e) => spec_req_int(pair_seq_view(entries@), k@) == Err::<int, _>(e),
        },
{
    match assoc_get(entries, k) {
        Option::None => Err(SchemaError::MissingField),
        Option::Some(Yaml::Int(i)) => Ok(*i),
        Option::Some(_) => Err(SchemaError::WrongType),
    }
}

fn get_req_bool(entries: &Vec<(String, Yaml)>, k: &str) -> (r: Result<bool, SchemaError>)
    ensures
        match r {
            Ok(b) => spec_req_bool(pair_seq_view(entries@), k@) == Ok::<_, SchemaError>(b),
            Err(e) => spec_req_bool(pair_seq_view(entries@), k@) == Err::<bool, _>(e),
        },
{
    match assoc_get(entries, k) {
        Option::None => Err(SchemaError::MissingField),
        Option::Some(Yaml::Bool(b)) => Ok(*b),
        Option::Some(_) => Err(SchemaError::WrongType),
    }
}

// ---------------------------------------------------------------------------
// Closed-schema scan: a mapping may only carry declared fields, each once.
// ---------------------------------------------------------------------------

/// Scan the entries in order: a key equal to an earlier one is a duplicate, a
/// key outside `allowed` is unknown.
pub open spec fn spec_scan(
    es: Seq<(Seq<char>, YamlV)>,
    allowed: Seq<Seq<char>>,
    i: int,
) -> Option<SchemaError>
    decreases es.len() - i,
{
    if i < 0 || i >= es.len() {
        None
    } else if exists|j: int| 0 <= j < i && es[j].0 == es[i].0 {
        Some(SchemaError::DuplicateKey)
    } else if !allowed.contains(es[i].0) {
        Some(SchemaError::UnknownField)
    } else {
        spec_scan(es, allowed, i + 1)
    }
}

/// A clean scan means distinct keys, all of them declared.
pub proof fn lemma_scan_ok(es: Seq<(Seq<char>, YamlV)>, allowed: Seq<Seq<char>>, i: int)
    requires
        0 <= i <= es.len(),
        spec_scan(es, allowed, i) is None,
    ensures
        forall|b: int| i <= b < es.len() ==> allowed.contains(#[trigger] es[b].0),
        forall|a: int, b: int| 0 <= a < b < es.len() && i <= b ==> es[a].0 != es[b].0,
    decreases es.len() - i,
{
    if i < es.len() {
        lemma_scan_ok(es, allowed, i + 1);
    }
}

/// A mapping that holds a field outside `allowed` never scans clean.
pub proof fn lemma_scan_unknown(es: Seq<(Seq<char>, YamlV)>, allowed: Seq<Seq<char>>, j: int)
    requires
        0 <= j < es.len(),
        !allowed.contains(es[j].0),
    ensures
        spec_scan(es, allowed, 0) is Some,
{
    if spec_scan(es, allowed, 0) is None {
        lemma_scan_ok(es, allowed, 0);
        assert(allowed.contains(es[j].0));
    }
}

/// View of a slice of field names.
pub open spec fn strslice_view(s: Seq<&str>) -> Seq<Seq<char>> {
    s.map(|i: int, x: &str| x@)
}

#[verifier::loop_isolation(false)]
fn contains_str(allowed: &[&str], k: &str) -> (r: bool)
    ensures
        r == strslice_view(allowed@).contains(k@),
{
    let ghost av = strslice_view(allowed@);
    let mut j: usize = 0;
    while j < allowed.len()
        invariant
            0 <= j <= allowed.len(),
            av == strslice_view(allowed@),
            forall|m: int| 0 <= m < j ==> av[m] != k@,
        decreases allowed.len() - j,
    {
        assert(av[j as int] == allowed@[j as int]@);
        if str_eq(allowed[j], k) {
            assert(av[j as int] == k@);
            return true;
        }
        j = j + 1;
    }
    assert(forall|m: int| 0 <= m < av.len() ==> av[m] != k@);
    false
}

#[verifier::loop_isolation(false)]
fn scan_fields(entries: &Vec<(String, Yaml)>, allowed: &[&str]) -> (r: Option<SchemaError>)
    ensures
        r == spec_scan(pair_seq_view(entries@), strslice_view(allowed@), 0),
{
    let ghost es = pair_seq_view(entries@);
    let ghost av = strslice_view(allowed@);
    let mut i: usize = 0;
    while i < entries.len()
        invariant
            0 <= i <= entries.len(),
            es == pair_seq_view(entries@),
            av == strslice_view(allowed@),
            spec_scan(es, av, 0) == spec_scan(es, av, i as int),
        decreases entries.len() - i,
    {
        assert(es[i as int] == (entries@[i as int].0@, entries@[i as int].1@));
        let mut j: usize = 0;
        while j < i
            invariant
                0 <= j <= i < entries.len(),
                es == pair_seq_view(entries@),
                av == strslice_view(allowed@),
                spec_scan(es, av, 0) == spec_scan(es, av, i as int),
                forall|m: int| 0 <= m < j ==> es[m].0 != es[i as int].0,
            decreases i - j,
        {
            assert(es[j as int] == (entries@[j as int].0@, entries@[j as int].1@));
            if str_eq(entries[j].0.as_str(), entries[i].0.as_str()) {
                assert(es[j as int].0 == es[i as int].0);
                assert(0 <= j < i && es[j as int].0 == es[i as int].0);
                assert(spec_scan(es, av, i as int) == Some(SchemaError::DuplicateKey));
                return Some(SchemaError::DuplicateKey);
            }
            j = j + 1;
        }
        assert(!(exists|m: int| 0 <= m < i && es[m].0 == es[i as int].0));
        if !contains_str(allowed, entries[i].0.as_str()) {
            return Some(SchemaError::UnknownField);
        }
        i = i + 1;
    }
    None
}

} // verus!

verus! {

// ---------------------------------------------------------------------------
// Record parsers: each schema record is a closed mapping; the spec function
// is the exact statement of what parsing yields.
// ---------------------------------------------------------------------------

/// The declared fields of a resource record.
pub open spec fn resource_fields() -> Seq<Seq<char>> {
    seq!["type"@, "description"@, "upstream-source"@]
}

/// The closed set of resource kind tags.
pub open spec fn spec_resource_type(s: Seq<char>) -> Result<ResourceType, SchemaError> {
    if s == "file"@ {
        Ok(ResourceType::File)
    } else if s == "oci-image"@ {
        Ok(ResourceType::OciImage)
    } else if s == "pypi"@ {
        Ok(ResourceType::Pypi)
    } else if s == "url"@ {
        Ok(ResourceType::Url)
    } else {
        Err(SchemaError::WrongType)
    }
}

/// What parsing a resource record yields.
pub open spec fn spec_parse_resource(y: YamlV) -> Result<ResourceV, SchemaError> {
    match y {
        YamlV::Mapping(es) => match spec_scan(es, resource_fields(), 0) {
            Some(e) => Err(e),
            None => match spec_req_str(es, "type"@) {
                Err(e) => Err(e),
                Ok(t) => match spec_resource_type(t) {
                    Err(e) => Err(e),
                    Ok(kind) => match spec_req_str(es, "description"@) {
                        Err(e) => Err(e),
                        Ok(d) => match spec_opt_str(es, "upstream-source"@) {
                            Err(e) => Err(e),
                            Ok(us) => Ok(
                                ResourceV { kind, description: d, upstream_source: us },
                            ),
                        },
                    },
                },
            },
        },
        _ => Err(SchemaError::NotMapping),
    }
}

fn resource_type_of(s: &str) -> (r: Result<ResourceType, SchemaError>)
    ensures
        match r {
            Ok(t) => spec_resource_type(s@) == Ok::<_, SchemaError>(t),
            Err(e) => spec_resource_type(s@) == Err::<ResourceType, _>(e),
        },
{
    if str_eq(s, "file") {
        Ok(ResourceType::File)
    } else if str_eq(s, "oci-image") {
        Ok(ResourceType::OciImage)
    } else if str_eq(s, "pypi") {
        Ok(ResourceType::Pypi)
    } else if str_eq(s, "url") {
        Ok(ResourceType::Url)
    } else {
        Err(SchemaError::WrongType)
    }
}

/// Parse one resource record, exactly as `spec_parse_resource` states.
pub fn resource_from_yaml(y: &Yaml) -> (r: Result<Resource, SchemaError>)
    ensures
        match r {
            Ok(v) => spec_parse_resource(y@) == Ok::<ResourceV, SchemaError>(v@),
            Err(e) => spec_parse_resource(y@) == Err::<ResourceV, SchemaError>(e),
        },
{
    match y {
        Yaml::Mapping(entries) => {
            proof {
                assert(*y == Yaml::Mapping(*entries));
                lemma_mapping_view(*entries);
            }
            let ghost es = pair_seq_view(entries@);
            let allowed: [&str; 3] = ["type", "description", "upstream-source"];
            proof {
                assert(strslice_view(allowed@) =~= resource_fields());
            }
            if let Some(e) = scan_fields(entries, &allowed) {
                return Err(e);
            }
            let t = match get_req_str(entries, "type") {
                Ok(t) => t,
                Err(e) => {
                    return Err(e);
                },
            };
            let kind = match resource_type_of(t.as_str()) {
                Ok(k) => k,
                Err(e) => {
                    return Err(e);
                },
            };
            let description = match get_req_str(entries, "description") {
                Ok(d) => d,
                Err(e) => {
                    return Err(e);
                },
            };
            let upstream_source = match get_opt_str(entries, "upstream-source") {
                Ok(u) => u,
                Err(e) => {
                    return Err(e);
                },
            };
            Ok(Resource { kind, description, upstream_source })
        },
        _ => Err(SchemaError::NotMapping),
    }
}

/// The declared fields of a container record.
pub open spec fn container_fields() -> Seq<Seq<char>> {
    seq!["resource"@]
}

/// What parsing a container record yields.
pub open spec fn spec_parse_container(y: YamlV) -> Result<ContainerV, SchemaError> {
    match y {
        YamlV::Mapping(es) => match spec_scan(es, container_fields(), 0) {
            Some(e) => Err(e),
            None => match spec_req_str(es, "resource"@) {
                Err(e) => Err(e),
                Ok(res) => Ok(ContainerV { resource: res }),
            },
        },
        _ => Err(SchemaError::NotMapping),
    }
}

/// Parse one container record, exactly as `spec_parse_container` states.
pub fn container_from_yaml(y: &Yaml) -> (r: Result<Container, SchemaError>)
    ensures
        match r {
            Ok(v) => spec_parse_container(y@) == Ok::<ContainerV, SchemaError>(v@),
            Err(e) => spec_parse_container(y@) == Err::<ContainerV, SchemaError>(e),
        },
{
    match y {
        Yaml::Mapping(entries) => {
            proof {
                assert(*y == Yaml::Mapping(*entries));
                lemma_mapping_view(*entries);
            }
            let allowed: [&str; 1] = ["resource"];
            proof {
                assert(strslice_view(allowed@) =~= container_fields());
            }
            if let Some(e) = scan_fields(entries, &allowed) {
                return Err(e);
            }
            match get_req_str(entries, "resource") {
                Ok(res) => Ok(Container { resource: res }),
                Err(e) => Err(e),
            }
        },
        _ => Err(SchemaError::NotMapping),
    }
}

/// The declared fields of a relation interface record.
pub open spec fn interface_fields() -> Seq<Seq<char>> {
    seq!["interface"@, "scope"@, "schema"@, "versions"@]
}

/// An optional scope field; absent or null means none.
pub open spec fn spec_opt_scope(es: Seq<(Seq<char>, YamlV)>, k: Seq<char>) -> Result<
    Option<RelationScope>,
    SchemaError,
> {
    match lookup(es, k) {
        Option::None => Ok(None),
        Option::Some(YamlV::Null) => Ok(None),
        Option::Some(YamlV::Str(s)) => if s == "global"@ {
            Ok(Some(RelationScope::Global))
        } else if s == "container"@ {
            Ok(Some(RelationScope::Container))
        } else {
            Err(SchemaError::WrongType)
        },
        Option::Some(_) => Err(SchemaError::WrongType),
    }
}

/// A list of strings, item by item.
pub open spec fn spec_str_items(items: Seq<YamlV>, i: int) -> Result<Seq<Seq<char>>, SchemaError>
    decreases items.len() - i,
{
    if i < 0 || i >= items.len() {
        Ok(Seq::empty())
    } else {
        match items[i] {
            YamlV::Str(s) => match spec_str_items(items, i + 1) {
                Err(e) => Err(e),
                Ok(rest) => Ok(seq![s] + rest),
            },
            _ => Err(SchemaError::WrongType),
        }
    }
}

/// The versions field: absent means empty, otherwise a list of strings.
pub open spec fn spec_versions(es: Seq<(Seq<char>, YamlV)>, k: Seq<char>) -> Result<
    Seq<Seq<char>>,
    SchemaError,
> {
    match lookup(es, k) {
        Option::None => Ok(Seq::empty()),
        Option::Some(YamlV::List(items)) => spec_str_items(items, 0),
        Option::Some(_) => Err(SchemaError::WrongType),
    }
}

/// What parsing a relation interface record yields.
pub open spec fn spec_parse_interface(y: YamlV) -> Result<InterfaceV, SchemaError> {
    match y {
        YamlV::Mapping(es) => match spec_scan(es, interface_fields(), 0) {
            Some(e) => Err(e),
            None => match spec_req_str(es, "interface"@) {
                Err(e) => Err(e),
                Ok(name) => match spec_opt_scope(es, "scope"@) {
                    Err(e) => Err(e),
                    Ok(scope) => match spec_opt_str(es, "schema"@) {
                        Err(e) => Err(e),
                        Ok(schema) => match spec_versions(es, "versions"@) {
                            Err(e) => Err(e),
                            Ok(versions) => Ok(
                                InterfaceV { interface: name, scope, schema, versions },
                            ),
                        },
                    },
                },
            },
        },
        _ => Err(SchemaError::NotMapping),
    }
}

fn get_opt_scope(entries: &Vec<(String, Yaml)>, k: &str) -> (r: Result<
    Option<RelationScope>,
    SchemaError,
>)
    ensures
        match r {
            Ok(sc) => spec_opt_scope(pair_seq_view(entries@), k@) == Ok::<_, SchemaError>(sc),
            Err(e) => spec_opt_scope(pair_seq_view(entries@), k@) == Err::<
                Option<RelationScope>,
                _,
            >(e),
        },
{
    match assoc_get(entries, k) {
        Option::None => Ok(None),
        Option::Some(Yaml::Null) => Ok(None),
        Option::Some(Yaml::Str(s)) => if str_eq(s.as_str(), "global") {
            Ok(Some(RelationScope::Global))
        } else if str_eq(s.as_str(), "container") {
            Ok(Some(RelationScope::Container))
        } else {
            Err(SchemaError::WrongType)
        },
        Option::Some(_) => Err(SchemaError::WrongType),
    }
}

#[verifier::loop_isolation(false)]
fn get_versions(entries: &Vec<(String, Yaml)>, k: &str) -> (r: Result<Vec<String>, SchemaError>)
    ensures
        match r {
            Ok(v) => spec_versions(pair_seq_view(entries@), k@) == Ok::<_, SchemaError>(
                strs_view(v@),
            ),
            Err(e) => spec_versions(pair_seq_view(entries@), k@) == Err::<Seq<Seq<char>>, _>(e),
        },
{
    match assoc_get(entries, k) {
        Option::None => {
            let out: Vec<String> = Vec::new();
            proof {
                assert(strs_view(out@) =~= Seq::<Seq<char>>::empty());
            }
            Ok(out)
        },
        Option::Some(Yaml::List(items)) => {
            proof {
                lemma_list_view(*items);
            }
            let ghost iv = yamls_view(items@);
            let mut out: Vec<String> = Vec::new();
            let mut i: usize = 0;
            proof {
                assert(strs_view(out@) =~= Seq::<Seq<char>>::empty());
            }
            while i < items.len()
                invariant
                    0 <= i <= items.len(),
                    iv == yamls_view(items@),
                    lookup(pair_seq_view(entries@), k@) == Some(YamlV::List(iv)),
                    spec_str_items(iv, 0) == (match spec_str_items(iv, i as int) {
                        Ok(rest) => Ok::<_, SchemaError>(strs_view(out@) + rest),
                        Err(e) => Err::<Seq<Seq<char>>, _>(e),
                    }),
                decreases items.len() - i,
            {
                assert(iv[i as int] == items@[i as int]@);
                match &items[i] {
                    Yaml::Str(s) => {
                        let ghost old_out = out@;
                        out.push(s.clone());
                        proof {
                            assert(strs_view(out@) =~= strs_view(old_out) + seq![s@]);
                            if let Ok(rest) = spec_str_items(iv, i + 1) {
                                assert((strs_view(old_out) + (seq![s@] + rest)) =~= (strs_view(
                                    out@,
                                ) + rest));
                            }
                        }
                    },
                    _ => {
                        return Err(SchemaError::WrongType);
                    },
                }
                i = i + 1;
            }
            proof {
                assert(spec_str_items(iv, i as int) == Ok::<_, SchemaError>(
                    Seq::<Seq<char>>::empty(),
                ));
                assert((strs_view(out@) + Seq::<Seq<char>>::empty()) =~= strs_view(out@));
            }
            Ok(out)
        },
        Option::Some(_) => Err(SchemaError::WrongType),
    }
}

/// Parse one relation interface record, exactly as `spec_parse_interface`
/// states.
pub fn interface_from_yaml(y: &Yaml) -> (r: Result<Interface, SchemaError>)
    ensures
        match r {
            Ok(v) => spec_parse_interface(y@) == Ok::<InterfaceV, SchemaError>(v@),
            Err(e) => spec_parse_interface(y@) == Err::<InterfaceV, SchemaError>(e),
        },
{
    match y {
        Yaml::Mapping(entries) => {
            proof {
                assert(*y == Yaml::Mapping(*entries));
                lemma_mapping_view(*entries);
            }
            let allowed: [&str; 4] = ["interface", "scope", "schema", "versions"];
            proof {
                assert(strslice_view(allowed@) =~= interface_fields());
            }
            if let Some(e) = scan_fields(entries, &allowed) {
                return Err(e);
            }
            let name = match get_req_str(entries, "interface") {
                Ok(v) => v,
                Err(e) => {
                    return Err(e);
                },
            };
            let scope = match get_opt_scope(entries, "scope") {
                Ok(v) => v,
                Err(e) => {
                    return Err(e);
                },
            };
            let schema = match get_opt_str(entries, "schema") {
                Ok(v) => v,
                Err(e) => {
                    return Err(e);
                },
            };
            let versions = match get_versions(entries, "versions") {
                Ok(v) => v,
                Err(e) => {
                    return Err(e);
                },
            };
            Ok(Interface { interface: name, scope, schema, versions })
        },
        _ => Err(SchemaError::NotMapping),
    }
}

/// The declared fields of a config option record.
pub open spec fn option_fields() -> Seq<Seq<char>> {
    seq!["type"@, "default"@, "description"@]
}

/// What parsing a config option record yields.
pub open spec fn spec_parse_option(y: YamlV) -> Result<ConfigOptionV, SchemaError> {
    match y {
        YamlV::Mapping(es) => match spec_scan(es, option_fields(), 0) {
            Some(e) => Err(e),
            None => match spec_req_str(es, "type"@) {
                Err(e) => Err(e),
                Ok(t) => match spec_req_str(es, "description"@) {
                    Err(e) => Err(e),
                    Ok(d) => if t == "string"@ {
                        match spec_opt_str(es, "default"@) {
                            Err(e) => Err(e),
                            Ok(def) => Ok(ConfigOptionV::String { default: def, description: d }),
                        }
                    } else if t == "int"@ {
                        match spec_req_int(es, "default"@) {
                            Err(e) => Err(e),
                            Ok(def) => Ok(ConfigOptionV::Integer { default: def, description: d }),
                        }
                    } else if t == "boolean"@ {
                        match spec_req_bool(es, "default"@) {
                            Err(e) => Err(e),
                            Ok(def) => Ok(ConfigOptionV::Boolean { default: def, description: d }),
                        }
                    } else {
                        Err(SchemaError::WrongType)
                    },
                },
            },
        },
        _ => Err(SchemaError::NotMapping),
    }
}

/// Parse one config option record, exactly as `spec_parse_option` states.
pub fn option_from_yaml(y: &Yaml) -> (r: Result<ConfigOption, SchemaError>)
    ensures
        match r {
            Ok(v) => spec_parse_option(y@) == Ok::<ConfigOptionV, SchemaError>(v@),
            Err(e) => spec_parse_option(y@) == Err::<ConfigOptionV, SchemaError>(e),
        },
{
    match y {
        Yaml::Mapping(entries) => {
            proof {
                assert(*y == Yaml::Mapping(*entries));
                lemma_mapping_view(*entries);
            }
            let allowed: [&str; 3] = ["type", "default", "description"];
            proof {
                assert(strslice_view(allowed@) =~= option_fields());
            }
            if let Some(e) = scan_fields(entries, &allowed) {
                return Err(e);
            }
            let t = match get_req_str(entries, "type") {
                Ok(v) => v,
                Err(e) => {
                    return Err(e);
                },
            };
            let description = match get_req_str(entries, "description") {
                Ok(v) => v,
                Err(e) => {
                    return Err(e);
                },
            };
            if str_eq(t.as_str(), "string") {
                match get_opt_str(entries, "default") {
                    Ok(default) => Ok(ConfigOption::String { default, description }),
                    Err(e) => Err(e),
                }
            } else if str_eq(t.as_str(), "int") {
                match get_req_i64(entries, "default") {
                    Ok(default) => Ok(ConfigOption::Integer { default, description }),
                    Err(e) => Err(e),
                }
            } else if str_eq(t.as_str(), "boolean") {
                match get_req_bool(entries, "default") {
                    Ok(default) => Ok(ConfigOption::Boolean { default, description }),
                    Err(e) => Err(e),
                }
            } else {
                Err(SchemaError::WrongType)
            }
        },
        _ => Err(SchemaError::NotMapping),
    }
}

} // verus!

verus! {

// ---------------------------------------------------------------------------
// Mappings of records: names to containers, resources, interfaces, options.
// Success means every record parses and no name repeats; the parsed mapping
// is stated positionally.
// ---------------------------------------------------------------------------

/// Every resource record parses and no name repeats.
pub open spec fn resource_entries_ok(es: Seq<(Seq<char>, YamlV)>) -> bool {
    distinct_keys(es) && forall|i: int|
        0 <= i < es.len() ==> (#[trigger] spec_parse_resource(es[i].1)) is Ok
}

/// The parsed resource mapping, name by name in document order.
pub open spec fn parsed_resources(es: Seq<(Seq<char>, YamlV)>) -> Seq<(Seq<char>, ResourceV)> {
    Seq::new(es.len(), |i: int| (es[i].0, spec_parse_resource(es[i].1)->Ok_0))
}

/// Every container record parses and no name repeats.
pub open spec fn container_entries_ok(es: Seq<(Seq<char>, YamlV)>) -> bool {
    distinct_keys(es) && forall|i: int|
        0 <= i < es.len() ==> (#[trigger] spec_parse_container(es[i].1)) is Ok
}

/// The parsed container mapping, name by name in document order.
pub open spec fn parsed_containers(es: Seq<(Seq<char>, YamlV)>) -> Seq<(Seq<char>, ContainerV)> {
    Seq::new(es.len(), |i: int| (es[i].0, spec_parse_container(es[i].1)->Ok_0))
}

/// Every interface record parses and no name repeats.
pub open spec fn interface_entries_ok(es: Seq<(Seq<char>, YamlV)>) -> bool {
    distinct_keys(es) && forall|i: int|
        0 <= i < es.len() ==> (#[trigger] spec_parse_interface(es[i].1)) is Ok
}

/// The parsed interface mapping, name by name in document order.
pub open spec fn parsed_interfaces(es: Seq<(Seq<char>, YamlV)>) -> Seq<(Seq<char>, InterfaceV)> {
    Seq::new(es.len(), |i: int| (es[i].0, spec_parse_interface(es[i].1)->Ok_0))
}

/// Every config option record parses and no name repeats.
pub open spec fn option_entries_ok(es: Seq<(Seq<char>, YamlV)>) -> bool {
    distinct_keys(es) && forall|i: int|
        0 <= i < es.len() ==> (#[trigger] spec_parse_option(es[i].1)) is Ok
}

/// The parsed option mapping, name by name in document order.
pub open spec fn parsed_options(es: Seq<(Seq<char>, YamlV)>) -> Seq<(Seq<char>, ConfigOptionV)> {
    Seq::new(es.len(), |i: int| (es[i].0, spec_parse_option(es[i].1)->Ok_0))
}

/// Parse a mapping of resource records.
#[verifier::loop_isolation(false)]
pub fn resource_map_from_yaml(y: &Yaml) -> (r: Result<Vec<(String, Resource)>, SchemaError>)
    ensures
        match y@ {
            YamlV::Mapping(es) => (r is Ok <==> resource_entries_ok(es)) && (match r {
                Ok(out) => pair_seq_view(out@) == parsed_resources(es),
                Err(_) => true,
            }),
            _ => r == Err::<Vec<(String, Resource)>, SchemaError>(SchemaError::NotMapping),
        },
{
    match y {
        Yaml::Mapping(entries) => {
            proof {
                assert(*y == Yaml::Mapping(*entries));
                lemma_mapping_view(*entries);
            }
            let ghost es = pair_seq_view(entries@);
            let mut out: Vec<(String, Resource)> = Vec::new();
            let mut i: usize = 0;
            while i < entries.len()
                invariant
                    0 <= i <= entries.len(),
                    es == pair_seq_view(entries@),
                    out@.len() == i,
                    forall|a: int, b: int| 0 <= a < b < i ==> es[a].0 != es[b].0,
                    forall|m: int|
                        0 <= m < i ==> (#[trigger] spec_parse_resource(es[m].1)) is Ok,
                    pair_seq_view(out@) == parsed_resources(es).subrange(0, i as int),
                decreases entries.len() - i,
            {
                assert(es[i as int] == (entries@[i as int].0@, entries@[i as int].1@));
                let mut j: usize = 0;
                while j < i
                    invariant
                        0 <= j <= i < entries.len(),
                        es == pair_seq_view(entries@),
                        forall|m: int| 0 <= m < j ==> es[m].0 != es[i as int].0,
                    decreases i - j,
                {
                    assert(es[j as int] == (entries@[j as int].0@, entries@[j as int].1@));
                    if str_eq(entries[j].0.as_str(), entries[i].0.as_str()) {
                        proof {
                            assert(es[j as int].0 == es[i as int].0);
                            assert(!distinct_keys(es));
                        }
                        return Err(SchemaError::DuplicateKey);
                    }
                    j = j + 1;
                }
                let ghost old_out = out@;
                match resource_from_yaml(&entries[i].1) {
                    Ok(res) => {
                        out.push((entries[i].0.clone(), res));
                        proof {
                            assert forall|m: int| 0 <= m <= i implies pair_seq_view(out@)[m]
                                == parsed_resources(es)[m] by {
                                if m < i {
                                    assert(out@[m] == old_out[m]);
                                    assert(pair_seq_view(old_out)[m] == parsed_resources(es).subrange(
                                        0,
                                        i as int,
                                    )[m]);
                                } else {
                                    assert(pair_seq_view(out@)[m] == (
                                        es[m].0,
                                        spec_parse_resource(es[m].1)->Ok_0,
                                    ));
                                }
                            }
                            assert(pair_seq_view(out@) =~= parsed_resources(es).subrange(
                                0,
                                (i + 1) as int,
                            ));
                        }
                    },
                    Err(e) => {
                        proof {
                            assert(!(spec_parse_resource(es[i as int].1) is Ok));
                            assert(!resource_entries_ok(es));
                        }
                        return Err(e);
                    },
                }
                i = i + 1;
            }
            proof {
                assert(distinct_keys(es));
                assert(resource_entries_ok(es));
                assert(parsed_resources(es).subrange(0, es.len() as int) =~= parsed_resources(es));
            }
            Ok(out)
        },
        _ => Err(SchemaError::NotMapping),
    }
}

/// Parse a mapping of container records.
#[verifier::loop_isolation(false)]
pub fn container_map_from_yaml(y: &Yaml) -> (r: Result<Vec<(String, Container)>, SchemaError>)
    ensures
        match y@ {
            YamlV::Mapping(es) => (r is Ok <==> container_entries_ok(es)) && (match r {
                Ok(out) => pair_seq_view(out@) == parsed_containers(es),
                Err(_) => true,
            }),
            _ => r == Err::<Vec<(String, Container)>, SchemaError>(SchemaError::NotMapping),
        },
{
    match y {
        Yaml::Mapping(entries) => {
            proof {
                assert(*y == Yaml::Mapping(*entries));
                lemma_mapping_view(*entries);
            }
            let ghost es = pair_seq_view(entries@);
            let mut out: Vec<(String, Container)> = Vec::new();
            let mut i: usize = 0;
            while i < entries.len()
                invariant
                    0 <= i <= entries.len(),
                    es == pair_seq_view(entries@),
                    out@.len() == i,
                    forall|a: int, b: int| 0 <= a < b < i ==> es[a].0 != es[b].0,
                    forall|m: int|
                        0 <= m < i ==> (#[trigger] spec_parse_container(es[m].1)) is Ok,
                    pair_seq_view(out@) == parsed_containers(es).subrange(0, i as int),
                decreases entries.len() - i,
            {
                assert(es[i as int] == (entries@[i as int].0@, entries@[i as int].1@));
                let mut j: usize = 0;
                while j < i
                    invariant
                        0 <= j <= i < entries.len(),
                        es == pair_seq_view(entries@),
                        forall|m: int| 0 <= m < j ==> es[m].0 != es[i as int].0,
                    decreases i - j,
                {
                    assert(es[j as int] == (entries@[j as int].0@, entries@[j as int].1@));
                    if str_eq(entries[j].0.as_str(), entries[i].0.as_str()) {
                        proof {
                            assert(es[j as int].0 == es[i as int].0);
                            assert(!distinct_keys(es));
                        }
                        return Err(SchemaError::DuplicateKey);
                    }
                    j = j + 1;
                }
                let ghost old_out = out@;
                match container_from_yaml(&entries[i].1) {
                    Ok(c) => {
                        out.push((entries[i].0.clone(), c));
                        proof {
                            assert forall|m: int| 0 <= m <= i implies pair_seq_view(out@)[m]
                                == parsed_containers(es)[m] by {
                                if m < i {
                                    assert(out@[m] == old_out[m]);
                                    assert(pair_seq_view(old_out)[m] == parsed_containers(es).subrange(
                                        0,
                                        i as int,
                                    )[m]);
                                } else {
                                    assert(pair_seq_view(out@)[m] == (
                                        es[m].0,
                                        spec_parse_container(es[m].1)->Ok_0,
                                    ));
                                }
                            }
                            assert(pair_seq_view(out@) =~= parsed_containers(es).subrange(
                                0,
                                (i + 1) as int,
                            ));
                        }
                    },
                    Err(e) => {
                        proof {
                            assert(!(spec_parse_container(es[i as int].1) is Ok));
                            assert(!container_entries_ok(es));
                        }
                        return Err(e);
                    },
                }
                i = i + 1;
            }
            proof {
                assert(distinct_keys(es));
                assert(container_entries_ok(es));
                assert(parsed_containers(es).subrange(0, es.len() as int) =~= parsed_containers(es));
            }
            Ok(out)
        },
        _ => Err(SchemaError::NotMapping),
    }
}

/// Parse a mapping of relation interface records.
#[verifier::loop_isolation(false)]
pub fn interface_map_from_yaml(y: &Yaml) -> (r: Result<Vec<(String, Interface)>, SchemaError>)
    ensures
        match y@ {
            YamlV::Mapping(es) => (r is Ok <==> interface_entries_ok(es)) && (match r {
                Ok(out) => pair_seq_view(out@) == parsed_interfaces(es),
                Err(_) => true,
            }),
            _ => r == Err::<Vec<(String, Interface)>, SchemaError>(SchemaError::NotMapping),
        },
{
    match y {
        Yaml::Mapping(entries) => {
            proof {
                assert(*y == Yaml::Mapping(*entries));
                lemma_mapping_view(*entries);
            }
            let ghost es = pair_seq_view(entries@);
            let mut out: Vec<(String, Interface)> = Vec::new();
            let mut i: usize = 0;
            while i < entries.len()
                invariant
                    0 <= i <= entries.len(),
                    es == pair_seq_view(entries@),
                    out@.len() == i,
                    forall|a: int, b: int| 0 <= a < b < i ==> es[a].0 != es[b].0,
                    forall|m: int|
                        0 <= m < i ==> (#[trigger] spec_parse_interface(es[m].1)) is Ok,
                    pair_seq_view(out@) == parsed_interfaces(es).subrange(0, i as int),
                decreases entries.len() - i,
            {
                assert(es[i as int] == (entries@[i as int].0@, entries@[i as int].1@));
                let mut j: usize = 0;
                while j < i
                    invariant
                        0 <= j <= i < entries.len(),
                        es == pair_seq_view(entries@),
                        forall|m: int| 0 <= m < j ==> es[m].0 != es[i as int].0,
                    decreases i - j,
                {
                    assert(es[j as int] == (entries@[j as int].0@, entries@[j as int].1@));
                    if str_eq(entries[j].0.as_str(), entries[i].0.as_str()) {
                        proof {
                            assert(es[j as int].0 == es[i as int].0);
                            assert(!distinct_keys(es));
                        }
                        return Err(SchemaError::DuplicateKey);
                    }
                    j = j + 1;
                }
                let ghost old_out = out@;
                match interface_from_yaml(&entries[i].1) {
                    Ok(it) => {
                        out.push((entries[i].0.clone(), it));
                        proof {
                            assert forall|m: int| 0 <= m <= i implies pair_seq_view(out@)[m]
                                == parsed_interfaces(es)[m] by {
                                if m < i {
                                    assert(out@[m] == old_out[m]);
                                    assert(pair_seq_view(old_out)[m] == parsed_interfaces(es).subrange(
                                        0,
                                        i as int,
                                    )[m]);
                                } else {
                                    assert(pair_seq_view(out@)[m] == (
                                        es[m].0,
                                        spec_parse_interface(es[m].1)->Ok_0,
                                    ));
                                }
                            }
                            assert(pair_seq_view(out@) =~= parsed_interfaces(es).subrange(
                                0,
                                (i + 1) as int,
                            ));
                        }
                    },
                    Err(e) => {
                        proof {
                            assert(!(spec_parse_interface(es[i as int].1) is Ok));
                            assert(!interface_entries_ok(es));
                        }
                        return Err(e);
                    },
                }
                i = i + 1;
            }
            proof {
                assert(distinct_keys(es));
                assert(interface_entries_ok(es));
                assert(parsed_interfaces(es).subrange(0, es.len() as int) =~= parsed_interfaces(es));
            }
            Ok(out)
        },
        _ => Err(SchemaError::NotMapping),
    }
}

/// Parse a mapping of config option records.
#[verifier::loop_isolation(false)]
pub fn option_map_from_yaml(y: &Yaml) -> (r: Result<Vec<(String, ConfigOption)>, SchemaError>)
    ensures
        match y@ {
            YamlV::Mapping(es) => (r is Ok <==> option_entries_ok(es)) && (match r {
                Ok(out) => pair_seq_view(out@) == parsed_options(es),
                Err(_) => true,
            }),
            _ => r == Err::<Vec<(String, ConfigOption)>, SchemaError>(SchemaError::NotMapping),
        },
{
    match y {
        Yaml::Mapping(entries) => {
            proof {
                assert(*y == Yaml::Mapping(*entries));
                lemma_mapping_view(*entries);
            }
            let ghost es = pair_seq_view(entries@);
            let mut out: Vec<(String, ConfigOption)> = Vec::new();
            let mut i: usize = 0;
            while i < entries.len()
                invariant
                    0 <= i <= entries.len(),
                    es == pair_seq_view(entries@),
                    out@.len() == i,
                    forall|a: int, b: int| 0 <= a < b < i ==> es[a].0 != es[b].0,
                    forall|m: int|
                        0 <= m < i ==> (#[trigger] spec_parse_option(es[m].1)) is Ok,
                    pair_seq_view(out@) == parsed_options(es).subrange(0, i as int),
                decreases entries.len() - i,
            {
                assert(es[i as int] == (entries@[i as int].0@, entries@[i as int].1@));
                let mut j: usize = 0;
                while j < i
                    invariant
                        0 <= j <= i < entries.len(),
                        es == pair_seq_view(entries@),
                        forall|m: int| 0 <= m < j ==> es[m].0 != es[i as int].0,
                    decreases i - j,
                {
                    assert(es[j as int] == (entries@[j as int].0@, entries@[j as int].1@));
                    if str_eq(entries[j].0.as_str(), entries[i].0.as_str()) {
                        proof {
                            assert(es[j as int].0 == es[i as int].0);
                            assert(!distinct_keys(es));
                        }
                        return Err(SchemaError::DuplicateKey);
                    }
                    j = j + 1;
                }
                let ghost old_out = out@;
                match option_from_yaml(&entries[i].1) {
                    Ok(op) => {
                        out.push((entries[i].0.clone(), op));
                        proof {
                            assert forall|m: int| 0 <= m <= i implies pair_seq_view(out@)[m]
                                == parsed_options(es)[m] by {
                                if m < i {
                                    assert(out@[m] == old_out[m]);
                                    assert(pair_seq_view(old_out)[m] == parsed_options(es).subrange(
                                        0,
                                        i as int,
                                    )[m]);
                                } else {
                                    assert(pair_seq_view(out@)[m] == (
                                        es[m].0,
                                        spec_parse_option(es[m].1)->Ok_0,
                                    ));
                                }
                            }
                            assert(pair_seq_view(out@) =~= parsed_options(es).subrange(
                                0,
                                (i + 1) as int,
                            ));
                        }
                    },
                    Err(e) => {
                        proof {
                            assert(!(spec_parse_option(es[i as int].1) is Ok));
                            assert(!option_entries_ok(es));
                        }
                        return Err(e);
                    },
                }
                i = i + 1;
            }
            proof {
                assert(distinct_keys(es));
                assert(option_entries_ok(es));
                assert(parsed_options(es).subrange(0, es.len() as int) =~= parsed_options(es));
            }
            Ok(out)
        },
        _ => Err(SchemaError::NotMapping),
    }
}

} // verus!

verus! {

// ---------------------------------------------------------------------------
// Whole documents.
// ---------------------------------------------------------------------------

/// The declared top-level fields of metadata.yaml.
pub open spec fn metadata_fields() -> Seq<Seq<char>> {
    seq![
        "name"@,
        "description"@,
        "summary"@,
        "containers"@,
        "resources"@,
        "requires"@,
        "provides"@,
    ]
}

/// The containers field is absent or a mapping of valid container records.
pub open spec fn spec_containers_ok(es: Seq<(Seq<char>, YamlV)>) -> bool {
    match lookup(es, "containers"@) {
        Option::None => true,
        Option::Some(YamlV::Mapping(ces)) => container_entries_ok(ces),
        Option::Some(_) => false,
    }
}

/// The parsed containers mapping; empty when the field is absent.
pub open spec fn spec_containers_val(es: Seq<(Seq<char>, YamlV)>) -> Seq<(Seq<char>, ContainerV)> {
    match lookup(es, "containers"@) {
        Option::Some(YamlV::Mapping(ces)) => parsed_containers(ces),
        _ => Seq::empty(),
    }
}

/// The resources field is absent or a mapping of valid resource records.
pub open spec fn spec_resources_ok(es: Seq<(Seq<char>, YamlV)>) -> bool {
    match lookup(es, "resources"@) {
        Option::None => true,
        Option::Some(YamlV::Mapping(res)) => resource_entries_ok(res),
        Option::Some(_) => false,
    }
}

/// The parsed resources mapping; empty when the field is absent.
pub open spec fn spec_resources_val(es: Seq<(Seq<char>, YamlV)>) -> Seq<(Seq<char>, ResourceV)> {
    match lookup(es, "resources"@) {
        Option::Some(YamlV::Mapping(res)) => parsed_resources(res),
        _ => Seq::empty(),
    }
}

/// A relation field is absent or a mapping of valid interface records.
pub open spec fn spec_relations_ok(es: Seq<(Seq<char>, YamlV)>, k: Seq<char>) -> bool {
    match lookup(es, k) {
        Option::None => true,
        Option::Some(YamlV::Mapping(ies)) => interface_entries_ok(ies),
        Option::Some(_) => false,
    }
}

/// The parsed relation mapping under `k`; empty when the field is absent.
pub open spec fn spec_relations_val(es: Seq<(Seq<char>, YamlV)>, k: Seq<char>) -> Seq<
    (Seq<char>, InterfaceV),
> {
    match lookup(es, k) {
        Option::Some(YamlV::Mapping(ies)) => parsed_interfaces(ies),
        _ => Seq::empty(),
    }
}

/// When a metadata document is accepted: a closed mapping whose identity
/// fields are strings and whose four optional mappings hold valid records.
pub open spec fn spec_metadata_ok(y: YamlV) -> bool {
    match y {
        YamlV::Mapping(es) => spec_scan(es, metadata_fields(), 0) is None && spec_req_str(
            es,
            "name"@,
        ) is Ok && spec_req_str(es, "description"@) is Ok && spec_req_str(es, "summary"@) is Ok
            && spec_containers_ok(es) && spec_resources_ok(es) && spec_relations_ok(
            es,
            "requires"@,
        ) && spec_relations_ok(es, "provides"@),
        _ => false,
    }
}

/// The accepted document's model, field by field.
pub open spec fn spec_metadata_val(y: YamlV) -> MetadataV {
    match y {
        YamlV::Mapping(es) => MetadataV {
            name: spec_req_str(es, "name"@)->Ok_0,
            description: spec_req_str(es, "description"@)->Ok_0,
            summary: spec_req_str(es, "summary"@)->Ok_0,
            containers: spec_containers_val(es),
            resources: spec_resources_val(es),
            requires_relations: spec_relations_val(es, "requires"@),
            provides_relations: spec_relations_val(es, "provides"@),
        },
        _ => MetadataV {
            name: Seq::empty(),
            description: Seq::empty(),
            summary: Seq::empty(),
            containers: Seq::empty(),
            resources: Seq::empty(),
            requires_relations: Seq::empty(),
            provides_relations: Seq::empty(),
        },
    }
}

/// A mapping of parsed records keeps its distinct keys.
proof fn lemma_parsed_keys_distinct<TV>(es: Seq<(Seq<char>, YamlV)>, ps: Seq<(Seq<char>, TV)>)
    requires
        distinct_keys(es),
        ps.len() == es.len(),
        forall|i: int| 0 <= i < es.len() ==> (#[trigger] ps[i].0) == es[i].0,
    ensures
        distinct_keys(ps),
{
    assert forall|a: int, b: int| 0 <= a < b < ps.len() implies ps[a].0 != ps[b].0 by {
        assert(es[a].0 != es[b].0);
    }
}

impl Metadata {
    /// Parse a metadata document tree: accepted exactly when
    /// `spec_metadata_ok` holds, and then the result is its model.
    pub fn from_yaml(y: &Yaml) -> (r: Result<Metadata, SchemaError>)
        ensures
            r is Ok <==> spec_metadata_ok(y@),
            r matches Ok(m) ==> m@ == spec_metadata_val(y@) && m.wf(),
    {
        match y {
            Yaml::Mapping(entries) => {
                proof {
                    assert(*y == Yaml::Mapping(*entries));
                    lemma_mapping_view(*entries);
                }
                let ghost es = pair_seq_view(entries@);
                let allowed: [&str; 7] = [
                    "name",
                    "description",
                    "summary",
                    "containers",
                    "resources",
                    "requires",
                    "provides",
                ];
                proof {
                    assert(strslice_view(allowed@) =~= metadata_fields());
                }
                if let Some(e) = scan_fields(entries, &allowed) {
                    return Err(e);
                }
                let name = match get_req_str(entries, "name") {
                    Ok(v) => v,
                    Err(e) => {
                        return Err(e);
                    },
                };
                let description = match get_req_str(entries, "description") {
                    Ok(v) => v,
                    Err(e) => {
                        return Err(e);
                    },
                };
                let summary = match get_req_str(entries, "summary") {
                    Ok(v) => v,
                    Err(e) => {
                        return Err(e);
                    },
                };
                let containers = match assoc_get(entries, "containers") {
                    Option::None => Vec::new(),
                    Option::Some(node) => match container_map_from_yaml(node) {
                        Ok(v) => v,
                        Err(e) => {
                            return Err(e);
                        },
                    },
                };
                let resources = match assoc_get(entries, "resources") {
                    Option::None => Vec::new(),
                    Option::Some(node) => match resource_map_from_yaml(node) {
                        Ok(v) => v,
                        Err(e) => {
                            return Err(e);
                        },
                    },
                };
                let requires_relations = match assoc_get(entries, "requires") {
                    Option::None => Vec::new(),
                    Option::Some(node) => match interface_map_from_yaml(node) {
                        Ok(v) => v,
                        Err(e) => {
                            return Err(e);
                        },
                    },
                };
                let provides_relations = match assoc_get(entries, "provides") {
                    Option::None => Vec::new(),
                    Option::Some(node) => match interface_map_from_yaml(node) {
                        Ok(v) => v,
                        Err(e) => {
                            return Err(e);
                        },
                    },
                };
                let m = Metadata {
                    name,
                    description,
                    summary,
                    containers,
                    resources,
                    requires_relations,
                    provides_relations,
                };
                proof {
                    if m.containers@.len() == 0 {
                        assert(pair_seq_view(m.containers@) =~= Seq::<
                            (Seq<char>, ContainerV),
                        >::empty());
                    }
                    if m.resources@.len() == 0 {
                        assert(pair_seq_view(m.resources@) =~= Seq::<
                            (Seq<char>, ResourceV),
                        >::empty());
                    }
                    if m.requires_relations@.len() == 0 {
                        assert(pair_seq_view(m.requires_relations@) =~= Seq::<
                            (Seq<char>, InterfaceV),
                        >::empty());
                    }
                    if m.provides_relations@.len() == 0 {
                        assert(pair_seq_view(m.provides_relations@) =~= Seq::<
                            (Seq<char>, InterfaceV),
                        >::empty());
                    }
                    assert(m@.containers == spec_containers_val(es));
                    assert(m@.resources == spec_resources_val(es));
                    assert(m@.requires_relations == spec_relations_val(es, "requires"@));
                    assert(m@.provides_relations == spec_relations_val(es, "provides"@));
                    if spec_containers_val(es).len() > 0 {
                        if let Some(YamlV::Mapping(ces)) = lookup(es, "containers"@) {
                            lemma_parsed_keys_distinct(ces, parsed_containers(ces));
                        }
                    }
                    if spec_resources_val(es).len() > 0 {
                        if let Some(YamlV::Mapping(res)) = lookup(es, "resources"@) {
                            lemma_parsed_keys_distinct(res, parsed_resources(res));
                        }
                    }
                    if spec_relations_val(es, "requires"@).len() > 0 {
                        if let Some(YamlV::Mapping(ies)) = lookup(es, "requires"@) {
                            lemma_parsed_keys_distinct(ies, parsed_interfaces(ies));
                        }
                    }
                    if spec_relations_val(es, "provides"@).len() > 0 {
                        if let Some(YamlV::Mapping(ies)) = lookup(es, "provides"@) {
                            lemma_parsed_keys_distinct(ies, parsed_interfaces(ies));
                        }
                    }
                }
                Ok(m)
            },
            _ => Err(SchemaError::NotMapping),
        }
    }

    /// Parse metadata.yaml from its bytes: the document must parse and
    /// conform to the schema.
    pub fn parse(bytes: &[u8]) -> (r: Result<Metadata, JujuError>)
        ensures
            match yaml_doc_of(bytes@) {
                Option::None => r == Err::<Metadata, _>(JujuError::Schema(SchemaError::Syntax)),
                Option::Some(y) => (r is Ok <==> spec_metadata_ok(y)) && (match r {
                    Ok(m) => m@ == spec_metadata_val(y) && m.wf(),
                    Err(e) => e matches JujuError::Schema(_),
                }),
            },
    {
        match parse_yaml_doc(bytes) {
            Option::None => Err(JujuError::Schema(SchemaError::Syntax)),
            Option::Some(y) => match Self::from_yaml(&y) {
                Ok(m) => Ok(m),
                Err(e) => Err(JujuError::Schema(e)),
            },
        }
    }
}

/// Unknown top-level fields in a metadata document are rejected, never
/// ignored.
pub proof fn lemma_metadata_unknown_field(y: YamlV, j: int)
    requires
        y matches YamlV::Mapping(es) && 0 <= j < es.len() && !metadata_fields().contains(es[j].0),
    ensures
        !spec_metadata_ok(y),
{
    match y {
        YamlV::Mapping(es) => {
            lemma_scan_unknown(es, metadata_fields(), j);
        },
        _ => {},
    }
}

/// The declared top-level fields of config.yaml.
pub open spec fn config_fields() -> Seq<Seq<char>> {
    seq!["options"@]
}

/// When a config document is accepted: a closed mapping whose required
/// options field is a mapping of valid option records.
pub open spec fn spec_config_ok(y: YamlV) -> bool {
    match y {
        YamlV::Mapping(es) => spec_scan(es, config_fields(), 0) is None && match lookup(
            es,
            "options"@,
        ) {
            Option::Some(YamlV::Mapping(oes)) => option_entries_ok(oes),
            _ => false,
        },
        _ => false,
    }
}

/// The accepted config document's model.
pub open spec fn spec_config_val(y: YamlV) -> Seq<(Seq<char>, ConfigOptionV)> {
    match y {
        YamlV::Mapping(es) => match lookup(es, "options"@) {
            Option::Some(YamlV::Mapping(oes)) => parsed_options(oes),
            _ => Seq::empty(),
        },
        _ => Seq::empty(),
    }
}

impl Config {
    /// Parse a config document tree: accepted exactly when `spec_config_ok`
    /// holds, and then the result is its model.
    pub fn from_yaml(y: &Yaml) -> (r: Result<Config, SchemaError>)
        ensures
            r is Ok <==> spec_config_ok(y@),
            r matches Ok(c) ==> c@ == spec_config_val(y@) && distinct_keys(c@),
    {
        match y {
            Yaml::Mapping(entries) => {
                proof {
                    assert(*y == Yaml::Mapping(*entries));
                    lemma_mapping_view(*entries);
                }
                let ghost es = pair_seq_view(entries@);
                let allowed: [&str; 1] = ["options"];
                proof {
                    assert(strslice_view(allowed@) =~= config_fields());
                }
                if let Some(e) = scan_fields(entries, &allowed) {
                    return Err(e);
                }
                match assoc_get(entries, "options") {
                    Option::None => Err(SchemaError::MissingField),
                    Option::Some(node) => match option_map_from_yaml(node) {
                        Ok(options) => {
                            let c = Config { options };
                            proof {
                                if let Some(YamlV::Mapping(oes)) = lookup(es, "options"@) {
                                    lemma_parsed_keys_distinct(oes, parsed_options(oes));
                                }
                            }
                            Ok(c)
                        },
                        Err(e) => Err(e),
                    },
                }
            },
            _ => Err(SchemaError::NotMapping),
        }
    }

    /// Parse config.yaml from its bytes: the document must parse and conform
    /// to the schema.
    pub fn parse(bytes: &[u8]) -> (r: Result<Config, JujuError>)
        ensures
            match yaml_doc_of(bytes@) {
                Option::None => r == Err::<Config, _>(JujuError::Schema(SchemaError::Syntax)),
                Option::Some(y) => (r is Ok <==> spec_config_ok(y)) && (match r {
                    Ok(c) => c@ == spec_config_val(y) && distinct_keys(c@),
                    Err(e) => e matches JujuError::Schema(_),
                }),
            },
    {
        match parse_yaml_doc(bytes) {
            Option::None => Err(JujuError::Schema(SchemaError::Syntax)),
            Option::Some(y) => match Self::from_yaml(&y) {
                Ok(c) => Ok(c),
                Err(e) => Err(JujuError::Schema(e)),
            },
        }
    }
}

/// Unknown top-level fields in a config document are rejected, never
/// ignored.
pub proof fn lemma_config_unknown_field(y: YamlV, j: int)
    requires
        y matches YamlV::Mapping(es) && 0 <= j < es.len() && !config_fields().contains(es[j].0),
    ensures
        !spec_config_ok(y),
{
    match y {
        YamlV::Mapping(es) => {
            lemma_scan_unknown(es, config_fields(), j);
        },
        _ => {},
    }
}

/// Unknown fields nested in a resource record are rejected as well.
pub proof fn lemma_resource_unknown_field(y: YamlV, j: int)
    requires
        y matches YamlV::Mapping(es) && 0 <= j < es.len() && !resource_fields().contains(es[j].0),
    ensures
        spec_parse_resource(y) is Err,
{
    match y {
        YamlV::Mapping(es) => {
            lemma_scan_unknown(es, resource_fields(), j);
        },
        _ => {},
    }
}

} // verus!

verus! {

/// Unknown fields nested in a container record are rejected as well.
pub proof fn lemma_container_unknown_field(y: YamlV, j: int)
    requires
        y matches YamlV::Mapping(es) && 0 <= j < es.len() && !container_fields().contains(es[j].0),
    ensures
        spec_parse_container(y) is Err,
{
    match y {
        YamlV::Mapping(es) => {
            lemma_scan_unknown(es, container_fields(), j);
        },
        _ => {},
    }
}

/// Unknown fields nested in a relation interface record are rejected as
/// well.
pub proof fn lemma_interface_unknown_field(y: YamlV, j: int)
    requires
        y matches YamlV::Mapping(es) && 0 <= j < es.len() && !interface_fields().contains(es[j].0),
    ensures
        spec_parse_interface(y) is Err,
{
    match y {
        YamlV::Mapping(es) => {
            lemma_scan_unknown(es, interface_fields(), j);
        },
        _ => {},
    }
}

/// Unknown fields nested in a config option record are rejected as well.
pub proof fn lemma_option_unknown_field(y: YamlV, j: int)
    requires
        y matches YamlV::Mapping(es) && 0 <= j < es.len() && !option_fields().contains(es[j].0),
    ensures
        spec_parse_option(y) is Err,
{
    match y {
        YamlV::Mapping(es) => {
            lemma_scan_unknown(es, option_fields(), j);
        },
        _ => {},
    }
}

} // verus!
