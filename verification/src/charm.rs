use vstd::prelude::*;
use crate::assoc::{distinct_keys, has_key, lookup, pair_seq_view};
use crate::errors::{JujuError, JujuErrorV, SchemaError};
use crate::schema::{
    spec_config_ok, spec_config_val, spec_metadata_ok, spec_metadata_val, Config, Metadata,
    ResourceV,
};
use crate::yaml::{parse_yaml_doc, yaml_doc_of, Yaml, YamlV};

verus! {

// ---------------------------------------------------------------------------
// The aggregate root: a charm read from a source directory or archive, and
// the resolution of its declared resources.
// ---------------------------------------------------------------------------

/// A charm as represented by its source: where it came from, its optional
/// config schema, and its metadata.
#[derive(Debug, Clone, PartialEq)]
pub struct CharmSource {
    /// The path the charm was loaded from.
    pub source: String,
    /// The charm's config.yaml, when one is present.
    pub config: Option<Config>,
    /// The charm's metadata.yaml.
    pub metadata: Metadata,
}

/// Whether the given pair of schema documents is accepted: the metadata
/// document must parse and conform; the config document, when present, must
/// too.
pub open spec fn docs_ok(config_bytes: Option<Seq<u8>>, metadata_bytes: Seq<u8>) -> bool {
    (match yaml_doc_of(metadata_bytes) {
        Option::Some(y) => spec_metadata_ok(y),
        Option::None => false,
    }) && (match config_bytes {
        Option::None => true,
        Option::Some(cb) => match yaml_doc_of(cb) {
            Option::Some(YamlV::Null) => true,
            Option::Some(y) => spec_config_ok(y),
            Option::None => false,
        },
    })
}

/// Parse an optional config document: a null or empty document means no
/// config was declared.
fn parse_optional_config(bytes: &[u8]) -> (r: Result<Option<Config>, JujuError>)
    ensures
        match yaml_doc_of(bytes@) {
            Option::None => r == Err::<Option<Config>, _>(
                JujuError::Schema(SchemaError::Syntax),
            ),
            Option::Some(y) => {
                &&& (y is Null ==> (r matches Ok(c) && c is None))
                &&& (!(y is Null) ==> ((r is Ok <==> spec_config_ok(y)) && (match r {
                    Ok(c) => c matches Some(cf) && cf@ == spec_config_val(y) && distinct_keys(
                        cf@,
                    ),
                    Err(e) => e matches JujuError::Schema(_),
                })))
            },
        },
{
    match parse_yaml_doc(bytes) {
        Option::None => Err(JujuError::Schema(SchemaError::Syntax)),
        Option::Some(Yaml::Null) => Ok(Option::None),
        Option::Some(y) => match Config::from_yaml(&y) {
            Ok(cfg) => Ok(Option::Some(cfg)),
            Err(e) => Err(JujuError::Schema(e)),
        },
    }
}

/// What one entry of a zip archive holds.
pub enum ZipEntry {
    /// The bytes are not a readable zip archive at all.
    BadArchive,
    /// The archive yields no entry of that name.
    Absent,
    /// The entry's text, as bytes.
    Found(Vec<u8>),
    /// The entry exists but its contents are not text.
    Unreadable,
}

/// Model of a `ZipEntry`.
pub enum ZipEntryV {
    BadArchive,
    Absent,
    Found(Seq<u8>),
    Unreadable,
}

impl View for ZipEntry {
    type V = ZipEntryV;

    open spec fn view(&self) -> ZipEntryV {
        match self {
            ZipEntry::BadArchive => ZipEntryV::BadArchive,
            ZipEntry::Absent => ZipEntryV::Absent,
            ZipEntry::Found(b) => ZipEntryV::Found(b@),
            ZipEntry::Unreadable => ZipEntryV::Unreadable,
        }
    }
}

/// What looking up one named entry in a zip archive, given as bytes, yields;
/// a function of the archive bytes and the entry name alone.
pub uninterp spec fn zip_entry_of(archive: Seq<u8>, name: Seq<char>) -> ZipEntryV;

/// Relies on `zip::ZipArchive`: `new` validates the archive, `by_name` finds
/// the entry, and `Read::read_to_string` decodes it as text.
#[verifier::external_body]
fn zip_entry(archive: &Vec<u8>, name: &str) -> (r: ZipEntry)
    ensures
        r@ == zip_entry_of(archive@, name@),
{
    let mut a = match zip::ZipArchive::new(std::io::Cursor::new(archive.as_slice())) {
        Ok(a) => a,
        Err(_) => return ZipEntry::BadArchive,
    };
    let mut f = match a.by_name(name) {
        Ok(f) => f,
        Err(_) => return ZipEntry::Absent,
    };
    let mut s = String::new();
    match std::io::Read::read_to_string(&mut f, &mut s) {
        Ok(_) => ZipEntry::Found(s.into_bytes()),
        Err(_) => ZipEntry::Unreadable,
    }
}

/// Whether a config entry of a zip archive is acceptable: absent is fine,
/// present must parse and conform.
pub open spec fn zip_config_ok(cfg: ZipEntryV) -> bool {
    match cfg {
        ZipEntryV::Absent => true,
        ZipEntryV::Found(cb) => match yaml_doc_of(cb) {
            Option::Some(YamlV::Null) => true,
            Option::Some(y) => spec_config_ok(y),
            Option::None => false,
        },
        _ => false,
    }
}

/// Whether a metadata entry of a zip archive is acceptable: it must be
/// present, parse and conform.
pub open spec fn zip_metadata_ok(md: ZipEntryV) -> bool {
    match md {
        ZipEntryV::Found(mb) => match yaml_doc_of(mb) {
            Option::Some(y) => spec_metadata_ok(y),
            Option::None => false,
        },
        _ => false,
    }
}

impl CharmSource {
    /// The mappings of the loaded metadata bind each name once.
    pub open spec fn wf(&self) -> bool {
        self.metadata.wf()
    }

    /// Where this charm was loaded from.
    pub open spec fn spec_source(&self) -> Seq<char> {
        self.source@
    }

    /// Build a charm from its two schema documents, already read: the
    /// config one optional, the metadata one required.
    pub fn from_documents(
        source: &str,
        config_bytes: Option<&Vec<u8>>,
        metadata_bytes: &Vec<u8>,
    ) -> (r: Result<CharmSource, JujuError>)
        ensures
            r is Ok <==> docs_ok(
                match config_bytes {
                    Option::Some(b) => Option::Some(b@),
                    Option::None => Option::None,
                },
                metadata_bytes@,
            ),
            r matches Ok(c) ==> {
                &&& c.spec_source() == source@
                &&& c.wf()
                &&& c.metadata@ == spec_metadata_val(yaml_doc_of(metadata_bytes@)->Some_0)
                &&& match config_bytes {
                    Option::None => c.config is None,
                    Option::Some(b) => match yaml_doc_of(b@) {
                        Option::Some(YamlV::Null) => c.config is None,
                        Option::Some(y) => c.config matches Some(cf) && cf@ == spec_config_val(y),
                        Option::None => false,
                    },
                }
            },
    {
        let config: Option<Config> = match config_bytes {
            Option::None => Option::None,
            Option::Some(b) => match parse_optional_config(b.as_slice()) {
                Ok(c) => c,
                Err(e) => {
                    return Err(e);
                },
            },
        };
        let metadata = match Metadata::parse(metadata_bytes.as_slice()) {
            Ok(m) => m,
            Err(e) => {
                return Err(e);
            },
        };
        Ok(CharmSource { source: source.to_owned(), config, metadata })
    }

    /// Load a charm from a zip archive's bytes.  The `config.yaml` entry is
    /// optional: an archive without one yields no config.  The
    /// `metadata.yaml` entry is required: an archive without one fails.
    pub fn from_zip(source: &str, archive: &Vec<u8>) -> (r: Result<CharmSource, JujuError>)
        ensures
            ({
                let cfg = zip_entry_of(archive@, "config.yaml"@);
                let md = zip_entry_of(archive@, "metadata.yaml"@);
                &&& (r is Ok <==> zip_config_ok(cfg) && zip_metadata_ok(md))
                &&& (md matches ZipEntryV::Absent ==> r is Err)
                &&& ((zip_config_ok(cfg) && (md matches ZipEntryV::Absent)) ==> r == Err::<
                    CharmSource,
                    _,
                >(JujuError::MissingMetadata))
                &&& (r matches Ok(c) ==> {
                    &&& c.spec_source() == source@
                    &&& c.wf()
                    &&& (cfg matches ZipEntryV::Absent ==> c.config is None)
                    &&& (cfg matches ZipEntryV::Found(cb) ==> (match yaml_doc_of(cb) {
                        Option::Some(YamlV::Null) => c.config is None,
                        Option::Some(y) => c.config matches Some(cf) && cf@ == spec_config_val(y),
                        Option::None => false,
                    }))
                    &&& (md matches ZipEntryV::Found(mb) && c.metadata@ == spec_metadata_val(
                        yaml_doc_of(mb)->Some_0,
                    ))
                })
            }),
    {
        let config: Option<Config> = match zip_entry(archive, "config.yaml") {
            ZipEntry::BadArchive => {
                return Err(JujuError::BadArchive);
            },
            ZipEntry::Unreadable => {
                return Err(JujuError::UnreadableEntry);
            },
            ZipEntry::Absent => Option::None,
            ZipEntry::Found(cb) => match parse_optional_config(cb.as_slice()) {
                Ok(c) => c,
                Err(e) => {
                    return Err(e);
                },
            },
        };
        let metadata = match zip_entry(archive, "metadata.yaml") {
            ZipEntry::BadArchive => {
                return Err(JujuError::BadArchive);
            },
            ZipEntry::Unreadable => {
                return Err(JujuError::UnreadableEntry);
            },
            ZipEntry::Absent => {
                return Err(JujuError::MissingMetadata);
            },
            ZipEntry::Found(mb) => match Metadata::parse(mb.as_slice()) {
                Ok(m) => m,
                Err(e) => {
                    return Err(e);
                },
            },
        };
        Ok(CharmSource { source: source.to_owned(), config, metadata })
    }
}

// ---------------------------------------------------------------------------
// Resource resolution: merge caller-supplied values with declared upstream
// defaults, failing closed when a declared resource has neither.
// ---------------------------------------------------------------------------

/// The value a declared resource resolves to: the supplied value when
/// present, else the declared upstream default.
pub open spec fn resolved_value(
    dec: Seq<(Seq<char>, ResourceV)>,
    sup: Seq<(Seq<char>, Seq<char>)>,
    j: int,
) -> Option<Seq<char>> {
    match lookup(sup, dec[j].0) {
        Option::Some(v) => Option::Some(v),
        Option::None => dec[j].1.upstream_source,
    }
}

/// Resolve the declared resources from position `i` on: each takes its
/// supplied value, else its upstream default; one with neither fails with
/// its name.
pub open spec fn spec_resolve(
    dec: Seq<(Seq<char>, ResourceV)>,
    sup: Seq<(Seq<char>, Seq<char>)>,
    i: int,
) -> Result<Seq<(Seq<char>, Seq<char>)>, Seq<char>>
    decreases dec.len() - i,
{
    if i < 0 || i >= dec.len() {
        Ok(Seq::empty())
    } else {
        match resolved_value(dec, sup, i) {
            Option::None => Err(dec[i].0),
            Option::Some(v) => match spec_resolve(dec, sup, i + 1) {
                Err(n) => Err(n),
                Ok(rest) => Ok(seq![(dec[i].0, v)] + rest),
            },
        }
    }
}

/// When every declared resource has a supplied value or an upstream
/// default, resolution succeeds and binds each declared resource exactly
/// once, in order, to the value of that precedence.
pub proof fn lemma_resolution_total(
    dec: Seq<(Seq<char>, ResourceV)>,
    sup: Seq<(Seq<char>, Seq<char>)>,
    i: int,
)
    requires
        0 <= i <= dec.len(),
        forall|j: int|
            0 <= j < dec.len() ==> has_key(sup, #[trigger] dec[j].0) || dec[j].1.upstream_source
                is Some,
    ensures
        spec_resolve(dec, sup, i) matches Ok(out) && out.len() == dec.len() - i && forall|m: int|
            0 <= m < out.len() ==> out[m] == (dec[i + m].0, resolved_value(dec, sup, i + m)->Some_0),
    decreases dec.len() - i,
{
    if i < dec.len() {
        lemma_resolution_total(dec, sup, i + 1);
        assert(has_key(sup, dec[i].0) || dec[i].1.upstream_source is Some);
        assert(resolved_value(dec, sup, i) is Some);
        match spec_resolve(dec, sup, i + 1) {
            Ok(rest) => {
                let out = seq![(dec[i].0, resolved_value(dec, sup, i)->Some_0)] + rest;
                assert(spec_resolve(dec, sup, i) == Ok::<_, Seq<char>>(out));
                assert forall|m: int| 0 <= m < out.len() implies out[m] == (
                    dec[i + m].0,
                    resolved_value(dec, sup, i + m)->Some_0,
                ) by {
                    if m > 0 {
                        assert(out[m] == rest[m - 1]);
                    }
                }
            },
            Err(_) => {
                assert(false);
            },
        }
    }
}

/// A declared resource with neither a supplied value nor an upstream
/// default makes resolution fail, and the reported name is of exactly such
/// a resource.
pub proof fn lemma_resolution_missing(
    dec: Seq<(Seq<char>, ResourceV)>,
    sup: Seq<(Seq<char>, Seq<char>)>,
    i: int,
    j: int,
)
    requires
        0 <= i <= j < dec.len(),
        !has_key(sup, dec[j].0),
        dec[j].1.upstream_source is None,
    ensures
        spec_resolve(dec, sup, i) matches Err(n) && exists|m: int|
            0 <= m < dec.len() && (#[trigger] dec[m].0) == n && !has_key(sup, dec[m].0)
                && dec[m].1.upstream_source is None,
    decreases j - i,
{
    if resolved_value(dec, sup, i) is None {
        assert(lookup(sup, dec[i].0) is None && dec[i].1.upstream_source is None);
        assert(dec[i].0 == dec[i].0 && !has_key(sup, dec[i].0) && dec[i].1.upstream_source
            is None);
    } else {
        assert(i < j);
        lemma_resolution_missing(dec, sup, i + 1, j);
    }
}

impl CharmSource {
    /// Merge the declared resources with the supplied values: supplied wins,
    /// else the upstream default, else the failure names the resource and
    /// the charm.
    #[verifier::loop_isolation(false)]
    pub fn resources_with_defaults(&self, configured: &Vec<(String, String)>) -> (r: Result<
        Vec<(String, String)>,
        JujuError,
    >)
        ensures
            ({
                let dec = self.metadata@.resources;
                let sup = pair_seq_view(configured@);
                match r {
                    Ok(out) => spec_resolve(dec, sup, 0) == Ok::<_, Seq<char>>(
                        pair_seq_view(out@),
                    ),
                    Err(e) => spec_resolve(dec, sup, 0) matches Err(n) && e@
                        == JujuErrorV::ResourceNotFound(n, self.metadata@.name),
                }
            }),
    {
        let ghost dec = self.metadata@.resources;
        let ghost sup = pair_seq_view(configured@);
        let declared = &self.metadata.resources;
        let mut out: Vec<(String, String)> = Vec::new();
        let mut i: usize = 0;
        proof {
            assert(pair_seq_view(out@) =~= Seq::<(Seq<char>, Seq<char>)>::empty());
        }
        while i < declared.len()
            invariant
                0 <= i <= declared.len(),
                spec_resolve(dec, sup, 0) == (match spec_resolve(dec, sup, i as int) {
                    Ok(rest) => Ok::<_, Seq<char>>(pair_seq_view(out@) + rest),
                    Err(n) => Err::<Seq<(Seq<char>, Seq<char>)>, _>(n),
                }),
            decreases declared.len() - i,
        {
            assert(dec[i as int] == (declared@[i as int].0@, declared@[i as int].1@));
            let key = &declared[i].0;
            let ghost old_out = out@;
            let chosen: Option<String> = match crate::assoc::assoc_get(configured, key.as_str()) {
                Option::Some(v) => Option::Some(v.clone()),
                Option::None => match &declared[i].1.upstream_source {
                    Option::Some(u) => Option::Some(u.clone()),
                    Option::None => Option::None,
                },
            };
            match chosen {
                Option::Some(v) => {
                    proof {
                        assert(resolved_value(dec, sup, i as int) == Option::Some(v@));
                    }
                    out.push((key.clone(), v));
                    proof {
                        assert forall|m: int| 0 <= m < old_out.len() implies pair_seq_view(
                            out@,
                        )[m] == pair_seq_view(old_out)[m] by {
                            assert(out@[m] == old_out[m]);
                        }
                        assert(pair_seq_view(out@) =~= pair_seq_view(old_out) + seq![
                            (dec[i as int].0, resolved_value(dec, sup, i as int)->Some_0),
                        ]);
                        if let Ok(rest) = spec_resolve(dec, sup, i as int + 1) {
                            assert((pair_seq_view(old_out) + (seq![
                                (dec[i as int].0, resolved_value(dec, sup, i as int)->Some_0),
                            ] + rest)) =~= (pair_seq_view(out@) + rest));
                        }
                    }
                },
                Option::None => {
                    proof {
                        assert(resolved_value(dec, sup, i as int) is None);
                        assert(spec_resolve(dec, sup, i as int) == Err::<
                            Seq<(Seq<char>, Seq<char>)>,
                            _,
                        >(dec[i as int].0));
                    }
                    return Err(
                        JujuError::ResourceNotFound(key.clone(), self.metadata.name.clone()),
                    );
                },
            }
            i = i + 1;
        }
        proof {
            assert(spec_resolve(dec, sup, i as int) == Ok::<_, Seq<char>>(Seq::<
                (Seq<char>, Seq<char>),
            >::empty()));
            assert((pair_seq_view(out@) + Seq::<(Seq<char>, Seq<char>)>::empty()) =~= pair_seq_view(
                out@,
            ));
        }
        Ok(out)
    }
}

} // verus!
