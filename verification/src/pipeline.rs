use vstd::prelude::*;
use vstd::string::StringExecFns;
use crate::assoc::{lookup, pair_seq_view, strs_view};
use crate::charm::{spec_resolve, CharmSource};
use crate::errors::{JujuError, JujuErrorV, OutputFault, PromoteCause, PromoteCauseV};
use crate::outparse::all_values_str;
use crate::schema::{Resource, ResourceType, ResourceV};
use crate::yaml::{lemma_list_view, lemma_mapping_view, parse_yaml_doc, yaml_doc_of, Yaml, YamlV};

verus! {

// ---------------------------------------------------------------------------
// The publish pipeline: a three-stage state machine per backend.  The
// machine decides; an unverified driver performs each returned action and
// hands the outcome back as an event.
// ---------------------------------------------------------------------------

/// How a tool is invoked: fire and check the exit status, or capture one of
/// its streams.
#[derive(Debug, Clone, Copy, PartialEq, Eq, Structural)]
pub enum Invoke {
    Run,
    CaptureStdout,
    CaptureStderr,
}

/// One external tool invocation.
#[derive(Debug, Clone)]
pub struct ToolCall {
    pub invoke: Invoke,
    pub tool: String,
    pub args: Vec<String>,
}

/// What the driver must do next.
#[derive(Debug)]
pub enum Action {
    /// Invoke an external tool.
    Call(ToolCall),
    /// Create a fresh temporary directory.
    MakeTempDir,
    /// Remove the temporary directory and everything under it.
    RemoveTempDir,
}

/// What the driver reports back for the last action.
#[derive(Debug)]
pub enum Event {
    /// A `Run` call or a directory removal finished: success, or the tool's
    /// failure report.
    Completed(Result<(), String>),
    /// A capturing call finished: the captured bytes, or the failure report.
    Captured(Result<Vec<u8>, String>),
    /// The temporary directory was created at the given path, or not.
    DirMade(Result<String, String>),
}

/// Which events answer which action.
pub open spec fn event_fits(a: Action, e: Event) -> bool {
    match a {
        Action::Call(c) => match c.invoke {
            Invoke::Run => e is Completed,
            Invoke::CaptureStdout => e is Captured,
            Invoke::CaptureStderr => e is Captured,
        },
        Action::MakeTempDir => e is DirMade,
        Action::RemoveTempDir => e is Completed,
    }
}

// ---------------------------------------------------------------------------
// Argument vectors, stated exactly.
// ---------------------------------------------------------------------------

/// The packaging call's arguments.
pub open spec fn spec_pack_args(source: Seq<char>, destructive: bool) -> Seq<Seq<char>> {
    if destructive {
        seq!["pack"@, "-p"@, source, "--destructive-mode"@]
    } else {
        seq!["pack"@, "-p"@, source]
    }
}

/// The unpack call's arguments: the artifact, into the directory.
pub open spec fn spec_unzip_args(artifact: Seq<char>, dir: Seq<char>) -> Seq<Seq<char>> {
    seq![artifact, "-d"@, dir]
}

/// One `--resource name=value` pair per resolved resource.
pub open spec fn spec_resource_pairs(rs: Seq<(Seq<char>, Seq<char>)>, i: int) -> Seq<Seq<char>>
    decreases rs.len() - i,
{
    if i < 0 || i >= rs.len() {
        Seq::empty()
    } else {
        seq!["--resource"@, rs[i].0 + "="@ + rs[i].1] + spec_resource_pairs(rs, i + 1)
    }
}

/// The push call's arguments.
pub open spec fn spec_push_args(
    dir: Seq<char>,
    url: Seq<char>,
    rs: Seq<(Seq<char>, Seq<char>)>,
) -> Seq<Seq<char>> {
    seq!["push"@, dir, url] + spec_resource_pairs(rs, 0)
}

/// One `--resource name-revision` pair per listed record.
pub open spec fn spec_record_pairs(records: Seq<(Seq<char>, Seq<char>)>, i: int) -> Seq<Seq<char>>
    decreases records.len() - i,
{
    if i < 0 || i >= records.len() {
        Seq::empty()
    } else {
        seq!["--resource"@, records[i].0 + "-"@ + records[i].1] + spec_record_pairs(
            records,
            i + 1,
        )
    }
}

/// The release call's arguments for one channel.
pub open spec fn spec_release_args(
    rev_url: Seq<char>,
    channel: Seq<char>,
    records: Seq<(Seq<char>, Seq<char>)>,
) -> Seq<Seq<char>> {
    seq!["release"@, rev_url, "--channel"@, channel] + spec_record_pairs(records, 0)
}

/// One `--release=channel` flag per requested channel.
pub open spec fn spec_release_flags(channels: Seq<Seq<char>>, i: int) -> Seq<Seq<char>>
    decreases channels.len() - i,
{
    if i < 0 || i >= channels.len() {
        Seq::empty()
    } else {
        seq!["--release="@ + channels[i]] + spec_release_flags(channels, i + 1)
    }
}

/// The hub upload call's arguments: the artifact, the channel flags, and the
/// accumulated resource-revision flags.
pub open spec fn spec_upload_args(
    artifact: Seq<char>,
    channels: Seq<Seq<char>>,
    resource_args: Seq<Seq<char>>,
) -> Seq<Seq<char>> {
    seq!["upload"@, artifact] + spec_release_flags(channels, 0) + resource_args
}

#[verifier::loop_isolation(false)]
fn build_resource_pairs(rs: &Vec<(String, String)>) -> (r: Vec<String>)
    ensures
        strs_view(r@) == spec_resource_pairs(pair_seq_view(rs@), 0),
{
    let ghost rv = pair_seq_view(rs@);
    let mut out: Vec<String> = Vec::new();
    let mut i: usize = 0;
    proof {
        assert(strs_view(out@) =~= Seq::<Seq<char>>::empty());
    }
    while i < rs.len()
        invariant
            0 <= i <= rs.len(),
            spec_resource_pairs(rv, 0) == strs_view(out@) + spec_resource_pairs(rv, i as int),
        decreases rs.len() - i,
    {
        assert(rv[i as int] == (rs@[i as int].0@, rs@[i as int].1@));
        let ghost old_out = out@;
        out.push(String::from_str("--resource"));
        let pair = rs[i].0.clone().concat("=").concat(rs[i].1.as_str());
        assert(pair@ == rv[i as int].0 + "="@ + rv[i as int].1);
        out.push(pair);
        proof {
            assert forall|m: int| 0 <= m < old_out.len() implies strs_view(out@)[m] == strs_view(
                old_out,
            )[m] by {
                assert(out@[m] == old_out[m]);
            }
            assert(strs_view(out@) =~= strs_view(old_out) + seq![
                "--resource"@,
                rv[i as int].0 + "="@ + rv[i as int].1,
            ]);
            assert((strs_view(old_out) + (seq![
                "--resource"@,
                rv[i as int].0 + "="@ + rv[i as int].1,
            ] + spec_resource_pairs(rv, i as int + 1))) =~= (strs_view(out@)
                + spec_resource_pairs(rv, i as int + 1)));
        }
        i = i + 1;
    }
    proof {
        assert((strs_view(out@) + Seq::<Seq<char>>::empty()) =~= strs_view(out@));
    }
    out
}

#[verifier::loop_isolation(false)]
fn build_record_pairs(records: &Vec<(String, String)>) -> (r: Vec<String>)
    ensures
        strs_view(r@) == spec_record_pairs(pair_seq_view(records@), 0),
{
    let ghost rv = pair_seq_view(records@);
    let mut out: Vec<String> = Vec::new();
    let mut i: usize = 0;
    proof {
        assert(strs_view(out@) =~= Seq::<Seq<char>>::empty());
    }
    while i < records.len()
        invariant
            0 <= i <= records.len(),
            spec_record_pairs(rv, 0) == strs_view(out@) + spec_record_pairs(rv, i as int),
        decreases records.len() - i,
    {
        assert(rv[i as int] == (records@[i as int].0@, records@[i as int].1@));
        let ghost old_out = out@;
        out.push(String::from_str("--resource"));
        let pair = records[i].0.clone().concat("-").concat(records[i].1.as_str());
        assert(pair@ == rv[i as int].0 + "-"@ + rv[i as int].1);
        out.push(pair);
        proof {
            assert forall|m: int| 0 <= m < old_out.len() implies strs_view(out@)[m] == strs_view(
                old_out,
            )[m] by {
                assert(out@[m] == old_out[m]);
            }
            assert(strs_view(out@) =~= strs_view(old_out) + seq![
                "--resource"@,
                rv[i as int].0 + "-"@ + rv[i as int].1,
            ]);
            assert((strs_view(old_out) + (seq![
                "--resource"@,
                rv[i as int].0 + "-"@ + rv[i as int].1,
            ] + spec_record_pairs(rv, i as int + 1))) =~= (strs_view(out@) + spec_record_pairs(
                rv,
                i as int + 1,
            )));
        }
        i = i + 1;
    }
    proof {
        assert((strs_view(out@) + Seq::<Seq<char>>::empty()) =~= strs_view(out@));
    }
    out
}

#[verifier::loop_isolation(false)]
fn build_release_flags(channels: &Vec<String>) -> (r: Vec<String>)
    ensures
        strs_view(r@) == spec_release_flags(strs_view(channels@), 0),
{
    let ghost cv = strs_view(channels@);
    let mut out: Vec<String> = Vec::new();
    let mut i: usize = 0;
    proof {
        assert(strs_view(out@) =~= Seq::<Seq<char>>::empty());
    }
    while i < channels.len()
        invariant
            0 <= i <= channels.len(),
            spec_release_flags(cv, 0) == strs_view(out@) + spec_release_flags(cv, i as int),
        decreases channels.len() - i,
    {
        assert(cv[i as int] == channels@[i as int]@);
        let ghost old_out = out@;
        let flag = String::from_str("--release=").concat(channels[i].as_str());
        assert(flag@ == "--release="@ + cv[i as int]);
        out.push(flag);
        proof {
            assert forall|m: int| 0 <= m < old_out.len() implies strs_view(out@)[m] == strs_view(
                old_out,
            )[m] by {
                assert(out@[m] == old_out[m]);
            }
            assert(strs_view(out@) =~= strs_view(old_out) + seq!["--release="@ + cv[i as int]]);
            assert((strs_view(old_out) + (seq!["--release="@ + cv[i as int]] + spec_release_flags(
                cv,
                i as int + 1,
            ))) =~= (strs_view(out@) + spec_release_flags(cv, i as int + 1)));
        }
        i = i + 1;
    }
    proof {
        assert((strs_view(out@) + Seq::<Seq<char>>::empty()) =~= strs_view(out@));
    }
    out
}

// ---------------------------------------------------------------------------
// The resource-revision listing of the store backend.
// ---------------------------------------------------------------------------

/// What one listed record yields: its `name` and `revision` fields; every
/// value must be a string.
pub open spec fn spec_record(y: YamlV) -> Result<(Seq<char>, Seq<char>), OutputFault> {
    match y {
        YamlV::Mapping(es) => if !all_values_str(es) {
            Err(OutputFault::NotAListing)
        } else {
            match (lookup(es, "name"@), lookup(es, "revision"@)) {
                (Option::Some(YamlV::Str(n)), Option::Some(YamlV::Str(r))) => Ok((n, r)),
                _ => Err(OutputFault::BadRecord),
            }
        },
        _ => Err(OutputFault::NotAListing),
    }
}

/// The records of the listing, in order.
pub open spec fn spec_records(items: Seq<YamlV>, i: int) -> Result<
    Seq<(Seq<char>, Seq<char>)>,
    OutputFault,
>
    decreases items.len() - i,
{
    if i < 0 || i >= items.len() {
        Ok(Seq::empty())
    } else {
        match spec_record(items[i]) {
            Err(e) => Err(e),
            Ok(p) => match spec_records(items, i + 1) {
                Err(e) => Err(e),
                Ok(rest) => Ok(seq![p] + rest),
            },
        }
    }
}

/// What the `list-resources` output yields: a sequence of records, each with
/// at least a `name` and a `revision`.
pub open spec fn spec_list_records(bytes: Seq<u8>) -> Result<
    Seq<(Seq<char>, Seq<char>)>,
    OutputFault,
> {
    match yaml_doc_of(bytes) {
        Option::Some(YamlV::List(items)) => spec_records(items, 0),
        _ => Err(OutputFault::NotAListing),
    }
}

fn record_from_yaml(y: &Yaml) -> (r: Result<(String, String), JujuError>)
    ensures
        match r {
            Ok(p) => spec_record(y@) == Ok::<_, OutputFault>((p.0@, p.1@)),
            Err(e) => spec_record(y@) matches Err(f) && e == JujuError::MalformedOutput(f),
        },
{
    match y {
        Yaml::Mapping(entries) => {
            proof {
                assert(*y == Yaml::Mapping(*entries));
                lemma_mapping_view(*entries);
            }
            let ghost es = pair_seq_view(entries@);
            let mut i: usize = 0;
            #[verifier::loop_isolation(false)]
            while i < entries.len()
                invariant
                    0 <= i <= entries.len(),
                    forall|m: int| 0 <= m < i ==> (#[trigger] es[m].1) is Str,
                decreases entries.len() - i,
            {
                assert(es[i as int] == (entries@[i as int].0@, entries@[i as int].1@));
                match &entries[i].1 {
                    Yaml::Str(_) => {},
                    _ => {
                        proof {
                            assert(!(es[i as int].1 is Str));
                            assert(!all_values_str(es));
                        }
                        return Err(JujuError::MalformedOutput(OutputFault::NotAListing));
                    },
                }
                i = i + 1;
            }
            assert(all_values_str(es));
            let name = match crate::assoc::assoc_get(entries, "name") {
                Option::Some(Yaml::Str(n)) => n.clone(),
                _ => {
                    return Err(JujuError::MalformedOutput(OutputFault::BadRecord));
                },
            };
            match crate::assoc::assoc_get(entries, "revision") {
                Option::Some(Yaml::Str(rev)) => Ok((name, rev.clone())),
                _ => Err(JujuError::MalformedOutput(OutputFault::BadRecord)),
            }
        },
        _ => Err(JujuError::MalformedOutput(OutputFault::NotAListing)),
    }
}

/// Parse the `list-resources` output, exactly as `spec_list_records` states.
#[verifier::loop_isolation(false)]
pub fn parse_resource_records(bytes: &Vec<u8>) -> (r: Result<Vec<(String, String)>, JujuError>)
    ensures
        match r {
            Ok(out) => spec_list_records(bytes@) == Ok::<_, OutputFault>(pair_seq_view(out@)),
            Err(e) => spec_list_records(bytes@) matches Err(f) && e == JujuError::MalformedOutput(
                f,
            ),
        },
{
    let doc = match parse_yaml_doc(bytes.as_slice()) {
        Option::Some(y) => y,
        Option::None => {
            return Err(JujuError::MalformedOutput(OutputFault::NotAListing));
        },
    };
    match &doc {
        Yaml::List(items) => {
            proof {
                assert(doc == Yaml::List(*items));
                lemma_list_view(*items);
            }
            let ghost iv = crate::yaml::yamls_view(items@);
            let mut out: Vec<(String, String)> = Vec::new();
            let mut i: usize = 0;
            proof {
                assert(pair_seq_view(out@) =~= Seq::<(Seq<char>, Seq<char>)>::empty());
            }
            while i < items.len()
                invariant
                    0 <= i <= items.len(),
                    spec_records(iv, 0) == (match spec_records(iv, i as int) {
                        Ok(rest) => Ok::<_, OutputFault>(pair_seq_view(out@) + rest),
                        Err(e) => Err::<Seq<(Seq<char>, Seq<char>)>, _>(e),
                    }),
                decreases items.len() - i,
            {
                assert(iv[i as int] == items@[i as int]@);
                let ghost old_out = out@;
                match record_from_yaml(&items[i]) {
                    Ok(p) => {
                        proof {
                            assert(spec_record(iv[i as int]) == Ok::<_, OutputFault>(
                                (p.0@, p.1@),
                            ));
                        }
                        out.push(p);
                        proof {
                            assert forall|m: int| 0 <= m < old_out.len() implies pair_seq_view(
                                out@,
                            )[m] == pair_seq_view(old_out)[m] by {
                                assert(out@[m] == old_out[m]);
                            }
                            assert(pair_seq_view(out@) =~= pair_seq_view(old_out) + seq![
                                spec_record(iv[i as int])->Ok_0,
                            ]);
                            if let Ok(rest) = spec_records(iv, i as int + 1) {
                                assert((pair_seq_view(old_out) + (seq![
                                    spec_record(iv[i as int])->Ok_0,
                                ] + rest)) =~= (pair_seq_view(out@) + rest));
                            }
                        }
                    },
                    Err(e) => {
                        return Err(e);
                    },
                }
                i = i + 1;
            }
            proof {
                assert(spec_records(iv, i as int) == Ok::<_, OutputFault>(Seq::<
                    (Seq<char>, Seq<char>),
                >::empty()));
                assert((pair_seq_view(out@) + Seq::<(Seq<char>, Seq<char>)>::empty())
                    =~= pair_seq_view(out@));
            }
            Ok(out)
        },
        _ => Err(JujuError::MalformedOutput(OutputFault::NotAListing)),
    }
}

// ---------------------------------------------------------------------------
// Finding the next image resource to pull or upload.
// ---------------------------------------------------------------------------

/// Whether the declared resource under `key` is an image resource.
pub open spec fn is_oci(meta: Seq<(Seq<char>, ResourceV)>, key: Seq<char>) -> bool {
    match lookup(meta, key) {
        Option::Some(res) => res.kind == ResourceType::OciImage,
        Option::None => false,
    }
}

/// The position of the first image resource at or after `i`, or the length
/// when there is none.
pub open spec fn spec_next_oci(
    meta: Seq<(Seq<char>, ResourceV)>,
    rs: Seq<(Seq<char>, Seq<char>)>,
    i: int,
) -> int
    decreases rs.len() - i,
{
    if i < 0 || i >= rs.len() {
        rs.len() as int
    } else if is_oci(meta, rs[i].0) {
        i
    } else {
        spec_next_oci(meta, rs, i + 1)
    }
}

#[verifier::loop_isolation(false)]
fn next_oci(meta: &Vec<(String, Resource)>, rs: &Vec<(String, String)>, from: usize) -> (r: usize)
    requires
        from <= rs.len(),
    ensures
        r as int == spec_next_oci(pair_seq_view(meta@), pair_seq_view(rs@), from as int),
        r <= rs.len(),
        r < rs.len() ==> is_oci(pair_seq_view(meta@), pair_seq_view(rs@)[r as int].0),
{
    let ghost mv = pair_seq_view(meta@);
    let ghost rv = pair_seq_view(rs@);
    let mut i: usize = from;
    while i < rs.len()
        invariant
            from <= i <= rs.len(),
            spec_next_oci(mv, rv, from as int) == spec_next_oci(mv, rv, i as int),
        decreases rs.len() - i,
    {
        assert(rv[i as int] == (rs@[i as int].0@, rs@[i as int].1@));
        let key = &rs[i].0;
        let oci = match crate::assoc::assoc_get(meta, key.as_str()) {
            Option::Some(res) => match res.kind {
                ResourceType::OciImage => true,
                _ => false,
            },
            Option::None => false,
        };
        if oci {
            assert(is_oci(mv, rv[i as int].0));
            return i;
        }
        assert(!is_oci(mv, rv[i as int].0));
        i = i + 1;
    }
    i
}

} // verus!

verus! {

// ---------------------------------------------------------------------------
// Store backend: build, then push, then promote each channel in order.
// ---------------------------------------------------------------------------

/// Name of the built artifact: the charm name and the fixed platform tag.
pub open spec fn spec_artifact(name: Seq<char>) -> Seq<char> {
    name + "_ubuntu-20.04-amd64.charm"@
}

/// Where the store pipeline stands.
#[derive(Debug)]
pub enum StorePhase {
    /// The packaging tool is running.
    Building,
    /// A fresh temporary directory is being created.
    AwaitDir,
    /// The artifact is being unpacked into the directory.
    Unpacking { dir: String },
    /// The image resource at `next` is being pulled locally.
    Pulling { dir: String, resolved: Vec<(String, String)>, next: usize },
    /// The push tool is running against the unpacked directory.
    Pushing { dir: String, resolved: Vec<(String, String)> },
    /// The commit identifier is being read, best-effort.
    AwaitCommit { rev_url: String },
    /// The revision is being tagged with the commit, best-effort.
    Tagging { rev_url: String },
    /// The temporary directory is being removed; then the pipeline ends or
    /// promotion begins.
    Closing { outcome: Result<String, JujuError> },
    /// The resource listing for the channel at `idx` is being read.
    Listing { rev_url: String, idx: usize },
    /// The release for the channel at `idx` is running.
    Releasing { rev_url: String, idx: usize },
}

/// The store pipeline: build, push and promote one charm to one destination
/// across the requested channels, in order.
#[derive(Debug)]
pub struct StorePipeline {
    pub charm: CharmSource,
    pub url: String,
    pub channels: Vec<String>,
    pub supplied: Vec<(String, String)>,
    pub destructive: bool,
    pub phase: StorePhase,
}

/// What one step yields: the next state and the action to perform, or the
/// pipeline's result.
#[derive(Debug)]
pub enum StoreStep {
    Next(StorePipeline, Action),
    Done(Result<String, JujuError>),
}

impl StorePipeline {
    /// The indexes held in the phase stay inside their vectors.
    pub open spec fn wf(&self) -> bool {
        match self.phase {
            StorePhase::Pulling { dir, resolved, next } => (next as int) < resolved@.len()
                && is_oci(
                self.charm.metadata@.resources,
                pair_seq_view(resolved@)[next as int].0,
            ),
            StorePhase::Listing { rev_url, idx } => (idx as int) < self.channels@.len(),
            StorePhase::Releasing { rev_url, idx } => (idx as int) < self.channels@.len(),
            _ => true,
        }
    }

    /// Which event kind the current phase is waiting for.
    pub open spec fn accepts(&self, e: Event) -> bool {
        match self.phase {
            StorePhase::Building => e is Completed,
            StorePhase::AwaitDir => e is DirMade,
            StorePhase::Unpacking { .. } => e is Completed,
            StorePhase::Pulling { .. } => e is Completed,
            StorePhase::Pushing { .. } => e is Captured,
            StorePhase::AwaitCommit { .. } => e is Captured,
            StorePhase::Tagging { .. } => e is Completed,
            StorePhase::Closing { .. } => e is Completed,
            StorePhase::Listing { .. } => e is Captured,
            StorePhase::Releasing { .. } => e is Completed,
        }
    }

    /// Whether the temporary unpack directory exists in this phase.
    pub open spec fn dir_open(&self) -> bool {
        match self.phase {
            StorePhase::Unpacking { .. } => true,
            StorePhase::Pulling { .. } => true,
            StorePhase::Pushing { .. } => true,
            StorePhase::AwaitCommit { .. } => true,
            StorePhase::Tagging { .. } => true,
            StorePhase::Closing { .. } => true,
            _ => false,
        }
    }

    /// The fixed parameters never change from step to step.
    pub open spec fn same_params(self, m: StorePipeline) -> bool {
        m.charm == self.charm && m.url == self.url && m.channels == self.channels && m.supplied
            == self.supplied && m.destructive == self.destructive
    }
}

fn unzip_call(artifact: String, dir: &String) -> (c: ToolCall)
    ensures
        c.invoke == Invoke::Run,
        c.tool@ == "unzip"@,
        strs_view(c.args@) == spec_unzip_args(artifact@, dir@),
{
    let mut args: Vec<String> = Vec::new();
    let ghost av = artifact@;
    args.push(artifact);
    args.push(String::from_str("-d"));
    args.push(dir.clone());
    proof {
        assert(strs_view(args@) =~= spec_unzip_args(av, dir@));
    }
    ToolCall { invoke: Invoke::Run, tool: String::from_str("unzip"), args }
}

fn docker_pull_call(value: &String) -> (c: ToolCall)
    ensures
        c.invoke == Invoke::Run,
        c.tool@ == "docker"@,
        strs_view(c.args@) == seq!["pull"@, value@],
{
    let mut args: Vec<String> = Vec::new();
    args.push(String::from_str("pull"));
    args.push(value.clone());
    proof {
        assert(strs_view(args@) =~= seq!["pull"@, value@]);
    }
    ToolCall { invoke: Invoke::Run, tool: String::from_str("docker"), args }
}

fn push_call(dir: &String, url: &String, rs: &Vec<(String, String)>) -> (c: ToolCall)
    ensures
        c.invoke == Invoke::CaptureStdout,
        c.tool@ == "charm"@,
        strs_view(c.args@) == spec_push_args(dir@, url@, pair_seq_view(rs@)),
{
    let mut args: Vec<String> = Vec::new();
    args.push(String::from_str("push"));
    args.push(dir.clone());
    args.push(url.clone());
    let mut pairs = build_resource_pairs(rs);
    let ghost head = args@;
    args.append(&mut pairs);
    proof {
        assert forall|m: int| 0 <= m < args@.len() implies strs_view(args@)[m] == spec_push_args(
            dir@,
            url@,
            pair_seq_view(rs@),
        )[m] by {
            if m < head.len() {
                assert(args@[m] == head[m]);
            } else {
                assert(strs_view(args@)[m] == strs_view(args@.subrange(3, args@.len() as int))[m
                    - 3]);
            }
        }
        assert(strs_view(args@) =~= spec_push_args(dir@, url@, pair_seq_view(rs@)));
    }
    ToolCall { invoke: Invoke::CaptureStdout, tool: String::from_str("charm"), args }
}

fn list_resources_call(rev_url: &String) -> (c: ToolCall)
    ensures
        c.invoke == Invoke::CaptureStdout,
        c.tool@ == "charm"@,
        strs_view(c.args@) == seq!["list-resources"@, rev_url@, "--format"@, "yaml"@],
{
    let mut args: Vec<String> = Vec::new();
    args.push(String::from_str("list-resources"));
    args.push(rev_url.clone());
    args.push(String::from_str("--format"));
    args.push(String::from_str("yaml"));
    proof {
        assert(strs_view(args@) =~= seq!["list-resources"@, rev_url@, "--format"@, "yaml"@]);
    }
    ToolCall { invoke: Invoke::CaptureStdout, tool: String::from_str("charm"), args }
}

fn release_call(rev_url: &String, channel: &String, records: &Vec<(String, String)>) -> (c:
    ToolCall)
    ensures
        c.invoke == Invoke::Run,
        c.tool@ == "charm"@,
        strs_view(c.args@) == spec_release_args(rev_url@, channel@, pair_seq_view(records@)),
{
    let mut args: Vec<String> = Vec::new();
    args.push(String::from_str("release"));
    args.push(rev_url.clone());
    args.push(String::from_str("--channel"));
    args.push(channel.clone());
    let mut pairs = build_record_pairs(records);
    let ghost head = args@;
    args.append(&mut pairs);
    proof {
        assert forall|m: int| 0 <= m < args@.len() implies strs_view(args@)[m]
            == spec_release_args(rev_url@, channel@, pair_seq_view(records@))[m] by {
            if m < head.len() {
                assert(args@[m] == head[m]);
            } else {
                assert(strs_view(args@)[m] == strs_view(args@.subrange(4, args@.len() as int))[m
                    - 4]);
            }
        }
        assert(strs_view(args@) =~= spec_release_args(
            rev_url@,
            channel@,
            pair_seq_view(records@),
        ));
    }
    ToolCall { invoke: Invoke::Run, tool: String::from_str("charm"), args }
}

fn tag_call(rev_url: &String, commit: String) -> (c: ToolCall)
    ensures
        c.invoke == Invoke::Run,
        c.tool@ == "charm"@,
        strs_view(c.args@) == seq!["set"@, rev_url@, "commit="@ + commit@],
{
    let mut args: Vec<String> = Vec::new();
    let ghost cv = commit@;
    args.push(String::from_str("set"));
    args.push(rev_url.clone());
    args.push(String::from_str("commit=").concat(commit.as_str()));
    proof {
        assert(strs_view(args@) =~= seq!["set"@, rev_url@, "commit="@ + cv]);
    }
    ToolCall { invoke: Invoke::Run, tool: String::from_str("charm"), args }
}

fn rev_parse_call() -> (c: ToolCall)
    ensures
        c.invoke == Invoke::CaptureStdout,
        c.tool@ == "git"@,
        strs_view(c.args@) == seq!["rev-parse"@, "HEAD"@],
{
    let mut args: Vec<String> = Vec::new();
    args.push(String::from_str("rev-parse"));
    args.push(String::from_str("HEAD"));
    proof {
        assert(strs_view(args@) =~= seq!["rev-parse"@, "HEAD"@]);
    }
    ToolCall { invoke: Invoke::CaptureStdout, tool: String::from_str("git"), args }
}

fn process_error(tool: &str, msg: String) -> (e: JujuError)
    ensures
        e@ == JujuErrorV::Process(tool@, msg@),
{
    JujuError::Process(String::from_str(tool), msg)
}

} // verus!

verus! {

impl CharmSource {
    /// The file name of the built artifact.
    pub fn artifact_file_name(&self) -> (r: String)
        ensures
            r@ == spec_artifact(self.metadata.name@),
    {
        self.metadata.name.clone().concat("_ubuntu-20.04-amd64.charm")
    }

    /// The packaging call that builds the charm from its source, optionally
    /// in destructive mode.
    pub fn build(&self, destructive_mode: bool) -> (c: ToolCall)
        ensures
            c.invoke == Invoke::Run,
            c.tool@ == "charmcraft"@,
            strs_view(c.args@) == spec_pack_args(self.source@, destructive_mode),
    {
        let mut args: Vec<String> = Vec::new();
        args.push(String::from_str("pack"));
        args.push(String::from_str("-p"));
        args.push(self.source.clone());
        if destructive_mode {
            args.push(String::from_str("--destructive-mode"));
            proof {
                assert(strs_view(args@) =~= spec_pack_args(self.source@, destructive_mode));
            }
        } else {
            proof {
                assert(strs_view(args@) =~= spec_pack_args(self.source@, destructive_mode));
            }
        }
        ToolCall { invoke: Invoke::Run, tool: String::from_str("charmcraft"), args }
    }

    /// Start the store pipeline: the machine in its building phase, and the
    /// packaging call to perform first.
    pub fn upload_charm_store(
        self,
        url: String,
        resources: Vec<(String, String)>,
        to: Vec<String>,
        destructive_mode: bool,
    ) -> (r: (StorePipeline, ToolCall))
        ensures
            r.0.charm == self && r.0.url == url && r.0.channels == to && r.0.supplied == resources
                && r.0.destructive == destructive_mode,
            r.0.phase is Building && r.0.wf() && !r.0.dir_open(),
            r.1.invoke == Invoke::Run && r.1.tool@ == "charmcraft"@ && strs_view(r.1.args@)
                == spec_pack_args(self.source@, destructive_mode),
    {
        let call = self.build(destructive_mode);
        (
            StorePipeline {
                charm: self,
                url,
                channels: to,
                supplied: resources,
                destructive: destructive_mode,
                phase: StorePhase::Building,
            },
            call,
        )
    }
}

impl StorePipeline {
    /// Advance after the artifact is unpacked or one image pull completed:
    /// pull the next image resource, or push.
    fn advance(self, dir: String, resolved: Vec<(String, String)>, from: usize) -> (r: StoreStep)
        requires
            from <= resolved@.len(),
        ensures
            ({
                let meta = self.charm.metadata@.resources;
                let rs = pair_seq_view(resolved@);
                let k = spec_next_oci(meta, rs, from as int);
                r matches StoreStep::Next(m, a) && self.same_params(m) && m.wf() && ({
                    if k < rs.len() {
                        &&& m.phase matches StorePhase::Pulling { dir: d2, resolved: r2, next }
                            && d2 == dir && r2 == resolved && next as int == k
                        &&& a matches Action::Call(c) && c.invoke == Invoke::Run && c.tool@
                            == "docker"@ && strs_view(c.args@) == seq!["pull"@, rs[k].1]
                    } else {
                        &&& m.phase matches StorePhase::Pushing { dir: d2, resolved: r2 } && d2
                            == dir && r2 == resolved
                        &&& a matches Action::Call(c) && c.invoke == Invoke::CaptureStdout
                            && c.tool@ == "charm"@ && strs_view(c.args@) == spec_push_args(
                            dir@,
                            self.url@,
                            rs,
                        )
                    }
                })
            }),
    {
        let k = next_oci(&self.charm.metadata.resources, &resolved, from);
        if k < resolved.len() {
            let call = docker_pull_call(&resolved[k].1);
            proof {
                assert(pair_seq_view(resolved@)[k as int] == (
                    resolved@[k as int].0@,
                    resolved@[k as int].1@,
                ));
            }
            let m = StorePipeline {
                phase: StorePhase::Pulling { dir, resolved, next: k },
                ..self
            };
            StoreStep::Next(m, Action::Call(call))
        } else {
            let call = push_call(&dir, &self.url, &resolved);
            let m = StorePipeline { phase: StorePhase::Pushing { dir, resolved }, ..self };
            StoreStep::Next(m, Action::Call(call))
        }
    }
}

} // verus!

verus! {

impl StorePipeline {
    /// One step of the store pipeline: consume the event for the current
    /// phase and yield the next action, or the result.  A failure while
    /// promoting a channel ends the pipeline with an error naming that
    /// channel, so no later channel is ever attempted; and whenever the
    /// temporary directory is open, the pipeline ends only through the
    /// closing phase, whose entry is always the removal action.
    pub fn step(self, e: Event) -> (r: StoreStep)
        requires
            self.wf(),
            self.accepts(e),
        ensures
            r matches StoreStep::Next(m, a) ==> self.same_params(m) && m.wf() && ((
            m.phase is Closing) <==> a is RemoveTempDir),
            r is Done ==> (self.dir_open() ==> self.phase is Closing),
            ({
                let meta = self.charm.metadata@.resources;
                let sup = pair_seq_view(self.supplied@);
                let chans = self.channels@;
                match self.phase {
                    StorePhase::Building => match e {
                        Event::Completed(Ok(_)) => r matches StoreStep::Next(m, a) && m.phase
                            is AwaitDir && a is MakeTempDir,
                        Event::Completed(Err(msg)) => r matches StoreStep::Done(res) && res
                            matches Err(e2) && e2@ == JujuErrorV::Process("charmcraft"@, msg@),
                        _ => false,
                    },
                    StorePhase::AwaitDir => match e {
                        Event::DirMade(Ok(dir)) => r matches StoreStep::Next(m, a) && (m.phase
                            matches StorePhase::Unpacking { dir: d2 } && d2 == dir) && (a matches
                        Action::Call(c) && c.invoke == Invoke::Run && c.tool@ == "unzip"@
                            && strs_view(c.args@) == spec_unzip_args(
                            spec_artifact(self.charm.metadata.name@),
                            dir@,
                        )),
                        Event::DirMade(Err(msg)) => r matches StoreStep::Done(res) && res matches
                            Err(e2) && e2@ == JujuErrorV::Process("tempdir"@, msg@),
                        _ => false,
                    },
                    StorePhase::Unpacking { dir } => match e {
                        Event::Completed(Ok(_)) => (match spec_resolve(meta, sup, 0) {
                            Err(n) => r matches StoreStep::Next(m, a) && a is RemoveTempDir && (
                            m.phase matches StorePhase::Closing { outcome } && outcome matches Err(
                                e2,
                            ) && e2@ == JujuErrorV::ResourceNotFound(
                                n,
                                self.charm.metadata@.name,
                            )),
                            Ok(rs) => {
                                let k = spec_next_oci(meta, rs, 0);
                                r matches StoreStep::Next(m, a) && (if k < rs.len() {
                                    m.phase matches StorePhase::Pulling {
                                        dir: d2,
                                        resolved: r2,
                                        next,
                                    } && d2 == dir && pair_seq_view(r2@) == rs && next as int == k
                                        && (a matches Action::Call(c) && c.invoke == Invoke::Run
                                        && c.tool@ == "docker"@ && strs_view(c.args@) == seq![
                                        "pull"@,
                                        rs[k].1,
                                    ])
                                } else {
                                    m.phase matches StorePhase::Pushing { dir: d2, resolved: r2 }
                                        && d2 == dir && pair_seq_view(r2@) == rs && (a matches
                                    Action::Call(c) && c.invoke == Invoke::CaptureStdout && c.tool@
                                        == "charm"@ && strs_view(c.args@) == spec_push_args(
                                        dir@,
                                        self.url@,
                                        rs,
                                    ))
                                })
                            },
                        }),
                        Event::Completed(Err(msg)) => r matches StoreStep::Next(m, a) && a
                            is RemoveTempDir && (m.phase matches StorePhase::Closing { outcome }
                            && outcome matches Err(e2) && e2@ == JujuErrorV::Process(
                            "unzip"@,
                            msg@,
                        )),
                        _ => false,
                    },
                    StorePhase::Pulling { dir, resolved, next } => match e {
                        Event::Completed(Ok(_)) => {
                            let rs = pair_seq_view(resolved@);
                            let k = spec_next_oci(meta, rs, next + 1);
                            r matches StoreStep::Next(m, a) && (if k < rs.len() {
                                m.phase matches StorePhase::Pulling {
                                    dir: d2,
                                    resolved: r2,
                                    next: n2,
                                } && d2 == dir && r2 == resolved && n2 as int == k && (a matches
                                Action::Call(c) && c.invoke == Invoke::Run && c.tool@ == "docker"@
                                    && strs_view(c.args@) == seq!["pull"@, rs[k].1])
                            } else {
                                m.phase matches StorePhase::Pushing { dir: d2, resolved: r2 } && d2
                                    == dir && r2 == resolved && (a matches Action::Call(c)
                                    && c.invoke == Invoke::CaptureStdout && c.tool@ == "charm"@
                                    && strs_view(c.args@) == spec_push_args(dir@, self.url@, rs))
                            })
                        },
                        Event::Completed(Err(msg)) => r matches StoreStep::Next(m, a) && a
                            is RemoveTempDir && (m.phase matches StorePhase::Closing { outcome }
                            && outcome matches Err(e2) && e2@ == JujuErrorV::Process(
                            "docker"@,
                            msg@,
                        )),
                        _ => false,
                    },
                    StorePhase::Pushing { dir, resolved } => match e {
                        Event::Captured(Ok(bytes)) => (match crate::outparse::spec_push_url(
                            bytes@,
                        ) {
                            Ok(u) => r matches StoreStep::Next(m, a) && (m.phase matches
                                StorePhase::AwaitCommit { rev_url } && rev_url@ == u) && (a matches
                            Action::Call(c) && c.invoke == Invoke::CaptureStdout && c.tool@
                                == "git"@ && strs_view(c.args@) == seq!["rev-parse"@, "HEAD"@]),
                            Err(f) => r matches StoreStep::Next(m, a) && a is RemoveTempDir && (
                            m.phase matches StorePhase::Closing { outcome } && outcome matches Err(
                                e2,
                            ) && e2@ == JujuErrorV::MalformedOutput(f)),
                        }),
                        Event::Captured(Err(msg)) => r matches StoreStep::Next(m, a) && a
                            is RemoveTempDir && (m.phase matches StorePhase::Closing { outcome }
                            && outcome matches Err(e2) && e2@ == JujuErrorV::Process(
                            "charm"@,
                            msg@,
                        )),
                        _ => false,
                    },
                    StorePhase::AwaitCommit { rev_url } => match e {
                        Event::Captured(Ok(bytes)) => r matches StoreStep::Next(m, a) && (m.phase
                            matches StorePhase::Tagging { rev_url: r2 } && r2 == rev_url) && (a
                            matches Action::Call(c) && c.invoke == Invoke::Run && c.tool@
                            == "charm"@ && strs_view(c.args@) == seq![
                            "set"@,
                            rev_url@,
                            "commit="@ + crate::assoc::lossy_of(bytes@),
                        ]),
                        Event::Captured(Err(_)) => r matches StoreStep::Next(m, a) && a
                            is RemoveTempDir && (m.phase matches StorePhase::Closing { outcome }
                            && outcome matches Ok(u) && u == rev_url),
                        _ => false,
                    },
                    StorePhase::Tagging { rev_url } => match e {
                        Event::Completed(_) => r matches StoreStep::Next(m, a) && a
                            is RemoveTempDir && (m.phase matches StorePhase::Closing { outcome }
                            && outcome matches Ok(u) && u == rev_url),
                        _ => false,
                    },
                    StorePhase::Closing { outcome } => match e {
                        Event::Completed(_) => (match outcome {
                            Err(e2) => r matches StoreStep::Done(res) && res matches Err(e3) && e3
                                == e2,
                            Ok(u) => if chans.len() == 0 {
                                r matches StoreStep::Done(res) && res matches Ok(u2) && u2 == u
                            } else {
                                r matches StoreStep::Next(m, a) && (m.phase matches
                                    StorePhase::Listing { rev_url, idx } && rev_url == u && idx
                                    == 0) && (a matches Action::Call(c) && c.invoke
                                    == Invoke::CaptureStdout && c.tool@ == "charm"@ && strs_view(
                                    c.args@,
                                ) == seq!["list-resources"@, u@, "--format"@, "yaml"@])
                            },
                        }),
                        _ => false,
                    },
                    StorePhase::Listing { rev_url, idx } => match e {
                        Event::Captured(Ok(bytes)) => (match crate::pipeline::spec_list_records(
                            bytes@,
                        ) {
                            Ok(records) => r matches StoreStep::Next(m, a) && (m.phase matches
                                StorePhase::Releasing { rev_url: u2, idx: i2 } && u2 == rev_url
                                && i2 == idx) && (a matches Action::Call(c) && c.invoke
                                == Invoke::Run && c.tool@ == "charm"@ && strs_view(c.args@)
                                == spec_release_args(rev_url@, chans[idx as int]@, records)),
                            Err(f) => r matches StoreStep::Done(res) && res matches Err(e2) && e2@
                                == JujuErrorV::Promote(
                                chans[idx as int]@,
                                PromoteCauseV::MalformedOutput(f),
                            ),
                        }),
                        Event::Captured(Err(msg)) => r matches StoreStep::Done(res) && res matches
                            Err(e2) && e2@ == JujuErrorV::Promote(
                            chans[idx as int]@,
                            PromoteCauseV::Process("charm"@, msg@),
                        ),
                        _ => false,
                    },
                    StorePhase::Releasing { rev_url, idx } => match e {
                        Event::Completed(Ok(_)) => if idx + 1 < chans.len() {
                            r matches StoreStep::Next(m, a) && (m.phase matches
                                StorePhase::Listing { rev_url: u2, idx: i2 } && u2 == rev_url && i2
                                == idx + 1) && (a matches Action::Call(c) && c.invoke
                                == Invoke::CaptureStdout && c.tool@ == "charm"@ && strs_view(
                                c.args@,
                            ) == seq!["list-resources"@, rev_url@, "--format"@, "yaml"@])
                        } else {
                            r matches StoreStep::Done(res) && res matches Ok(u2) && u2 == rev_url
                        },
                        Event::Completed(Err(msg)) => r matches StoreStep::Done(res) && res
                            matches Err(e2) && e2@ == JujuErrorV::Promote(
                            chans[idx as int]@,
                            PromoteCauseV::Process("charm"@, msg@),
                        ),
                        _ => false,
                    },
                }
            }),
    {
        let StorePipeline { charm, url, channels, supplied, destructive, phase } = self;
        let this = StorePipeline {
            charm,
            url,
            channels,
            supplied,
            destructive,
            phase: StorePhase::Building,
        };
        match phase {
            StorePhase::Building => match e {
                Event::Completed(Ok(_)) => StoreStep::Next(
                    StorePipeline { phase: StorePhase::AwaitDir, ..this },
                    Action::MakeTempDir,
                ),
                Event::Completed(Err(msg)) => StoreStep::Done(
                    Err(process_error("charmcraft", msg)),
                ),
                _ => StoreStep::Done(Err(process_error("charmcraft", String::new()))),
            },
            StorePhase::AwaitDir => match e {
                Event::DirMade(Ok(dir)) => {
                    let call = unzip_call(this.charm.artifact_file_name(), &dir);
                    StoreStep::Next(
                        StorePipeline { phase: StorePhase::Unpacking { dir }, ..this },
                        Action::Call(call),
                    )
                },
                Event::DirMade(Err(msg)) => StoreStep::Done(Err(process_error("tempdir", msg))),
                _ => StoreStep::Done(Err(process_error("tempdir", String::new()))),
            },
            StorePhase::Unpacking { dir } => match e {
                Event::Completed(Ok(_)) => match this.charm.resources_with_defaults(
                    &this.supplied,
                ) {
                    Ok(resolved) => this.advance(dir, resolved, 0),
                    Err(err) => StoreStep::Next(
                        StorePipeline {
                            phase: StorePhase::Closing { outcome: Err(err) },
                            ..this
                        },
                        Action::RemoveTempDir,
                    ),
                },
                Event::Completed(Err(msg)) => StoreStep::Next(
                    StorePipeline {
                        phase: StorePhase::Closing {
                            outcome: Err(process_error("unzip", msg)),
                        },
                        ..this
                    },
                    Action::RemoveTempDir,
                ),
                _ => StoreStep::Done(Err(process_error("unzip", String::new()))),
            },
            StorePhase::Pulling { dir, resolved, next } => match e {
                Event::Completed(Ok(_)) => {
                    let total = resolved.len();
                    assert(next < total);
                    this.advance(dir, resolved, next + 1)
                },
                Event::Completed(Err(msg)) => StoreStep::Next(
                    StorePipeline {
                        phase: StorePhase::Closing {
                            outcome: Err(process_error("docker", msg)),
                        },
                        ..this
                    },
                    Action::RemoveTempDir,
                ),
                _ => StoreStep::Done(Err(process_error("docker", String::new()))),
            },
            StorePhase::Pushing { dir, resolved } => match e {
                Event::Captured(Ok(bytes)) => match crate::outparse::extract_push_url(&bytes) {
                    Ok(rev_url) => {
                        let call = rev_parse_call();
                        StoreStep::Next(
                            StorePipeline {
                                phase: StorePhase::AwaitCommit { rev_url },
                                ..this
                            },
                            Action::Call(call),
                        )
                    },
                    Err(err) => StoreStep::Next(
                        StorePipeline {
                            phase: StorePhase::Closing { outcome: Err(err) },
                            ..this
                        },
                        Action::RemoveTempDir,
                    ),
                },
                Event::Captured(Err(msg)) => StoreStep::Next(
                    StorePipeline {
                        phase: StorePhase::Closing {
                            outcome: Err(process_error("charm", msg)),
                        },
                        ..this
                    },
                    Action::RemoveTempDir,
                ),
                _ => StoreStep::Done(Err(process_error("charm", String::new()))),
            },
            StorePhase::AwaitCommit { rev_url } => match e {
                Event::Captured(Ok(bytes)) => {
                    let commit = crate::assoc::bytes_to_string_lossy(bytes.as_slice());
                    let call = tag_call(&rev_url, commit);
                    StoreStep::Next(
                        StorePipeline { phase: StorePhase::Tagging { rev_url }, ..this },
                        Action::Call(call),
                    )
                },
                Event::Captured(Err(_)) => StoreStep::Next(
                    StorePipeline {
                        phase: StorePhase::Closing { outcome: Ok(rev_url) },
                        ..this
                    },
                    Action::RemoveTempDir,
                ),
                _ => StoreStep::Done(Err(process_error("git", String::new()))),
            },
            StorePhase::Tagging { rev_url } => match e {
                Event::Completed(_) => StoreStep::Next(
                    StorePipeline {
                        phase: StorePhase::Closing { outcome: Ok(rev_url) },
                        ..this
                    },
                    Action::RemoveTempDir,
                ),
                _ => StoreStep::Done(Err(process_error("charm", String::new()))),
            },
            StorePhase::Closing { outcome } => match e {
                Event::Completed(_) => match outcome {
                    Err(err) => StoreStep::Done(Err(err)),
                    Ok(u) => {
                        if this.channels.len() == 0 {
                            StoreStep::Done(Ok(u))
                        } else {
                            let call = list_resources_call(&u);
                            StoreStep::Next(
                                StorePipeline {
                                    phase: StorePhase::Listing { rev_url: u, idx: 0 },
                                    ..this
                                },
                                Action::Call(call),
                            )
                        }
                    },
                },
                _ => StoreStep::Done(Err(process_error("tempdir", String::new()))),
            },
            StorePhase::Listing { rev_url, idx } => match e {
                Event::Captured(Ok(bytes)) => match parse_resource_records(&bytes) {
                    Ok(records) => {
                        let call = release_call(&rev_url, &this.channels[idx], &records);
                        StoreStep::Next(
                            StorePipeline {
                                phase: StorePhase::Releasing { rev_url, idx },
                                ..this
                            },
                            Action::Call(call),
                        )
                    },
                    Err(err) => {
                        let cause = match err {
                            JujuError::MalformedOutput(f) => PromoteCause::MalformedOutput(f),
                            _ => PromoteCause::MalformedOutput(OutputFault::NotAListing),
                        };
                        StoreStep::Done(
                            Err(JujuError::Promote(this.channels[idx].clone(), cause)),
                        )
                    },
                },
                Event::Captured(Err(msg)) => StoreStep::Done(
                    Err(
                        JujuError::Promote(
                            this.channels[idx].clone(),
                            PromoteCause::Process(String::from_str("charm"), msg),
                        ),
                    ),
                ),
                _ => StoreStep::Done(Err(process_error("charm", String::new()))),
            },
            StorePhase::Releasing { rev_url, idx } => match e {
                Event::Completed(Ok(_)) => {
                    let total = this.channels.len();
                    assert(idx < total);
                    if idx + 1 < total {
                        let call = list_resources_call(&rev_url);
                        StoreStep::Next(
                            StorePipeline {
                                phase: StorePhase::Listing { rev_url, idx: idx + 1 },
                                ..this
                            },
                            Action::Call(call),
                        )
                    } else {
                        StoreStep::Done(Ok(rev_url))
                    }
                },
                Event::Completed(Err(msg)) => StoreStep::Done(
                    Err(
                        JujuError::Promote(
                            this.channels[idx].clone(),
                            PromoteCause::Process(String::from_str("charm"), msg),
                        ),
                    ),
                ),
                _ => StoreStep::Done(Err(process_error("charm", String::new()))),
            },
        }
    }
}

} // verus!

verus! {

// ---------------------------------------------------------------------------
// Hub backend: build, upload each image resource, then upload the artifact
// with its channel releases in a single call.
// ---------------------------------------------------------------------------

/// Where the hub pipeline stands.
#[derive(Debug)]
pub enum HubPhase {
    /// The packaging tool is running.
    Building,
    /// The image resource at `idx` is being uploaded.
    Uploading { resolved: Vec<(String, String)>, idx: usize, resource_args: Vec<String> },
    /// The revision listing for the resource at `idx` is being read.
    ReadingRevisions { resolved: Vec<(String, String)>, idx: usize, resource_args: Vec<String> },
    /// The final upload call is running.
    FinalUpload,
}

/// The hub pipeline: build and upload one charm, releasing to the requested
/// channels in the upload call itself.
#[derive(Debug)]
pub struct HubPipeline {
    pub charm: CharmSource,
    pub url: String,
    pub channels: Vec<String>,
    pub supplied: Vec<(String, String)>,
    pub destructive: bool,
    pub phase: HubPhase,
}

/// What one hub step yields.
#[derive(Debug)]
pub enum HubStep {
    Next(HubPipeline, Action),
    Done(Result<String, JujuError>),
}

impl HubPipeline {
    /// The index held in the phase points at an image resource.
    pub open spec fn wf(&self) -> bool {
        match self.phase {
            HubPhase::Uploading { resolved, idx, resource_args } => (idx as int) < resolved@.len()
                && is_oci(
                self.charm.metadata@.resources,
                pair_seq_view(resolved@)[idx as int].0,
            ),
            HubPhase::ReadingRevisions { resolved, idx, resource_args } => (idx as int)
                < resolved@.len() && is_oci(
                self.charm.metadata@.resources,
                pair_seq_view(resolved@)[idx as int].0,
            ),
            _ => true,
        }
    }

    /// Which event kind the current phase is waiting for.
    pub open spec fn accepts(&self, e: Event) -> bool {
        match self.phase {
            HubPhase::Building => e is Completed,
            HubPhase::Uploading { .. } => e is Completed,
            HubPhase::ReadingRevisions { .. } => e is Captured,
            HubPhase::FinalUpload => e is Captured,
        }
    }

    /// The fixed parameters never change from step to step.
    pub open spec fn same_params(self, m: HubPipeline) -> bool {
        m.charm == self.charm && m.url == self.url && m.channels == self.channels && m.supplied
            == self.supplied && m.destructive == self.destructive
    }
}

fn upload_resource_call(name: &String, key: &String, value: &String) -> (c: ToolCall)
    ensures
        c.invoke == Invoke::Run,
        c.tool@ == "charmcraft"@,
        strs_view(c.args@) == seq!["upload-resource"@, name@, key@, "--image"@, value@],
{
    let mut args: Vec<String> = Vec::new();
    args.push(String::from_str("upload-resource"));
    args.push(name.clone());
    args.push(key.clone());
    args.push(String::from_str("--image"));
    args.push(value.clone());
    proof {
        assert(strs_view(args@) =~= seq!["upload-resource"@, name@, key@, "--image"@, value@]);
    }
    ToolCall { invoke: Invoke::Run, tool: String::from_str("charmcraft"), args }
}

fn resource_revisions_call(name: &String, key: &String) -> (c: ToolCall)
    ensures
        c.invoke == Invoke::CaptureStderr,
        c.tool@ == "charmcraft"@,
        strs_view(c.args@) == seq!["resource-revisions"@, name@, key@],
{
    let mut args: Vec<String> = Vec::new();
    args.push(String::from_str("resource-revisions"));
    args.push(name.clone());
    args.push(key.clone());
    proof {
        assert(strs_view(args@) =~= seq!["resource-revisions"@, name@, key@]);
    }
    ToolCall { invoke: Invoke::CaptureStderr, tool: String::from_str("charmcraft"), args }
}

fn upload_call(artifact: String, channels: &Vec<String>, resource_args: &Vec<String>) -> (c:
    ToolCall)
    ensures
        c.invoke == Invoke::CaptureStderr,
        c.tool@ == "charmcraft"@,
        strs_view(c.args@) == spec_upload_args(
            artifact@,
            strs_view(channels@),
            strs_view(resource_args@),
        ),
{
    let ghost av = artifact@;
    let mut args: Vec<String> = Vec::new();
    args.push(String::from_str("upload"));
    args.push(artifact);
    let mut flags = build_release_flags(channels);
    let ghost head = args@;
    let ghost flags_snap = flags@;
    args.append(&mut flags);
    let ghost mid = args@;
    let mut extra = resource_args.clone();
    let ghost extra_snap = extra@;
    args.append(&mut extra);
    proof {
        assert forall|m: int| 0 <= m < args@.len() implies strs_view(args@)[m] == spec_upload_args(
            av,
            strs_view(channels@),
            strs_view(resource_args@),
        )[m] by {
            if m < head.len() {
                assert(args@[m] == head[m]);
            } else if m < mid.len() {
                assert(args@[m] == flags_snap[m - head.len()]);
            } else {
                assert(args@[m] == extra_snap[m - mid.len()]);
                assert(extra_snap[m - mid.len()] == resource_args@[m - mid.len()]);
            }
        }
        assert(strs_view(args@) =~= spec_upload_args(
            av,
            strs_view(channels@),
            strs_view(resource_args@),
        ));
    }
    ToolCall { invoke: Invoke::CaptureStderr, tool: String::from_str("charmcraft"), args }
}

impl CharmSource {
    /// Start the hub pipeline: the machine in its building phase, and the
    /// packaging call to perform first.
    pub fn upload_charmhub(
        self,
        url: String,
        resources: Vec<(String, String)>,
        to: Vec<String>,
        destructive_mode: bool,
    ) -> (r: (HubPipeline, ToolCall))
        ensures
            r.0.charm == self && r.0.url == url && r.0.channels == to && r.0.supplied == resources
                && r.0.destructive == destructive_mode,
            r.0.phase is Building && r.0.wf(),
            r.1.invoke == Invoke::Run && r.1.tool@ == "charmcraft"@ && strs_view(r.1.args@)
                == spec_pack_args(self.source@, destructive_mode),
    {
        let call = self.build(destructive_mode);
        (
            HubPipeline {
                charm: self,
                url,
                channels: to,
                supplied: resources,
                destructive: destructive_mode,
                phase: HubPhase::Building,
            },
            call,
        )
    }
}

impl HubPipeline {
    /// Advance to uploading the next image resource, or to the final upload.
    fn advance(
        self,
        resolved: Vec<(String, String)>,
        from: usize,
        resource_args: Vec<String>,
    ) -> (r: HubStep)
        requires
            from <= resolved@.len(),
        ensures
            ({
                let meta = self.charm.metadata@.resources;
                let rs = pair_seq_view(resolved@);
                let k = spec_next_oci(meta, rs, from as int);
                r matches HubStep::Next(m, a) && self.same_params(m) && m.wf() && ({
                    if k < rs.len() {
                        &&& m.phase matches HubPhase::Uploading {
                            resolved: r2,
                            idx,
                            resource_args: ra,
                        } && r2 == resolved && idx as int == k && ra == resource_args
                        &&& a matches Action::Call(c) && c.invoke == Invoke::Run && c.tool@
                            == "charmcraft"@ && strs_view(c.args@) == seq![
                            "upload-resource"@,
                            self.charm.metadata.name@,
                            rs[k].0,
                            "--image"@,
                            rs[k].1,
                        ]
                    } else {
                        &&& m.phase is FinalUpload
                        &&& a matches Action::Call(c) && c.invoke == Invoke::CaptureStderr
                            && c.tool@ == "charmcraft"@ && strs_view(c.args@) == spec_upload_args(
                            spec_artifact(self.charm.metadata.name@),
                            strs_view(self.channels@),
                            strs_view(resource_args@),
                        )
                    }
                })
            }),
    {
        let k = next_oci(&self.charm.metadata.resources, &resolved, from);
        if k < resolved.len() {
            proof {
                assert(pair_seq_view(resolved@)[k as int] == (
                    resolved@[k as int].0@,
                    resolved@[k as int].1@,
                ));
            }
            let call = upload_resource_call(
                &self.charm.metadata.name,
                &resolved[k].0,
                &resolved[k].1,
            );
            let m = HubPipeline {
                phase: HubPhase::Uploading { resolved, idx: k, resource_args },
                ..self
            };
            HubStep::Next(m, Action::Call(call))
        } else {
            let artifact = self.charm.artifact_file_name();
            let call = upload_call(artifact, &self.channels, &resource_args);
            let m = HubPipeline { phase: HubPhase::FinalUpload, ..self };
            HubStep::Next(m, Action::Call(call))
        }
    }

    /// One step of the hub pipeline: consume the event for the current phase
    /// and yield the next action, or the result.
    pub fn step(self, e: Event) -> (r: HubStep)
        requires
            self.wf(),
            self.accepts(e),
        ensures
            r matches HubStep::Next(m, a) ==> self.same_params(m) && m.wf(),
            ({
                let meta = self.charm.metadata@.resources;
                let sup = pair_seq_view(self.supplied@);
                let name = self.charm.metadata.name@;
                match self.phase {
                    HubPhase::Building => match e {
                        Event::Completed(Ok(_)) => (match spec_resolve(meta, sup, 0) {
                            Err(n) => r matches HubStep::Done(res) && res matches Err(e2) && e2@
                                == JujuErrorV::ResourceNotFound(n, self.charm.metadata@.name),
                            Ok(rs) => {
                                let k = spec_next_oci(meta, rs, 0);
                                r matches HubStep::Next(m, a) && (if k < rs.len() {
                                    m.phase matches HubPhase::Uploading {
                                        resolved: r2,
                                        idx,
                                        resource_args: ra,
                                    } && pair_seq_view(r2@) == rs && idx as int == k && strs_view(
                                        ra@,
                                    ) == Seq::<Seq<char>>::empty() && (a matches Action::Call(c)
                                        && c.invoke == Invoke::Run && c.tool@ == "charmcraft"@
                                        && strs_view(c.args@) == seq![
                                        "upload-resource"@,
                                        name,
                                        rs[k].0,
                                        "--image"@,
                                        rs[k].1,
                                    ])
                                } else {
                                    m.phase is FinalUpload && (a matches Action::Call(c)
                                        && c.invoke == Invoke::CaptureStderr && c.tool@
                                        == "charmcraft"@ && strs_view(c.args@) == spec_upload_args(
                                        spec_artifact(name),
                                        strs_view(self.channels@),
                                        Seq::<Seq<char>>::empty(),
                                    ))
                                })
                            },
                        }),
                        Event::Completed(Err(msg)) => r matches HubStep::Done(res) && res matches
                            Err(e2) && e2@ == JujuErrorV::Process("charmcraft"@, msg@),
                        _ => false,
                    },
                    HubPhase::Uploading { resolved, idx, resource_args } => match e {
                        Event::Completed(Ok(_)) => r matches HubStep::Next(m, a) && (m.phase
                            matches HubPhase::ReadingRevisions {
                            resolved: r2,
                            idx: i2,
                            resource_args: ra,
                        } && r2 == resolved && i2 == idx && ra == resource_args) && (a matches
                        Action::Call(c) && c.invoke == Invoke::CaptureStderr && c.tool@
                            == "charmcraft"@ && strs_view(c.args@) == seq![
                            "resource-revisions"@,
                            name,
                            pair_seq_view(resolved@)[idx as int].0,
                        ]),
                        Event::Completed(Err(msg)) => r matches HubStep::Done(res) && res matches
                            Err(e2) && e2@ == JujuErrorV::Process("charmcraft"@, msg@),
                        _ => false,
                    },
                    HubPhase::ReadingRevisions { resolved, idx, resource_args } => match e {
                        Event::Captured(Ok(bytes)) => (match crate::outparse::spec_second_line_token(
                            bytes@,
                        ) {
                            Err(f) => r matches HubStep::Done(res) && res matches Err(e2) && e2@
                                == JujuErrorV::MalformedOutput(f),
                            Ok(t) => {
                                let rs = pair_seq_view(resolved@);
                                let ra2 = strs_view(resource_args@) + seq![
                                    "--resource="@ + rs[idx as int].0 + ":"@
                                        + crate::assoc::lossy_of(t),
                                ];
                                let k = spec_next_oci(meta, rs, idx + 1);
                                r matches HubStep::Next(m, a) && (if k < rs.len() {
                                    m.phase matches HubPhase::Uploading {
                                        resolved: r2,
                                        idx: i2,
                                        resource_args: ra,
                                    } && r2 == resolved && i2 as int == k && strs_view(ra@) == ra2
                                        && (a matches Action::Call(c) && c.invoke == Invoke::Run
                                        && c.tool@ == "charmcraft"@ && strs_view(c.args@) == seq![
                                        "upload-resource"@,
                                        name,
                                        rs[k].0,
                                        "--image"@,
                                        rs[k].1,
                                    ])
                                } else {
                                    m.phase is FinalUpload && (a matches Action::Call(c)
                                        && c.invoke == Invoke::CaptureStderr && c.tool@
                                        == "charmcraft"@ && strs_view(c.args@) == spec_upload_args(
                                        spec_artifact(name),
                                        strs_view(self.channels@),
                                        ra2,
                                    ))
                                })
                            },
                        }),
                        Event::Captured(Err(msg)) => r matches HubStep::Done(res) && res matches
                            Err(e2) && e2@ == JujuErrorV::Process("charmcraft"@, msg@),
                        _ => false,
                    },
                    HubPhase::FinalUpload => match e {
                        Event::Captured(Ok(bytes)) => (match crate::outparse::spec_upload_revision(
                            bytes@,
                        ) {
                            Ok(v) => r matches HubStep::Done(res) && res matches Ok(u) && u@
                                == self.url@ + "-"@ + crate::outparse::spec_decimal(v),
                            Err(f) => r matches HubStep::Done(res) && res matches Err(e2) && e2@
                                == JujuErrorV::MalformedOutput(f),
                        }),
                        Event::Captured(Err(msg)) => r matches HubStep::Done(res) && res matches
                            Err(e2) && e2@ == JujuErrorV::Process("charmcraft"@, msg@),
                        _ => false,
                    },
                }
            }),
    {
        let HubPipeline { charm, url, channels, supplied, destructive, phase } = self;
        let this = HubPipeline {
            charm,
            url,
            channels,
            supplied,
            destructive,
            phase: HubPhase::Building,
        };
        match phase {
            HubPhase::Building => match e {
                Event::Completed(Ok(_)) => match this.charm.resources_with_defaults(
                    &this.supplied,
                ) {
                    Ok(resolved) => this.advance(resolved, 0, Vec::new()),
                    Err(err) => HubStep::Done(Err(err)),
                },
                Event::Completed(Err(msg)) => HubStep::Done(Err(process_error("charmcraft", msg))),
                _ => HubStep::Done(Err(process_error("charmcraft", String::new()))),
            },
            HubPhase::Uploading { resolved, idx, resource_args } => match e {
                Event::Completed(Ok(_)) => {
                    proof {
                        assert(pair_seq_view(resolved@)[idx as int] == (
                            resolved@[idx as int].0@,
                            resolved@[idx as int].1@,
                        ));
                    }
                    let call = resource_revisions_call(&this.charm.metadata.name, &resolved[idx].0);
                    HubStep::Next(
                        HubPipeline {
                            phase: HubPhase::ReadingRevisions { resolved, idx, resource_args },
                            ..this
                        },
                        Action::Call(call),
                    )
                },
                Event::Completed(Err(msg)) => HubStep::Done(Err(process_error("charmcraft", msg))),
                _ => HubStep::Done(Err(process_error("charmcraft", String::new()))),
            },
            HubPhase::ReadingRevisions { resolved, idx, mut resource_args } => match e {
                Event::Captured(Ok(bytes)) => match crate::outparse::second_line_token(&bytes) {
                    Err(err) => HubStep::Done(Err(err)),
                    Ok(tok) => {
                        proof {
                            assert(pair_seq_view(resolved@)[idx as int] == (
                                resolved@[idx as int].0@,
                                resolved@[idx as int].1@,
                            ));
                        }
                        let flag = String::from_str("--resource=").concat(
                            resolved[idx].0.as_str(),
                        ).concat(":").concat(tok.as_str());
                        let ghost old_ra = resource_args@;
                        resource_args.push(flag);
                        proof {
                            assert forall|m: int| 0 <= m < old_ra.len() implies strs_view(
                                resource_args@,
                            )[m] == strs_view(old_ra)[m] by {
                                assert(resource_args@[m] == old_ra[m]);
                            }
                            assert(strs_view(resource_args@) =~= strs_view(old_ra) + seq![
                                "--resource="@ + pair_seq_view(resolved@)[idx as int].0 + ":"@
                                    + crate::assoc::lossy_of(
                                    crate::outparse::spec_second_line_token(bytes@)->Ok_0,
                                ),
                            ]);
                        }
                        let total = resolved.len();
                        assert(idx < total);
                        this.advance(resolved, idx + 1, resource_args)
                    },
                },
                Event::Captured(Err(msg)) => HubStep::Done(Err(process_error("charmcraft", msg))),
                _ => HubStep::Done(Err(process_error("charmcraft", String::new()))),
            },
            HubPhase::FinalUpload => match e {
                Event::Captured(Ok(bytes)) => match crate::outparse::parse_upload_revision(
                    &bytes,
                ) {
                    Ok(rev) => HubStep::Done(Ok(crate::outparse::published_url(&this.url, rev))),
                    Err(err) => HubStep::Done(Err(err)),
                },
                Event::Captured(Err(msg)) => HubStep::Done(Err(process_error("charmcraft", msg))),
                _ => HubStep::Done(Err(process_error("charmcraft", String::new()))),
            },
        }
    }
}

} // verus!
