use charm_source::charm::CharmSource;
use charm_source::errors::{JujuError, OutputFault, PromoteCause};
use charm_source::outparse::{extract_push_url, parse_upload_revision, published_url, second_line_token, u32_decimal};
use charm_source::pipeline::{Action, Event, Invoke, StorePhase, StorePipeline, StoreStep, ToolCall};
use charm_source::pipeline::{parse_resource_records, HubStep};

fn charm_with_image() -> CharmSource {
    let md = b"name: myapp\ndescription: d\nsummary: s\nresources:\n  img:\n    type: oci-image\n    description: x\n    upstream-source: ubuntu:20.04\n".to_vec();
    CharmSource::from_documents("/src/myapp", None, &md).unwrap()
}

fn args_of(call: &ToolCall) -> Vec<&str> {
    call.args.iter().map(|s| s.as_str()).collect()
}

#[test]
fn resolver_uses_upstream_default() {
    let charm = charm_with_image();
    let resolved = charm.resources_with_defaults(&Vec::new()).unwrap();
    assert_eq!(resolved, vec![("img".to_string(), "ubuntu:20.04".to_string())]);
}

#[test]
fn resolver_prefers_supplied_value() {
    let charm = charm_with_image();
    let supplied = vec![("img".to_string(), "other:1".to_string())];
    let resolved = charm.resources_with_defaults(&supplied).unwrap();
    assert_eq!(resolved, vec![("img".to_string(), "other:1".to_string())]);
}

#[test]
fn resolver_ignores_undeclared_extras() {
    let charm = charm_with_image();
    let supplied = vec![("other".to_string(), "v".to_string())];
    let resolved = charm.resources_with_defaults(&supplied).unwrap();
    assert_eq!(resolved, vec![("img".to_string(), "ubuntu:20.04".to_string())]);
}

#[test]
fn resolver_fails_closed_with_names() {
    let md = b"name: myapp\ndescription: d\nsummary: s\nresources:\n  data:\n    type: file\n    description: x\n".to_vec();
    let charm = CharmSource::from_documents("/src/myapp", None, &md).unwrap();
    let r = charm.resources_with_defaults(&Vec::new());
    assert_eq!(
        r,
        Err(JujuError::ResourceNotFound("data".to_string(), "myapp".to_string()))
    );
}

#[test]
fn push_output_first_line_only() {
    let out = b"url: cs:~ns/app-1\n<docker push logs...>".to_vec();
    assert_eq!(extract_push_url(&out).unwrap(), "cs:~ns/app-1");
}

#[test]
fn push_output_needs_newline() {
    let out = b"url: cs:~ns/app-1".to_vec();
    assert_eq!(
        extract_push_url(&out),
        Err(JujuError::MalformedOutput(OutputFault::NoNewline))
    );
}

#[test]
fn push_output_needs_url_field() {
    let out = b"rev: \"12\"\nrest".to_vec();
    assert_eq!(
        extract_push_url(&out),
        Err(JujuError::MalformedOutput(OutputFault::NoUrlField))
    );
}

#[test]
fn second_line_first_token() {
    let out = b"Revision  Created at  Size\n3  2021-01-01  4MB\n".to_vec();
    assert_eq!(second_line_token(&out).unwrap(), "3");
    let short = b"only one line".to_vec();
    assert_eq!(
        second_line_token(&short),
        Err(JujuError::MalformedOutput(OutputFault::NoSecondLine))
    );
}

#[test]
fn upload_revision_after_fixed_prefix() {
    // Nine bytes of prefix, then the revision, then a space.
    let out = b"Revision 17 of 'myapp' created\n".to_vec();
    assert_eq!(parse_upload_revision(&out).unwrap(), 17);
    let nospace = b"Revision 17".to_vec();
    assert_eq!(
        parse_upload_revision(&nospace),
        Err(JujuError::MalformedOutput(OutputFault::NoSpace))
    );
    let short = b"Rev".to_vec();
    assert_eq!(
        parse_upload_revision(&short),
        Err(JujuError::MalformedOutput(OutputFault::TooShort))
    );
    let bad = b"Revision xx of\n".to_vec();
    assert_eq!(
        parse_upload_revision(&bad),
        Err(JujuError::MalformedOutput(OutputFault::NotDecimal))
    );
}

#[test]
fn decimal_rendering() {
    assert_eq!(u32_decimal(0), "0");
    assert_eq!(u32_decimal(17), "17");
    assert_eq!(u32_decimal(4294967295), "4294967295");
    assert_eq!(published_url("ns/myapp", 17), "ns/myapp-17");
}

fn expect_next(step: StoreStep) -> (StorePipeline, Action) {
    match step {
        StoreStep::Next(m, a) => (m, a),
        StoreStep::Done(r) => panic!("pipeline ended early: {:?}", r),
    }
}

fn expect_call(a: Action) -> ToolCall {
    match a {
        Action::Call(c) => c,
        other => panic!("expected a tool call, got {:?}", other),
    }
}

#[test]
fn store_pipeline_happy_path_with_pull() {
    // The oci-image resource is pulled before the push call (resolved from
    // its upstream default), and the first output line decides the URL.
    let charm = charm_with_image();
    let (m, call) = charm.upload_charm_store(
        "cs:~ns/app".to_string(),
        Vec::new(),
        vec!["stable".to_string()],
        false,
    );
    assert_eq!(call.tool, "charmcraft");
    assert_eq!(args_of(&call), ["pack", "-p", "/src/myapp"]);

    let (m, a) = expect_next(m.step(Event::Completed(Ok(()))));
    assert!(matches!(a, Action::MakeTempDir));
    let (m, a) = expect_next(m.step(Event::DirMade(Ok("/tmp/unpack".to_string()))));
    let c = expect_call(a);
    assert_eq!(c.tool, "unzip");
    assert_eq!(args_of(&c), ["myapp_ubuntu-20.04-amd64.charm", "-d", "/tmp/unpack"]);

    // After unpacking, the image resource is pulled.
    let (m, a) = expect_next(m.step(Event::Completed(Ok(()))));
    let c = expect_call(a);
    assert_eq!(c.tool, "docker");
    assert_eq!(args_of(&c), ["pull", "ubuntu:20.04"]);

    // Then the push happens with the resolved resource.
    let (m, a) = expect_next(m.step(Event::Completed(Ok(()))));
    let c = expect_call(a);
    assert_eq!(c.tool, "charm");
    assert_eq!(c.invoke, Invoke::CaptureStdout);
    assert_eq!(
        args_of(&c),
        ["push", "/tmp/unpack", "cs:~ns/app", "--resource", "img=ubuntu:20.04"]
    );

    // The push output's first line carries the revision URL.
    let (m, a) = expect_next(m.step(Event::Captured(Ok(
        b"url: cs:~ns/app-1\n<docker push logs...>".to_vec(),
    ))));
    let c = expect_call(a);
    assert_eq!(c.tool, "git");
    assert_eq!(args_of(&c), ["rev-parse", "HEAD"]);

    // Tagging is attempted with the commit, then the directory is removed.
    let (m, a) = expect_next(m.step(Event::Captured(Ok(b"abc123\n".to_vec()))));
    let c = expect_call(a);
    assert_eq!(c.tool, "charm");
    assert_eq!(args_of(&c), ["set", "cs:~ns/app-1", "commit=abc123\n"]);
    let (m, a) = expect_next(m.step(Event::Completed(Ok(()))));
    assert!(matches!(a, Action::RemoveTempDir));

    // Promotion of the single channel.
    let (m, a) = expect_next(m.step(Event::Completed(Ok(()))));
    let c = expect_call(a);
    assert_eq!(args_of(&c), ["list-resources", "cs:~ns/app-1", "--format", "yaml"]);
    let (m, a) = expect_next(m.step(Event::Captured(Ok(
        b"- name: img\n  revision: \"3\"\n".to_vec(),
    ))));
    let c = expect_call(a);
    assert_eq!(
        args_of(&c),
        ["release", "cs:~ns/app-1", "--channel", "stable", "--resource", "img-3"]
    );
    match m.step(Event::Completed(Ok(()))) {
        StoreStep::Done(r) => assert_eq!(r.unwrap(), "cs:~ns/app-1"),
        StoreStep::Next(_, a) => panic!("expected the end, got {:?}", a),
    }
}

#[test]
fn store_pipeline_tagging_is_best_effort() {
    let charm = charm_with_image();
    let (m, _) = charm.upload_charm_store("cs:~ns/app".to_string(), Vec::new(), Vec::new(), false);
    let (m, _) = expect_next(m.step(Event::Completed(Ok(()))));
    let (m, _) = expect_next(m.step(Event::DirMade(Ok("/tmp/u".to_string()))));
    let (m, _) = expect_next(m.step(Event::Completed(Ok(()))));
    let (m, _) = expect_next(m.step(Event::Completed(Ok(()))));
    let (m, _) = expect_next(m.step(Event::Captured(Ok(b"url: cs:~ns/app-2\nrest".to_vec()))));
    // The commit cannot be determined: the pipeline goes on.
    let (m, a) = expect_next(m.step(Event::Captured(Err("no git".to_string()))));
    assert!(matches!(a, Action::RemoveTempDir));
    match m.step(Event::Completed(Ok(()))) {
        StoreStep::Done(r) => assert_eq!(r.unwrap(), "cs:~ns/app-2"),
        StoreStep::Next(_, a) => panic!("expected the end, got {:?}", a),
    }
}

#[test]
fn promote_failure_stops_at_failing_channel() {
    // Three channels; the release call for the second fails.  The first
    // channel was released, the error names the second channel, and no call
    // for the third channel is ever issued.
    let charm = charm_with_image();
    let (m, _) = charm.upload_charm_store(
        "cs:~ns/app".to_string(),
        Vec::new(),
        vec!["edge".to_string(), "beta".to_string(), "stable".to_string()],
        false,
    );
    let (m, _) = expect_next(m.step(Event::Completed(Ok(()))));
    let (m, _) = expect_next(m.step(Event::DirMade(Ok("/tmp/u".to_string()))));
    let (m, _) = expect_next(m.step(Event::Completed(Ok(()))));
    let (m, _) = expect_next(m.step(Event::Completed(Ok(()))));
    let (m, _) = expect_next(m.step(Event::Captured(Ok(b"url: cs:~ns/app-9\nrest".to_vec()))));
    let (m, _) = expect_next(m.step(Event::Captured(Ok(b"abc\n".to_vec()))));
    let (m, a) = expect_next(m.step(Event::Completed(Ok(()))));
    assert!(matches!(a, Action::RemoveTempDir));

    // Channel one: listed and released.
    let (m, a) = expect_next(m.step(Event::Completed(Ok(()))));
    assert_eq!(args_of(&expect_call(a)), ["list-resources", "cs:~ns/app-9", "--format", "yaml"]);
    let (m, a) = expect_next(m.step(Event::Captured(Ok(b"[]\n".to_vec()))));
    assert_eq!(args_of(&expect_call(a)), ["release", "cs:~ns/app-9", "--channel", "edge"]);

    // Channel two: the release fails; the pipeline ends naming it.
    let (m, _) = expect_next(m.step(Event::Completed(Ok(()))));
    let (m, a) = expect_next(m.step(Event::Captured(Ok(b"[]\n".to_vec()))));
    assert_eq!(args_of(&expect_call(a)), ["release", "cs:~ns/app-9", "--channel", "beta"]);
    match m.step(Event::Completed(Err("denied".to_string()))) {
        StoreStep::Done(Err(JujuError::Promote(channel, cause))) => {
            assert_eq!(channel, "beta");
            assert_eq!(
                cause,
                PromoteCause::Process("charm".to_string(), "denied".to_string())
            );
        }
        other => panic!("expected a promote failure, got {:?}", other),
    }
    // The machine was consumed by the final step: channel three is
    // unreachable, no further action can be requested.
}

#[test]
fn store_resolution_failure_still_cleans_up() {
    let md = b"name: myapp\ndescription: d\nsummary: s\nresources:\n  data:\n    type: file\n    description: x\n".to_vec();
    let charm = CharmSource::from_documents("/src/myapp", None, &md).unwrap();
    let (m, _) = charm.upload_charm_store("cs:~ns/app".to_string(), Vec::new(), Vec::new(), false);
    let (m, _) = expect_next(m.step(Event::Completed(Ok(()))));
    let (m, _) = expect_next(m.step(Event::DirMade(Ok("/tmp/u".to_string()))));
    // Unzip succeeded, but resolution fails: the directory is removed first.
    let (m, a) = expect_next(m.step(Event::Completed(Ok(()))));
    assert!(matches!(a, Action::RemoveTempDir));
    assert!(matches!(m.phase, StorePhase::Closing { .. }));
    match m.step(Event::Completed(Ok(()))) {
        StoreStep::Done(r) => assert_eq!(
            r,
            Err(JujuError::ResourceNotFound("data".to_string(), "myapp".to_string()))
        ),
        StoreStep::Next(_, a) => panic!("expected the end, got {:?}", a),
    }
}

#[test]
fn hub_pipeline_uploads_images_and_releases() {
    let charm = charm_with_image();
    let (m, call) = charm.upload_charmhub(
        "ns/myapp".to_string(),
        Vec::new(),
        vec!["latest/edge".to_string()],
        true,
    );
    assert_eq!(args_of(&call), ["pack", "-p", "/src/myapp", "--destructive-mode"]);

    let s = m.step(Event::Completed(Ok(())));
    let (m, a) = match s {
        HubStep::Next(m, a) => (m, a),
        HubStep::Done(r) => panic!("ended early: {:?}", r),
    };
    let c = expect_call(a);
    assert_eq!(
        args_of(&c),
        ["upload-resource", "myapp", "img", "--image", "ubuntu:20.04"]
    );

    let (m, a) = match m.step(Event::Completed(Ok(()))) {
        HubStep::Next(m, a) => (m, a),
        HubStep::Done(r) => panic!("ended early: {:?}", r),
    };
    let c = expect_call(a);
    assert_eq!(c.invoke, Invoke::CaptureStderr);
    assert_eq!(args_of(&c), ["resource-revisions", "myapp", "img"]);

    let (m, a) = match m.step(Event::Captured(Ok(b"Revision  Created\n7  now\n".to_vec()))) {
        HubStep::Next(m, a) => (m, a),
        HubStep::Done(r) => panic!("ended early: {:?}", r),
    };
    let c = expect_call(a);
    assert_eq!(
        args_of(&c),
        [
            "upload",
            "myapp_ubuntu-20.04-amd64.charm",
            "--release=latest/edge",
            "--resource=img:7",
        ]
    );

    match m.step(Event::Captured(Ok(b"Revision 42 of 'myapp' created\n".to_vec()))) {
        HubStep::Done(r) => assert_eq!(r.unwrap(), "ns/myapp-42"),
        HubStep::Next(_, a) => panic!("expected the end, got {:?}", a),
    }
}

#[test]
fn push_output_first_line_must_be_a_string_mapping() {
    let list = b"- 1\nrest".to_vec();
    assert_eq!(
        extract_push_url(&list),
        Err(JujuError::MalformedOutput(OutputFault::NotAMapping))
    );
    let non_string = b"url: 3\nrest".to_vec();
    assert_eq!(
        extract_push_url(&non_string),
        Err(JujuError::MalformedOutput(OutputFault::NotAMapping))
    );
}

#[test]
fn listing_must_be_records_with_name_and_revision() {
    let not_a_list = b"name: x\n".to_vec();
    assert_eq!(
        parse_resource_records(&not_a_list),
        Err(JujuError::MalformedOutput(OutputFault::NotAListing))
    );
    let missing_revision = b"- name: img\n".to_vec();
    assert_eq!(
        parse_resource_records(&missing_revision),
        Err(JujuError::MalformedOutput(OutputFault::BadRecord))
    );
    let good = b"- name: img\n  revision: \"3\"\n  size: 4MB\n".to_vec();
    assert_eq!(
        parse_resource_records(&good).unwrap(),
        vec![("img".to_string(), "3".to_string())]
    );
}
