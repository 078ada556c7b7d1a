use std::io::Write;

use charm_source::charm::CharmSource;
use charm_source::errors::JujuError;
use charm_source::pipeline::{Action, Event, StoreStep};

fn zip_bytes(entries: &[(&str, &str)]) -> Vec<u8> {
    let mut w = zip::ZipWriter::new(std::io::Cursor::new(Vec::new()));
    let options = zip::write::SimpleFileOptions::default();
    for (name, body) in entries {
        w.start_file(name.to_string(), options).unwrap();
        w.write_all(body.as_bytes()).unwrap();
    }
    w.finish().unwrap().into_inner()
}

const METADATA: &str = "name: zipped\ndescription: d\nsummary: s\n";
const CONFIG: &str = "options:\n  a:\n    type: string\n    description: x\n";

#[test]
fn zip_with_both_entries() {
    let archive = zip_bytes(&[("config.yaml", CONFIG), ("metadata.yaml", METADATA)]);
    let c = CharmSource::from_zip("a.charm", &archive).unwrap();
    assert_eq!(c.metadata.name, "zipped");
    assert!(c.config.is_some());
}

#[test]
fn zip_without_config_yields_none() {
    let archive = zip_bytes(&[("metadata.yaml", METADATA)]);
    let c = CharmSource::from_zip("a.charm", &archive).unwrap();
    assert!(c.config.is_none());
    assert_eq!(c.metadata.name, "zipped");
}

#[test]
fn zip_without_metadata_fails() {
    let archive = zip_bytes(&[("config.yaml", CONFIG)]);
    let r = CharmSource::from_zip("a.charm", &archive);
    assert_eq!(r.err(), Some(JujuError::MissingMetadata));
}

#[test]
fn zip_garbage_fails() {
    let r = CharmSource::from_zip("a.charm", &b"not a zip file".to_vec());
    assert_eq!(r.err(), Some(JujuError::BadArchive));
}

#[test]
fn zip_bad_metadata_schema_fails() {
    let archive = zip_bytes(&[("metadata.yaml", "name: a\nwhat: ever\n")]);
    let r = CharmSource::from_zip("a.charm", &archive);
    assert!(matches!(r, Err(JujuError::Schema(_))));
}

/// Drive the store machine with scripted tool outcomes, but perform the
/// temporary-directory actions for real.
fn drive_store(charm: CharmSource, events: Vec<Event>) -> (Result<String, JujuError>, std::path::PathBuf) {
    let (mut m, _call) = charm.upload_charm_store(
        "cs:~ns/app".to_string(),
        Vec::new(),
        Vec::new(),
        false,
    );
    let mut guard: Option<tempfile::TempDir> = None;
    let mut dir_path = std::path::PathBuf::new();
    let mut scripted = events.into_iter();
    let mut event = scripted.next().unwrap();
    loop {
        match m.step(event) {
            StoreStep::Done(r) => return (r, dir_path),
            StoreStep::Next(next, action) => {
                m = next;
                event = match action {
                    Action::MakeTempDir => {
                        let d = tempfile::TempDir::new().unwrap();
                        dir_path = d.path().to_path_buf();
                        let p = dir_path.to_string_lossy().into_owned();
                        guard = Some(d);
                        Event::DirMade(Ok(p))
                    }
                    Action::RemoveTempDir => {
                        drop(guard.take());
                        Event::Completed(Ok(()))
                    }
                    Action::Call(_) => scripted.next().unwrap(),
                };
            }
        }
    }
}

#[test]
fn temp_directory_removed_after_successful_push() {
    let md = b"name: myapp\ndescription: d\nsummary: s\n".to_vec();
    let charm = CharmSource::from_documents("/src/myapp", None, &md).unwrap();
    let (r, dir) = drive_store(
        charm,
        vec![
            Event::Completed(Ok(())),                                  // pack
            Event::Completed(Ok(())),                                  // unzip
            Event::Captured(Ok(b"url: cs:~ns/app-1\nlogs".to_vec())),  // push
            Event::Captured(Ok(b"abc\n".to_vec())),                    // rev-parse
            Event::Completed(Ok(())),                                  // tag
        ],
    );
    assert_eq!(r.unwrap(), "cs:~ns/app-1");
    assert!(!dir.exists());
}

#[test]
fn temp_directory_removed_after_failed_push() {
    let md = b"name: myapp\ndescription: d\nsummary: s\n".to_vec();
    let charm = CharmSource::from_documents("/src/myapp", None, &md).unwrap();
    let (r, dir) = drive_store(
        charm,
        vec![
            Event::Completed(Ok(())),                         // pack
            Event::Completed(Err("unzip failed".to_string())), // unzip fails
        ],
    );
    assert_eq!(
        r,
        Err(JujuError::Process("unzip".to_string(), "unzip failed".to_string()))
    );
    assert!(!dir.exists());
}

#[test]
fn zip_entry_with_non_text_contents_fails() {
    let mut w = zip::ZipWriter::new(std::io::Cursor::new(Vec::new()));
    let options = zip::write::SimpleFileOptions::default();
    w.start_file("metadata.yaml".to_string(), options).unwrap();
    w.write_all(&[0xff, 0xfe, 0x00, 0x80]).unwrap();
    let archive = w.finish().unwrap().into_inner();
    let r = CharmSource::from_zip("a.charm", &archive);
    assert_eq!(r.err(), Some(JujuError::UnreadableEntry));
}
