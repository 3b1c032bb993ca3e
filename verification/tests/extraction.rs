use std::io::{Cursor, Write};

use crossover_mod_manager::extraction::{extraction_plan, ExtractStep};
use zip::write::SimpleFileOptions;
use zip::{CompressionMethod, ZipWriter};

fn archive_of(entries: &[(&str, Option<&[u8]>)]) -> Vec<u8> {
    let mut w = ZipWriter::new(Cursor::new(Vec::new()));
    let options = SimpleFileOptions::default().compression_method(CompressionMethod::Stored);
    for (name, contents) in entries {
        match contents {
            None => w.add_directory(*name, options).unwrap(),
            Some(bytes) => {
                w.start_file(*name, options).unwrap();
                w.write_all(bytes).unwrap();
            }
        }
    }
    w.finish().unwrap().into_inner()
}

#[test]
fn extraction_plan_has_one_step_per_entry_in_order() {
    let archive = archive_of(&[
        ("mymod/", None),
        ("mymod/archive/pc/mod/a.archive", Some(b"AAA")),
        ("readme.txt", Some(b"hello")),
    ]);
    let steps = extraction_plan("/tmp/x", &archive).unwrap();
    assert_eq!(steps.len(), 3);
    match &steps[0] {
        ExtractStep::CreateDir(p) => assert_eq!(p, "/tmp/x/mymod/"),
        other => panic!("expected a folder, got {:?}", other),
    }
    match &steps[1] {
        ExtractStep::WriteFile(p, bytes) => {
            assert_eq!(p, "/tmp/x/mymod/archive/pc/mod/a.archive");
            assert_eq!(bytes, b"AAA");
        }
        other => panic!("expected a file, got {:?}", other),
    }
    match &steps[2] {
        ExtractStep::WriteFile(p, bytes) => {
            assert_eq!(p, "/tmp/x/readme.txt");
            assert_eq!(bytes, b"hello");
        }
        other => panic!("expected a file, got {:?}", other),
    }
}

#[test]
fn empty_archive_plans_nothing() {
    let archive = archive_of(&[]);
    assert_eq!(extraction_plan("/tmp/x", &archive).unwrap().len(), 0);
}

#[test]
fn bytes_that_are_no_zip_are_refused() {
    let e = extraction_plan("/tmp/x", b"this is not a zip archive").unwrap_err();
    assert!(e.starts_with("Failed to read archive: "), "{}", e);
}
