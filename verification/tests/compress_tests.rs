use flash::compress::archive_result;
use flash::compress::compress;
use flash::compress::compress_file_to_zip;
use flash::compress::compress_folder_to_zip;
use flash::compress::compress_to_tar;
use flash::compress::compress_to_tar_gz;
use flash::compress::join_components;
use flash::compress::ArchiveRequest;
use flash::compress::CompressionFormat;
use flash::compress::FileMeta;
use flash::compress::Node;
use flash::compress::NodeKind;
use flash::compress::Source;
use flash::error::ErrorKind;
use std::io::Read;

const META: FileMeta = FileMeta { mode: 0o100644, mtime: 1_700_000_000, uid: 1000, gid: 100 };

/// The entries of a zip archive: name, whether it is a directory, content.
fn unzip(bytes: &[u8]) -> Vec<(String, bool, Vec<u8>)> {
    let mut archive = zip::ZipArchive::new(std::io::Cursor::new(bytes.to_vec())).unwrap();
    let mut entries = Vec::new();
    for i in 0..archive.len() {
        let mut file = archive.by_index(i).unwrap();
        let name = file.name().unwrap().to_string();
        let is_dir = file.is_dir();
        let mut content = Vec::new();
        file.read_to_end(&mut content).unwrap();
        entries.push((name, is_dir, content));
    }
    entries
}

/// The entries of a tar archive: path, permission bits, modification time, content.
fn untar(bytes: &[u8]) -> Vec<(String, u32, u64, Vec<u8>)> {
    let mut archive = tar::Archive::new(bytes);
    let mut entries = Vec::new();
    for entry in archive.entries().unwrap() {
        let mut entry = entry.unwrap();
        let path = entry.path().unwrap().to_string_lossy().to_string();
        let mode = entry.header().mode().unwrap();
        let mtime = entry.header().mtime().unwrap();
        let mut content = Vec::new();
        entry.read_to_end(&mut content).unwrap();
        entries.push((path, mode, mtime, content));
    }
    entries
}

fn gunzip(bytes: &[u8]) -> Vec<u8> {
    let mut plain = Vec::new();
    flate2::read::GzDecoder::new(bytes).read_to_end(&mut plain).unwrap();
    plain
}

fn file(path: &str, content: &[u8]) -> Node {
    Node { path: path.to_string(), kind: NodeKind::File, content: content.to_vec(), meta: META }
}

fn dir(path: &str) -> Node {
    Node {
        path: path.to_string(),
        kind: NodeKind::Directory,
        content: Vec::new(),
        meta: FileMeta { mode: 0o040755, mtime: 1_700_000_000, uid: 1000, gid: 100 },
    }
}

fn unreadable(path: &str) -> Node {
    Node { path: path.to_string(), kind: NodeKind::Unreadable, content: Vec::new(), meta: META }
}

/// A traversal of a directory with nested directories, two empty
/// directories and one file that could not be read.
fn tree() -> Vec<Node> {
    vec![
        dir(""),
        file("a.txt", b"abc\n"),
        dir("sub"),
        file("sub/b.bin", &[0u8, 1, 2, 3, 255]),
        dir("sub/deep"),
        file("sub/deep/c.txt", b""),
        dir("sub/empty"),
        dir("sub-sibling"),
        unreadable("sub/locked"),
        file("sub/deep/d.txt", &vec![7u8; 70_000]),
        dir("empty"),
        file("empty.txt", b"not inside the directory called empty"),
    ]
}

#[test]
fn test_compress_file_to_zip() {
    let test_file = "test_file.txt";
    let bytes = compress_file_to_zip(test_file, b"hello world\n").unwrap();
    assert!(!bytes.is_empty());
    assert_eq!(
        unzip(&bytes),
        vec![("test_file.txt".to_string(), false, b"hello world\n".to_vec())]
    );
}

#[test]
fn test_compress_folder_to_zip() {
    let nodes = vec![dir(""), file("a.txt", b"abc\n")];
    let bytes = compress_folder_to_zip(&nodes).unwrap();
    assert!(!bytes.is_empty());
    assert_eq!(unzip(&bytes), vec![("a.txt".to_string(), false, b"abc\n".to_vec())]);
}

#[test]
fn single_file_round_trip_in_every_format() {
    let content: Vec<u8> = (0..5000u32).map(|i| (i * 7 % 256) as u8).collect();
    let source = Source::File { name: "report.pdf".to_string(), content: content.clone(), meta: META };

    let zipped = compress(&source, CompressionFormat::Zip).unwrap();
    assert_eq!(unzip(&zipped), vec![("report.pdf".to_string(), false, content.clone())]);

    let tarred = compress(&source, CompressionFormat::Tar).unwrap();
    assert_eq!(
        untar(&tarred),
        vec![("report.pdf".to_string(), 0o100644, 1_700_000_000, content.clone())]
    );
    assert_eq!(tarred.len() % 512, 0);

    let gzipped = compress(&source, CompressionFormat::TarGz).unwrap();
    assert_eq!(gzipped[..2], [0x1f, 0x8b]);
    assert_eq!(gunzip(&gzipped), tarred);
}

#[test]
fn directory_keeps_every_path_and_content() {
    let nodes = tree();
    let files: Vec<&Node> = nodes.iter().filter(|n| n.kind == NodeKind::File).collect();
    assert_eq!(files.len(), 5);

    let zipped = unzip(&compress_folder_to_zip(&nodes).unwrap());
    // Five files and three empty directories; the source directory itself,
    // the directories that hold something and the unreadable file have no entry.
    assert_eq!(zipped.len(), 8);
    let names: Vec<&str> = zipped.iter().map(|e| e.0.as_str()).collect();
    assert_eq!(
        names,
        vec![
            "a.txt",
            "sub/b.bin",
            "sub/deep/c.txt",
            "sub/empty/",
            "sub-sibling/",
            "sub/deep/d.txt",
            "empty/",
            "empty.txt",
        ]
    );
    for node in &files {
        let entry = zipped.iter().find(|e| e.0 == node.path).unwrap();
        assert!(!entry.1);
        assert_eq!(entry.2, node.content);
    }
    for entry in zipped.iter().filter(|e| e.0.ends_with('/')) {
        assert!(entry.1);
        assert!(entry.2.is_empty());
    }

    let source = Source::Directory { nodes: tree() };
    let tarred = untar(&compress_to_tar(&source).unwrap());
    assert_eq!(tarred.len(), 5);
    for (entry, node) in tarred.iter().zip(files.iter()) {
        assert_eq!(entry.0, node.path);
        assert_eq!(entry.1, 0o100644);
        assert_eq!(entry.2, 1_700_000_000);
        assert_eq!(entry.3, node.content);
    }

    let plain = compress_to_tar(&source).unwrap();
    assert_eq!(gunzip(&compress_to_tar_gz(&source).unwrap()), plain);
    assert_eq!(compress(&source, CompressionFormat::Tar).unwrap(), plain);
}

#[test]
fn archives_depend_on_the_source_alone() {
    let first = compress(&Source::Directory { nodes: tree() }, CompressionFormat::Zip).unwrap();
    let second = compress(&Source::Directory { nodes: tree() }, CompressionFormat::Zip).unwrap();
    assert_eq!(first, second);
    assert_eq!(first, compress_folder_to_zip(&tree()).unwrap());
    let first = compress(&Source::Directory { nodes: tree() }, CompressionFormat::TarGz).unwrap();
    let second = compress(&Source::Directory { nodes: tree() }, CompressionFormat::TarGz).unwrap();
    assert_eq!(first, second);
}

#[test]
fn tar_records_the_metadata() {
    let meta = FileMeta { mode: 0o100755, mtime: 86_400, uid: 0, gid: 0 };
    let source = Source::File { name: "run.sh".to_string(), content: b"#!/bin/sh\n".to_vec(), meta };
    let bytes = compress_to_tar(&source).unwrap();
    let mut archive = tar::Archive::new(&bytes[..]);
    let entry = archive.entries().unwrap().next().unwrap().unwrap();
    assert_eq!(entry.header().mode().unwrap(), 0o100755);
    assert_eq!(entry.header().mtime().unwrap(), 86_400);
    assert_eq!(entry.header().uid().unwrap(), 0);
    assert_eq!(entry.header().gid().unwrap(), 0);
    assert_eq!(entry.header().size().unwrap(), 10);
    assert!(entry.header().entry_type().is_file());
}

#[test]
fn missing_source_is_invalid_input() {
    for format in [CompressionFormat::Zip, CompressionFormat::Tar, CompressionFormat::TarGz] {
        assert_eq!(compress(&Source::Missing, format), Err(ErrorKind::InvalidInput));
    }
}

#[test]
fn writer_failures_are_archive_errors() {
    // Two files under one name: the zip writer refuses the second.
    let nodes = vec![file("twice.txt", b"1"), file("twice.txt", b"2")];
    assert_eq!(compress_folder_to_zip(&nodes), Err(ErrorKind::ArchiveIo));
    // A path that leaves the archive: the tar builder refuses it.
    let source = Source::File { name: "../escape".to_string(), content: Vec::new(), meta: META };
    assert_eq!(compress(&source, CompressionFormat::Tar), Err(ErrorKind::ArchiveIo));
    assert_eq!(compress(&source, CompressionFormat::TarGz), Err(ErrorKind::ArchiveIo));

    let ok: Result<u8, String> = Ok(7);
    assert_eq!(archive_result(ok), Ok(7));
    let failed: Result<u8, String> = Err("disk full".to_string());
    assert_eq!(archive_result(failed), Err(ErrorKind::ArchiveIo));
}

#[test]
fn empty_directory_and_empty_file() {
    let empty_dir = Source::Directory { nodes: vec![dir("")] };
    assert!(unzip(&compress(&empty_dir, CompressionFormat::Zip).unwrap()).is_empty());
    assert!(untar(&compress(&empty_dir, CompressionFormat::Tar).unwrap()).is_empty());

    let empty_file = Source::File { name: "empty".to_string(), content: Vec::new(), meta: META };
    assert_eq!(
        unzip(&compress(&empty_file, CompressionFormat::Zip).unwrap()),
        vec![("empty".to_string(), false, Vec::new())]
    );
}

#[test]
fn long_and_non_ascii_paths() {
    let long = format!("{}/{}", "d".repeat(120), "f".repeat(120));
    let nodes = vec![file(&long, b"x"), file("ünï/cödé.txt", b"y"), dir("ünï/leer")];
    let zipped = unzip(&compress_folder_to_zip(&nodes).unwrap());
    assert_eq!(zipped[0].0, long);
    assert_eq!(zipped[1].0, "ünï/cödé.txt");
    assert_eq!(zipped[2].0, "ünï/leer/");
    let tarred = untar(&compress_to_tar(&Source::Directory { nodes }).unwrap());
    assert_eq!(tarred[0].0, long);
    assert_eq!(tarred[1].0, "ünï/cödé.txt");
    assert_eq!(tarred.len(), 2);
}

#[test]
fn relative_paths_use_forward_slashes() {
    let parts = |names: &[&str]| -> Vec<String> { names.iter().map(|n| n.to_string()).collect() };
    assert_eq!(join_components(&parts(&[])), "");
    assert_eq!(join_components(&parts(&["a.txt"])), "a.txt");
    assert_eq!(join_components(&parts(&["sub", "deep", "c.txt"])), "sub/deep/c.txt");
    assert_eq!(join_components(&parts(&["", ""])), "/");
    assert_eq!(join_components(&parts(&["ünï", "cödé"])), "ünï/cödé");
}

#[test]
fn requests_exist_for_present_sources_only() {
    assert_eq!(
        ArchiveRequest::new(Source::Missing, CompressionFormat::Zip).err(),
        Some(ErrorKind::InvalidInput)
    );
    let source = Source::File { name: "a".to_string(), content: b"A".to_vec(), meta: META };
    let request = ArchiveRequest::new(source, CompressionFormat::Tar).unwrap();
    assert_eq!(request.format(), CompressionFormat::Tar);
    assert_eq!(
        untar(&request.build().unwrap()),
        vec![("a".to_string(), 0o100644, 1_700_000_000, b"A".to_vec())]
    );
}

#[test]
fn zip_entries_carry_the_earliest_time_stamp() {
    let nodes = vec![file("a.txt", b"abc\n"), dir("empty")];
    let bytes = compress_folder_to_zip(&nodes).unwrap();
    let mut archive = zip::ZipArchive::new(std::io::Cursor::new(bytes)).unwrap();
    assert_eq!(archive.len(), 2);
    for i in 0..archive.len() {
        let entry = archive.by_index(i).unwrap();
        let stamp = entry.last_modified().unwrap();
        assert_eq!(
            (stamp.year(), stamp.month(), stamp.day(), stamp.hour(), stamp.minute(), stamp.second()),
            (1980, 1, 1, 0, 0, 0)
        );
    }
}

#[test]
fn an_archive_is_returned_wherever_the_writers_take_the_plan() {
    // The same plan is taken or refused every time, whatever the format of the call.
    let good = || Source::Directory { nodes: tree() };
    for format in [CompressionFormat::Zip, CompressionFormat::Tar, CompressionFormat::TarGz] {
        assert!(compress(&good(), format).is_ok());
        assert!(ArchiveRequest::new(good(), format).unwrap().build().is_ok());
    }
    let absolute = || Source::File { name: "/etc/passwd".to_string(), content: Vec::new(), meta: META };
    assert!(compress(&absolute(), CompressionFormat::Zip).is_ok());
    assert_eq!(compress(&absolute(), CompressionFormat::Tar), Err(ErrorKind::ArchiveIo));
    assert_eq!(compress(&absolute(), CompressionFormat::TarGz), Err(ErrorKind::ArchiveIo));
    let nameless = || Source::File { name: String::new(), content: b"x".to_vec(), meta: META };
    assert_eq!(compress(&nameless(), CompressionFormat::Tar), Err(ErrorKind::ArchiveIo));
    let repeated = vec![dir("d"), dir("d")];
    assert_eq!(compress_folder_to_zip(&repeated), Err(ErrorKind::ArchiveIo));
    let long_name = "n".repeat(70_000);
    assert_eq!(compress_file_to_zip(&long_name, b"x"), Err(ErrorKind::ArchiveIo));
}
