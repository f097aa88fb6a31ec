use flash::compress::archive_file_name;
use flash::compress::format_from_lowercase;
use flash::compress::CompressionFormat;
use std::str::FromStr;

#[test]
fn extensions() {
    assert_eq!(CompressionFormat::Zip.extension(), "zip");
    assert_eq!(CompressionFormat::Tar.extension(), "tar");
    assert_eq!(CompressionFormat::TarGz.extension(), "tar.gz");
}

#[test]
fn descriptions() {
    assert_eq!(CompressionFormat::Zip.description(), "ZIP archive (compressed)");
    assert_eq!(CompressionFormat::Tar.description(), "TAR archive (uncompressed)");
    assert_eq!(
        CompressionFormat::TarGz.description(),
        "TAR.GZ archive (gzip compressed)"
    );
}

#[test]
fn default_format_is_zip() {
    assert_eq!(CompressionFormat::default(), CompressionFormat::Zip);
}

#[test]
fn parse_known_names() {
    assert_eq!(CompressionFormat::parse("zip"), Ok(CompressionFormat::Zip));
    assert_eq!(CompressionFormat::parse("ZIP"), Ok(CompressionFormat::Zip));
    assert_eq!(CompressionFormat::parse("tar"), Ok(CompressionFormat::Tar));
    assert_eq!(CompressionFormat::parse("Tar"), Ok(CompressionFormat::Tar));
    assert_eq!(CompressionFormat::parse("tar.gz"), Ok(CompressionFormat::TarGz));
    assert_eq!(CompressionFormat::parse("TAR.GZ"), Ok(CompressionFormat::TarGz));
    assert_eq!(CompressionFormat::parse("tgz"), Ok(CompressionFormat::TarGz));
    assert_eq!(CompressionFormat::parse("targe"), Ok(CompressionFormat::TarGz));
    assert_eq!(CompressionFormat::parse("tar-gz "), Ok(CompressionFormat::TarGz));
}

#[test]
fn parse_unknown_names() {
    assert_eq!(
        CompressionFormat::parse("rar"),
        Err("Unknown compression format: rar".to_string())
    );
    assert_eq!(
        CompressionFormat::parse(""),
        Err("Unknown compression format: ".to_string())
    );
    assert_eq!(
        CompressionFormat::parse("Zip "),
        Err("Unknown compression format: Zip ".to_string())
    );
    assert_eq!(
        CompressionFormat::parse("tar-gz"),
        Err("Unknown compression format: tar-gz".to_string())
    );
}

#[test]
fn from_str_is_parse() {
    assert_eq!(CompressionFormat::from_str("TGZ"), Ok(CompressionFormat::TarGz));
    assert_eq!(
        "7z".parse::<CompressionFormat>(),
        Err("Unknown compression format: 7z".to_string())
    );
}

#[test]
fn lowercase_names_only() {
    assert_eq!(format_from_lowercase("zip"), Some(CompressionFormat::Zip));
    assert_eq!(format_from_lowercase("ZIP"), None);
    assert_eq!(format_from_lowercase("tgz"), Some(CompressionFormat::TarGz));
    assert_eq!(format_from_lowercase("gz"), None);
}

#[test]
fn archive_file_names() {
    assert_eq!(archive_file_name("notes.txt", CompressionFormat::Zip), "notes.txt.zip");
    assert_eq!(archive_file_name("project", CompressionFormat::Tar), "project.tar");
    assert_eq!(archive_file_name("project", CompressionFormat::TarGz), "project.tar.gz");
    assert_eq!(archive_file_name("", CompressionFormat::Zip), ".zip");
}
