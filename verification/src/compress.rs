//! Archive formats and the archive builder. The builder takes what was read
//! from the source path as plain values and returns the bytes of the archive;
//! reading the source and writing the archive file are the caller's part.

use vstd::prelude::*;
use vstd::string::StringExecFns;
use crate::archive::gzip;
use crate::archive::gzip_image;
use crate::archive::gzip_takes;
use crate::archive::tar_append_file;
use crate::archive::tar_entries;
use crate::archive::tar_finish;
use crate::archive::tar_image;
use crate::archive::tar_new;
use crate::archive::tar_takes;
use crate::archive::zip_add_directory;
use crate::archive::zip_closes;
use crate::archive::zip_dir_name;
use crate::archive::zip_entries;
use crate::archive::zip_finish;
use crate::archive::zip_image;
use crate::archive::zip_new;
use crate::archive::zip_start_file;
use crate::archive::zip_takes_data;
use crate::archive::zip_takes_directory;
use crate::archive::zip_takes_file;
use crate::archive::zip_write_all;
use crate::archive::TarBuffer;
use crate::archive::ZipBuffer;
use crate::error::ErrorKind;
use crate::text::chars_of;
use crate::text::lowercase;
use crate::text::same_text;
use crate::text::to_lowercase;

verus! {

/// The archive formats that the builder can write.
#[derive(Debug, Clone, Copy, PartialEq, Eq, Structural)]
pub enum CompressionFormat {
    Zip,
    Tar,
    TarGz,
}

impl CompressionFormat {
    /// The file extension of the format, without a leading dot.
    pub open spec fn spec_extension(&self) -> Seq<char> {
        match *self {
            CompressionFormat::Zip => "zip"@,
            CompressionFormat::Tar => "tar"@,
            CompressionFormat::TarGz => "tar.gz"@,
        }
    }

    pub fn extension(&self) -> (ext: &'static str)
        ensures
            ext@ == self.spec_extension(),
    {
        match self {
            CompressionFormat::Zip => "zip",
            CompressionFormat::Tar => "tar",
            CompressionFormat::TarGz => "tar.gz",
        }
    }

    /// A description of the format for the user.
    pub open spec fn spec_description(&self) -> Seq<char> {
        match *self {
            CompressionFormat::Zip => "ZIP archive (compressed)"@,
            CompressionFormat::Tar => "TAR archive (uncompressed)"@,
            CompressionFormat::TarGz => "TAR.GZ archive (gzip compressed)"@,
        }
    }

    pub fn description(&self) -> (text: &'static str)
        ensures
            text@ == self.spec_description(),
    {
        match self {
            CompressionFormat::Zip => "ZIP archive (compressed)",
            CompressionFormat::Tar => "TAR archive (uncompressed)",
            CompressionFormat::TarGz => "TAR.GZ archive (gzip compressed)",
        }
    }
}

/// The format that a lower-case name stands for, if it stands for one.
pub open spec fn format_named(lower: Seq<char>) -> Option<CompressionFormat> {
    if lower == "zip"@ {
        Some(CompressionFormat::Zip)
    } else if lower == "tar"@ {
        Some(CompressionFormat::Tar)
    } else if lower == "tar-gz "@ || lower == "targe"@ || lower == "tar.gz"@ || lower == "tgz"@ {
        Some(CompressionFormat::TarGz)
    } else {
        None
    }
}

/// The format that a lower-case name stands for, if it stands for one.
pub fn format_from_lowercase(lower: &str) -> (format: Option<CompressionFormat>)
    ensures
        format == format_named(lower@),
{
    if same_text(lower, "zip") {
        Some(CompressionFormat::Zip)
    } else if same_text(lower, "tar") {
        Some(CompressionFormat::Tar)
    } else if same_text(lower, "tar-gz ") || same_text(lower, "targe") || same_text(
        lower,
        "tar.gz",
    ) || same_text(lower, "tgz") {
        Some(CompressionFormat::TarGz)
    } else {
        None
    }
}

impl CompressionFormat {
    /// The format that a name stands for, whatever the case of its letters;
    /// an unknown name is an error that quotes it.
    pub fn parse(name: &str) -> (result: Result<CompressionFormat, String>)
        ensures
            match format_named(lowercase(name@)) {
                Some(format) => result == Ok::<CompressionFormat, String>(format),
                None => result is Err && result->Err_0@ == "Unknown compression format: "@
                    + name@,
            },
    {
        let lower: String = to_lowercase(name);
        match format_from_lowercase(lower.as_str()) {
            Some(format) => Ok(format),
            None => {
                let mut message: String = "Unknown compression format: ".to_owned();
                message.append(name);
                Err(message)
            },
        }
    }
}

impl std::str::FromStr for CompressionFormat {
    type Err = String;

    /// The format that a name stands for, whatever the case of its letters;
    /// an unknown name is an error that quotes it.
    fn from_str(name: &str) -> (result: Result<CompressionFormat, String>)
        ensures
            match format_named(lowercase(name@)) {
                Some(format) => result == Ok::<CompressionFormat, String>(format),
                None => result is Err && result->Err_0@ == "Unknown compression format: "@
                    + name@,
            },
    {
        CompressionFormat::parse(name)
    }
}

/// The name of the archive file for a source: its base name, a dot and the
/// extension of the format.
pub fn archive_file_name(base_name: &str, format: CompressionFormat) -> (name: String)
    ensures
        name@ == base_name@ + "."@ + format.spec_extension(),
{
    let mut name: String = base_name.to_owned();
    name.append(".");
    name.append(format.extension());
    name
}

impl Default for CompressionFormat {
    fn default() -> (format: CompressionFormat)
        ensures
            format == CompressionFormat::Zip,
    {
        CompressionFormat::Zip
    }
}

/// The metadata of a file that a tar archive records.
#[derive(Debug, Clone, Copy, PartialEq, Eq, Structural)]
pub struct FileMeta {
    /// The permission and type bits.
    pub mode: u32,
    /// The modification time in seconds since the epoch.
    pub mtime: u64,
    /// The owner.
    pub uid: u64,
    /// The group.
    pub gid: u64,
}

/// What the traversal found at a path below the source directory.
#[derive(Debug, Clone, Copy, PartialEq, Eq, Structural)]
pub enum NodeKind {
    /// A file whose content was read.
    File,
    /// A directory.
    Directory,
    /// Something that could not be read, or that is neither of the two.
    Unreadable,
}

/// One path that the traversal of a source directory has visited.
#[derive(Debug)]
pub struct Node {
    /// The path relative to the source directory, its components separated
    /// by `/`; empty for the source directory itself.
    pub path: String,
    pub kind: NodeKind,
    /// The content of a file; empty otherwise.
    pub content: Vec<u8>,
    pub meta: FileMeta,
}

/// What was read from the source path.
#[derive(Debug)]
pub enum Source {
    /// Nothing that can be archived exists at the path.
    Missing,
    /// A regular file, with its base name.
    File { name: String, content: Vec<u8>, meta: FileMeta },
    /// A directory, with every path that its traversal has visited.
    Directory { nodes: Vec<Node> },
}

/// The relative path made of the given components, one `/` between each
/// two of them.
pub open spec fn joined_path(parts: Seq<String>) -> Seq<char>
    decreases parts.len(),
{
    if parts.len() == 0 {
        Seq::empty()
    } else if parts.len() == 1 {
        parts[0]@
    } else {
        joined_path(parts.drop_last()) + seq!['/'] + parts.last()@
    }
}

/// The relative path made of the given components, one `/` between each
/// two of them: the path under which a node of a traversal is recorded.
pub fn join_components(parts: &Vec<String>) -> (path: String)
    ensures
        path@ == joined_path(parts@),
{
    let mut path: String = String::new();
    let n: usize = parts.len();
    let mut i: usize = 0;
    while i < n
        invariant
            n == parts@.len(),
            i <= n,
            path@ == joined_path(parts@.take(i as int)),
        decreases n - i,
    {
        proof {
            reveal_strlit("/");
            assert(parts@.take(i + 1).drop_last() =~= parts@.take(i as int));
            assert(parts@.take(i + 1).last() == parts@[i as int]);
            assert("/"@ =~= seq!['/']);
        }
        if i > 0 {
            path.append("/");
        }
        path.append(parts[i].as_str());
        proof {
            if i == 0 {
                assert(parts@.take(1)[0] == parts@[0]);
                assert(path@ =~= parts@[0]@);
            }
        }
        i += 1;
    }
    assert(parts@.take(n as int) =~= parts@);
    path
}

/// Whether `path` names something inside the directory `dir`.
pub open spec fn lies_below(dir: Seq<char>, path: Seq<char>) -> bool {
    &&& dir.len() < path.len()
    &&& path.take(dir.len() as int) == dir
    &&& path[dir.len() as int] == '/'
}

/// Whether one of the paths names something inside the directory `dir`.
pub open spec fn has_entry_below(paths: Seq<Seq<char>>, dir: Seq<char>) -> bool {
    exists|j: int| 0 <= j < paths.len() && lies_below(dir, #[trigger] paths[j])
}

/// The paths of the nodes.
pub open spec fn paths_of(nodes: Seq<Node>) -> Seq<Seq<char>> {
    Seq::new(nodes.len(), |i: int| nodes[i].path@)
}

/// Whether the node is an empty directory other than the source directory
/// itself: such a directory gets an entry of its own in a zip archive.
pub open spec fn is_empty_dir(nodes: Seq<Node>, i: int) -> bool {
    &&& nodes[i].kind == NodeKind::Directory
    &&& nodes[i].path@.len() > 0
    &&& !has_entry_below(paths_of(nodes), nodes[i].path@)
}

/// The entries of the zip archive for the first `upto` nodes of a
/// traversal: one for each file, under its relative path and with its
/// content, and one for each empty directory, under its relative path and
/// a closing separator. What could not be read is left out.
pub open spec fn zip_plan(nodes: Seq<Node>, upto: int) -> Seq<(Seq<char>, bool, Seq<u8>)>
    decreases upto,
{
    if upto <= 0 {
        Seq::empty()
    } else {
        let before = zip_plan(nodes, upto - 1);
        let node = nodes[upto - 1];
        match node.kind {
            NodeKind::File => before.push((node.path@, false, node.content@)),
            NodeKind::Directory => if is_empty_dir(nodes, upto - 1) {
                before.push((node.path@ + seq!['/'], true, Seq::empty()))
            } else {
                before
            },
            NodeKind::Unreadable => before,
        }
    }
}

/// The tar entry of a file.
pub open spec fn tar_file(path: Seq<char>, meta: FileMeta, content: Seq<u8>) -> (
    Seq<char>,
    u32,
    u64,
    u64,
    u64,
    Seq<u8>,
) {
    (path, meta.mode, meta.mtime, meta.uid, meta.gid, content)
}

/// The entries of the tar archive for the first `upto` nodes of a
/// traversal: one for each file, under its relative path, with its metadata
/// and its content.
pub open spec fn tar_plan(nodes: Seq<Node>, upto: int) -> Seq<
    (Seq<char>, u32, u64, u64, u64, Seq<u8>),
>
    decreases upto,
{
    if upto <= 0 {
        Seq::empty()
    } else {
        let before = tar_plan(nodes, upto - 1);
        let node = nodes[upto - 1];
        match node.kind {
            NodeKind::File => before.push(tar_file(node.path@, node.meta, node.content@)),
            _ => before,
        }
    }
}

/// The entries of the zip archive of a source.
pub open spec fn planned_zip(source: Source) -> Seq<(Seq<char>, bool, Seq<u8>)> {
    match source {
        Source::Missing => Seq::empty(),
        Source::File { name, content, meta } => seq![(name@, false, content@)],
        Source::Directory { nodes } => zip_plan(nodes@, nodes@.len() as int),
    }
}

/// The entries of the tar archive of a source.
pub open spec fn planned_tar(source: Source) -> Seq<(Seq<char>, u32, u64, u64, u64, Seq<u8>)> {
    match source {
        Source::Missing => Seq::empty(),
        Source::File { name, content, meta } => seq![tar_file(name@, meta, content@)],
        Source::Directory { nodes } => tar_plan(nodes@, nodes@.len() as int),
    }
}

/// The bytes of the archive of a source in a format.
pub open spec fn archive_image(source: Source, format: CompressionFormat) -> Seq<u8> {
    match format {
        CompressionFormat::Zip => zip_image(planned_zip(source)),
        CompressionFormat::Tar => tar_image(planned_tar(source)),
        CompressionFormat::TarGz => gzip_image(tar_image(planned_tar(source))),
    }
}

/// Whether the zip writer takes the entries one after the other: each
/// directory under its name, each file under its name and then with its
/// data, every one behind those that come before it.
pub open spec fn zip_takes_all(entries: Seq<(Seq<char>, bool, Seq<u8>)>) -> bool
    decreases entries.len(),
{
    if entries.len() == 0 {
        true
    } else {
        let before = entries.drop_last();
        let entry = entries.last();
        &&& zip_takes_all(before)
        &&& if entry.1 {
            zip_takes_directory(before, entry.0)
        } else {
            &&& zip_takes_file(before, entry.0)
            &&& zip_takes_data(before.push((entry.0, false, Seq::empty())), entry.2)
        }
    }
}

/// Whether the zip writer builds the archive of the entries: it takes them
/// one after the other and closes the archive.
pub open spec fn zip_builds(entries: Seq<(Seq<char>, bool, Seq<u8>)>) -> bool {
    zip_takes_all(entries) && zip_closes(entries)
}

/// Whether the tar builder builds the archive of the entries: it takes the
/// path of each.
pub open spec fn tar_builds(entries: Seq<(Seq<char>, u32, u64, u64, u64, Seq<u8>)>) -> bool {
    forall|i: int| 0 <= i < entries.len() ==> tar_takes((#[trigger] entries[i]).0)
}

/// Whether the writers build the archive of a source in a format.
pub open spec fn builds(source: Source, format: CompressionFormat) -> bool {
    match format {
        CompressionFormat::Zip => zip_builds(planned_zip(source)),
        CompressionFormat::Tar => tar_builds(planned_tar(source)),
        CompressionFormat::TarGz => tar_builds(planned_tar(source)) && gzip_takes(
            tar_image(planned_tar(source)),
        ),
    }
}

/// Where the zip writer takes all of the entries, it takes the first of
/// them, however many.
pub proof fn lemma_zip_takes_the_first(entries: Seq<(Seq<char>, bool, Seq<u8>)>, fewer: int)
    requires
        0 <= fewer <= entries.len(),
        zip_takes_all(entries),
    ensures
        zip_takes_all(entries.take(fewer)),
    decreases entries.len(),
{
    if fewer < entries.len() {
        lemma_zip_takes_the_first(entries.drop_last(), fewer);
        assert(entries.drop_last().take(fewer) =~= entries.take(fewer));
    } else {
        assert(entries.take(fewer) =~= entries);
    }
}

/// Where the zip writer refuses one of the first entries of a traversal,
/// it does not take the entries of the whole traversal.
proof fn lemma_zip_refusal_is_final(nodes: Seq<Node>, upto: int)
    requires
        0 <= upto <= nodes.len(),
        !zip_takes_all(zip_plan(nodes, upto)),
    ensures
        !zip_takes_all(zip_plan(nodes, nodes.len() as int)),
{
    let whole = zip_plan(nodes, nodes.len() as int);
    if zip_takes_all(whole) {
        lemma_plan_grows(nodes, upto, nodes.len() as int);
        lemma_zip_takes_the_first(whole, zip_plan(nodes, upto).len() as int);
    }
}

/// How many of the first `upto` nodes are files.
pub open spec fn count_files(nodes: Seq<Node>, upto: int) -> nat
    decreases upto,
{
    if upto <= 0 {
        0
    } else if nodes[upto - 1].kind == NodeKind::File {
        count_files(nodes, upto - 1) + 1
    } else {
        count_files(nodes, upto - 1)
    }
}

/// How many of the first `upto` nodes are empty directories other than the
/// source directory itself.
pub open spec fn count_empty_dirs(nodes: Seq<Node>, upto: int) -> nat
    decreases upto,
{
    if upto <= 0 {
        0
    } else if is_empty_dir(nodes, upto - 1) {
        count_empty_dirs(nodes, upto - 1) + 1
    } else {
        count_empty_dirs(nodes, upto - 1)
    }
}

/// The archive of a single file holds exactly one entry: it carries the
/// base name of the file and its content, byte for byte.
pub proof fn lemma_single_file_is_sole_entry(name: String, content: Vec<u8>, meta: FileMeta)
    ensures
        planned_zip(Source::File { name, content, meta }) == seq![(name@, false, content@)],
        planned_tar(Source::File { name, content, meta }) == seq![
            tar_file(name@, meta, content@),
        ],
{
}

/// A zip archive of a directory holds as many entries as the traversal
/// found files and empty directories; a tar archive holds as many as it
/// found files.
pub proof fn lemma_entry_count(nodes: Seq<Node>, upto: int)
    requires
        0 <= upto <= nodes.len(),
    ensures
        zip_plan(nodes, upto).len() == count_files(nodes, upto) + count_empty_dirs(nodes, upto),
        tar_plan(nodes, upto).len() == count_files(nodes, upto),
    decreases upto,
{
    if upto > 0 {
        lemma_entry_count(nodes, upto - 1);
    }
}

/// The entries planned for the first nodes stay, in their places, when more
/// nodes follow.
pub proof fn lemma_plan_grows(nodes: Seq<Node>, fewer: int, more: int)
    requires
        0 <= fewer <= more <= nodes.len(),
    ensures
        zip_plan(nodes, fewer).len() <= zip_plan(nodes, more).len(),
        zip_plan(nodes, more).take(zip_plan(nodes, fewer).len() as int) == zip_plan(nodes, fewer),
        tar_plan(nodes, fewer).len() <= tar_plan(nodes, more).len(),
        tar_plan(nodes, more).take(tar_plan(nodes, fewer).len() as int) == tar_plan(nodes, fewer),
    decreases more - fewer,
{
    if fewer < more {
        lemma_plan_grows(nodes, fewer, more - 1);
        assert(zip_plan(nodes, more).take(zip_plan(nodes, fewer).len() as int) =~= zip_plan(
            nodes,
            more - 1,
        ).take(zip_plan(nodes, fewer).len() as int));
        assert(tar_plan(nodes, more).take(tar_plan(nodes, fewer).len() as int) =~= tar_plan(
            nodes,
            more - 1,
        ).take(tar_plan(nodes, fewer).len() as int));
    } else {
        assert(zip_plan(nodes, more).take(zip_plan(nodes, fewer).len() as int) =~= zip_plan(
            nodes,
            fewer,
        ));
        assert(tar_plan(nodes, more).take(tar_plan(nodes, fewer).len() as int) =~= tar_plan(
            nodes,
            fewer,
        ));
    }
}

/// Every file that the traversal found has its entry in the archive of the
/// directory, under its relative path and with its content, behind the
/// entries of the nodes that were visited before it.
pub proof fn lemma_every_file_has_its_entry(nodes: Seq<Node>, i: int)
    requires
        0 <= i < nodes.len(),
        nodes[i].kind == NodeKind::File,
    ensures
        zip_plan(nodes, i).len() < zip_plan(nodes, nodes.len() as int).len(),
        zip_plan(nodes, nodes.len() as int)[zip_plan(nodes, i).len() as int] == (
            nodes[i].path@,
            false,
            nodes[i].content@,
        ),
        tar_plan(nodes, i).len() < tar_plan(nodes, nodes.len() as int).len(),
        tar_plan(nodes, nodes.len() as int)[tar_plan(nodes, i).len() as int] == tar_file(
            nodes[i].path@,
            nodes[i].meta,
            nodes[i].content@,
        ),
{
    let all = nodes.len() as int;
    lemma_plan_grows(nodes, i + 1, all);
    let z = zip_plan(nodes, i).len() as int;
    assert(zip_plan(nodes, i + 1)[z] == (nodes[i].path@, false, nodes[i].content@));
    assert(zip_plan(nodes, all).take(zip_plan(nodes, i + 1).len() as int)[z] == zip_plan(
        nodes,
        all,
    )[z]);
    let t = tar_plan(nodes, i).len() as int;
    assert(tar_plan(nodes, i + 1)[t] == tar_file(nodes[i].path@, nodes[i].meta, nodes[i].content@));
    assert(tar_plan(nodes, all).take(tar_plan(nodes, i + 1).len() as int)[t] == tar_plan(
        nodes,
        all,
    )[t]);
}

/// What the builder returns for the result of an archive writer: the value
/// where the writer succeeded, an archive I/O error where it failed.
pub fn archive_result<T, E>(done: Result<T, E>) -> (result: Result<T, ErrorKind>)
    ensures
        match done {
            Ok(value) => result == Ok::<T, ErrorKind>(value),
            Err(_) => result == Err::<T, ErrorKind>(ErrorKind::ArchiveIo),
        },
{
    match done {
        Ok(value) => Ok(value),
        Err(_) => Err(ErrorKind::ArchiveIo),
    }
}

/// The zip archive whose sole entry is a file of the given name and content.
pub fn compress_file_to_zip(name: &str, content: &[u8]) -> (result: Result<Vec<u8>, ErrorKind>)
    ensures
        result is Ok <==> zip_builds(seq![(name@, false, content@)]),
        match result {
            Ok(bytes) => bytes@ == zip_image(seq![(name@, false, content@)]),
            Err(kind) => kind == ErrorKind::ArchiveIo,
        },
{
    let ghost plan = seq![(name@, false, content@)];
    proof {
        assert(plan.drop_last() =~= Seq::<(Seq<char>, bool, Seq<u8>)>::empty());
        assert(zip_takes_all(plan.drop_last()));
        assert(plan.last() == (name@, false, content@));
    }
    let mut writer: ZipBuffer = zip_new();
    if archive_result(zip_start_file(&mut writer, name)).is_err() {
        return Err(ErrorKind::ArchiveIo);
    }
    if archive_result(zip_write_all(&mut writer, content)).is_err() {
        return Err(ErrorKind::ArchiveIo);
    }
    assert(zip_entries(writer) =~= plan);
    assert(zip_takes_all(plan));
    archive_result(zip_finish(writer))
}

fn is_below(dir: &Vec<char>, path: &Vec<char>) -> (below: bool)
    ensures
        below == lies_below(dir@, path@),
{
    let n: usize = dir.len();
    if path.len() <= n {
        return false;
    }
    if path[n] != '/' {
        return false;
    }
    let mut i: usize = 0;
    while i < n
        invariant
            n == dir@.len(),
            n < path@.len(),
            i <= n,
            forall|j: int| 0 <= j < i ==> path@[j] == dir@[j],
        decreases n - i,
    {
        if path[i] != dir[i] {
            assert(path@.take(n as int)[i as int] != dir@[i as int]);
            return false;
        }
        i += 1;
    }
    assert(path@.take(n as int) =~= dir@);
    true
}

/// The character sequences that a vector of character vectors holds.
pub open spec fn views_of(paths: Seq<Vec<char>>) -> Seq<Seq<char>> {
    Seq::new(paths.len(), |i: int| paths[i]@)
}

fn any_below(paths: &Vec<Vec<char>>, dir: &Vec<char>) -> (found: bool)
    ensures
        found == has_entry_below(views_of(paths@), dir@),
{
    let n: usize = paths.len();
    let mut j: usize = 0;
    while j < n
        invariant
            n == paths@.len(),
            j <= n,
            forall|k: int| 0 <= k < j ==> !lies_below(dir@, #[trigger] views_of(paths@)[k]),
        decreases n - j,
    {
        if is_below(dir, &paths[j]) {
            assert(lies_below(dir@, views_of(paths@)[j as int]));
            return true;
        }
        j += 1;
    }
    false
}

fn all_paths(nodes: &Vec<Node>) -> (paths: Vec<Vec<char>>)
    ensures
        paths@.len() == nodes@.len(),
        views_of(paths@) == paths_of(nodes@),
{
    let n: usize = nodes.len();
    let mut paths: Vec<Vec<char>> = Vec::new();
    let mut i: usize = 0;
    while i < n
        invariant
            n == nodes@.len(),
            i <= n,
            paths@.len() == i,
            forall|k: int| 0 <= k < i ==> (#[trigger] paths@[k])@ == nodes@[k].path@,
        decreases n - i,
    {
        paths.push(chars_of(nodes[i].path.as_str()));
        i += 1;
    }
    assert(views_of(paths@) =~= paths_of(nodes@));
    paths
}

/// The zip archive of a directory, from the paths that its traversal has
/// visited: one entry for each file and for each empty directory, in the
/// order of the traversal.
pub fn compress_folder_to_zip(nodes: &Vec<Node>) -> (result: Result<Vec<u8>, ErrorKind>)
    ensures
        result is Ok <==> zip_builds(zip_plan(nodes@, nodes@.len() as int)),
        match result {
            Ok(bytes) => bytes@ == zip_image(zip_plan(nodes@, nodes@.len() as int)),
            Err(kind) => kind == ErrorKind::ArchiveIo,
        },
{
    let paths: Vec<Vec<char>> = all_paths(nodes);
    let mut writer: ZipBuffer = zip_new();
    let n: usize = nodes.len();
    let mut i: usize = 0;
    while i < n
        invariant
            n == nodes@.len(),
            i <= n,
            paths@.len() == n,
            views_of(paths@) == paths_of(nodes@),
            zip_entries(writer) == zip_plan(nodes@, i as int),
            zip_takes_all(zip_plan(nodes@, i as int)),
        decreases n - i,
    {
        let node: &Node = &nodes[i];
        let ghost before = zip_plan(nodes@, i as int);
        let ghost after = zip_plan(nodes@, i + 1);
        assert(views_of(paths@)[i as int] == paths_of(nodes@)[i as int]);
        match node.kind {
            NodeKind::File => {
                proof {
                    assert(after.drop_last() =~= before);
                    assert(after.last() == (node.path@, false, node.content@));
                }
                if archive_result(zip_start_file(&mut writer, node.path.as_str())).is_err() {
                    proof {
                        lemma_zip_refusal_is_final(nodes@, i + 1);
                    }
                    return Err(ErrorKind::ArchiveIo);
                }
                if archive_result(zip_write_all(&mut writer, node.content.as_slice())).is_err() {
                    proof {
                        lemma_zip_refusal_is_final(nodes@, i + 1);
                    }
                    return Err(ErrorKind::ArchiveIo);
                }
                assert(zip_entries(writer) =~= after);
            },
            NodeKind::Directory => {
                if paths[i].len() > 0 && !any_below(&paths, &paths[i]) {
                    let mut name: String = node.path.clone();
                    name.append("/");
                    proof {
                        reveal_strlit("/");
                        assert(name@ =~= node.path@ + seq!['/']);
                        assert(zip_dir_name(name@) == name@);
                        assert(after.drop_last() =~= before);
                        assert(after.last() == (name@, true, Seq::<u8>::empty()));
                    }
                    if archive_result(zip_add_directory(&mut writer, name.as_str())).is_err() {
                        proof {
                            lemma_zip_refusal_is_final(nodes@, i + 1);
                        }
                        return Err(ErrorKind::ArchiveIo);
                    }
                }
            },
            NodeKind::Unreadable => {},
        }
        i += 1;
    }
    archive_result(zip_finish(writer))
}

fn tar_of(source: &Source) -> (result: Result<TarBuffer, ErrorKind>)
    ensures
        result is Ok <==> tar_builds(planned_tar(*source)),
        match result {
            Ok(builder) => tar_entries(builder) == planned_tar(*source),
            Err(kind) => kind == ErrorKind::ArchiveIo,
        },
{
    let mut builder: TarBuffer = tar_new();
    match source {
        Source::Missing => {},
        Source::File { name, content, meta } => {
            let done = tar_append_file(
                &mut builder,
                name.as_str(),
                meta.mode,
                meta.mtime,
                meta.uid,
                meta.gid,
                content.as_slice(),
            );
            if archive_result(done).is_err() {
                assert(planned_tar(*source)[0].0 == name@);
                return Err(ErrorKind::ArchiveIo);
            }
            assert(tar_entries(builder) =~= seq![tar_file(name@, *meta, content@)]);
        },
        Source::Directory { nodes } => {
            let n: usize = nodes.len();
            let mut i: usize = 0;
            while i < n
                invariant
                    n == nodes@.len(),
                    i <= n,
                    planned_tar(*source) == tar_plan(nodes@, n as int),
                    tar_entries(builder) == tar_plan(nodes@, i as int),
                    tar_builds(tar_plan(nodes@, i as int)),
                decreases n - i,
            {
                let node: &Node = &nodes[i];
                let ghost before = tar_plan(nodes@, i as int);
                match node.kind {
                    NodeKind::File => {
                        let done = tar_append_file(
                            &mut builder,
                            node.path.as_str(),
                            node.meta.mode,
                            node.meta.mtime,
                            node.meta.uid,
                            node.meta.gid,
                            node.content.as_slice(),
                        );
                        if archive_result(done).is_err() {
                            proof {
                                lemma_every_file_has_its_entry(nodes@, i as int);
                                let whole = tar_plan(nodes@, n as int);
                                assert(whole[before.len() as int].0 == node.path@);
                            }
                            return Err(ErrorKind::ArchiveIo);
                        }
                        assert(tar_builds(tar_plan(nodes@, i + 1))) by {
                            let after = tar_plan(nodes@, i + 1);
                            assert forall|k: int| 0 <= k < after.len() implies tar_takes(
                                (#[trigger] after[k]).0,
                            ) by {
                                if k < before.len() {
                                    assert(after[k] == before[k]);
                                }
                            }
                        }
                    },
                    _ => {},
                }
                i += 1;
            }
        },
    }
    Ok(builder)
}

/// The tar archive of a source: one entry for the file, or one for each
/// file of the directory in the order of the traversal.
pub fn compress_to_tar(source: &Source) -> (result: Result<Vec<u8>, ErrorKind>)
    ensures
        result is Ok <==> tar_builds(planned_tar(*source)),
        match result {
            Ok(bytes) => bytes@ == tar_image(planned_tar(*source)),
            Err(kind) => kind == ErrorKind::ArchiveIo,
        },
{
    match tar_of(source) {
        Ok(builder) => archive_result(tar_finish(builder)),
        Err(kind) => Err(kind),
    }
}

/// The tar archive of a source inside one gzip frame.
pub fn compress_to_tar_gz(source: &Source) -> (result: Result<Vec<u8>, ErrorKind>)
    ensures
        result is Ok <==> tar_builds(planned_tar(*source)) && gzip_takes(
            tar_image(planned_tar(*source)),
        ),
        match result {
            Ok(bytes) => bytes@ == gzip_image(tar_image(planned_tar(*source))),
            Err(kind) => kind == ErrorKind::ArchiveIo,
        },
{
    match compress_to_tar(source) {
        Ok(plain) => archive_result(gzip(plain.as_slice())),
        Err(kind) => Err(kind),
    }
}

/// The archive of a source in a format. A missing source is refused before
/// any writer is touched; nothing else is refused by the builder itself:
/// for a source that is there, an archive is returned wherever the writers
/// build it.
pub fn compress(source: &Source, format: CompressionFormat) -> (result: Result<
    Vec<u8>,
    ErrorKind,
>)
    ensures
        *source is Missing <==> result == Err::<Vec<u8>, ErrorKind>(ErrorKind::InvalidInput),
        result is Ok <==> !(*source is Missing) && builds(*source, format),
        match result {
            Ok(bytes) => bytes@ == archive_image(*source, format),
            Err(kind) => kind == ErrorKind::InvalidInput || kind == ErrorKind::ArchiveIo,
        },
{
    match source {
        Source::Missing => Err(ErrorKind::InvalidInput),
        Source::File { name, content, meta } => match format {
            CompressionFormat::Zip => compress_file_to_zip(name.as_str(), content.as_slice()),
            CompressionFormat::Tar => compress_to_tar(source),
            CompressionFormat::TarGz => compress_to_tar_gz(source),
        },
        Source::Directory { nodes } => match format {
            CompressionFormat::Zip => compress_folder_to_zip(nodes),
            CompressionFormat::Tar => compress_to_tar(source),
            CompressionFormat::TarGz => compress_to_tar_gz(source),
        },
    }
}

/// A request to archive a source in a format. A request exists only for a
/// source that is there, and it does not change once it is made.
#[derive(Debug)]
pub struct ArchiveRequest {
    source: Source,
    format: CompressionFormat,
}

impl ArchiveRequest {
    #[verifier::type_invariant]
    spec fn present(self) -> bool {
        !(self.source is Missing)
    }

    /// The source of the request.
    pub closed spec fn source(&self) -> Source {
        self.source
    }

    /// The format of the request.
    pub closed spec fn spec_format(&self) -> CompressionFormat {
        self.format
    }

    /// The request for a source and a format. A missing source is refused.
    pub fn new(source: Source, format: CompressionFormat) -> (result: Result<
        ArchiveRequest,
        ErrorKind,
    >)
        ensures
            match result {
                Ok(request) => !(source is Missing) && request.source() == source
                    && request.spec_format() == format,
                Err(kind) => source is Missing && kind == ErrorKind::InvalidInput,
            },
    {
        match source {
            Source::Missing => Err(ErrorKind::InvalidInput),
            _ => Ok(ArchiveRequest { source, format }),
        }
    }

    /// The format of the request.
    pub fn format(&self) -> (format: CompressionFormat)
        ensures
            format == self.spec_format(),
    {
        self.format
    }

    /// The archive that the request asks for. It is returned wherever the
    /// writers build it.
    pub fn build(&self) -> (result: Result<Vec<u8>, ErrorKind>)
        ensures
            !(self.source() is Missing),
            result is Ok <==> builds(self.source(), self.spec_format()),
            match result {
                Ok(bytes) => bytes@ == archive_image(self.source(), self.spec_format()),
                Err(kind) => kind == ErrorKind::ArchiveIo,
            },
    {
        proof {
            use_type_invariant(self);
        }
        compress(&self.source, self.format)
    }
}

} // verus!
