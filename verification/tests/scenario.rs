use archive_pipeline::archive::{read_archive, ArchiveEntry};
use archive_pipeline::extract::{unzip_file, ExtractAction, ExtractReply, Extraction};
use archive_pipeline::fetch::{download_file, Download, FetchAction, FetchReply};
use archive_pipeline::pipeline::{download_and_unzip, Pipeline, PipelineAction, PipelineReply};
use archive_pipeline::progress::{channel_name, Progress, ProgressKind};
use std::collections::{BTreeMap, BTreeSet};

fn crc32(data: &[u8]) -> u32 {
    let mut crc: u32 = 0xFFFF_FFFF;
    for &byte in data {
        crc ^= byte as u32;
        for _ in 0..8 {
            let mask = (!(crc & 1)).wrapping_add(1);
            crc = (crc >> 1) ^ (0xEDB8_8320 & mask);
        }
    }
    !crc
}

fn put16(out: &mut Vec<u8>, value: u16) {
    out.extend_from_slice(&value.to_le_bytes());
}

fn put32(out: &mut Vec<u8>, value: u32) {
    out.extend_from_slice(&value.to_le_bytes());
}

/// Lays out a zip archive of stored entries, byte by byte.
fn zip_of(entries: &[(&str, &[u8])], comment: &[u8]) -> Vec<u8> {
    let mut out: Vec<u8> = Vec::new();
    let mut offsets: Vec<u32> = Vec::new();
    for (name, data) in entries {
        offsets.push(out.len() as u32);
        put32(&mut out, 0x0403_4b50);
        put16(&mut out, 20);
        put16(&mut out, 0x0800);
        put16(&mut out, 0);
        put16(&mut out, 0);
        put16(&mut out, 0x0021);
        put32(&mut out, crc32(data));
        put32(&mut out, data.len() as u32);
        put32(&mut out, data.len() as u32);
        put16(&mut out, name.len() as u16);
        put16(&mut out, 0);
        out.extend_from_slice(name.as_bytes());
        out.extend_from_slice(data);
    }
    let directory_start = out.len() as u32;
    for ((name, data), offset) in entries.iter().zip(offsets.iter()) {
        put32(&mut out, 0x0201_4b50);
        put16(&mut out, 0x0314);
        put16(&mut out, 20);
        put16(&mut out, 0x0800);
        put16(&mut out, 0);
        put16(&mut out, 0);
        put16(&mut out, 0x0021);
        put32(&mut out, crc32(data));
        put32(&mut out, data.len() as u32);
        put32(&mut out, data.len() as u32);
        put16(&mut out, name.len() as u16);
        put16(&mut out, 0);
        put16(&mut out, 0);
        put16(&mut out, 0);
        put16(&mut out, 0);
        put32(&mut out, 0);
        put32(&mut out, *offset);
        out.extend_from_slice(name.as_bytes());
    }
    let directory_size = out.len() as u32 - directory_start;
    put32(&mut out, 0x0605_4b50);
    put16(&mut out, 0);
    put16(&mut out, 0);
    put16(&mut out, entries.len() as u16);
    put16(&mut out, entries.len() as u16);
    put32(&mut out, directory_size);
    put32(&mut out, directory_start);
    put16(&mut out, comment.len() as u16);
    out.extend_from_slice(comment);
    out
}

/// A server that answers one URL with a body, or with an error status.
struct Server {
    body: Result<Vec<u8>, String>,
    chunk: usize,
}

/// A file system held in memory: directories and files by their full path.
#[derive(Debug, Default, PartialEq, Eq, Clone)]
struct Disk {
    dirs: BTreeSet<String>,
    files: BTreeMap<String, Vec<u8>>,
}

impl Disk {
    fn create_dir_all(&mut self, path: &str) -> Result<(), String> {
        let mut at = String::new();
        for segment in path.split('/').filter(|s| !s.is_empty()) {
            at.push('/');
            at.push_str(segment);
            if self.files.contains_key(&at) {
                return Err(format!("{} is a file", at));
            }
            self.dirs.insert(at.clone());
        }
        Ok(())
    }

    fn remove_dir_all(&mut self, path: &str) {
        let below = format!("{}/", path);
        self.dirs.retain(|d| d != path && !d.starts_with(&below));
        self.files.retain(|f, _| !f.starts_with(&below));
    }

    fn parent(path: &str) -> &str {
        match path.rfind('/') {
            Some(at) => &path[..at],
            None => "",
        }
    }

    fn create_file(&mut self, path: &str) -> Result<(), String> {
        if !self.dirs.contains(Disk::parent(path)) {
            return Err(format!("no directory for {}", path));
        }
        if self.dirs.contains(path) {
            return Err(format!("{} is a directory", path));
        }
        self.files.insert(path.to_string(), Vec::new());
        Ok(())
    }
}

/// Everything that the host of a run can observe afterwards.
#[derive(Default)]
struct Host {
    disk: Disk,
    events: Vec<(String, f64)>,
}

impl Host {
    fn emit(&mut self, report: Option<Progress>) {
        if let Some(report) = report {
            let percentage = report.done as f64 / report.total as f64 * 100.0;
            self.events.push((channel_name(report.kind).to_string(), percentage));
        }
    }

    fn percentages(&self, kind: ProgressKind) -> Vec<f64> {
        let channel = channel_name(kind);
        self.events.iter().filter(|(c, _)| c == channel).map(|(_, p)| *p).collect()
    }

    /// Performs a fetch by the steps that the library asks for.
    fn fetch(&mut self, server: &Server, temp_dir: &str, millis: u128) -> Result<String, String> {
        let mut session = Download::start(millis);
        let temp_path = format!("{}/{}", temp_dir, session.file_name);
        let mut offset = 0;
        let mut arrived: Vec<u8> = Vec::new();
        loop {
            let reply = match &session.pending {
                FetchAction::SendRequest => match &server.body {
                    Ok(body) => FetchReply::Responded { content_length: Some(body.len() as u64) },
                    Err(status) => FetchReply::Failed { cause: status.clone() },
                },
                FetchAction::CreateFile => match self.disk.create_file(&temp_path) {
                    Ok(()) => FetchReply::Done,
                    Err(cause) => FetchReply::Failed { cause },
                },
                FetchAction::AwaitChunk => {
                    let body = server.body.as_ref().expect("a body");
                    if offset == body.len() {
                        FetchReply::EndOfBody
                    } else {
                        let end = body.len().min(offset + server.chunk);
                        arrived = body[offset..end].to_vec();
                        offset = end;
                        FetchReply::Chunk { len: arrived.len() as u64 }
                    }
                }
                FetchAction::WriteChunk { len } => {
                    assert_eq!(*len, arrived.len() as u64);
                    self.disk.files.get_mut(&temp_path).expect("the file").extend(&arrived);
                    FetchReply::Done
                }
                FetchAction::Finish { outcome } => {
                    return match outcome {
                        Ok(()) => Ok(temp_path),
                        Err(failure) => Err(failure.message()),
                    };
                }
            };
            assert!(session.accepts(&reply));
            let (moved, report) = download_file(session, reply);
            self.emit(report);
            session = moved;
        }
    }

    /// Performs an extraction by the steps that the library asks for.
    fn extract(&mut self, archive: &str, target: &str) -> Result<(), String> {
        let mut session = Extraction::start();
        loop {
            let at = |index: &usize| -> String {
                let entry = session.entry(*index).expect("an entry of the archive");
                format!("{}/{}", target, entry.target().expect("an entry with a path").as_str())
            };
            let done = |result: Result<(), String>| match result {
                Ok(()) => ExtractReply::Done,
                Err(cause) => ExtractReply::Failed { cause },
            };
            let present = |there: bool| {
                if there {
                    ExtractReply::Present
                } else {
                    ExtractReply::Absent
                }
            };
            let reply = match &session.pending {
                ExtractAction::OpenArchive => match self.disk.files.contains_key(archive) {
                    true => ExtractReply::Done,
                    false => ExtractReply::Failed { cause: "No such file".to_string() },
                },
                ExtractAction::ProbeTarget => present(self.disk.dirs.contains(target)),
                ExtractAction::RemoveTarget => {
                    self.disk.remove_dir_all(target);
                    ExtractReply::Done
                }
                ExtractAction::CreateTarget => done(self.disk.create_dir_all(target)),
                ExtractAction::LoadArchive => match read_archive(self.disk.files[archive].clone()) {
                    Ok(entries) => ExtractReply::Loaded { entries },
                    Err(cause) => ExtractReply::Failed { cause },
                },
                ExtractAction::CreateDirectory { entry } => done(self.disk.create_dir_all(&at(entry))),
                ExtractAction::ProbeParent { entry } => {
                    present(self.disk.dirs.contains(Disk::parent(&at(entry))))
                }
                ExtractAction::CreateParent { entry } => {
                    done(self.disk.create_dir_all(Disk::parent(&at(entry))))
                }
                ExtractAction::CreateFile { entry } => done(self.disk.create_file(&at(entry))),
                ExtractAction::WriteContent { entry } => match session.entry(*entry) {
                    Some(ArchiveEntry::File { content, .. }) => {
                        self.disk.files.insert(at(entry), content.clone());
                        ExtractReply::Done
                    }
                    other => panic!("no file to write: {:?}", other),
                },
                ExtractAction::Finish { outcome } => {
                    return match outcome {
                        Ok(()) => Ok(()),
                        Err(failure) => Err(failure.message()),
                    };
                }
            };
            let (moved, report) = unzip_file(session, reply);
            self.emit(report);
            session = moved;
        }
    }

    /// Performs the whole operation by the steps that the library asks for.
    fn run(&mut self, server: &Server, url: &str, target: &str) -> Result<(), String> {
        let mut session = Pipeline::start(url.to_string(), target.to_string());
        loop {
            let reply = match &session.pending {
                PipelineAction::Fetch { url: asked } => {
                    assert_eq!(asked, url);
                    match self.fetch(server, "/tmp", 1_700_000_000_123) {
                        Ok(archive) => PipelineReply::Fetched { archive },
                        Err(message) => PipelineReply::Failed { message },
                    }
                }
                PipelineAction::Extract { archive, target_dir } => {
                    match self.extract(archive, target_dir) {
                        Ok(()) => PipelineReply::Done,
                        Err(message) => PipelineReply::Failed { message },
                    }
                }
                PipelineAction::RemoveArchive { archive } => match self.disk.files.remove(archive) {
                    Some(_) => PipelineReply::Done,
                    None => PipelineReply::Failed { message: "No such file".to_string() },
                },
                PipelineAction::Finish { outcome } => {
                    return match outcome {
                        Ok(()) => Ok(()),
                        Err(failure) => Err(failure.message()),
                    };
                }
            };
            session = download_and_unzip(session, reply);
        }
    }
}

fn host_with_temp_dir() -> Host {
    let mut host = Host::default();
    host.disk.create_dir_all("/tmp").expect("a temporary directory");
    host
}

fn demo_archive() -> Vec<u8> {
    let bytes = zip_of(&[("a.txt", b"hello"), ("sub/", b""), ("sub/b.txt", b"world")], b"demo");
    assert_eq!(bytes.len(), 300);
    bytes
}

#[test]
fn an_archive_is_fetched_extracted_and_cleaned_up() {
    let server = Server { body: Ok(demo_archive()), chunk: 128 };
    let mut host = host_with_temp_dir();
    host.disk.create_dir_all("/out").expect("an empty target");

    assert_eq!(host.run(&server, "https://example.org/demo.zip", "/out"), Ok(()));

    assert_eq!(host.disk.files.get("/out/a.txt"), Some(&b"hello".to_vec()));
    assert_eq!(host.disk.files.get("/out/sub/b.txt"), Some(&b"world".to_vec()));
    assert!(host.disk.dirs.contains("/out/sub"));
    assert!(!host.disk.files.contains_key("/tmp/1700000000123.zip"));
    assert_eq!(host.disk.files.len(), 2);

    let extract = host.percentages(ProgressKind::Extract);
    assert_eq!(extract, vec![0.0, 1.0 / 3.0 * 100.0, 2.0 / 3.0 * 100.0]);
    assert!(extract.contains(&0.0));
    assert!(extract.iter().all(|p| *p <= 100.0));

    let download = host.percentages(ProgressKind::Download);
    assert_eq!(download, vec![128.0 / 300.0 * 100.0, 256.0 / 300.0 * 100.0, 100.0]);
}

#[test]
fn an_error_status_fails_the_operation_and_leaves_the_target_alone() {
    let server = Server { body: Err("HTTP status client error (404 Not Found)".to_string()), chunk: 64 };
    let mut host = host_with_temp_dir();
    host.disk.create_dir_all("/out/old").expect("a target");
    host.disk.create_file("/out/old/kept.txt").expect("a file");
    let before = host.disk.clone();

    assert_eq!(
        host.run(&server, "https://example.org/missing.zip", "/out"),
        Err("Failed to download file: HTTP status client error (404 Not Found)".to_string())
    );
    assert_eq!(host.disk, before);
    assert!(host.events.is_empty());
}

#[test]
fn stale_content_of_the_target_is_gone_after_extraction() {
    let server = Server { body: Ok(demo_archive()), chunk: 300 };
    let mut host = host_with_temp_dir();
    host.disk.create_dir_all("/out/stale/deeper").expect("a target");
    host.disk.create_file("/out/stale/old.txt").expect("a file");
    host.disk.create_file("/out/a.txt").expect("a file");
    host.disk.create_dir_all("/other").expect("a neighbour");
    host.disk.create_file("/other/untouched.txt").expect("a file");

    assert_eq!(host.run(&server, "https://example.org/demo.zip", "/out"), Ok(()));

    let files: Vec<&str> = host.disk.files.keys().map(|k| k.as_str()).collect();
    assert_eq!(files, vec!["/other/untouched.txt", "/out/a.txt", "/out/sub/b.txt"]);
    let dirs: Vec<&str> = host.disk.dirs.iter().map(|k| k.as_str()).collect();
    assert_eq!(dirs, vec!["/other", "/out", "/out/sub", "/tmp"]);
    assert_eq!(host.disk.files["/out/a.txt"], b"hello".to_vec());
}

#[test]
fn an_entry_that_climbs_out_is_skipped_and_the_rest_is_written() {
    let body = zip_of(
        &[("../escaped.txt", b"out"), ("in/kept.txt", b"in"), ("in/../../also.txt", b"out")],
        b"",
    );
    let server = Server { body: Ok(body), chunk: 50 };
    let mut host = host_with_temp_dir();

    assert_eq!(host.run(&server, "https://example.org/odd.zip", "/out"), Ok(()));

    let files: Vec<&str> = host.disk.files.keys().map(|k| k.as_str()).collect();
    assert_eq!(files, vec!["/out/in/kept.txt"]);
    assert_eq!(host.percentages(ProgressKind::Extract), vec![1.0 / 3.0 * 100.0]);
}

#[test]
fn a_failed_extraction_leaves_the_temporary_archive_behind() {
    let server = Server { body: Ok(b"no archive at all".to_vec()), chunk: 8 };
    let mut host = host_with_temp_dir();
    host.disk.create_dir_all("/out").expect("a target");
    host.disk.create_file("/out/old.txt").expect("a file");

    let outcome = host.run(&server, "https://example.org/broken.zip", "/out");
    let message = outcome.expect_err("no archive");
    assert!(message.starts_with("Failed to read zip archive: "), "{}", message);
    assert!(host.disk.files.contains_key("/tmp/1700000000123.zip"));
    assert!(host.disk.dirs.contains("/out"));
    assert!(!host.disk.files.contains_key("/out/old.txt"));
}

#[test]
fn a_file_where_a_directory_is_needed_stops_the_extraction_half_way() {
    let body = zip_of(&[("a", b"file"), ("a/b.txt", b"below a file"), ("c.txt", b"never")], b"");
    let server = Server { body: Ok(body), chunk: 1000 };
    let mut host = host_with_temp_dir();

    let outcome = host.run(&server, "https://example.org/clash.zip", "/out");
    assert_eq!(outcome, Err("Failed to create parent directory: /out/a is a file".to_string()));
    assert_eq!(host.disk.files.get("/out/a"), Some(&b"file".to_vec()));
    assert!(!host.disk.files.contains_key("/out/c.txt"));
    assert_eq!(host.percentages(ProgressKind::Extract), vec![0.0]);
}
