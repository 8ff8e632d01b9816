use adb_client::control::{DaemonKind, Outcome, Startup};
use adb_client::download::{partial_name, remote_manifest, Download, DownloadAction, DownloadEvent};
use adb_client::paths::{check_pull_ancestors, with_file_name};
use adb_client::requests::{TransferOptions, TransferRequest};
use adb_client::sync::{SyncAction, SyncEvent, Synchronisation};
use adb_client::text::{
    format_number, format_signed, parse_i64, parse_u16, parse_unsigned, read_signed,
};
use adb_client::transfer::{
    remote_file_is_current, shell_quote, validate_transfer_path, FileKind, Metadata,
};
use adb_client::upload::{Upload, UploadAction, UploadEvent};
use adb_client::walk::{Walk, WalkAction, WalkEvent};

fn values(items: &[&str]) -> Vec<String> {
    items.iter().map(|item| (*item).to_owned()).collect()
}

fn quiet() -> TransferOptions {
    TransferOptions { archive: false, dry_run: false, quiet: true, sync: false }
}

fn file() -> Metadata {
    Metadata { kind: FileKind::File, size: 4, mode: 0o100644, mtime: 1000 }
}

fn shell(action: &UploadAction<String>) -> String {
    match action {
        UploadAction::Shell(command) => command.clone(),
        other => panic!("{other:?}"),
    }
}

fn push_one(directory: bool, fail_metadata: bool) -> (Vec<String>, Result<(), String>) {
    let request = TransferRequest {
        options: quiet(),
        paths: values(&["/tmp/.mab-source.partial", "/system"]),
    };
    let (mut upload, mut action) = Upload::begin(request).unwrap();
    let mut uploaded = Vec::new();
    loop {
        let event = match &action {
            UploadAction::Shell(command) => {
                if command.starts_with("if [ -d") {
                    UploadEvent::Output(if directory { b"directory".to_vec() } else { vec![] })
                } else if fail_metadata && command.starts_with("touch ") {
                    UploadEvent::Failed("remote chmod failed".to_owned())
                } else {
                    UploadEvent::Output(vec![])
                }
            }
            UploadAction::IsDirectory(_) => UploadEvent::Answer(false),
            UploadAction::List(path) => UploadEvent::Entries(vec![path.clone()]),
            UploadAction::Stat(_) => UploadEvent::Known(file()),
            UploadAction::Push { remote, .. } => {
                uploaded.push(remote.clone());
                UploadEvent::Done
            }
            UploadAction::Print(_) => UploadEvent::Done,
            UploadAction::ReadLink(_) => panic!("no link"),
            UploadAction::Finish(result) => return (uploaded, result.clone()),
        };
        let (next, asked) = upload.on_event(event);
        upload = next;
        action = asked;
    }
}

#[test]
fn single_file_push_uses_directory_basename_and_reports_metadata_failure() {
    let (uploaded, result) = push_one(true, false);
    result.unwrap();
    assert_eq!(uploaded[0], "/system/.mab-source.partial");
    let (_, result) = push_one(true, true);
    assert!(result.is_err());
}

#[test]
fn a_file_replaces_what_is_no_directory() {
    let (uploaded, result) = push_one(false, false);
    result.unwrap();
    assert_eq!(uploaded, ["/system"]);
}

/// Walks through a tree of paths, where each directory tells those beneath it, and
/// gives the paths in the order in which the walk came to them.
fn walk(
    kind: &dyn Fn(&str) -> FileKind,
    held: &dyn Fn(&str) -> Vec<&'static str>,
) -> Result<Vec<&'static str>, String> {
    let mut paths = vec!["/root"];
    let mut open: Vec<(usize, Vec<&'static str>)> = Vec::new();
    let (mut walk, mut action) = Walk::begin();
    loop {
        let event = match action {
            WalkAction::Inspect(path) => WalkEvent::Kind(kind(paths[path])),
            WalkAction::Open(path) => {
                open.push((path, held(paths[path]).into_iter().rev().collect()));
                WalkEvent::Opened
            }
            WalkAction::Next(path) => {
                let (directory, left) = open.last_mut().unwrap();
                assert_eq!(*directory, path);
                match left.pop() {
                    Some("unreadable") => WalkEvent::Failed("unreadable".to_owned()),
                    Some(child) => {
                        paths.push(child);
                        WalkEvent::Child
                    }
                    None => {
                        open.pop();
                        WalkEvent::NoMore
                    }
                }
            }
            WalkAction::Finish(result) => {
                return result.map(|count| {
                    assert_eq!(count, paths.len());
                    paths
                });
            }
        };
        (walk, action) = walk.on_event(event);
    }
}

#[test]
fn local_walk_keeps_empty_directories_and_does_not_follow_symlinks() {
    let entries = walk(
        &|path| match path {
            "/root" | "/root/empty" => FileKind::Directory,
            "/root/link" => FileKind::Link,
            _ => FileKind::File,
        },
        &|path| match path {
            "/root" => vec!["/root/empty", "/root/file", "/root/link"],
            "/root/empty" => vec![],
            other => panic!("{other}"),
        },
    )
    .unwrap();
    assert_eq!(entries.len(), 4);
    assert!(entries.contains(&"/root/empty"));
    assert!(entries.contains(&"/root/link"));
    assert_eq!(entries, ["/root", "/root/empty", "/root/file", "/root/link"]);
}

#[test]
fn a_walk_comes_to_what_a_directory_holds_before_its_neighbours() {
    let entries = walk(
        &|path| if path.len() < 7 { FileKind::Directory } else { FileKind::File },
        &|path| match path {
            "/root" => vec!["/r/a", "/root/z"],
            "/r/a" => vec!["/root/x", "/root/y"],
            other => panic!("{other}"),
        },
    );
    assert_eq!(entries.unwrap(), ["/root", "/r/a", "/root/x", "/root/y", "/root/z"]);
}

#[test]
fn a_walk_ends_where_a_path_cannot_be_known() {
    let (walk_on, _) = Walk::begin();
    let (_, action) = walk_on.on_event(WalkEvent::Failed("no such file".to_owned()));
    assert!(matches!(action, WalkAction::Finish(Err(error)) if error == "no such file"));
    let (walk_on, _) = Walk::begin();
    let (walk_on, action) = walk_on.on_event(WalkEvent::Kind(FileKind::Directory));
    assert!(matches!(action, WalkAction::Open(0)));
    let (_, action) = walk_on.on_event(WalkEvent::Failed("no permission".to_owned()));
    assert!(matches!(action, WalkAction::Finish(Err(error)) if error == "no permission"));
    let result = walk(
        &|path| if path == "/root" { FileKind::Directory } else { FileKind::File },
        &|_| vec!["/root/a", "unreadable"],
    );
    assert_eq!(result.unwrap_err(), "unreadable");
}

#[test]
fn uploads_of_a_tree_finish_directories_last() {
    let request = TransferRequest { options: quiet(), paths: values(&["/src", "/dst/"]) };
    let (upload, action) = Upload::begin(request).unwrap();
    assert_eq!(shell(&action), "if [ -d '/dst/' ]; then printf directory; fi");
    let (upload, action) = upload.on_event(UploadEvent::Output(vec![]));
    assert!(matches!(action, UploadAction::IsDirectory(_)));
    let (upload, action) = upload.on_event(UploadEvent::Answer(true));
    assert_eq!(shell(&action), "mkdir -p -- '/dst/'");
    let (upload, action) = upload.on_event(UploadEvent::Output(vec![]));
    assert!(matches!(action, UploadAction::List(_)));
    let (upload, action) =
        upload.on_event(UploadEvent::Entries(values(&["/src", "/src/link"])));
    assert!(matches!(action, UploadAction::Stat(0)));
    let directory = Metadata { kind: FileKind::Directory, size: 0, mode: 0o40755, mtime: 7 };
    let (upload, action) = upload.on_event(UploadEvent::Known(directory));
    assert_eq!(shell(&action), "mkdir -p -- '/dst/src'");
    let (upload, action) = upload.on_event(UploadEvent::Output(vec![]));
    assert!(matches!(action, UploadAction::Stat(1)));
    let link = Metadata { kind: FileKind::Link, size: 0, mode: 0o120777, mtime: 8 };
    let (upload, action) = upload.on_event(UploadEvent::Known(link));
    assert!(matches!(action, UploadAction::ReadLink(1)));
    let (upload, action) = upload.on_event(UploadEvent::Target("it's".to_owned()));
    assert_eq!(
        shell(&action),
        "mkdir -p -- '/dst/src' && rm -f -- '/dst/src/link' && ln -s -- 'it'\\''s' '/dst/src/link'"
    );
    let (upload, action) = upload.on_event(UploadEvent::Output(vec![]));
    assert_eq!(shell(&action), "touch -m -d @7 -- '/dst/src' && chmod 755 -- '/dst/src'");
    let (_, action) = upload.on_event(UploadEvent::Output(vec![]));
    assert!(matches!(action, UploadAction::Finish(Ok(()))));
}

#[test]
fn uploads_that_are_refused() {
    let begin = |paths: &[&str]| {
        Upload::begin(TransferRequest { options: quiet(), paths: values(paths) }).map(|_| ())
    };
    assert_eq!(
        begin(&["a"]).unwrap_err(),
        "push requires at least one source and a destination"
    );
    assert_eq!(
        begin(&["a\tb", "/c"]).unwrap_err(),
        "file paths containing control characters are not supported"
    );
    assert!(validate_transfer_path("/a b").is_ok());
    assert!(validate_transfer_path("/a\0").is_err());
    assert_eq!(shell_quote("it's"), "'it'\\''s'");
}

#[test]
fn files_that_are_current() {
    assert!(remote_file_is_current(b"4 1000\n", &file()));
    assert!(remote_file_is_current(b"4 1001", &file()));
    assert!(!remote_file_is_current(b"4 999", &file()));
    assert!(!remote_file_is_current(b"5 1000", &file()));
    assert!(!remote_file_is_current(b"4", &file()));
    assert!(!remote_file_is_current(b"", &file()));
}

#[test]
fn manifests_of_the_device() {
    let entries = remote_manifest("/a", b"d\t755\t1000\t/a\no\t0\t0\t/a/pipe\nf\t644\t-5\t/a/x\ty\n");
    assert_eq!(
        entries.unwrap_err(),
        "file paths containing control characters are not supported"
    );
    let entries = remote_manifest("/a", b"d\t755\t1000\t/a\no\t0\t0\t/a/p\nf\t644\t-5\t/a/x\n").unwrap();
    assert_eq!(entries.len(), 2);
    assert_eq!(entries[0].mode, 0o755);
    assert_eq!(entries[1].mtime, -5);
    assert_eq!(entries[1].path, "/a/x");
    let error = |output: &[u8]| remote_manifest("/a", output).unwrap_err();
    assert_eq!(error(b""), "remote path does not exist: /a");
    assert_eq!(error(b"d\t755\n"), "invalid remote file manifest");
    assert_eq!(error(b"\t755\t1\t/a\n"), "missing remote file type");
    assert_eq!(error(b"d\t9\t1\t/a\n"), "invalid digit found in string");
    assert_eq!(error(b"d\t7\tx\t/a\n"), "invalid digit found in string");
    assert_eq!(error(b"\xff"), "invalid utf-8 sequence of 1 bytes from index 0");
}

/// A download of one file that has come to the point where bits are drawn for it.
fn drawing(source: &str, local: &str) -> Download {
    let request = TransferRequest { options: quiet(), paths: values(&[source, local]) };
    let (download, action) = Download::begin(request).unwrap();
    assert!(matches!(action, DownloadAction::IsDirectory(path) if path == local));
    let (download, action) = download.on_event(DownloadEvent::Answer(false));
    assert!(matches!(action, DownloadAction::Shell(_)));
    let line = format!("f\t644\t1\t{source}\n");
    let (download, action) = download.on_event(DownloadEvent::Output(line.into_bytes()));
    assert!(matches!(action, DownloadAction::IsDirectory(path) if path == local));
    let (download, action) = download.on_event(DownloadEvent::Answer(false));
    let count = match action {
        DownloadAction::AreLinks(paths) => paths.len(),
        other => panic!("{other:?}"),
    };
    let (download, action) = download.on_event(DownloadEvent::Links(vec![false; count]));
    assert!(matches!(action, DownloadAction::MakeDirectory(_)));
    let (download, action) = download.on_event(DownloadEvent::Done);
    assert!(matches!(action, DownloadAction::DrawBits));
    download
}

fn created(action: DownloadAction<String, Vec<String>>) -> String {
    match action {
        DownloadAction::CreateTemporary { path, mode } => {
            assert_eq!(mode, 0o600);
            path
        }
        other => panic!("{other:?}"),
    }
}

fn links_of(root: &str, local: &str, directory: bool, linked: &str) -> String {
    let paths = check_pull_ancestors(root, local, directory);
    assert!(paths.contains(&linked.to_owned()));
    paths.into_iter().find(|path| path == linked).unwrap()
}

#[test]
fn pull_temporary_is_unique_and_symlink_ancestors_are_rejected() {
    let (download, action) =
        drawing("/sdcard/a", "/tmp/download").on_event(DownloadEvent::Bits(0, 1));
    let first = created(action);
    assert_eq!(first, "/tmp/.mab-00000000000000000000000000000001.partial");
    let (download, action) = download.on_event(DownloadEvent::Taken);
    assert!(matches!(action, DownloadAction::DrawBits));
    let (_, action) = download.on_event(DownloadEvent::Bits(1, 0));
    let second = created(action);
    assert_ne!(first, second);
    assert_eq!(second, "/tmp/.mab-00000000000000010000000000000000.partial");

    assert_eq!(links_of(&first, &format!("{first}/outside"), false, &first), first);
    assert_eq!(links_of(&first, &first, true, &first), first);

    let request = TransferRequest { options: quiet(), paths: values(&["/sdcard/a", "/tmp/x"]) };
    let (download, action) = Download::begin(request).unwrap();
    assert!(matches!(action, DownloadAction::IsDirectory(path) if path == "/tmp/x"));
    let (download, action) = download.on_event(DownloadEvent::Answer(true));
    assert!(matches!(action, DownloadAction::MakeDirectory(path) if path == "/tmp/x"));
    let (download, action) = download.on_event(DownloadEvent::Done);
    assert!(matches!(action, DownloadAction::Shell(_)));
    let (download, action) =
        download.on_event(DownloadEvent::Output(b"f\t644\t1\t/sdcard/a\n".to_vec()));
    match &action {
        DownloadAction::AreLinks(paths) => assert_eq!(*paths, ["/tmp/x"]),
        other => panic!("{other:?}"),
    }
    let (_, action) = download.on_event(DownloadEvent::Links(vec![true]));
    assert!(matches!(
        action,
        DownloadAction::Finish(Err(error)) if error == "refusing to traverse download symlink: /tmp/x"
    ));
}

#[test]
fn the_first_link_above_a_place_is_named() {
    let request = TransferRequest { options: quiet(), paths: values(&["/d", "/tmp"]) };
    let (download, _) = Download::begin(request).unwrap();
    let (download, _) = download.on_event(DownloadEvent::Answer(true));
    let (download, _) = download.on_event(DownloadEvent::Done);
    let (download, action) =
        download.on_event(DownloadEvent::Output(b"d\t755\t1\t/d\nf\t644\t1\t/d/e/f\n".to_vec()));
    assert!(matches!(action, DownloadAction::AreLinks(paths) if paths == ["/tmp/d", "/tmp"]));
    let (download, action) = download.on_event(DownloadEvent::Links(vec![false, false]));
    assert!(matches!(action, DownloadAction::MakeDirectory(path) if path == "/tmp/d"));
    let (download, action) = download.on_event(DownloadEvent::Done);
    assert!(matches!(
        action,
        DownloadAction::AreLinks(paths) if paths == ["/tmp/d/e", "/tmp/d", "/tmp"]
    ));
    let (_, action) = download.on_event(DownloadEvent::Links(vec![false, true, true]));
    assert!(matches!(
        action,
        DownloadAction::Finish(Err(error)) if error == "refusing to traverse download symlink: /tmp/d"
    ));
}

#[test]
fn downloads_of_a_file() {
    let partial = "/tmp/.mab-00000000000000000000000000000007.partial";
    let (download, action) = drawing("/sdcard/a", "/tmp/b").on_event(DownloadEvent::Bits(0, 7));
    assert_eq!(created(action), partial);
    let (download, action) = download.on_event(DownloadEvent::Done);
    assert!(matches!(
        action,
        DownloadAction::Fetch { remote, temporary } if remote == "/sdcard/a" && temporary == partial
    ));
    let (download, action) = download.on_event(DownloadEvent::Done);
    assert!(matches!(action, DownloadAction::Sync(path) if path == partial));
    let (download, action) = download.on_event(DownloadEvent::Done);
    assert!(matches!(
        action,
        DownloadAction::Replace { temporary, local } if temporary == partial && local == "/tmp/b"
    ));
    let (download, action) = download.on_event(DownloadEvent::Done);
    assert!(matches!(action, DownloadAction::RemoveTemporary(path) if path == partial));
    let (_, action) = download.on_event(DownloadEvent::Failed("no such file".to_owned()));
    assert!(matches!(action, DownloadAction::Finish(Ok(()))));
    let request = TransferRequest { options: quiet(), paths: values(&["/a"]) };
    assert_eq!(
        Download::begin(request).map(|_| ()).unwrap_err(),
        "pull requires at least one source and a destination"
    );
}

#[test]
fn downloads_that_fail_leave_nothing_behind() {
    let partial = "/tmp/.mab-00000000000000000000000000000007.partial";
    for steps in 1..4 {
        let (mut download, _) = drawing("/sdcard/a", "/tmp/b").on_event(DownloadEvent::Bits(0, 7));
        for _ in 0..steps {
            download = download.on_event(DownloadEvent::Done).0;
        }
        let (download, action) = download.on_event(DownloadEvent::Failed("lost".to_owned()));
        assert!(matches!(action, DownloadAction::RemoveTemporary(path) if path == partial));
        let (_, action) = download.on_event(if steps == 1 {
            DownloadEvent::Failed("no permission".to_owned())
        } else {
            DownloadEvent::Done
        });
        assert!(matches!(action, DownloadAction::Finish(Err(error)) if error == "lost"));
    }
    let (download, _) = drawing("/sdcard/a", "/tmp/b").on_event(DownloadEvent::Bits(0, 7));
    let (_, action) = download.on_event(DownloadEvent::Failed("no permission".to_owned()));
    assert!(matches!(action, DownloadAction::Finish(Err(error)) if error == "no permission"));
    let (_, action) =
        drawing("/sdcard/a", "/tmp/b").on_event(DownloadEvent::Failed("no bits".to_owned()));
    assert!(matches!(action, DownloadAction::Finish(Err(error)) if error == "no bits"));
}

#[test]
fn a_link_takes_the_place_of_what_is_there() {
    let linking = || {
        let request = TransferRequest { options: quiet(), paths: values(&["/l", "/tmp/l"]) };
        let (download, _) = Download::begin(request).unwrap();
        let (download, _) = download.on_event(DownloadEvent::Answer(false));
        let (download, _) =
            download.on_event(DownloadEvent::Output(b"l\t777\t1\t/l\n".to_vec()));
        let (download, action) = download.on_event(DownloadEvent::Answer(false));
        assert!(matches!(action, DownloadAction::AreLinks(paths) if paths == ["/tmp"]));
        let (download, _) = download.on_event(DownloadEvent::Links(vec![false]));
        let (download, action) = download.on_event(DownloadEvent::Done);
        assert!(matches!(action, DownloadAction::Shell(command) if command == "readlink -- '/l'"));
        let (download, action) = download.on_event(DownloadEvent::Output(b"target\n".to_vec()));
        assert!(matches!(action, DownloadAction::Exists(path) if path == "/tmp/l"));
        download
    };
    let (download, action) = linking().on_event(DownloadEvent::Answer(true));
    assert!(matches!(action, DownloadAction::RemoveFile(path) if path == "/tmp/l"));
    let (download, action) = download.on_event(DownloadEvent::Done);
    assert!(matches!(
        action,
        DownloadAction::MakeLink { target, local } if target == "target" && local == "/tmp/l"
    ));
    let (_, action) = download.on_event(DownloadEvent::Done);
    assert!(matches!(action, DownloadAction::Finish(Ok(()))));
    let (_, action) = linking().on_event(DownloadEvent::Answer(false));
    assert!(matches!(
        action,
        DownloadAction::MakeLink { target, local } if target == "target" && local == "/tmp/l"
    ));
}

#[test]
fn an_entry_outside_its_source_ends_a_download() {
    let request = TransferRequest { options: quiet(), paths: values(&["/d", "/tmp"]) };
    let (download, _) = Download::begin(request).unwrap();
    let (download, _) = download.on_event(DownloadEvent::Answer(true));
    let (download, _) = download.on_event(DownloadEvent::Done);
    let (_, action) =
        download.on_event(DownloadEvent::Output(b"f\t644\t1\t/d/../e\n".to_vec()));
    assert!(matches!(action, DownloadAction::Finish(Err(error)) if error == "unsafe remote path"));
}

#[test]
fn names_beside_a_path() {
    assert_eq!(with_file_name("/tmp/a", "b"), "/tmp/b");
    assert_eq!(with_file_name("a", "b"), "b");
    assert_eq!(with_file_name("x/a/", "b"), "x/b");
    assert_eq!(with_file_name("x/..", "b"), "x/../b");
    assert_eq!(with_file_name("/", "b"), "/b");
    assert_eq!(partial_name(0, 1), ".mab-00000000000000000000000000000001.partial");
}

#[test]
fn synchronisations_of_partitions() {
    let begin = |items: &[&str], out: Option<&str>| {
        Synchronisation::begin(&values(items), out.map(str::to_owned))
    };
    assert_eq!(
        begin(&["sync"], None).map(|_| ()).unwrap_err(),
        "ANDROID_PRODUCT_OUT is not set"
    );
    let (sync, action) = begin(&["sync", "vendor"], Some("/out")).unwrap();
    assert!(matches!(action, SyncAction::IsDirectory(path) if path == "/out/vendor"));
    let (_, action) = sync.on_event(SyncEvent::Answer(false));
    assert!(matches!(
        action,
        SyncAction::Finish(Err(error)) if error == "sync source is missing: /out/vendor"
    ));
    let (sync, _) = begin(&["sync", "vendor"], Some("/out")).unwrap();
    let (sync, action) = sync.on_event(SyncEvent::Answer(true));
    assert!(matches!(action, SyncAction::ReadDirectory(path) if path == "/out/vendor"));
    let (_, action) = sync.on_event(SyncEvent::Entries {
        list: values(&["/out/vendor/etc"]),
        broken: None,
    });
    assert!(matches!(action, SyncAction::Upload(UploadAction::Shell(_))));
}

/// Answers every question of an upload of one small file until it asks for no more.
fn upload_event(action: &UploadAction<String>) -> UploadEvent<String, Vec<u8>, Vec<String>> {
    match action {
        UploadAction::Shell(_) => UploadEvent::Output(vec![]),
        UploadAction::IsDirectory(_) => UploadEvent::Answer(false),
        UploadAction::List(path) => UploadEvent::Entries(vec![path.clone()]),
        UploadAction::Stat(_) => UploadEvent::Known(file()),
        UploadAction::ReadLink(_) => UploadEvent::Target("target".to_owned()),
        _ => UploadEvent::Done,
    }
}

/// Runs a synchronisation of one partition, and tells what it asked for and its end.
fn synchronise(
    args: &[&str],
    list: &[&str],
    broken: Option<&str>,
) -> (Vec<String>, Result<(), String>) {
    let (mut sync, mut action) =
        Synchronisation::begin(&values(args), Some("/out".to_owned())).unwrap();
    let mut asked = Vec::new();
    loop {
        let event = match &action {
            SyncAction::IsDirectory(_) => SyncEvent::Answer(true),
            SyncAction::ReadDirectory(_) => SyncEvent::Entries {
                list: values(list),
                broken: broken.map(str::to_owned),
            },
            SyncAction::Upload(action) => {
                match action {
                    UploadAction::Shell(command) => asked.push(command.clone()),
                    UploadAction::Push { remote, .. } => asked.push(format!("push {remote}")),
                    _ => {}
                }
                SyncEvent::Upload(upload_event(action))
            }
            SyncAction::Finish(result) => return (asked, result.clone()),
        };
        (sync, action) = sync.on_event(event);
    }
}

#[test]
fn entries_before_an_unreadable_one_are_synchronised() {
    let (asked, result) =
        synchronise(&["sync", "vendor"], &["/out/vendor/a", "/out/vendor/b"], Some("bad entry"));
    assert_eq!(result.unwrap_err(), "bad entry");
    let pushed: Vec<&String> = asked.iter().filter(|line| line.starts_with("push ")).collect();
    assert_eq!(pushed, ["push /vendor", "push /vendor"]);
    let (asked, result) = synchronise(&["sync", "vendor"], &[], Some("bad entry"));
    assert_eq!(result.unwrap_err(), "bad entry");
    assert!(asked.is_empty());
}

#[test]
fn a_listing_only_asks_about_the_destination() {
    let (asked, result) =
        synchronise(&["sync", "-l", "vendor"], &["/out/vendor/a", "/out/vendor/b"], None);
    result.unwrap();
    let probe = "if [ -d '/vendor' ]; then printf directory; fi";
    assert_eq!(asked, [probe, probe]);
}

#[test]
fn numbers_in_texts() {
    assert_eq!(parse_u16("65535"), Some(65535));
    assert_eq!(parse_u16("+7"), Some(7));
    assert_eq!(parse_u16("65536"), None);
    assert_eq!(parse_u16("-1"), None);
    assert_eq!(parse_i64("-9223372036854775808"), Some(i64::MIN));
    assert_eq!(parse_unsigned("ff", 16, 255), Some(255));
    assert_eq!(read_signed("").unwrap_err(), "cannot parse integer from empty string");
    assert_eq!(
        read_signed("9223372036854775808").unwrap_err(),
        "number too large to fit in target type"
    );
    assert_eq!(
        read_signed("-9223372036854775809").unwrap_err(),
        "number too small to fit in target type"
    );
    assert_eq!(format_number(0xab, 16, 4), "00ab");
    assert_eq!(format_signed(i64::MIN), "-9223372036854775808");
}

#[test]
fn daemons_are_started_and_waited_for() {
    assert_eq!(
        Startup::Probing.next(DaemonKind::Usb, Outcome::Yes),
        Startup::Ready
    );
    let mut phase = Startup::Probing;
    let mut steps = 0;
    while !matches!(phase, Startup::Ready | Startup::Reading) {
        phase = phase.next(DaemonKind::Usb, Outcome::No);
        steps += 1;
        assert!(steps < 1000);
    }
    assert_eq!(phase, Startup::Reading);
    assert_eq!(steps, 163);
}
