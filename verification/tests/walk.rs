use std::collections::BTreeMap;

use degreen::error::{Error, IoFailure};
use degreen::exchange::{FileKind, Metadata, Reply, Request};
use degreen::settings::Settings;
use degreen::walk::{run, Step};

/// An entry of the filesystem that the tests walk over.
#[derive(Clone, Debug, PartialEq)]
enum Node {
    File { mode: u32, content: Vec<u8> },
    Dir { mode: u32, entries: Vec<Result<String, String>> },
    Link,
    Fifo,
}

/// A filesystem in memory. Relative paths resolve below `/cwd`.
struct Disk {
    nodes: BTreeMap<String, Node>,
    no_stat: Vec<String>,
    no_canonical: Vec<String>,
    no_listing: Vec<String>,
    no_chmod: Vec<String>,
    asked: Vec<String>,
    printed: Vec<String>,
}

fn absolute(path: &str) -> String {
    if path.starts_with('/') {
        String::from(path)
    } else {
        format!("/cwd/{}", path)
    }
}

fn denied(what: &str) -> IoFailure {
    IoFailure { not_found: false, detail: format!("{}: permission denied", what) }
}

fn missing() -> IoFailure {
    IoFailure { not_found: true, detail: String::from("No such file or directory (os error 2)") }
}

impl Disk {
    fn new() -> Disk {
        Disk {
            nodes: BTreeMap::new(),
            no_stat: Vec::new(),
            no_canonical: Vec::new(),
            no_listing: Vec::new(),
            no_chmod: Vec::new(),
            asked: Vec::new(),
            printed: Vec::new(),
        }
    }

    fn file(&mut self, path: &str, mode: u32, content: &[u8]) {
        self.nodes.insert(String::from(path), Node::File { mode, content: content.to_vec() });
    }

    fn dir(&mut self, path: &str, names: &[&str]) {
        let entries = names.iter().map(|name| Ok(format!("{}/{}", path, name))).collect();
        self.nodes.insert(String::from(path), Node::Dir { mode: 0o755, entries });
    }

    fn mode(&self, path: &str) -> u32 {
        match self.nodes.get(path) {
            Some(Node::File { mode, .. }) => *mode,
            Some(Node::Dir { mode, .. }) => *mode,
            other => panic!("no mode at {}: {:?}", path, other),
        }
    }

    fn set_mode_requests(&self) -> usize {
        self.asked.iter().filter(|line| line.starts_with("chmod ")).count()
    }

    fn perform(&mut self, request: &Request) -> Reply {
        match request {
            Request::Stat { path, .. } => {
                self.asked.push(format!("stat {}", path));
                if self.no_stat.contains(path) {
                    return Reply::Stat(Err(denied("stat")));
                }
                match self.nodes.get(&absolute(path)) {
                    None => Reply::Stat(Err(missing())),
                    Some(Node::File { mode, .. }) => {
                        Reply::Stat(Ok(Metadata { kind: FileKind::File, mode: *mode }))
                    }
                    Some(Node::Dir { mode, .. }) => {
                        Reply::Stat(Ok(Metadata { kind: FileKind::Directory, mode: *mode }))
                    }
                    Some(Node::Link) => {
                        Reply::Stat(Ok(Metadata { kind: FileKind::Symlink, mode: 0o777 }))
                    }
                    Some(Node::Fifo) => {
                        Reply::Stat(Ok(Metadata { kind: FileKind::Other, mode: 0o644 }))
                    }
                }
            }
            Request::Canonicalize { path, .. } => {
                self.asked.push(format!("canonicalize {}", path));
                if self.no_canonical.contains(path) {
                    Reply::Canonical(Err(denied("canonicalize")))
                } else {
                    Reply::Canonical(Ok(absolute(path)))
                }
            }
            Request::ReadPrefix { path, .. } => {
                self.asked.push(format!("read {}", path));
                match self.nodes.get(path) {
                    Some(Node::File { content, .. }) if content.len() >= 4 => {
                        Reply::Prefix(Ok([content[0], content[1], content[2], content[3]]))
                    }
                    Some(Node::File { .. }) => Reply::Prefix(Err(IoFailure {
                        not_found: false,
                        detail: String::from("failed to fill whole buffer"),
                    })),
                    _ => Reply::Prefix(Err(missing())),
                }
            }
            Request::List { path } => {
                self.asked.push(format!("list {}", path));
                if self.no_listing.contains(path) {
                    return Reply::Listing(Err(denied("list")));
                }
                match self.nodes.get(path) {
                    Some(Node::Dir { entries, .. }) => Reply::Listing(Ok(entries
                        .iter()
                        .map(|entry| match entry {
                            Ok(path) => Ok(path.clone()),
                            Err(detail) => {
                                Err(IoFailure { not_found: false, detail: detail.clone() })
                            }
                        })
                        .collect())),
                    _ => Reply::Listing(Err(missing())),
                }
            }
            Request::SetMode { path, mode } => {
                self.asked.push(format!("chmod {:o} {}", mode, path));
                if self.no_chmod.contains(path) {
                    return Reply::ModeSet(Err(denied("chmod")));
                }
                match self.nodes.get_mut(path) {
                    Some(Node::File { mode: current, .. }) => {
                        *current = *mode;
                        Reply::ModeSet(Ok(()))
                    }
                    _ => Reply::ModeSet(Err(missing())),
                }
            }
            Request::Notice { text, .. } => {
                self.printed.push(text.clone());
                Reply::Noticed
            }
        }
    }
}

fn settings(paths: &[&str]) -> Settings {
    Settings {
        force: false,
        recursive: false,
        verbose: false,
        paths: paths.iter().map(|path| String::from(*path)).collect(),
    }
}

/// Runs to the end, performing each request on `disk`.
fn drive(settings: Settings, disk: &mut Disk) -> Result<bool, Error> {
    let mut step = run(settings);
    loop {
        match step {
            Step::Done(result) => return result,
            Step::Next(walk) => {
                let reply = disk.perform(walk.request());
                step = walk.resume(reply);
            }
        }
    }
}

const ELF: &[u8] = &[0x7F, b'E', b'L', b'F', 2, 1, 1, 0];
const SCRIPT: &[u8] = b"#!/bin/sh\necho hello\n";
const TEXT: &[u8] = b"just some text\n";

/// `/t` holds `a.out`, `run.sh` and `data.txt`, all with mode 0755.
fn small_tree() -> Disk {
    let mut disk = Disk::new();
    disk.dir("/t", &["a.out", "run.sh", "data.txt"]);
    disk.file("/t/a.out", 0o755, ELF);
    disk.file("/t/run.sh", 0o755, SCRIPT);
    disk.file("/t/data.txt", 0o755, TEXT);
    disk
}

/// `/deep` holds files and directories nested three levels down.
fn deep_tree() -> Disk {
    let mut disk = Disk::new();
    disk.dir("/deep", &["one.txt", "sub", "tool"]);
    disk.file("/deep/one.txt", 0o777, TEXT);
    disk.dir("/deep/sub", &["two.txt", "subsub"]);
    disk.file("/deep/sub/two.txt", 0o755, TEXT);
    disk.dir("/deep/sub/subsub", &["three.txt", "script"]);
    disk.file("/deep/sub/subsub/three.txt", 0o711, TEXT);
    disk.file("/deep/sub/subsub/script", 0o755, SCRIPT);
    disk.file("/deep/tool", 0o755, ELF);
    disk
}

#[test]
fn run_without_paths_succeeds_at_once() {
    assert_eq!(run(settings(&[])), Step::Done(Ok(true)));
}

#[test]
fn run_first_asks_for_the_metadata_of_the_first_path() {
    match run(settings(&["b", "a"])) {
        Step::Next(walk) => assert_eq!(
            walk.request(),
            &Request::Stat { path: String::from("b"), top_level: true }
        ),
        Step::Done(result) => panic!("over already: {:?}", result),
    }
}

#[test]
fn single_plain_file_is_stripped() {
    let mut disk = Disk::new();
    disk.file("/cwd/notes", 0o755, TEXT);
    assert_eq!(drive(settings(&["notes"]), &mut disk), Ok(true));
    assert_eq!(disk.mode("/cwd/notes"), 0o644);
    assert_eq!(
        disk.asked,
        vec!["stat notes", "canonicalize notes", "read /cwd/notes", "chmod 644 /cwd/notes"]
    );
}

#[test]
fn scenario_directory_with_binary_script_and_text() {
    let mut disk = small_tree();
    let mut options = settings(&["/t"]);
    options.recursive = true;
    assert_eq!(drive(options, &mut disk), Ok(true));
    assert_eq!(disk.mode("/t/a.out"), 0o755);
    assert_eq!(disk.mode("/t/run.sh"), 0o755);
    assert_eq!(disk.mode("/t/data.txt"), 0o644);
    assert_eq!(disk.mode("/t"), 0o755);
    assert!(disk.printed.is_empty());
}

#[test]
fn scenario_entries_are_visited_in_listing_order() {
    let mut disk = small_tree();
    let mut options = settings(&["/t"]);
    options.recursive = true;
    assert_eq!(drive(options, &mut disk), Ok(true));
    assert_eq!(
        disk.asked,
        vec![
            "stat /t",
            "canonicalize /t",
            "list /t",
            "stat /t/a.out",
            "canonicalize /t/a.out",
            "read /t/a.out",
            "stat /t/run.sh",
            "canonicalize /t/run.sh",
            "read /t/run.sh",
            "stat /t/data.txt",
            "canonicalize /t/data.txt",
            "read /t/data.txt",
            "chmod 644 /t/data.txt",
        ]
    );
}

#[test]
fn scenario_single_symlink_argument_fails() {
    let mut disk = small_tree();
    disk.nodes.insert(String::from("/link"), Node::Link);
    let before = disk.nodes.clone();
    let mut options = settings(&["/link"]);
    options.recursive = true;
    options.force = true;
    assert_eq!(drive(options, &mut disk), Err(Error::SymlinkDenied(String::from("/link"))));
    assert_eq!(disk.nodes, before);
    assert_eq!(disk.asked, vec!["stat /link"]);
}

#[test]
fn symlink_root_to_file_or_directory_is_denied_without_any_change() {
    for recursive in [false, true] {
        for force in [false, true] {
            let mut disk = small_tree();
            disk.nodes.insert(String::from("/cwd/to_file"), Node::Link);
            disk.nodes.insert(String::from("/cwd/to_dir"), Node::Link);
            for link in ["to_file", "to_dir"] {
                let before = disk.nodes.clone();
                let mut options = settings(&[link, "/t/data.txt"]);
                options.recursive = recursive;
                options.force = force;
                assert_eq!(
                    drive(options, &mut disk),
                    Err(Error::SymlinkDenied(String::from(link)))
                );
                assert_eq!(disk.nodes, before);
                assert_eq!(disk.set_mode_requests(), 0);
            }
        }
    }
}

#[test]
fn symlink_inside_a_directory_ends_the_run_even_under_force() {
    let mut disk = Disk::new();
    disk.dir("/d", &["first.txt", "link", "last.txt"]);
    disk.file("/d/first.txt", 0o755, TEXT);
    disk.nodes.insert(String::from("/d/link"), Node::Link);
    disk.file("/d/last.txt", 0o755, TEXT);
    let mut options = settings(&["/d"]);
    options.recursive = true;
    options.force = true;
    assert_eq!(drive(options, &mut disk), Err(Error::SymlinkDenied(String::from("/d/link"))));
    assert_eq!(disk.mode("/d/first.txt"), 0o644);
    assert_eq!(disk.mode("/d/last.txt"), 0o755);
}

#[test]
fn top_level_directory_without_recursive_is_refused() {
    let mut disk = deep_tree();
    let before = disk.nodes.clone();
    assert_eq!(
        drive(settings(&["/deep"]), &mut disk),
        Err(Error::RecursionNotRequested(String::from("/deep")))
    );
    assert_eq!(disk.nodes, before);
    assert_eq!(disk.asked, vec!["stat /deep", "canonicalize /deep"]);
}

#[test]
fn refused_directory_is_named_by_its_canonical_path() {
    let mut disk = Disk::new();
    disk.dir("/cwd/here", &[]);
    let mut options = settings(&["here"]);
    options.force = true;
    assert_eq!(
        drive(options, &mut disk),
        Err(Error::RecursionNotRequested(String::from("/cwd/here")))
    );
}

#[test]
fn recursive_run_reaches_every_depth() {
    let mut disk = deep_tree();
    let mut options = settings(&["/deep"]);
    options.recursive = true;
    assert_eq!(drive(options, &mut disk), Ok(true));
    assert_eq!(disk.mode("/deep/one.txt"), 0o666);
    assert_eq!(disk.mode("/deep/sub/two.txt"), 0o644);
    assert_eq!(disk.mode("/deep/sub/subsub/three.txt"), 0o600);
    assert_eq!(disk.mode("/deep/sub/subsub/script"), 0o755);
    assert_eq!(disk.mode("/deep/tool"), 0o755);
    assert_eq!(disk.mode("/deep"), 0o755);
    assert_eq!(disk.mode("/deep/sub"), 0o755);
    assert_eq!(disk.mode("/deep/sub/subsub"), 0o755);
    for directory in ["/deep", "/deep/sub", "/deep/sub/subsub"] {
        assert!(disk.asked.contains(&format!("list {}", directory)));
    }
}

#[test]
fn recursive_run_is_depth_first() {
    let mut disk = deep_tree();
    let mut options = settings(&["/deep"]);
    options.recursive = true;
    assert_eq!(drive(options, &mut disk), Ok(true));
    let changes: Vec<&String> =
        disk.asked.iter().filter(|line| line.starts_with("chmod ")).collect();
    assert_eq!(
        changes,
        vec![
            "chmod 666 /deep/one.txt",
            "chmod 644 /deep/sub/two.txt",
            "chmod 600 /deep/sub/subsub/three.txt",
        ]
    );
}

#[test]
fn paths_are_worked_on_in_the_order_given() {
    let mut disk = small_tree();
    disk.file("/cwd/z", 0o700, TEXT);
    disk.file("/cwd/a", 0o710, TEXT);
    assert_eq!(drive(settings(&["z", "/t/data.txt", "a"]), &mut disk), Ok(true));
    let changes: Vec<&String> =
        disk.asked.iter().filter(|line| line.starts_with("chmod ")).collect();
    assert_eq!(changes, vec!["chmod 600 /cwd/z", "chmod 644 /t/data.txt", "chmod 600 /cwd/a"]);
}

#[test]
fn missing_path_first_fails_fast_and_changes_nothing() {
    let mut disk = Disk::new();
    disk.file("/cwd/tool.txt", 0o755, TEXT);
    let result = drive(settings(&["nowhere", "tool.txt"]), &mut disk);
    assert_eq!(result, Err(Error::NotFound(String::from("nowhere"))));
    assert_eq!(disk.mode("/cwd/tool.txt"), 0o755);
    assert_eq!(disk.asked, vec!["stat nowhere"]);
}

#[test]
fn missing_path_is_fatal_under_force_too() {
    let mut disk = Disk::new();
    disk.file("/cwd/tool.txt", 0o755, TEXT);
    let mut options = settings(&["nowhere", "tool.txt"]);
    options.force = true;
    assert_eq!(drive(options, &mut disk), Err(Error::NotFound(String::from("nowhere"))));
    assert_eq!(disk.mode("/cwd/tool.txt"), 0o755);
}

#[test]
fn missing_path_after_a_file_fails_once_the_file_is_done() {
    for force in [false, true] {
        let mut disk = Disk::new();
        disk.file("/cwd/tool.txt", 0o755, TEXT);
        let mut options = settings(&["tool.txt", "nowhere"]);
        options.force = force;
        assert_eq!(drive(options, &mut disk), Err(Error::NotFound(String::from("nowhere"))));
        assert_eq!(disk.mode("/cwd/tool.txt"), 0o644);
    }
}

#[test]
fn uninspectable_path_is_fatal_without_force() {
    let mut disk = Disk::new();
    disk.file("/cwd/locked", 0o755, TEXT);
    disk.file("/cwd/tool.txt", 0o755, TEXT);
    disk.no_stat.push(String::from("locked"));
    let result = drive(settings(&["locked", "tool.txt"]), &mut disk);
    assert_eq!(result, Err(Error::Io(denied("stat"))));
    assert_eq!(disk.mode("/cwd/tool.txt"), 0o755);
    assert_eq!(disk.mode("/cwd/locked"), 0o755);
}

#[test]
fn uninspectable_path_is_passed_over_under_force() {
    let mut disk = Disk::new();
    disk.file("/cwd/locked", 0o755, TEXT);
    disk.file("/cwd/tool.txt", 0o755, TEXT);
    disk.no_stat.push(String::from("locked"));
    let mut options = settings(&["locked", "tool.txt"]);
    options.force = true;
    assert_eq!(drive(options, &mut disk), Ok(true));
    assert_eq!(disk.mode("/cwd/tool.txt"), 0o644);
    assert_eq!(disk.mode("/cwd/locked"), 0o755);
}

#[test]
fn vanished_entry_is_passed_over_under_force() {
    let mut disk = Disk::new();
    disk.dir("/d", &["gone", "kept.txt"]);
    disk.file("/d/kept.txt", 0o755, TEXT);
    let mut options = settings(&["/d"]);
    options.recursive = true;
    options.force = true;
    assert_eq!(drive(options, &mut disk), Ok(true));
    assert_eq!(disk.mode("/d/kept.txt"), 0o644);
}

#[test]
fn vanished_entry_is_an_io_error_without_force() {
    let mut disk = Disk::new();
    disk.dir("/d", &["gone", "kept.txt"]);
    disk.file("/d/kept.txt", 0o755, TEXT);
    let mut options = settings(&["/d"]);
    options.recursive = true;
    assert_eq!(drive(options, &mut disk), Err(Error::Io(missing())));
    assert_eq!(disk.mode("/d/kept.txt"), 0o755);
}

#[test]
fn unreadable_entry_is_passed_over_under_force_and_siblings_go_on() {
    let mut disk = Disk::new();
    disk.nodes.insert(
        String::from("/d"),
        Node::Dir {
            mode: 0o755,
            entries: vec![
                Ok(String::from("/d/a.txt")),
                Err(String::from("bad entry")),
                Ok(String::from("/d/b.txt")),
            ],
        },
    );
    disk.file("/d/a.txt", 0o755, TEXT);
    disk.file("/d/b.txt", 0o755, TEXT);
    let mut options = settings(&["/d"]);
    options.recursive = true;
    options.force = true;
    assert_eq!(drive(options, &mut disk), Ok(true));
    assert_eq!(disk.mode("/d/a.txt"), 0o644);
    assert_eq!(disk.mode("/d/b.txt"), 0o644);
}

#[test]
fn unreadable_entry_ends_the_run_without_force() {
    let mut disk = Disk::new();
    disk.nodes.insert(
        String::from("/d"),
        Node::Dir {
            mode: 0o755,
            entries: vec![
                Ok(String::from("/d/a.txt")),
                Err(String::from("bad entry")),
                Ok(String::from("/d/b.txt")),
            ],
        },
    );
    disk.file("/d/a.txt", 0o755, TEXT);
    disk.file("/d/b.txt", 0o755, TEXT);
    disk.file("/cwd/after.txt", 0o755, TEXT);
    let mut options = settings(&["/d", "after.txt"]);
    options.recursive = true;
    assert_eq!(
        drive(options, &mut disk),
        Err(Error::Io(IoFailure { not_found: false, detail: String::from("bad entry") }))
    );
    assert_eq!(disk.mode("/d/a.txt"), 0o644);
    assert_eq!(disk.mode("/d/b.txt"), 0o755);
    assert_eq!(disk.mode("/cwd/after.txt"), 0o755);
}

#[test]
fn unlistable_directory_is_passed_over_under_force() {
    let mut disk = deep_tree();
    disk.no_listing.push(String::from("/deep/sub"));
    let mut options = settings(&["/deep"]);
    options.recursive = true;
    options.force = true;
    assert_eq!(drive(options, &mut disk), Ok(true));
    assert_eq!(disk.mode("/deep/one.txt"), 0o666);
    assert_eq!(disk.mode("/deep/sub/two.txt"), 0o755);
    assert_eq!(disk.mode("/deep/sub/subsub/three.txt"), 0o711);
}

#[test]
fn unlistable_directory_ends_the_run_without_force() {
    let mut disk = deep_tree();
    disk.no_listing.push(String::from("/deep/sub"));
    let mut options = settings(&["/deep"]);
    options.recursive = true;
    assert_eq!(drive(options, &mut disk), Err(Error::Io(denied("list"))));
    assert_eq!(disk.mode("/deep/one.txt"), 0o666);
    assert_eq!(disk.mode("/deep/sub/two.txt"), 0o755);
}

#[test]
fn file_shorter_than_four_bytes_is_an_io_error() {
    for force in [false, true] {
        let mut disk = Disk::new();
        disk.file("/cwd/tiny", 0o755, b"abc");
        disk.file("/cwd/next.txt", 0o755, TEXT);
        let mut options = settings(&["tiny", "next.txt"]);
        options.force = force;
        assert_eq!(
            drive(options, &mut disk),
            Err(Error::Io(IoFailure {
                not_found: false,
                detail: String::from("failed to fill whole buffer"),
            }))
        );
        assert_eq!(disk.mode("/cwd/tiny"), 0o755);
        assert_eq!(disk.mode("/cwd/next.txt"), 0o755);
    }
}

#[test]
fn file_of_exactly_four_bytes_is_classified() {
    let mut disk = Disk::new();
    disk.file("/cwd/four", 0o755, b"abcd");
    disk.file("/cwd/elf", 0o755, &[0x7F, b'E', b'L', b'F']);
    assert_eq!(drive(settings(&["four", "elf"]), &mut disk), Ok(true));
    assert_eq!(disk.mode("/cwd/four"), 0o644);
    assert_eq!(disk.mode("/cwd/elf"), 0o755);
}

#[test]
fn failed_mode_change_ends_the_run_even_under_force() {
    let mut disk = Disk::new();
    disk.file("/cwd/fixed", 0o755, TEXT);
    disk.file("/cwd/next.txt", 0o755, TEXT);
    disk.no_chmod.push(String::from("/cwd/fixed"));
    let mut options = settings(&["fixed", "next.txt"]);
    options.force = true;
    assert_eq!(drive(options, &mut disk), Err(Error::Io(denied("chmod"))));
    assert_eq!(disk.mode("/cwd/next.txt"), 0o755);
}

#[test]
fn failed_canonicalization_ends_the_run_even_under_force() {
    let mut disk = Disk::new();
    disk.file("/cwd/odd", 0o755, TEXT);
    disk.no_canonical.push(String::from("odd"));
    let mut options = settings(&["odd"]);
    options.force = true;
    assert_eq!(drive(options, &mut disk), Err(Error::Io(denied("canonicalize"))));
    assert_eq!(disk.mode("/cwd/odd"), 0o755);
    assert_eq!(disk.asked, vec!["stat odd", "canonicalize odd"]);
}

#[test]
fn unsupported_file_type_is_an_invariant_violation() {
    let mut disk = Disk::new();
    disk.nodes.insert(String::from("/cwd/pipe"), Node::Fifo);
    let mut options = settings(&["pipe"]);
    options.force = true;
    options.recursive = true;
    assert_eq!(
        drive(options, &mut disk),
        Err(Error::InvariantViolation(String::from("/cwd/pipe")))
    );
}

#[test]
fn verbose_run_says_why_files_were_left_alone() {
    let mut disk = small_tree();
    let mut options = settings(&["/t"]);
    options.recursive = true;
    options.verbose = true;
    assert_eq!(drive(options, &mut disk), Ok(true));
    assert_eq!(
        disk.printed,
        vec!["'/t/a.out' looks like an ELF file", "'/t/run.sh' looks like it has a shebang line"]
    );
    assert_eq!(disk.mode("/t/data.txt"), 0o644);
}

#[test]
fn quiet_run_prints_nothing() {
    let mut disk = small_tree();
    let mut options = settings(&["/t/a.out", "/t/run.sh", "/t/data.txt"]);
    options.verbose = false;
    assert_eq!(drive(options, &mut disk), Ok(true));
    assert!(disk.printed.is_empty());
}

#[test]
fn second_run_changes_nothing_more() {
    let mut disk = deep_tree();
    let mut options = settings(&["/deep"]);
    options.recursive = true;
    assert_eq!(drive(options.clone(), &mut disk), Ok(true));
    let after_first = disk.nodes.clone();
    assert_eq!(drive(options, &mut disk), Ok(true));
    assert_eq!(disk.nodes, after_first);
}

#[test]
fn nested_directories_need_no_flag_of_their_own() {
    let mut disk = deep_tree();
    let mut options = settings(&["/deep/one.txt", "/deep"]);
    options.recursive = true;
    assert_eq!(drive(options, &mut disk), Ok(true));
    assert_eq!(disk.mode("/deep/sub/subsub/three.txt"), 0o600);
    let mut disk = deep_tree();
    let options = settings(&["/deep/one.txt", "/deep"]);
    assert_eq!(
        drive(options, &mut disk),
        Err(Error::RecursionNotRequested(String::from("/deep")))
    );
    assert_eq!(disk.mode("/deep/one.txt"), 0o666);
    assert_eq!(disk.mode("/deep/sub/two.txt"), 0o755);
}

#[test]
fn reply_that_does_not_answer_the_request_ends_the_run() {
    match run(settings(&["some/path"])) {
        Step::Next(walk) => match walk.resume(Reply::Noticed) {
            Step::Done(result) => {
                assert_eq!(result, Err(Error::InvariantViolation(String::from("some/path"))))
            }
            Step::Next(walk) => panic!("went on with {:?}", walk.request()),
        },
        Step::Done(result) => panic!("over already: {:?}", result),
    }
}

#[test]
fn walk_remembers_kind_and_mode_while_the_path_is_resolved() {
    let step = match run(settings(&["f"])) {
        Step::Next(walk) => {
            walk.resume(Reply::Stat(Ok(Metadata { kind: FileKind::File, mode: 0o4755 })))
        }
        Step::Done(result) => panic!("over already: {:?}", result),
    };
    let step = match step {
        Step::Next(walk) => {
            assert_eq!(
                walk.request(),
                &Request::Canonicalize {
                    path: String::from("f"),
                    top_level: true,
                    kind: FileKind::File,
                    mode: 0o4755,
                }
            );
            walk.resume(Reply::Canonical(Ok(String::from("/abs/f"))))
        }
        Step::Done(result) => panic!("over already: {:?}", result),
    };
    let step = match step {
        Step::Next(walk) => {
            assert_eq!(
                walk.request(),
                &Request::ReadPrefix { path: String::from("/abs/f"), mode: 0o4755 }
            );
            walk.resume(Reply::Prefix(Ok(*b"text")))
        }
        Step::Done(result) => panic!("over already: {:?}", result),
    };
    let step = match step {
        Step::Next(walk) => {
            assert_eq!(
                walk.request(),
                &Request::SetMode { path: String::from("/abs/f"), mode: 0o4644 }
            );
            walk.resume(Reply::ModeSet(Ok(())))
        }
        Step::Done(result) => panic!("over already: {:?}", result),
    };
    assert_eq!(step, Step::Done(Ok(true)));
}
