use name_lint::render::event_line;
use name_lint::traverse::traverse;
use name_lint::traverse::Config;
use name_lint::traverse::Event;
use name_lint::traverse::FsNode;

fn config(fix: bool, verbose: bool, ignore: &[&str]) -> Config {
    Config {
        fix,
        verbose,
        ignore: ignore.iter().map(|p| p.to_string()).collect(),
        cwd: "/nowhere".to_owned(),
    }
}

fn file(name: &str) -> FsNode {
    FsNode::File { name: name.to_owned() }
}

fn dir(name: &str, children: Vec<FsNode>) -> FsNode {
    FsNode::Dir { name: name.to_owned(), children }
}

fn log(tag: &str, path: &str) -> Event {
    Event::Log { tag: tag.to_owned(), path: path.to_owned() }
}

#[test]
fn ignored_pattern_hides_matching_files() {
    let tree = dir("root", vec![file("a.tmp"), file("b.txt")]);
    let cfg = config(false, true, &["*.tmp"]);
    let events = traverse(&cfg, &tree, "root");
    assert_eq!(
        events,
        vec![
            log("DIRECTORY", "root"),
            log("IGNORE", "root/a.tmp"),
            log("FILE", "root/b.txt"),
        ]
    );
}

#[test]
fn ignored_directory_silences_its_whole_subtree() {
    let tree = dir(
        "root",
        vec![
            dir("skip.tmp", vec![file("bad name inside.txt")]),
            file("ok.txt"),
        ],
    );
    let cfg = config(false, true, &["*.tmp"]);
    let events = traverse(&cfg, &tree, "root");
    assert_eq!(
        events,
        vec![
            log("DIRECTORY", "root"),
            log("IGNORE", "root/skip.tmp"),
            log("FILE", "root/ok.txt"),
        ]
    );
}

#[test]
fn without_fix_a_notice_is_printed_and_nothing_renamed() {
    let tree = dir("root", vec![file("bad name.txt")]);
    let cfg = config(false, false, &[]);
    let events = traverse(&cfg, &tree, "root");
    assert_eq!(
        events,
        vec![Event::Notice {
            path: "root/bad name.txt".to_owned(),
            new_name: "bad_name.txt".to_owned(),
        }]
    );
    assert!(!events.iter().any(|e| matches!(e, Event::Rename { .. })));
}

#[test]
fn with_fix_a_rename_follows_the_notice() {
    let tree = dir("root", vec![file("bad name.txt")]);
    let cfg = config(true, false, &[]);
    let events = traverse(&cfg, &tree, "root");
    assert_eq!(
        events,
        vec![
            Event::Notice {
                path: "root/bad name.txt".to_owned(),
                new_name: "bad_name.txt".to_owned(),
            },
            Event::Rename {
                from: "root/bad name.txt".to_owned(),
                to: "root/bad_name.txt".to_owned(),
            },
        ]
    );
}

#[test]
fn renamed_directory_is_recursed_under_its_new_name() {
    let tree = dir("bad dir", vec![file("x y")]);
    let cfg = config(true, false, &[]);
    let events = traverse(&cfg, &tree, "bad dir");
    assert_eq!(
        events,
        vec![
            Event::Notice { path: "bad dir".to_owned(), new_name: "bad_dir".to_owned() },
            Event::Rename { from: "bad dir".to_owned(), to: "bad_dir".to_owned() },
            Event::Notice { path: "bad_dir/x y".to_owned(), new_name: "x_y".to_owned() },
            Event::Rename {
                from: "bad_dir/x y".to_owned(),
                to: "bad_dir/x_y".to_owned(),
            },
        ]
    );
}

#[test]
fn paths_are_relativized_for_display() {
    let tree = file("My File-1.txt");
    let mut cfg = config(true, true, &[]);
    cfg.cwd = "/w".to_owned();
    let events = traverse(&cfg, &tree, "/w/My File-1.txt");
    assert_eq!(
        events,
        vec![
            log("FILE", "My File-1.txt"),
            Event::Notice {
                path: "My File-1.txt".to_owned(),
                new_name: "My_File_1.txt".to_owned(),
            },
            Event::Rename {
                from: "My File-1.txt".to_owned(),
                to: "My_File_1.txt".to_owned(),
            },
        ]
    );
}

#[test]
fn event_lines_match_the_stdout_contract() {
    let line = event_line(&log("FILE", "b.txt"));
    assert_eq!(line, Some("[FILE] \"b.txt\"".to_owned()));
    let line = event_line(&Event::Notice {
        path: "bad name.txt".to_owned(),
        new_name: "bad_name.txt".to_owned(),
    });
    assert_eq!(line, Some("\"bad name.txt\" -> \"bad_name.txt\"".to_owned()));
    let line = event_line(&Event::Rename { from: "a".to_owned(), to: "b".to_owned() });
    assert_eq!(line, None);
}
