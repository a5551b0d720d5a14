use std::collections::BTreeMap;

use itmr_dragonfable_launcher::migration::{
    copy_source, detect, has_data, sources, BaseDirectory, CopyEvent, CopyPhase, Entry, Found,
    HostDirectory, Session,
};

fn host(name: &str, entries: Vec<Entry>) -> HostDirectory {
    HostDirectory { host: name.to_string(), entries }
}

fn flash_like_root() -> Vec<Session> {
    vec![Session {
        is_dir: true,
        hosts: vec![
            host("play.dragonfable.com", vec![Entry::File]),
            host("dragonlord.battleon.com", vec![Entry::File]),
        ],
    }]
}

#[test]
fn detects_real_domains() {
    let detected = detect(Some(&flash_like_root()), false);
    assert_eq!(detected.len(), 2);
    assert!(detected.iter().any(|found| found.wanted.domain == "play.dragonfable.com"));
    assert!(detected.iter().any(|found| found.wanted.domain == "dragonlord.battleon.com"));
}

#[test]
fn detects_proxy_host_and_maps_it_to_play_domain() {
    let sessions =
        vec![Session { is_dir: true, hosts: vec![host("127.0.0.1", vec![Entry::File])] }];
    let detected = detect(Some(&sessions), true);
    assert_eq!(detected.len(), 1);
    assert_eq!(detected[0].wanted.domain, "play.dragonfable.com");
    let without_proxy = detect(Some(&sessions), false);
    assert!(without_proxy.is_empty());
}

#[test]
fn ignores_empty_domain_dirs() {
    let sessions =
        vec![Session { is_dir: true, hosts: vec![host("play.dragonfable.com", vec![])] }];
    assert!(detect(Some(&sessions), false).is_empty());
}

#[test]
fn no_shared_objects_dir_means_no_data() {
    assert!(detect(None, false).is_empty());
}

#[derive(Clone)]
enum Node {
    File(&'static str),
    Dir(Vec<(&'static str, Node)>),
}

/// Copies trees of files as a run asks for it, into files by path. Returns the
/// number that the run reports, and where it has copied to.
fn copy_run(
    trees: &[(String, Node)],
    files: &mut BTreeMap<String, String>,
) -> (usize, Vec<String>) {
    let mut run = copy_source(trees.iter().map(|(domain, _)| domain.clone()).collect());
    let mut open: Vec<Vec<(&'static str, Node)>> = Vec::new();
    let mut copied = Vec::new();
    while run.outcome().is_none() {
        let mut node = &trees[trees.len() - run.left.len() - 1].1;
        for name in run.source() {
            node = match node {
                Node::Dir(entries) => &entries.iter().find(|(known, _)| known == name).unwrap().1,
                Node::File(_) => panic!("no directory"),
            };
        }
        let event = match run.phase {
            CopyPhase::Listing => match node {
                Node::Dir(entries) => {
                    open.push(entries.clone());
                    CopyEvent::Listed
                }
                Node::File(_) => CopyEvent::Error,
            },
            CopyPhase::Reading => {
                let entries = open.last_mut().unwrap();
                if entries.is_empty() {
                    open.pop();
                    CopyEvent::EndOfDirectory
                } else {
                    match entries.remove(0) {
                        (name, Node::Dir(_)) => CopyEvent::Directory(name.to_string()),
                        (name, Node::File(_)) => CopyEvent::File(name.to_string()),
                    }
                }
            }
            CopyPhase::Checking => {
                if files.contains_key(&run.target().unwrap().join("/")) {
                    CopyEvent::TargetExists
                } else {
                    CopyEvent::TargetMissing
                }
            }
            CopyPhase::Copying => {
                let target = run.target().unwrap().join("/");
                let content = match node {
                    Node::File(content) => content.to_string(),
                    Node::Dir(_) => panic!("no file"),
                };
                assert!(files.insert(target.clone(), content).is_none());
                copied.push(target);
                CopyEvent::Copied
            }
            CopyPhase::Finished | CopyPhase::Failed => unreachable!(),
        };
        run.advance(event);
    }
    (run.outcome().unwrap().unwrap(), copied)
}

fn copy_trees(trees: &[(String, Node)], files: &mut BTreeMap<String, String>) -> usize {
    let (count, copied) = copy_run(trees, files);
    assert_eq!(count, copied.len());
    count
}

#[test]
fn copy_strips_prefix_and_never_overwrites() {
    let detected = detect(Some(&flash_like_root()), false);
    let trees: Vec<(String, Node)> = detected
        .iter()
        .map(|found| {
            let name = if found.wanted.host == "play.dragonfable.com" { "some.sol" } else { "other.sol" };
            (found.wanted.domain.to_string(), Node::Dir(vec![(name, Node::File("sol-data"))]))
        })
        .collect();
    let mut files = BTreeMap::new();

    // Pre-create one target to prove it is not overwritten.
    files.insert("play.dragonfable.com/some.sol".to_string(), "precious".to_string());

    let copied = copy_trees(&trees, &mut files);
    assert!(copied >= 1);
    assert_eq!(files["play.dragonfable.com/some.sol"], "precious");
    assert_eq!(files["dragonlord.battleon.com/other.sol"], "sol-data");
}

#[test]
fn nested_directories_are_copied_depth_first() {
    let tree = Node::Dir(vec![
        ("a", Node::Dir(vec![("x", Node::File("1")), ("b", Node::Dir(vec![("y", Node::File("2"))]))])),
        ("z", Node::File("3")),
    ]);
    let mut files = BTreeMap::new();
    let trees = [("d".to_string(), tree.clone()), ("d".to_string(), tree.clone()), ("e".to_string(), tree)];
    let (count, copied) = copy_run(&trees, &mut files);
    assert_eq!(count, 6);
    assert_eq!(copied, vec!["d/a/x", "d/a/b/y", "d/z", "e/a/x", "e/a/b/y", "e/z"]);
    assert_eq!(files.len(), 6);
    assert_eq!(files["d/a/b/y"], "2");
}

#[test]
fn copying_again_copies_nothing_more() {
    let first = ("d".to_string(), Node::Dir(vec![("x", Node::File("first"))]));
    let second = (
        "d".to_string(),
        Node::Dir(vec![("x", Node::File("second")), ("y", Node::File("2"))]),
    );
    let trees = [first, second];
    let mut files = BTreeMap::new();
    assert_eq!(copy_trees(&trees, &mut files), 2);
    assert_eq!(files["d/x"], "first");
    let left = files.clone();
    assert_eq!(copy_trees(&trees, &mut files), 0);
    assert_eq!(files, left);
    assert_eq!(copy_trees(&[], &mut files), 0);
}

#[test]
fn errors_end_a_copy() {
    let mut run = copy_source(vec!["d"]);
    assert_eq!(run.target(), None);
    run.advance(CopyEvent::Listed);
    run.advance(CopyEvent::File("x"));
    assert_eq!(run.target(), Some(&vec!["d", "x"]));
    assert_eq!(run.source(), ["x"]);
    run.advance(CopyEvent::TargetMissing);
    assert_eq!(run.target(), Some(&vec!["d", "x"]));
    assert_eq!(run.outcome(), None);
    run.advance(CopyEvent::Error);
    assert_eq!(run.outcome(), Some(Err(())));
    run.advance(CopyEvent::Copied);
    assert_eq!(run.outcome(), Some(Err(())));
    assert_eq!(copy_source(Vec::<String>::new()).outcome(), Some(Ok(0)));
}

#[test]
fn data_may_lie_deep_in_a_directory() {
    assert!(!has_data(&vec![]));
    assert!(!has_data(&vec![Entry::Other, Entry::Directory(vec![Entry::Directory(vec![])])]));
    assert!(has_data(&vec![Entry::Directory(vec![Entry::Other, Entry::Directory(vec![Entry::File])])]));
}

#[test]
fn each_host_is_found_in_its_first_session() {
    let sessions = vec![
        Session { is_dir: false, hosts: vec![host("play.dragonfable.com", vec![Entry::File])] },
        Session {
            is_dir: true,
            hosts: vec![
                host("play.dragonfable.com", vec![]),
                host("dragonfable.battleon.com", vec![Entry::File]),
            ],
        },
        Session {
            is_dir: true,
            hosts: vec![
                host("dragonfable.battleon.com", vec![Entry::File]),
                host("127.0.0.1", vec![Entry::File]),
                host("play.dragonfable.com", vec![Entry::File]),
            ],
        },
    ];
    let found: Vec<(&str, usize)> = detect(Some(&sessions), true)
        .iter()
        .map(|found: &Found| (found.wanted.host, found.session))
        .collect();
    assert_eq!(
        found,
        vec![("dragonfable.battleon.com", 1), ("play.dragonfable.com", 2), ("127.0.0.1", 2)]
    );
}

#[test]
fn launchers_are_looked_for_in_the_known_directories() {
    let known = sources(true, false, true);
    let ids: Vec<&str> = known.iter().map(|source| source.id).collect();
    assert_eq!(ids, vec!["flash-player", "artix-game-launcher", "evolved-dragonfable-launcher"]);
    assert_eq!(known[0].roots[0].base, BaseDirectory::Home);
    assert_eq!(known[0].roots[0].path, vec![".macromedia", "Flash_Player"]);
    assert_eq!(known[0].roots[1].base, BaseDirectory::AppData);
    assert_eq!(known[0].roots[1].path, vec!["Macromedia", "Flash Player"]);
    assert_eq!(
        known[1].roots[0].path,
        vec![".config", "Artix Game Launcher", "Pepper Data/Shockwave Flash/WritableRoot"]
    );
    assert_eq!(known[2].name, "Evolved DragonFable Launcher");
    assert!(known[2].include_proxy_host && !known[0].include_proxy_host);
    let configured = sources(true, true, false);
    assert_eq!(configured[2].roots.len(), 1);
    assert_eq!(configured[2].roots[0].base, BaseDirectory::XdgConfig);
    assert_eq!(
        configured[2].roots[0].path,
        vec!["evolved-dragonfable-launcher", "Pepper Data/Shockwave Flash/WritableRoot"]
    );
    assert!(sources(false, false, false).iter().all(|source| source.roots.is_empty()));
}
