use ft_sync::{collection_toc, dir_till_path, Node};

fn test_node() -> Node {
    Node {
        is_dir: true,
        path: "docs".to_string(),
        children: vec![Node {
            is_dir: true,
            path: "docs/a".to_string(),
            children: vec![Node {
                is_dir: true,
                path: "docs/a/b".to_string(),
                children: vec![Node {
                    is_dir: true,
                    path: "docs/a/b/c".to_string(),
                    children: vec![Node {
                        is_dir: true,
                        path: "docs/a/b/c/d".to_string(),
                        children: vec![Node {
                            is_dir: true,
                            path: "docs/a/b/c/d/e".to_string(),
                            children: vec![Node {
                                is_dir: false,
                                path: "docs/a/b/c/d/e/f.txt".to_string(),
                                children: vec![],
                            }],
                        }],
                    }],
                }],
            }],
        }],
    }
}

#[test]
fn collection_toc_test() {
    let node = test_node();
    assert_eq!(
        collection_toc(&node, "testuser/index"),
        r#"- testuser/index/docs/a
  `a/`
  - testuser/index/docs/a/b
    `b/`
    - testuser/index/docs/a/b/c
      `c/`
      - testuser/index/docs/a/b/c/d
        `d/`
        - testuser/index/docs/a/b/c/d/e
          `e/`
          - testuser/index/docs/a/b/c/d/e/f.txt
            `f.txt`
"#
        .to_string()
    )
}

#[test]
fn to_markdown() {
    let node = test_node();
    assert_eq!(
        ft_sync::to_markdown(&node, "testuser/index"),
        r#"- [`a`](testuser/index/docs/a)
  - [`b`](testuser/index/docs/a/b)
    - [`c`](testuser/index/docs/a/b/c)
      - [`d`](testuser/index/docs/a/b/c/d)
        - [`e`](testuser/index/docs/a/b/c/d/e)
          - [`f.txt`](testuser/index/docs/a/b/c/d/e/f.txt)
"#
    )
}

#[test]
fn till_dir() {
    let expected_output = vec![
        "docs/a/b/c/d/e".to_string(),
        "docs/a/b/c/d".to_string(),
        "docs/a/b/c".to_string(),
        "docs/a/b".to_string(),
        "docs/a".to_string(),
    ];

    let output = dir_till_path(&test_node(), "docs/a/b/c/d/e/f.txt");

    assert_eq!(expected_output, output);
}

#[test]
fn markdown_line_count_matches_descendants() {
    let node = test_node();
    let md = ft_sync::to_markdown(&node, "testuser/index");
    // 6 descendants below the root `docs`: five directories and one file.
    assert_eq!(md.lines().count(), 6);
    assert_eq!(md.matches('\n').count(), 6);
}

#[test]
fn rendering_twice_is_identical() {
    let node = test_node();
    assert_eq!(
        collection_toc(&node, "testuser/index"),
        collection_toc(&node, "testuser/index")
    );
    assert_eq!(
        ft_sync::to_markdown(&node, "testuser/index"),
        ft_sync::to_markdown(&node, "testuser/index")
    );
}

#[test]
fn empty_dir_renders_header_only() {
    let node = Node {
        is_dir: true,
        path: "docs".to_string(),
        children: vec![Node {
            is_dir: true,
            path: "docs/empty".to_string(),
            children: vec![],
        }],
    };
    assert_eq!(
        collection_toc(&node, "testuser/index"),
        "- testuser/index/docs/empty\n  `empty/`\n"
    );
    assert_eq!(
        ft_sync::to_markdown(&node, "testuser/index"),
        "- [`empty`](testuser/index/docs/empty)\n"
    );
}

#[test]
fn root_match_yields_no_ancestors() {
    let node = test_node();
    assert_eq!(dir_till_path(&node, "docs"), Vec::<String>::new());
}

#[test]
fn absent_path_yields_no_ancestors() {
    let node = test_node();
    assert_eq!(dir_till_path(&node, "docs/z/missing"), Vec::<String>::new());
}

#[test]
fn direct_child_match_yields_no_ancestors() {
    let node = test_node();
    assert_eq!(dir_till_path(&node, "docs/a"), Vec::<String>::new());
}

#[test]
fn directory_match_excludes_itself() {
    let node = test_node();
    assert_eq!(
        dir_till_path(&node, "docs/a/b/c"),
        vec!["docs/a/b".to_string(), "docs/a".to_string()]
    );
}

#[test]
fn empty_collection_id_keeps_paths_bare() {
    let node = Node {
        is_dir: true,
        path: "docs".to_string(),
        children: vec![Node {
            is_dir: false,
            path: "docs/readme.md".to_string(),
            children: vec![],
        }],
    };
    assert_eq!(collection_toc(&node, ""), "- docs/readme.md\n  `readme.md`\n");
    assert_eq!(ft_sync::to_markdown(&node, ""), "- [`readme.md`](docs/readme.md)\n");
}

#[test]
fn trailing_slash_prefix_adds_no_second_separator() {
    let node = Node {
        is_dir: true,
        path: "docs".to_string(),
        children: vec![Node {
            is_dir: false,
            path: "docs/readme.md".to_string(),
            children: vec![],
        }],
    };
    assert_eq!(
        ft_sync::to_markdown(&node, "user/"),
        "- [`readme.md`](user/docs/readme.md)\n"
    );
}
