use fontconfig_parser::{
    DirData, DirEntry, EntryKind, Error, Expression, FontConfig, Merged, RemapDirData, Reply,
    Request, Value,
};

struct FakeFs {
    files: Vec<(&'static str, &'static str)>,
    dirs: Vec<(&'static str, Vec<(&'static str, EntryKind)>)>,
}

fn file_text(fs: &FakeFs, path: &str) -> Result<String, String> {
    for (name, text) in &fs.files {
        if *name == path {
            return Ok(text.to_string());
        }
    }
    Err(format!("{}: No such file or directory", path))
}

fn path_kind(fs: &FakeFs, path: &str) -> Result<EntryKind, String> {
    for (name, _) in &fs.files {
        if *name == path {
            return Ok(EntryKind::File);
        }
    }
    for (name, _) in &fs.dirs {
        if *name == path {
            return Ok(EntryKind::Dir);
        }
    }
    Err(format!("{}: No such file or directory", path))
}

fn dir_entries(fs: &FakeFs, path: &str) -> Result<Vec<DirEntry>, String> {
    for (name, entries) in &fs.dirs {
        if *name == path {
            return Ok(entries
                .iter()
                .map(|(name, kind)| DirEntry { name: name.to_string(), kind: *kind })
                .collect());
        }
    }
    Err(format!("{}: Not a directory", path))
}

fn merge(fs: &FakeFs, config: FontConfig, path: &str) -> Merged {
    let (mut merger, mut request) = config.merge_config(path, "/home/me/.local/share");
    let mut steps = 0;
    loop {
        steps += 1;
        assert!(steps < 1000, "the merge does not end");
        let reply = match &request {
            Request::Read(path) => Reply::Text(file_text(fs, path)),
            Request::Inspect(path) => Reply::Kind(path_kind(fs, path)),
            Request::List(path) => Reply::Entries(dir_entries(fs, path)),
            Request::Done => return merger.finish(),
        };
        let (next, asked) = merger.advance(reply);
        merger = next;
        request = asked;
    }
}

fn families(merged: &Merged) -> Vec<String> {
    merged
        .config
        .matches
        .iter()
        .map(|rule| match &rule.tests[0].value.value {
            Expression::Simple(Value::String(family)) => family.clone(),
            other => panic!("unexpected value {:?}", other),
        })
        .collect()
}

const RULE_A: &str =
    "<fontconfig><match><test name=\"family\"><string>a</string></test></match><alias><family>a</family></alias></fontconfig>";
const RULE_B: &str =
    "<fontconfig><match><test name=\"family\"><string>b</string></test></match><alias><family>b</family></alias></fontconfig>";
const RULE_C: &str =
    "<fontconfig><match><test name=\"family\"><string>c</string></test></match><alias><family>c</family></alias></fontconfig>";

#[test]
fn end_to_end_root_with_directory_of_rule_files() {
    let fs = FakeFs {
        files: vec![
            (
                "/etc/fonts/fonts.conf",
                "<?xml version=\"1.0\"?>\n<!DOCTYPE fontconfig SYSTEM \"urn:fontconfig:fonts.dtd\">\n<fontconfig>\n  <dir prefix=\"default\">fonts</dir>\n  <include prefix=\"default\" ignore_missing=\"yes\">conf.d</include>\n</fontconfig>\n",
            ),
            ("/etc/fonts/conf.d/10-a.conf", RULE_A),
            ("/etc/fonts/conf.d/05-b.conf", RULE_B),
        ],
        dirs: vec![(
            "/etc/fonts/conf.d",
            vec![("10-a.conf", EntryKind::File), ("05-b.conf", EntryKind::File)],
        )],
    };
    let merged = merge(&fs, FontConfig::new(), "/etc/fonts/fonts.conf");
    assert!(merged.result.is_ok());
    assert!(merged.reports.is_empty());
    assert_eq!(
        merged.config.dirs,
        vec![DirData { path: "/etc/fonts/fonts".to_string(), salt: String::new() }]
    );
    assert_eq!(families(&merged), vec!["b".to_string(), "a".to_string()]);
}

#[test]
fn directory_entries_merge_in_name_order() {
    let fs = FakeFs {
        files: vec![
            ("/c/root.conf", "<fontconfig><include>d</include></fontconfig>"),
            ("/c/d/30-c.conf", RULE_C),
            ("/c/d/20-b.conf", RULE_B),
            ("/c/d/10-a.conf", RULE_A),
        ],
        dirs: vec![(
            "/c/d",
            vec![
                ("30-c.conf", EntryKind::File),
                ("20-b.conf", EntryKind::Symlink),
                ("10-a.conf", EntryKind::File),
            ],
        )],
    };
    let merged = merge(&fs, FontConfig::new(), "/c/root.conf");
    assert!(merged.result.is_ok());
    assert_eq!(families(&merged), vec!["a".to_string(), "b".to_string(), "c".to_string()]);
    let aliases: Vec<&str> = merged.config.aliases.iter().map(|a| a.alias.as_str()).collect();
    assert_eq!(aliases, vec!["a", "b", "c"]);
}

#[test]
fn subdirectories_of_an_included_directory_are_not_walked() {
    let fs = FakeFs {
        files: vec![
            ("/c/root.conf", "<fontconfig><include>d</include></fontconfig>"),
            ("/c/d/10-a.conf", RULE_A),
            ("/c/d/sub/20-b.conf", RULE_B),
        ],
        dirs: vec![
            (
                "/c/d",
                vec![
                    ("sub", EntryKind::Dir),
                    ("10-a.conf", EntryKind::File),
                    ("pipe", EntryKind::Other),
                ],
            ),
            ("/c/d/sub", vec![("20-b.conf", EntryKind::File)]),
        ],
    };
    let merged = merge(&fs, FontConfig::new(), "/c/root.conf");
    assert!(merged.result.is_ok());
    assert_eq!(families(&merged), vec!["a".to_string()]);
}

#[test]
fn reset_dirs_clears_only_the_directories() {
    let fs = FakeFs {
        files: vec![
            (
                "/c/a.conf",
                "<fontconfig><dir>/usr/share/fonts</dir><cachedir>/var/cache</cachedir><alias><family>serif</family><prefer><family>Times</family></prefer></alias><match><test name=\"family\"><string>a</string></test></match></fontconfig>",
            ),
            ("/c/b.conf", "<fontconfig><reset-dirs/></fontconfig>"),
        ],
        dirs: vec![],
    };
    let first = merge(&fs, FontConfig::new(), "/c/a.conf");
    assert!(first.result.is_ok());
    assert_eq!(first.config.dirs.len(), 1);
    assert_eq!(first.config.aliases.len(), 1);
    let second = merge(&fs, first.config, "/c/b.conf");
    assert!(second.result.is_ok());
    assert_eq!(second.config.dirs.len(), 0);
    assert_eq!(second.config.aliases.len(), 1);
    assert_eq!(second.config.aliases[0].alias, "serif");
    assert_eq!(second.config.aliases[0].prefer, vec!["Times".to_string()]);
    assert_eq!(second.config.cache_dirs, vec!["/var/cache".to_string()]);
    assert_eq!(second.config.matches.len(), 1);
}

#[test]
fn missing_include_that_may_be_missing_is_silent() {
    let fs = FakeFs {
        files: vec![(
            "/c/root.conf",
            "<fontconfig><dir>/one</dir><include ignore_missing=\"yes\">nowhere</include><dir>/two</dir></fontconfig>",
        )],
        dirs: vec![],
    };
    let merged = merge(&fs, FontConfig::new(), "/c/root.conf");
    assert!(merged.result.is_ok());
    assert!(merged.reports.is_empty());
    let paths: Vec<&str> = merged.config.dirs.iter().map(|d| d.path.as_str()).collect();
    assert_eq!(paths, vec!["/one", "/two"]);
}

#[test]
fn missing_include_that_may_not_be_missing_is_reported() {
    let fs = FakeFs {
        files: vec![(
            "/c/root.conf",
            "<fontconfig><dir>/one</dir><include>nowhere</include><dir>/two</dir></fontconfig>",
        )],
        dirs: vec![],
    };
    let merged = merge(&fs, FontConfig::new(), "/c/root.conf");
    assert!(merged.result.is_ok());
    assert_eq!(merged.reports.len(), 1);
    assert_eq!(merged.reports[0].path, "/c/nowhere");
    match &merged.reports[0].error {
        Error::Io(report) => assert_eq!(report, "/c/nowhere: No such file or directory"),
        other => panic!("unexpected error {:?}", other),
    }
    let paths: Vec<&str> = merged.config.dirs.iter().map(|d| d.path.as_str()).collect();
    assert_eq!(paths, vec!["/one", "/two"]);
}

#[test]
fn failure_of_the_named_file_is_the_result() {
    let fs = FakeFs { files: vec![], dirs: vec![] };
    let merged = merge(&fs, FontConfig::new(), "/c/root.conf");
    match merged.result {
        Err(Error::Io(report)) => assert_eq!(report, "/c/root.conf: No such file or directory"),
        other => panic!("unexpected result {:?}", other),
    }
    assert_eq!(merged.config, FontConfig::new());
}

#[test]
fn document_without_root_element_fails_the_merge() {
    let fs = FakeFs { files: vec![("/c/root.conf", "<html><dir>/one</dir></html>")], dirs: vec![] };
    let merged = merge(&fs, FontConfig::new(), "/c/root.conf");
    assert!(matches!(merged.result, Err(Error::NoFontconfig)));
    assert!(merged.config.dirs.is_empty());
}

#[test]
fn parts_before_a_malformed_element_are_kept() {
    let fs = FakeFs {
        files: vec![(
            "/c/root.conf",
            "<fontconfig><dir>/one</dir><dir prefix=\"sideways\">/two</dir><dir>/three</dir></fontconfig>",
        )],
        dirs: vec![],
    };
    let merged = merge(&fs, FontConfig::new(), "/c/root.conf");
    match merged.result {
        Err(Error::ParseError(text)) => assert_eq!(text, "sideways"),
        other => panic!("unexpected result {:?}", other),
    }
    let paths: Vec<&str> = merged.config.dirs.iter().map(|d| d.path.as_str()).collect();
    assert_eq!(paths, vec!["/one"]);
}

#[test]
fn malformed_file_of_a_directory_does_not_stop_the_others() {
    let fs = FakeFs {
        files: vec![
            ("/c/root.conf", "<fontconfig><include>d</include></fontconfig>"),
            ("/c/d/10-a.conf", RULE_A),
            ("/c/d/20-bad.conf", "<fontconfig><match></wrong></fontconfig>"),
            ("/c/d/30-c.conf", RULE_C),
        ],
        dirs: vec![(
            "/c/d",
            vec![
                ("10-a.conf", EntryKind::File),
                ("20-bad.conf", EntryKind::File),
                ("30-c.conf", EntryKind::File),
            ],
        )],
    };
    let merged = merge(&fs, FontConfig::new(), "/c/root.conf");
    assert!(merged.result.is_ok());
    assert!(merged.reports.is_empty());
    assert_eq!(families(&merged), vec!["a".to_string(), "c".to_string()]);
}

#[test]
fn malformed_file_included_by_name_is_reported() {
    let fs = FakeFs {
        files: vec![
            ("/c/root.conf", "<fontconfig><include>bad.conf</include><dir>/after</dir></fontconfig>"),
            ("/c/bad.conf", "<fontconfig><match></wrong></fontconfig>"),
        ],
        dirs: vec![],
    };
    let merged = merge(&fs, FontConfig::new(), "/c/root.conf");
    assert!(merged.result.is_ok());
    assert_eq!(merged.reports.len(), 1);
    assert_eq!(merged.reports[0].path, "/c/bad.conf");
    assert!(matches!(merged.reports[0].error, Error::Tree(_)));
    assert_eq!(merged.config.dirs.len(), 1);
    assert_eq!(merged.config.dirs[0].path, "/after");
}

#[test]
fn file_that_includes_itself_is_refused() {
    let fs = FakeFs {
        files: vec![(
            "/c/root.conf",
            "<fontconfig><dir>/one</dir><include>root.conf</include><dir>/two</dir></fontconfig>",
        )],
        dirs: vec![],
    };
    let merged = merge(&fs, FontConfig::new(), "/c/root.conf");
    assert!(merged.result.is_ok());
    assert_eq!(merged.reports.len(), 1);
    match &merged.reports[0].error {
        Error::IncludeCycle(path) => assert_eq!(path, "/c/root.conf"),
        other => panic!("unexpected error {:?}", other),
    }
    let paths: Vec<&str> = merged.config.dirs.iter().map(|d| d.path.as_str()).collect();
    assert_eq!(paths, vec!["/one", "/two"]);
}

#[test]
fn files_that_include_each_other_are_refused() {
    let fs = FakeFs {
        files: vec![
            ("/c/a.conf", "<fontconfig><include>b.conf</include><dir>/a</dir></fontconfig>"),
            ("/c/b.conf", "<fontconfig><include>a.conf</include><dir>/b</dir></fontconfig>"),
        ],
        dirs: vec![],
    };
    let merged = merge(&fs, FontConfig::new(), "/c/a.conf");
    assert!(merged.result.is_ok());
    assert_eq!(merged.reports.len(), 1);
    assert_eq!(merged.reports[0].path, "/c/a.conf");
    let paths: Vec<&str> = merged.config.dirs.iter().map(|d| d.path.as_str()).collect();
    assert_eq!(paths, vec!["/b", "/a"]);
}

#[test]
fn every_kind_of_part_is_folded_in() {
    let fs = FakeFs {
        files: vec![(
            "/etc/fonts/fonts.conf",
            "<fontconfig>\
             <description>all of them</description>\
             <selectfont><rejectfont><glob>*.pcf</glob></rejectfont></selectfont>\
             <dir prefix=\"xdg\" salt=\"pepper\">fonts</dir>\
             <dir prefix=\"cwd\">local</dir>\
             <dir prefix=\"relative\">as/is</dir>\
             <cachedir prefix=\"xdg\">fontconfig</cachedir>\
             <remap-dir as-path=\"/usr/share/fonts\" salt=\"s\">/run/host/fonts</remap-dir>\
             <config><rescan><int>30</int></rescan><blank><int>32</int></blank></config>\
             <config><rescan><int>60</int></rescan><blank><range><int>1</int><int>9</int></range></blank></config>\
             </fontconfig>",
        )],
        dirs: vec![],
    };
    let merged = merge(&fs, FontConfig::new(), "/etc/fonts/fonts.conf");
    assert!(merged.result.is_ok());
    let config = merged.config;
    assert_eq!(config.select_fonts.len(), 1);
    assert_eq!(
        config.dirs,
        vec![
            DirData { path: "/home/me/.local/share/fonts".to_string(), salt: "pepper".to_string() },
            DirData { path: "./local".to_string(), salt: String::new() },
            DirData { path: "as/is".to_string(), salt: String::new() },
        ]
    );
    assert_eq!(config.cache_dirs, vec!["/home/me/.local/share/fontconfig".to_string()]);
    assert_eq!(
        config.remap_dirs,
        vec![RemapDirData {
            path: "/run/host/fonts".to_string(),
            salt: "s".to_string(),
            as_path: "/usr/share/fonts".to_string(),
        }]
    );
    assert_eq!(config.config.rescans, vec![30, 60]);
    assert_eq!(
        config.config.blanks,
        vec![
            fontconfig_parser::IntOrRange::Int(32),
            fontconfig_parser::IntOrRange::Range(1, 9)
        ]
    );
}

#[test]
fn reply_of_another_kind_leaves_the_request_standing() {
    let (merger, request) = FontConfig::new().merge_config("/c/root.conf", "/x");
    assert_eq!(request, Request::Read("/c/root.conf".to_string()));
    let (merger, request) = merger.advance(Reply::Kind(Ok(EntryKind::File)));
    assert_eq!(request, Request::Read("/c/root.conf".to_string()));
    let (merger, request) =
        merger.advance(Reply::Text(Ok("<fontconfig><include>x</include></fontconfig>".to_string())));
    assert_eq!(request, Request::Inspect("/c/x".to_string()));
    let (merger, request) = merger.advance(Reply::Text(Ok(String::new())));
    assert_eq!(request, Request::Inspect("/c/x".to_string()));
    let (merger, request) = merger.advance(Reply::Kind(Ok(EntryKind::Dir)));
    assert_eq!(request, Request::List("/c/x".to_string()));
    let (merger, request) = merger.advance(Reply::Entries(Ok(vec![])));
    assert_eq!(request, Request::Done);
    let (merger, request) = merger.advance(Reply::Entries(Ok(vec![])));
    assert_eq!(request, Request::Done);
    assert!(merger.finish().result.is_ok());
}

#[test]
fn files_nested_deeper_than_the_bound_are_not_followed() {
    let mut files: Vec<(&'static str, &'static str)> = Vec::new();
    for k in 0..80 {
        let name: &'static str = Box::leak(format!("/n/{}.conf", k).into_boxed_str());
        let text: &'static str = Box::leak(
            format!(
                "<fontconfig><dir>/d{}</dir><include>{}.conf</include></fontconfig>",
                k,
                k + 1
            )
            .into_boxed_str(),
        );
        files.push((name, text));
    }
    let fs = FakeFs { files, dirs: vec![] };
    let merged = merge(&fs, FontConfig::new(), "/n/0.conf");
    assert!(merged.result.is_ok());
    assert_eq!(merged.config.dirs.len(), 64);
    assert_eq!(merged.config.dirs[0].path, "/d0");
    assert_eq!(merged.config.dirs[63].path, "/d63");
    assert_eq!(merged.reports.len(), 1);
    assert_eq!(merged.reports[0].path, "/n/64.conf");
    match &merged.reports[0].error {
        Error::IncludeTooDeep(path) => assert_eq!(path, "/n/64.conf"),
        other => panic!("unexpected error {:?}", other),
    }
}

#[test]
fn directory_at_the_bound_is_not_listed() {
    let mut files: Vec<(&'static str, &'static str)> = Vec::new();
    for k in 0..64 {
        let name: &'static str = Box::leak(format!("/n/{}.conf", k).into_boxed_str());
        let next = if k == 63 { String::from("d") } else { format!("{}.conf", k + 1) };
        let text: &'static str = Box::leak(
            format!("<fontconfig><include>{}</include></fontconfig>", next).into_boxed_str(),
        );
        files.push((name, text));
    }
    files.push(("/n/d/a.conf", RULE_A));
    let fs = FakeFs { files, dirs: vec![("/n/d", vec![("a.conf", EntryKind::File)])] };
    let merged = merge(&fs, FontConfig::new(), "/n/0.conf");
    assert!(merged.result.is_ok());
    assert!(merged.config.matches.is_empty());
    assert_eq!(merged.reports.len(), 1);
    assert!(matches!(merged.reports[0].error, Error::IncludeTooDeep(_)));
    assert_eq!(merged.reports[0].path, "/n/d");
}

fn plain(path: &str) -> String {
    let mut plain = path.to_string();
    while plain.contains("/./") {
        plain = plain.replace("/./", "/");
    }
    plain
}

#[test]
fn another_spelling_of_a_file_is_followed_no_deeper_than_the_bound() {
    let fs = FakeFs {
        files: vec![(
            "/c/a.conf",
            "<fontconfig><dir>d</dir><include>./a.conf</include></fontconfig>",
        )],
        dirs: vec![],
    };
    let (mut merger, mut request) = FontConfig::new().merge_config("/c/a.conf", "/x");
    let mut steps = 0;
    let merged = loop {
        steps += 1;
        assert!(steps < 1000, "the merge does not end");
        let reply = match &request {
            Request::Read(path) => Reply::Text(file_text(&fs, &plain(path))),
            Request::Inspect(path) => Reply::Kind(path_kind(&fs, &plain(path))),
            Request::List(path) => Reply::Entries(dir_entries(&fs, &plain(path))),
            Request::Done => break merger.finish(),
        };
        let (next, asked) = merger.advance(reply);
        merger = next;
        request = asked;
    };
    assert!(merged.result.is_ok());
    assert_eq!(merged.config.dirs.len(), 64);
    assert_eq!(merged.reports.len(), 1);
    assert!(matches!(merged.reports[0].error, Error::IncludeTooDeep(_)));
}
