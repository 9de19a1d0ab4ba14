use metaforge::{
    build_metafile, classify_entry, converter_for, decide, finish_output, get_pattern,
    get_variable, metafile_to_string, render_with_base, settle, source_stage, Decision,
    DirNode, EntryKind, InputDialect, MetaError, MetaFile, Options, OutputDialect,
    PatternStore, SiteTree, Stage,
};

fn site_options() -> Options {
    let mut opts = Options::new();
    opts.root = "/site".to_string();
    opts.source = "/site/source".to_string();
    opts.build = "/site/build".to_string();
    opts.pattern = "/site/pattern".to_string();
    opts
}

fn site_patterns(opts: &Options) -> PatternStore {
    let files: Vec<(&str, &str)> = vec![
        ("base/default.meta", "<html>\n&{SOURCE}</html>\n"),
        ("base/plain.meta", "&{SOURCE}"),
        ("base/para.meta", "<html>\n<p>&{SOURCE}</p>\n</html>\n"),
        ("say/default.meta", "${v}"),
        ("var/default.meta", "${ v = 'BAD' }${v}"),
        ("arr/default.meta", "@{a}"),
        ("good/default.meta", "<p>GOOD</p>\n"),
        ("word/default.meta", "GOOD"),
        ("twice/default.meta", "&{word}\n&{word}\n"),
        ("item/default.meta", "BAD"),
        ("item/good.meta", "GOOD"),
        ("twice_item/default.meta", "&{item}\n&{item}\n"),
    ];
    let mut store = PatternStore::new();
    for (rel, text) in files {
        store.load(&opts.pattern, rel, text);
    }
    store
}

fn source_file(opts: &Options, name: &str, text: &str) -> MetaFile {
    let path = format!("{}/unit_tests/{}.meta", opts.source, name);
    MetaFile::build(&path, text).unwrap()
}

fn unit_test(test: (&str, &str, &str)) -> Result<(), String> {
    let mut opts = site_options();
    opts.undefined = true;
    let store = site_patterns(&opts);
    let file = source_file(&opts, test.0, test.1);
    let output = build_metafile(&file, &store, &opts).map_err(|e| e.message())?;
    if output == test.2 {
        Ok(())
    } else {
        Err(format!("{} - failed\nTEST:\n{}\nOUTPUT:\n{}", test.0, test.2, output))
    }
}

#[test]
fn builder_tests() {
    let mut tests: Vec<(&str, &str, &str)> = Vec::new();
    tests.push(("find_dest", "", "<html>\n</html>\n"));
    tests.push(("blank/blank_pattern", "&{ base = BLANK }anything", ""));
    tests.push(("blank/blank_variable", "${ v = BLANK }${v}", "<html>\n</html>\n"));
    tests.push(("blank/blank_array", "@{ a = [] }@{a}", "<html>\n</html>\n"));
    tests.push(("blank/comment", "-{ just a comment }", "<html>\n</html>\n"));
    tests.push((
        "blank/inline_comment",
        "<p>inline -{hidden}comment</p>\n",
        "<html>\n<p>inline comment</p>\n</html>\n",
    ));
    tests.push((
        "expand/variable_in_source",
        "${ v = 'GOOD' }<p>${v}</p>\n",
        "<html>\n<p>GOOD</p>\n</html>\n",
    ));
    tests.push((
        "expand/variable_in_pattern",
        "${ v = 'GOOD' }&{say}",
        "<html>\nGOOD</html>\n",
    ));
    tests.push((
        "expand/array_in_source",
        "&{ base = 'para' }@{ a = ['1', '2', '3', '4', '5'] }@{a}",
        "<html>\n<p>12345</p>\n</html>\n",
    ));
    tests.push((
        "expand/array_in_pattern",
        "@{ a = ['1', '2', '3', '4', '5'] }&{arr}",
        "<html>\n12345</html>\n",
    ));
    tests.push(("expand/pattern_in_source", "&{ base = 'plain' }&{good}", "<p>GOOD</p>\n"));
    tests.push(("expand/pattern_in_pattern", "&{twice}", "<html>\nGOOD\nGOOD\n</html>\n"));
    tests.push((
        "override/variable",
        "${ var.default.v = 'GOOD' }<p>&{var}</p>\n",
        "<html>\n<p>GOOD</p>\n</html>\n",
    ));
    tests.push((
        "override/pattern",
        "&{ item = 'good' }&{twice_item}",
        "<html>\nGOOD\nGOOD\n</html>\n",
    ));
    tests.push((
        "header/pandoc",
        "#{ pandoc = false }&{ base = 'plain' }# This should not become html\n",
        "# This should not become html\n",
    ));
    tests.push(("header/blank", "#{ blank = true }${undefined}", ""));

    let mut errs: Vec<String> = Vec::new();
    for test in tests.iter() {
        if let Err(e) = unit_test(*test) {
            errs.push(e);
        }
    }
    if !errs.is_empty() {
        for e in errs.iter() {
            println!("{}", e);
        }
        panic!("failed tests");
    }
}

fn build(text: &str, name: &str) -> Result<String, MetaError> {
    let opts = site_options();
    let store = site_patterns(&opts);
    let file = source_file(&opts, name, text);
    build_metafile(&file, &store, &opts)
}

#[test]
fn blank_header_gives_empty_output() {
    assert_eq!(build("#{ blank = true }&{missing}${x}@{y}", "b").unwrap(), "");
}

#[test]
fn ignore_header_gives_skip() {
    let r = build("#{ ignore = true }<p>body</p>", "i");
    assert!(matches!(r, Err(MetaError::Ignored)));
}

#[test]
fn local_qualified_variable_wins() {
    let opts = site_options();
    let file = MetaFile::build("/site/source/a/b.meta", "${ *a.b.x = 'LOCAL' x = 'GLOBAL' }${x}")
        .unwrap();
    assert_eq!(get_variable("x", &file, &opts).unwrap(), "LOCAL");
    assert_eq!(file.get_variable("x", &opts).unwrap(), "LOCAL");
}

#[test]
fn broadcast_uses_the_longest_array() {
    let opts = site_options();
    let store = PatternStore::new();
    let file = source_file(
        &opts,
        "arrays",
        "@{ p = ['1', '2'] q = ['a', 'b', 'c'] }@{p}-@{q};",
    );
    assert_eq!(metafile_to_string(&file, &store, &opts).unwrap(), "1-a;2-b;-c;");
}

#[test]
fn strict_broadcast_rejects_unequal_arrays() {
    let opts = site_options();
    let store = PatternStore::new();
    let file = source_file(
        &opts,
        "strict",
        "#{ equal_arrays = true }@{ p = ['1', '2'] q = ['a', 'b', 'c'] }@{p}-@{q};",
    );
    assert!(matches!(
        metafile_to_string(&file, &store, &opts),
        Err(MetaError::UnequalArrays { .. })
    ));
    let equal = source_file(
        &opts,
        "strict_equal",
        "#{ equal_arrays = true }@{ p = ['1', '2'] q = ['a', 'b'] }@{p}@{q} ",
    );
    assert_eq!(metafile_to_string(&equal, &store, &opts).unwrap(), "1a 2b ");
}

#[test]
fn blank_pattern_needs_no_file() {
    let opts = site_options();
    let empty = PatternStore::new();
    let file = source_file(&opts, "blank_pattern", "&{ item = BLANK }[&{item}]");
    assert_eq!(metafile_to_string(&file, &empty, &opts).unwrap(), "[]");
}

#[test]
fn default_pattern_beats_global_override() {
    let opts = site_options();
    let store = site_patterns(&opts);
    let mut file = source_file(&opts, "default_pattern", "&{ *item = DEFAULT }&{item}");
    let global = metaforge::parse_string("&{ item = 'good' }").unwrap();
    file.merge(&global);
    assert_eq!(get_pattern("item", &file, &store, &opts).unwrap(), "BAD");
    let plain = source_file(&opts, "override_pattern", "&{item}");
    let mut plain = plain;
    plain.merge(&global);
    assert_eq!(plain.get_pattern("item", &store, &opts).unwrap(), "GOOD");
}

#[test]
fn end_to_end_variable_in_base() {
    let opts = site_options();
    let mut store = PatternStore::new();
    store.load(&opts.pattern, "base/default.meta", "<html>&{SOURCE}</html>");
    let file = source_file(&opts, "e2e", "${v='GOOD'}<p>${v}</p>");
    let out = build_metafile(&file, &store, &opts).unwrap();
    assert!(out.contains("<html><p>GOOD</p></html>"));
}

fn tree_with_defaults(parent_default: &str, child_default: &str, files: &[(&str, &str)]) -> SiteTree {
    let mut tree = SiteTree::new();
    let root = tree
        .add_dir(DirNode {
            path: "/site/source".to_string(),
            global: MetaFile::build("/site/source/default.meta", parent_default).unwrap(),
            files: Vec::new(),
            parent: None,
        })
        .unwrap();
    let mut fs = Vec::new();
    for (name, text) in files {
        fs.push(MetaFile::build(&format!("/site/source/child/{name}.meta"), text).unwrap());
    }
    tree.add_dir(DirNode {
        path: "/site/source/child".to_string(),
        global: MetaFile::build("/site/source/child/default.meta", child_default).unwrap(),
        files: fs,
        parent: Some(root),
    })
    .unwrap();
    tree
}

#[test]
fn sibling_files_share_directory_globals() {
    let opts = site_options();
    let store = PatternStore::new();
    let tree = tree_with_defaults(
        "",
        "${ name = 'SITE' }",
        &[("one", "<p>${name}</p>"), ("two", "[${name}]")],
    );
    let planned = tree.build_all(&MetaFile::new());
    assert_eq!(planned[1].len(), 2);
    assert_eq!(metafile_to_string(&planned[1][0], &store, &opts).unwrap(), "<p>SITE</p>");
    assert_eq!(metafile_to_string(&planned[1][1], &store, &opts).unwrap(), "[SITE]");
}

#[test]
fn child_directory_overrides_parent_globals() {
    let opts = site_options();
    let store = PatternStore::new();
    let tree = tree_with_defaults(
        "${ name = 'PARENT' extra = 'EXTRA' *secret = 'HIDDEN' }",
        "${ name = 'CHILD' }",
        &[("page", "${name}/${extra}/${secret}")],
    );
    let planned = tree.build_all(&MetaFile::new());
    assert_eq!(
        metafile_to_string(&planned[1][0], &store, &opts).unwrap(),
        "CHILD/EXTRA/"
    );
    let globals = tree.globals(&MetaFile::new());
    assert!(globals[1]
        .get_var(&metaforge::Scope::create_local("secret"))
        .is_none());
}

#[test]
fn dir_node_build_dir_merges_inherited() {
    let mut node = DirNode {
        path: "/site/source".to_string(),
        global: metaforge::parse_string("${ a = 'own' }").unwrap(),
        files: vec![MetaFile::build("/site/source/f.meta", "${a}${b}").unwrap()],
        parent: None,
    };
    let inherited = metaforge::parse_string("${ a = 'up' b = 'UP' }").unwrap();
    let files = node.build_dir(&inherited);
    let opts = site_options();
    assert_eq!(
        metafile_to_string(&files[0], &PatternStore::new(), &opts).unwrap(),
        "ownUP"
    );
}

#[test]
fn add_dir_rejects_unknown_parent() {
    let mut tree = SiteTree::new();
    let r = tree.add_dir(DirNode {
        path: "x".to_string(),
        global: MetaFile::new(),
        files: Vec::new(),
        parent: Some(3),
    });
    assert!(r.is_none());
}

#[test]
fn missing_pattern_file() {
    let r = build("&{nowhere}", "missing");
    assert!(matches!(r, Err(MetaError::FileNotFound { .. })));
}

#[test]
fn panic_default_without_definition() {
    let r = build("#{ panic_default = true }&{ base = 'plain' }&{word}", "pd");
    assert!(matches!(r, Err(MetaError::UndefinedDefault { .. })));
}

#[test]
fn panic_undefined_variable() {
    let r = build("#{ panic_undefined = true }${nothing}", "pu");
    assert!(matches!(r, Err(MetaError::UndefinedExpand { .. })));
    let r = build("#{ panic_undefined = true }@{nothing}", "pu_arr");
    assert!(matches!(r, Err(MetaError::UndefinedExpand { .. })));
    assert_eq!(build("&{ base = 'plain' }[${nothing}]", "lenient").unwrap(), "[]");
}

#[test]
fn self_including_pattern_is_reported() {
    let opts = site_options();
    let mut store = PatternStore::new();
    store.load(&opts.pattern, "loop/default.meta", "x&{loop}");
    let file = source_file(&opts, "cycle", "&{loop}");
    assert!(matches!(
        metafile_to_string(&file, &store, &opts),
        Err(MetaError::PatternCycle { .. })
    ));
}

#[test]
fn broken_pattern_file_is_a_syntax_error() {
    let opts = site_options();
    let mut store = PatternStore::new();
    store.load(&opts.pattern, "bad/default.meta", "${ unclosed = 'x }");
    let file = source_file(&opts, "uses_bad", "&{bad}");
    assert!(matches!(
        metafile_to_string(&file, &store, &opts),
        Err(MetaError::ParserError { .. })
    ));
}

#[test]
fn stages_of_a_source_file() {
    let opts = site_options();
    let store = site_patterns(&opts);
    let copy = source_file(&opts, "copy", "#{ copy_only = true }variable: ${this} should get copied verbatim");
    match source_stage(&copy, &store, &opts).unwrap() {
        Stage::Copy(t) => assert_eq!(t, "variable: ${this} should get copied verbatim"),
        _ => panic!("expected a copy"),
    }
    assert!(matches!(build_metafile(&copy, &store, &opts), Err(MetaError::Ignored)));
    let body = source_file(&opts, "body", "${ v = 'x' }<b>${v}</b>");
    match source_stage(&body, &store, &opts).unwrap() {
        Stage::Body(t) => {
            assert_eq!(t, "<b>x</b>");
            let converted = "<strong>x</strong>".to_string();
            assert_eq!(
                render_with_base(&body, converted, &store, &opts).unwrap(),
                "<html>\n<strong>x</strong></html>\n"
            );
        }
        _ => panic!("expected a body"),
    }
}

#[test]
fn converter_choice() {
    let mut opts = site_options();
    opts.output = "html".to_string();
    let f = metaforge::parse_string("text").unwrap();
    assert_eq!(
        converter_for(&f, &opts, "text"),
        Some((InputDialect::Markdown, OutputDialect::Html))
    );
    assert_eq!(converter_for(&f, &opts, ""), None);
    let off = metaforge::parse_string("#{ pandoc = false }text").unwrap();
    assert_eq!(converter_for(&off, &opts, "text"), None);
    let rss = metaforge::parse_string("#{ filetype = 'rss' }text").unwrap();
    assert_eq!(converter_for(&rss, &opts, "text"), None);
    let txt = metaforge::parse_string("#{ filetype = 'txt' source = 'org' }text").unwrap();
    assert_eq!(
        converter_for(&txt, &opts, "text"),
        Some((InputDialect::Org, OutputDialect::Plain))
    );
    opts.no_pandoc = true;
    assert_eq!(converter_for(&f, &opts, "text"), None);
}

#[test]
fn minify_only_when_both_ask() {
    let mut opts = site_options();
    let f = metaforge::parse_string("x").unwrap();
    let text = "<p>   spaced    out   </p>\n\n<!-- note -->".to_string();
    assert_eq!(finish_output(&f, &opts, text.clone()), text);
    opts.minify = true;
    let small = finish_output(&f, &opts, text.clone());
    assert_ne!(small, text);
    assert!(small.len() < text.len());
    let keep = metaforge::parse_string("#{ minify = false }x").unwrap();
    assert_eq!(finish_output(&keep, &opts, text.clone()), text);
}

#[test]
fn failure_policy() {
    let ok: Result<String, MetaError> = Ok("x".to_string());
    let skip: Result<String, MetaError> = Err(MetaError::Ignored);
    let bad: Result<String, MetaError> = Err(MetaError::Unknown);
    assert_eq!(decide(&ok, false), Decision::Write);
    assert_eq!(decide(&skip, false), Decision::Skip);
    assert_eq!(decide(&bad, false), Decision::Abort);
    assert_eq!(decide(&bad, true), Decision::Report);
    let syntax: Result<String, MetaError> =
        Err(MetaError::ParserError { file: "f".to_string(), error: "e".to_string() });
    assert_eq!(decide(&syntax, true), Decision::Abort);
    let results = vec![ok, skip, bad];
    assert_eq!(settle(&results, false), Some(2));
    assert_eq!(settle(&results, true), None);
    let mut with_syntax = results;
    with_syntax.push(syntax);
    assert_eq!(settle(&with_syntax, true), Some(3));
}

#[test]
fn directory_entries() {
    assert_eq!(classify_entry("sub", true), EntryKind::Dir);
    assert_eq!(classify_entry("default.meta", false), EntryKind::Default);
    assert_eq!(classify_entry("page.meta", false), EntryKind::Meta);
    assert_eq!(classify_entry("notes.txt", false), EntryKind::Other);
    assert_eq!(classify_entry(".meta", false), EntryKind::Other);
}
