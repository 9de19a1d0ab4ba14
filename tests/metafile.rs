use metaforge::{check_ignore, MetaError, MetaFile, Options, Opts, RootDirs, Scope};

#[test]
fn test_name() {
    let mut opts = Options::new();

    opts.source = "/tmp/source".to_string();
    opts.build = "/tmp/build".to_string();
    opts.pattern = "/tmp/pattern".to_string();

    let src_path = "/tmp/source/test/file.meta".to_string();
    let pat1_path = "/tmp/pattern/base/test.meta".to_string();
    let pat2_path = "/tmp/pattern/test/class/file.meta".to_string();

    let mut src = MetaFile::new();
    src.path = src_path;
    let mut pat1 = MetaFile::new();
    pat1.path = pat1_path;
    let mut pat2 = MetaFile::new();
    pat2.path = pat2_path;

    assert_eq!(src.name(&opts).unwrap(), "test.file");
    assert_eq!(pat1.name(&opts).unwrap(), "base.test");
    assert_eq!(pat2.name(&opts).unwrap(), "test.class.file");
    assert_eq!(pat1.class(&opts).unwrap(), "base");
    assert_eq!(pat2.class(&opts).unwrap(), "test.class");
}

#[test]
fn tests_test_filetype_header() {
    let mut opts = Options::new();
    opts.root = "/site".to_string();
    opts.source = "/site/source".to_string();
    opts.build = "/site/build".to_string();

    let file = MetaFile::build(
        "/site/source/unit_tests/header/filetype.meta",
        "#{ filetype = 'rss' }\n<rss></rss>\n",
    )
    .unwrap();

    assert_eq!(
        file.dest(&opts).unwrap(),
        "/site/build/unit_tests/header/filetype.rss"
    );
}

#[test]
fn name_outside_the_roots_is_an_error() {
    let mut opts = Options::new();
    opts.source = "/tmp/source".to_string();
    opts.pattern = "/tmp/pattern".to_string();
    let mut f = MetaFile::new();
    f.path = "/elsewhere/file.meta".to_string();
    assert!(matches!(f.name(&opts), Err(MetaError::Name { .. })));
    assert!(f.dest(&opts).is_err());
}

#[test]
fn dest_keeps_html_by_default() {
    let mut opts = Options::new();
    opts.source = "/s".to_string();
    opts.build = "/b".to_string();
    let f = MetaFile::build("/s/a/b/page.meta", "text").unwrap();
    assert_eq!(f.dest(&opts).unwrap(), "/b/a/b/page.html");
}

#[test]
fn merge_keeps_own_and_adds_globals() {
    let mut child = metaforge::parse_string("${ name = 'CHILD' *only = 'mine' }").unwrap();
    let parent =
        metaforge::parse_string("${ name = 'PARENT' extra = 'EXTRA' *hidden = 'no' }").unwrap();
    child.merge(&parent);
    assert_eq!(child.get_var(&Scope::create_global("name")).unwrap(), "CHILD");
    assert_eq!(child.get_var(&Scope::create_global("extra")).unwrap(), "EXTRA");
    assert_eq!(child.get_var(&Scope::create_local("only")).unwrap(), "mine");
    assert!(child.get_var(&Scope::create_local("hidden")).is_none());
}

#[test]
fn scope_helpers() {
    let l = Scope::create_local("k");
    let g = l.global();
    assert!(l.is_local() && !l.is_global());
    assert!(g.is_global() && !g.is_local());
    assert!(g.local().same(&l));
    assert_eq!(g.key(), "k");
}

#[test]
fn check_ignore_absorbs_skip() {
    assert!(matches!(check_ignore::<u8>(Ok(3)), Ok(Some(3))));
    assert!(matches!(check_ignore::<u8>(Err(MetaError::Ignored)), Ok(None)));
    assert!(matches!(
        check_ignore::<u8>(Err(MetaError::Unknown)),
        Err(MetaError::Unknown)
    ));
}

#[test]
fn options_from_command_line() {
    let given = Opts {
        root: None,
        source: Some("/src".to_string()),
        build: None,
        pattern: None,
        file: None,
        output: None,
        input: Some("org".to_string()),
        verbose: 2,
        quiet: false,
        parallel: true,
        new: false,
        clean: false,
        force: true,
        undefined: false,
        no_pandoc: false,
        minify: false,
    };
    let o = Options::from_opts(&given, "/home/site");
    assert_eq!(o.root, "/home/site");
    assert_eq!(o.source, "/src");
    assert_eq!(o.build, "/home/site/build");
    assert_eq!(o.pattern, "/home/site/pattern");
    assert_eq!(o.input, "org");
    assert_eq!(o.output, "markdown");
    assert!(o.parallel && o.force);
    let dirs = RootDirs::new();
    assert!(dirs.root.is_empty());
}

#[test]
fn error_messages_name_the_place() {
    let e = MetaError::UndefinedExpand { val: "x".to_string(), path: "a.b".to_string() };
    assert_eq!(e.message(), "undefined expansion: x\n\tin a.b");
}
