use metaforge::{parse_string, MetaFile, Scope, Src};

// The definitions that the assertions below read, written out here.
const SOURCE: &str = r#"${
    var = "GOOD"
    single_quotes = 'GOOD'
}
@{
    sub.array = ['GOOD', 'GOOD']
    arr = ['GOOD', 'GOOD', 'GOOD']
    with_spaces = [ 'GOOD' , 'GOOD' , 'GOOD' ]
}
&{ test = 'pattern' }
<p>${var}</p>
"#;

const PARSER_SOURCE: &str = r#"${ var = 'good' }
@{ sub.array = ['sub', 'value'] arr = ['split', 'up', 'values'] with_spaces = ['stuff', 'with', 'spaces'] }
&{ pat = "pattern" }
body"#;

const PATTERN: &str = "<p>${var}</p>&{pat}@{array}<br>${blank}";

fn var<'a>(f: &'a MetaFile, key: &str) -> Option<&'a str> {
    f.get_var(&Scope::create_global(key)).map(|s| s.as_str())
}

fn arr(f: &MetaFile, key: &str) -> Option<Vec<String>> {
    f.get_arr(&Scope::create_global(key)).cloned()
}

fn pat<'a>(f: &'a MetaFile, key: &str) -> Option<&'a str> {
    f.get_pat(&Scope::create_global(key)).map(|s| s.as_str())
}

#[test]
fn test_metafile_gets() {
    let source = parse_string(SOURCE).unwrap();

    assert_eq!(var(&source, "var").unwrap(), "GOOD");
    assert_eq!(var(&source, "single_quotes").unwrap(), "GOOD");
    assert_eq!(var(&source, "blank"), None);
    assert_eq!(var(&source, "not_defined"), None);

    assert_eq!(arr(&source, "sub.array").unwrap(), ["GOOD", "GOOD"]);
    assert_eq!(arr(&source, "arr").unwrap(), ["GOOD", "GOOD", "GOOD"]);
    assert_eq!(arr(&source, "with_spaces").unwrap(), ["GOOD", "GOOD", "GOOD"]);
    assert_eq!(arr(&source, "not_defined"), None);

    assert_eq!(pat(&source, "test").unwrap(), "pattern");
    assert_eq!(pat(&source, "test.sub_pat"), None);
    assert_eq!(pat(&source, "blank_pat"), None);
    assert_eq!(pat(&source, "not_defined"), None);
}

#[test]
fn test_metafile_parse_meta_file() {
    let source = parse_string(SOURCE).unwrap();

    assert_eq!(var(&source, "var").unwrap(), "GOOD");
    assert_eq!(var(&source, "blank"), None);
    assert_eq!(var(&source, "not_here"), None);

    assert_eq!(arr(&source, "sub.array").unwrap(), vec!["GOOD", "GOOD"]);
    assert_eq!(arr(&source, "arr").unwrap(), vec!["GOOD", "GOOD", "GOOD"]);
    assert_eq!(arr(&source, "with_spaces").unwrap(), vec!["GOOD", "GOOD", "GOOD"]);
    assert_eq!(arr(&source, "not_defined"), None);

    assert_eq!(pat(&source, "test").unwrap(), "pattern");
    assert_eq!(pat(&source, "test.sub_pat"), None);
    assert_eq!(pat(&source, "blank_pat"), None);
    assert_eq!(pat(&source, "not_defined"), None);
}

#[test]
fn test_parser_parse_meta_file() {
    let source = parse_string(PARSER_SOURCE).unwrap();

    assert_eq!(var(&source, "var").unwrap(), "good");
    assert_eq!(var(&source, "blank"), None);
    assert_eq!(var(&source, "not_here"), None);

    assert_eq!(arr(&source, "sub.array").unwrap(), vec!["sub", "value"]);
    assert_eq!(arr(&source, "arr").unwrap(), vec!["split", "up", "values"]);
    assert_eq!(arr(&source, "with_spaces").unwrap(), vec!["stuff", "with", "spaces"]);
    assert_eq!(arr(&source, "not_defined"), None);

    assert_eq!(pat(&source, "pat").unwrap(), "pattern");
    assert_eq!(pat(&source, "pat.sub_pat"), None);
    assert_eq!(pat(&source, "blank_pat"), None);
    assert_eq!(pat(&source, "not_defined"), None);
}

fn same(a: &Src, b: &Src) -> bool {
    match (a, b) {
        (Src::Str(x), Src::Str(y)) => x == y,
        (Src::Var(x), Src::Var(y)) => x == y,
        (Src::Arr(x), Src::Arr(y)) => x == y,
        (Src::Pat(x), Src::Pat(y)) => x == y,
        _ => false,
    }
}

#[test]
fn test_parser_parse_pattern_file() {
    let file = parse_string(PATTERN).unwrap();
    let mut pattern_src = file.source.iter();

    pattern_src.next();
    assert!(same(pattern_src.next().unwrap(), &Src::to_var("var")));
    pattern_src.next();
    assert!(same(pattern_src.next().unwrap(), &Src::to_pat("pat")));
    assert!(same(pattern_src.next().unwrap(), &Src::to_arr("array")));
    pattern_src.next();
    assert!(same(pattern_src.next().unwrap(), &Src::to_var("blank")));
}
