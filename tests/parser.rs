use metaforge::{parse_source, parse_string, MetaError, MetaFile, Scope, Src};

fn parse_ok(s: &str) -> MetaFile {
    parse_string(s).unwrap()
}

#[test]
fn no_spaces_in_def() {
    parse_ok(r#"${v='v'}@{a=['a']}&{p='p'}"#);
}

#[test]
fn newlines_in_array() {
    parse_ok("@{ a = [\n'stuff',\n'other stuff'\n] }");
}

#[test]
fn trailing_commas() {
    parse_ok(r#"@{ a = ['stuff','other stuff',] }"#);
}

#[test]
fn just_source_string() {
    parse_ok(r#"This is just a &{source} snippet"#);
}

#[test]
fn one_line() {
    parse_ok(
        r#"${variable = 'var' } @{array = ['array']} &{ pattern = "pattern"} And some extra text"#,
    );
}

#[test]
#[should_panic]
fn key_with_spaces() {
    parse_ok(r#"${ key with spaces = "value" }"#);
}

#[test]
#[should_panic]
fn value_missing_quote() {
    parse_ok(r#"${ key = "value missing quote }"#);
}

#[test]
#[should_panic]
fn mixed_quotes() {
    parse_ok(r#"${ key = "value mixing quotes' }"#);
}

#[test]
#[should_panic]
fn spaces_in_substitution() {
    parse_ok(r#"This ${variable is not allowed}"#);
}

#[test]
#[should_panic]
fn missing_closing_brace() {
    parse_ok(r#"${ key = "value" "#);
}

#[test]
#[should_panic]
fn map_in_source() {
    parse_ok(r#"This map: ${ is = "invalid" }"#);
}

#[test]
#[should_panic]
fn map_source_map() {
    parse_ok(r#"${var='v'} Some text @{array = ['a']}"#);
}

#[test]
#[should_panic]
fn header_not_first() {
    parse_ok(r#"${v='v'} #{ type = 'html'} @{a=['a']}"#);
}

fn texts(v: &Vec<String>) -> Vec<&str> {
    v.iter().map(|s| s.as_str()).collect()
}

#[test]
fn definitions_are_scoped() {
    let f = parse_ok("${ *v = 'local' w = \"global\" }@{ *a = ['x', 'y'] }&{ p = DEFAULT }body");
    assert_eq!(f.get_var(&Scope::create_local("v")).unwrap(), "local");
    assert!(f.get_var(&Scope::create_global("v")).is_none());
    assert_eq!(f.get_var(&Scope::create_global("w")).unwrap(), "global");
    assert_eq!(texts(f.get_arr(&Scope::create_local("a")).unwrap()), vec!["x", "y"]);
    assert_eq!(f.get_pat(&Scope::create_global("p")).unwrap(), "DEFAULT");
    assert_eq!(f.source.len(), 1);
    assert!(matches!(&f.source[0], Src::Str(s) if s == "body"));
}

#[test]
fn last_definition_wins() {
    let f = parse_ok("${ v = 'first' v = 'second' }");
    assert_eq!(f.get_var(&Scope::create_global("v")).unwrap(), "second");
}

#[test]
fn body_segments_in_order() {
    let f = parse_ok("${v='x'}<p>${v}</p>@{a}&{p}-{a comment}end");
    let kinds: Vec<String> = f
        .source
        .iter()
        .map(|s| match s {
            Src::Str(t) => format!("str:{t}"),
            Src::Var(t) => format!("var:{t}"),
            Src::Arr(t) => format!("arr:{t}"),
            Src::Pat(t) => format!("pat:{t}"),
        })
        .collect();
    assert_eq!(
        kinds,
        vec!["str:<p>", "var:v", "str:</p>", "arr:a", "pat:p", "str:end"]
    );
}

#[test]
fn header_settings() {
    let f = parse_ok("#{ blank = true filetype = 'rss' pandoc = false }text");
    assert!(f.header.blank);
    assert_eq!(f.header.filetype, "rss");
    assert_eq!(f.header.pandoc, Some(false));
    assert_eq!(f.header.source, "markdown");
    assert!(f.header.minify);
}

#[test]
fn unknown_header_key_is_an_error() {
    let e = parse_string("#{ colour = 'red' }text").unwrap_err();
    assert!(matches!(e, MetaError::Header { ref opt } if opt == "colour"));
}

#[test]
fn syntax_error_kind() {
    let e = parse_string("${ key = 'unclosed }").unwrap_err();
    assert!(matches!(e, MetaError::ParserError { .. }));
}

#[test]
fn empty_text_parses_to_empty_file() {
    let f = parse_ok("");
    assert!(f.source.is_empty());
    assert!(f.variables.entries.is_empty());
}

#[test]
fn round_trip_of_body_markers() {
    let text = "a ${x} b @{y}&{z.w} c";
    let segs = parse_source(text).unwrap();
    let mut f = MetaFile::new();
    f.source = segs;
    assert_eq!(f.copy_text(), text);
}

#[test]
fn file_round_trip_after_definitions() {
    let f = parse_ok("${x='1'}\n<p>${x} and &{p}</p>");
    assert_eq!(f.copy_text(), "<p>${x} and &{p}</p>");
}
