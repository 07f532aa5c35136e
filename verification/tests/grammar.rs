use asdr::tool_versions::{
    parse_asdf_version_file, parse_tool_version_line, remove_tool_version_comments, ToolVersion,
    ToolVersions,
};

fn pair(a: &str, b: &str) -> (String, String) {
    (a.to_string(), b.to_string())
}

// strip_tool_version_comments removes lines that only contain comments
#[test]
fn parse_tool_version_line_with_comment_only_line_with_newline() {
    let tool_version_line = parse_tool_version_line("# comment line\n");

    assert_eq!(tool_version_line, None);
}

// strip_tool_version_comments removes lines that only contain comments, without newline
#[test]
fn parse_tool_version_line_with_comment_only_line() {
    let tool_version_line = parse_tool_version_line("# comment line");

    assert_eq!(tool_version_line, None);
}

// strip_tool_version_comments removes trailing comments on lines containing version information
#[test]
fn parse_tool_version_line_with_inline_comment_with_newline() {
    let tool_version_line = parse_tool_version_line("ruby 2.0.0 # inline comment\n");

    assert_eq!(tool_version_line, Some(pair("ruby", "2.0.0")));
}

// strip_tool_version_comments removes trailing comments on lines containing version information even with missing newline
#[test]
fn parse_tool_version_line_with_inline_comment() {
    let tool_version_line = parse_tool_version_line("ruby 2.0.0 # inline comment");

    assert_eq!(tool_version_line, Some(pair("ruby", "2.0.0")));
}

// strip_tool_version_comments removes all comments from the version file
#[test]
fn parse_tool_version_line_with_lots_of_comments() {
    let test_file = "ruby 2.0.0 # inline comment\n# comment line\nerlang 18.2.1 # inline comment\n";

    let versions = test_file
        .lines()
        .filter_map(parse_tool_version_line)
        .collect::<Vec<_>>();

    assert_eq!(versions, vec![pair("ruby", "2.0.0"), pair("erlang", "18.2.1")]);
}

#[test]
fn remove_comments_keeps_plain_content() {
    assert_eq!(
        remove_tool_version_comments("ruby 2.0.0 # note"),
        Some("ruby 2.0.0".to_string())
    );
    assert_eq!(remove_tool_version_comments("ruby 2.0.0   "), Some("ruby 2.0.0".to_string()));
    assert_eq!(remove_tool_version_comments("# only a comment"), None);
    assert_eq!(remove_tool_version_comments("   "), None);
    assert_eq!(remove_tool_version_comments(""), None);
}

#[test]
fn remove_comments_is_idempotent_on_examples() {
    for line in ["ruby 2.0.0 # note", "a b", "  x  ", "# c", "no comment here"] {
        let once = remove_tool_version_comments(line);
        let twice = match &once {
            Some(stripped) => remove_tool_version_comments(stripped),
            None => None,
        };
        match line {
            "# c" => assert_eq!(once, None),
            _ => {}
        }
        if let Some(stripped) = once {
            assert_eq!(twice, Some(stripped));
        }
    }
}

#[test]
fn parse_version_specifiers() {
    assert!(matches!(ToolVersion::parse("system"), Ok(ToolVersion::System)));
    assert_eq!(
        ToolVersion::parse("1.2.3").unwrap(),
        ToolVersion::Version("1.2.3".to_string())
    );
    assert_eq!(
        ToolVersion::parse("ref:master").unwrap(),
        ToolVersion::Ref("master".to_string())
    );
    assert_eq!(
        ToolVersion::parse("path:/some/place with spaces").unwrap(),
        ToolVersion::Path("/some/place with spaces".to_string())
    );
    assert_eq!(ToolVersion::parse("latest").unwrap(), ToolVersion::Latest(None));
    assert_eq!(
        ToolVersion::parse("latest:1.1").unwrap(),
        ToolVersion::Latest(Some("1.1".to_string()))
    );
    assert!(ToolVersion::parse("").is_err());
}

#[test]
fn parse_to_string_round_trip() {
    for token in [
        "system",
        "latest",
        "latest:1.1",
        "ref:master",
        "path:/some/place with spaces",
        "3.11.4",
    ] {
        let parsed = ToolVersion::parse(token).unwrap();
        assert_eq!(parsed.to_version_string(), token);
    }
}

#[test]
fn install_type_of_each_specifier() {
    assert_eq!(ToolVersion::parse("1.0.0").unwrap().install_type(), "version");
    assert_eq!(ToolVersion::parse("latest").unwrap().install_type(), "version");
    assert_eq!(ToolVersion::parse("ref:abc").unwrap().install_type(), "ref");
    assert_eq!(ToolVersion::parse("path:/x").unwrap().install_type(), "path");
    assert_eq!(ToolVersion::parse("system").unwrap().install_type(), "system");
}

#[test]
fn install_version_of_each_specifier() {
    assert_eq!(
        ToolVersion::parse("1.0.0").unwrap().install_version(None),
        Some("1.0.0".to_string())
    );
    assert_eq!(
        ToolVersion::parse("ref:abc").unwrap().install_version(None),
        Some("abc".to_string())
    );
    assert_eq!(
        ToolVersion::parse("latest").unwrap().install_version(Some("9.9".to_string())),
        Some("9.9".to_string())
    );
    assert_eq!(ToolVersion::parse("path:/x").unwrap().install_version(None), None);
    assert_eq!(ToolVersion::parse("system").unwrap().install_version(None), None);
}

// parse_asdf_version_file should output version
#[test]
fn parse_asdf_version_file_with_version() {
    let version = parse_asdf_version_file("dummy 0.1.0", "dummy");

    assert_eq!(version, Some("0.1.0".to_string()));
}

// parse_asdf_version_file should output path version with spaces
#[test]
fn parse_asdf_version_file_with_spaces_in_version() {
    let version = parse_asdf_version_file("dummy path:/some/dummy path", "dummy");

    assert_eq!(version, Some("path:/some/dummy path".to_string()));
}

#[test]
fn parse_asdf_version_file_without_the_tool() {
    assert_eq!(parse_asdf_version_file("other 1.0.0", "dummy"), None);
    assert_eq!(parse_asdf_version_file("", "dummy"), None);
}

#[test]
fn parse_whole_document_with_path_line() {
    let doc = ToolVersions::parse("dummy path:/some/place with spaces").unwrap();
    assert_eq!(doc.0.len(), 1);
    assert_eq!(doc.0[0].tool, "dummy");
    assert_eq!(
        doc.0[0].versions,
        vec![ToolVersion::Path("/some/place with spaces".to_string())]
    );
}

#[test]
fn parse_whole_document_last_declaration_wins() {
    let doc = ToolVersions::parse("ruby 2.0.0 3.0.0\nerlang 18.2.1\nruby 9.9.9\n").unwrap();
    assert_eq!(doc.0.len(), 2);
    assert_eq!(doc.0[0].tool, "ruby");
    assert_eq!(doc.0[0].versions, vec![ToolVersion::Version("9.9.9".to_string())]);
    assert_eq!(doc.0[1].tool, "erlang");
}

#[test]
fn parse_whole_document_rejects_bare_word_line() {
    assert!(ToolVersions::parse("ruby\n").is_err());
}
