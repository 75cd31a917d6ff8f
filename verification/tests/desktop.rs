use jbt_desktop_fixer::desktop::{set_icon, DesktopEntry, ParseError, Rewrite, WriteError};

fn entry(icon: Option<&str>) -> DesktopEntry {
    DesktopEntry {
        entry_path: "/apps/jetbrains-idea.desktop".to_string(),
        name: "IntelliJ IDEA".to_string(),
        icon: icon.map(|s| s.to_string()),
    }
}

fn changed(text: &str) -> Result<Rewrite, WriteError> {
    Ok(Rewrite::Changed(text.to_string()))
}

#[test]
fn parses_name_and_icon() {
    let text = "[Desktop Entry]\nType=Application\nName=IntelliJ IDEA Ultimate\nIcon=old-icon\n";
    let entry = DesktopEntry::from_path("/apps/jetbrains-idea.desktop", Some(text.as_bytes()));
    assert_eq!(
        entry,
        Ok(DesktopEntry {
            entry_path: "/apps/jetbrains-idea.desktop".to_string(),
            name: "IntelliJ IDEA Ultimate".to_string(),
            icon: Some("old-icon".to_string()),
        })
    );
}

#[test]
fn missing_name_is_an_error() {
    let text = "[Desktop Entry]\nIcon=some-icon\nExec=run\n";
    assert_eq!(DesktopEntry::from_path("p", Some(text.as_bytes())), Err(ParseError::MissingName));
    assert_eq!(DesktopEntry::from_path("p", Some(b"")), Err(ParseError::MissingName));
    assert_eq!(DesktopEntry::from_path("p", Some(b"[Desktop Entry]")), Err(ParseError::MissingName));
}

#[test]
fn missing_icon_is_no_error() {
    let entry = DesktopEntry::from_path("p", Some(b"[Desktop Entry]\nName=App\n")).unwrap();
    assert_eq!(entry.name, "App");
    assert_eq!(entry.icon, None);
}

#[test]
fn last_of_two_names_wins() {
    let text = "[Desktop Entry]\nName=First\nIcon=a\nName=Second\nIcon=b\n";
    let entry = DesktopEntry::from_path("p", Some(text.as_bytes())).unwrap();
    assert_eq!(entry.name, "Second");
    assert_eq!(entry.icon, Some("b".to_string()));
}

#[test]
fn header_line_is_skipped() {
    let entry = DesktopEntry::from_path("p", Some(b"Name=Header\nName=Body\n")).unwrap();
    assert_eq!(entry.name, "Body");
    assert_eq!(DesktopEntry::from_path("p", Some(b"Name=Header\n")), Err(ParseError::MissingName));
    assert_eq!(DesktopEntry::from_path("p", Some(b"Name=Header")), Err(ParseError::MissingName));
}

#[test]
fn undecodable_line_is_unreadable() {
    let bytes = b"[Desktop Entry]\nName=App\nComment=\xff\xfe\n";
    assert_eq!(DesktopEntry::from_path("p", Some(bytes)), Err(ParseError::Unreadable));
    let early = b"[Desktop Entry]\n\xc3\nName=App\n";
    assert_eq!(DesktopEntry::from_path("p", Some(early)), Err(ParseError::Unreadable));
}

#[test]
fn undecodable_header_is_passed_over() {
    let entry = DesktopEntry::from_path("p", Some(b"\xff\xfe\nName=App\n")).unwrap();
    assert_eq!(entry.name, "App");
}

#[test]
fn text_beyond_ascii_is_decoded() {
    let text = "[Desktop Entry]\nName=Café ☕\nIcon=icône\n";
    let entry = DesktopEntry::from_path("p", Some(text.as_bytes())).unwrap();
    assert_eq!(entry.name, "Café ☕");
    assert_eq!(entry.icon, Some("icône".to_string()));
}

#[test]
fn lines_without_equals_sign_are_skipped() {
    let text = "[Desktop Entry]\nName\nIcon\nName=App\nName\n";
    let entry = DesktopEntry::from_path("p", Some(text.as_bytes())).unwrap();
    assert_eq!(entry.name, "App");
    assert_eq!(entry.icon, None);
}

#[test]
fn other_keys_are_ignored() {
    let text = "[Desktop Entry]\nGenericName=Other\nName[fr]=Autre\nname=lower\nName=App\nIconTheme=x\n";
    let entry = DesktopEntry::from_path("p", Some(text.as_bytes())).unwrap();
    assert_eq!(entry.name, "App");
    assert_eq!(entry.icon, None);
}

#[test]
fn lines_are_trimmed_but_fields_are_not() {
    let text = "[Desktop Entry]\r\n  Name=App  \r\n\tIcon= padded\r\nName =spaced\r\n";
    let entry = DesktopEntry::from_path("p", Some(text.as_bytes())).unwrap();
    assert_eq!(entry.name, "App");
    assert_eq!(entry.icon, Some(" padded".to_string()));
}

#[test]
fn value_ends_at_second_equals_sign() {
    let text = "[Desktop Entry]\nName=a=b=c\nIcon==x\n";
    let entry = DesktopEntry::from_path("p", Some(text.as_bytes())).unwrap();
    assert_eq!(entry.name, "a");
    assert_eq!(entry.icon, Some("".to_string()));
}

#[test]
fn empty_value_counts() {
    let entry = DesktopEntry::from_path("p", Some(b"[Desktop Entry]\nName=\n")).unwrap();
    assert_eq!(entry.name, "");
}

#[test]
fn path_is_kept() {
    let entry = DesktopEntry::from_path("/some/where.desktop", Some(b"h\nName=App")).unwrap();
    assert_eq!(entry.entry_path, "/some/where.desktop");
}

#[test]
fn has_icon_compares_the_whole_name() {
    assert!(entry(Some("idea")).has_icon("idea"));
    assert!(!entry(Some("idea")).has_icon("ide"));
    assert!(!entry(Some("idea")).has_icon("idea2"));
    assert!(!entry(Some("idea")).has_icon("Idea"));
    assert!(!entry(None).has_icon("idea"));
    assert!(!entry(None).has_icon(""));
    assert!(entry(Some("")).has_icon(""));
}

#[test]
fn same_icon_leaves_the_file_alone() {
    let text = b"[Desktop Entry]\nName=IntelliJ IDEA\nIcon=idea\n";
    assert_eq!(entry(Some("idea")).modify_icon("idea", Some(text)), Ok(Rewrite::Unchanged));
}

#[test]
fn same_icon_does_not_look_at_the_contents() {
    assert_eq!(entry(Some("idea")).modify_icon("idea", Some(b"\xff\xff")), Ok(Rewrite::Unchanged));
    assert_eq!(entry(Some("idea")).modify_icon("idea", Some(b"")), Ok(Rewrite::Unchanged));
}

#[test]
fn icon_line_is_replaced() {
    let text = b"[Desktop Entry]\nName=IntelliJ IDEA\nIcon=old-icon\nExec=idea %f\n";
    assert_eq!(
        entry(Some("old-icon")).modify_icon("intellij-idea-icon", Some(text)),
        changed("[Desktop Entry]\nName=IntelliJ IDEA\nIcon=intellij-idea-icon\nExec=idea %f\n\n")
    );
}

#[test]
fn every_icon_line_is_replaced() {
    let text = b"[Desktop Entry]\nIcon=a\nName=App\nIcon=b\nIcon\n";
    assert_eq!(
        entry(Some("b")).modify_icon("new", Some(text)),
        changed("[Desktop Entry]\nIcon=new\nName=App\nIcon=new\nIcon=new\n\n")
    );
}

#[test]
fn keys_that_only_begin_with_icon_are_kept() {
    let text = b"[Desktop Entry]\nIconTheme=x\nIcon[fr]=y\nIcon =z\nicon=w\nIcon=old\n";
    assert_eq!(
        entry(Some("old")).modify_icon("new", Some(text)),
        changed("[Desktop Entry]\nIconTheme=x\nIcon[fr]=y\nIcon =z\nicon=w\nIcon=new\n\n")
    );
}

#[test]
fn header_line_is_rewritten_like_any_other() {
    assert_eq!(entry(None).modify_icon("new", Some(b"Icon=old\nName=App")), changed("Icon=new\nName=App\n\n"));
}

#[test]
fn blank_lines_go_and_lines_are_trimmed() {
    let text = b"  [Desktop Entry]\r\n\r\n   \nName=App \t\r\n\n\nIcon=old\r\n\n";
    assert_eq!(
        entry(Some("old")).modify_icon("new", Some(text)),
        changed("[Desktop Entry]\nName=App\nIcon=new\n\n")
    );
}

#[test]
fn file_without_icon_line_is_still_rewritten() {
    let text = b"[Desktop Entry]\nName=App\n";
    assert_eq!(entry(None).modify_icon("new", Some(text)), changed("[Desktop Entry]\nName=App\n\n"));
}

#[test]
fn empty_file_becomes_one_blank_line() {
    assert_eq!(entry(None).modify_icon("new", Some(b"")), changed("\n"));
    assert_eq!(entry(None).modify_icon("new", Some(b"\n \n")), changed("\n"));
}

#[test]
fn undecodable_contents_fail_the_read() {
    let bytes = b"[Desktop Entry]\nName=App\nIcon=\xff\n";
    assert_eq!(entry(Some("old")).modify_icon("new", Some(bytes)), Err(WriteError::ReadFailed));
    assert_eq!(entry(None).modify_icon("new", Some(b"\xff\nName=App\n")), Err(WriteError::ReadFailed));
}

#[test]
fn text_beyond_ascii_is_kept() {
    let text = "[Desktop Entry]\nName=Café\u{a0}\nIcon=old\n";
    assert_eq!(
        entry(Some("old")).modify_icon("icône", Some(text.as_bytes())),
        changed("[Desktop Entry]\nName=Café\nIcon=icône\n\n")
    );
}

#[test]
fn rewritten_file_reads_back_with_the_new_icon() {
    let text = b"[Desktop Entry]\nName=IntelliJ IDEA\nIcon=old-icon\nExec=idea %f\n";
    let before = DesktopEntry::from_path("p", Some(text)).unwrap();
    let after = match before.modify_icon("new-icon", Some(text)) {
        Ok(Rewrite::Changed(text)) => text,
        other => panic!("expected a change, got {:?}", other),
    };
    let reread = DesktopEntry::from_path("p", Some(after.as_bytes())).unwrap();
    assert_eq!(reread.name, "IntelliJ IDEA");
    assert_eq!(reread.icon, Some("new-icon".to_string()));
    assert_eq!(reread.modify_icon("new-icon", Some(after.as_bytes())), Ok(Rewrite::Unchanged));
}

#[test]
fn rewriting_twice_changes_nothing_more() {
    let text = b" [Desktop Entry] \n\nName=App\nIcon=old\n";
    let once = match entry(Some("old")).modify_icon("new", Some(text)) {
        Ok(Rewrite::Changed(text)) => text,
        other => panic!("expected a change, got {:?}", other),
    };
    assert_eq!(entry(Some("old")).modify_icon("new", Some(once.as_bytes())), changed(&once));
}

#[test]
fn file_that_could_not_be_read_is_unreadable() {
    assert_eq!(DesktopEntry::from_path("p", None), Err(ParseError::Unreadable));
}

#[test]
fn file_that_could_not_be_read_again_fails_the_read() {
    assert_eq!(entry(Some("old")).modify_icon("new", None), Err(WriteError::ReadFailed));
    assert_eq!(entry(None).modify_icon("new", None), Err(WriteError::ReadFailed));
}

#[test]
fn same_icon_needs_no_contents() {
    assert_eq!(entry(Some("idea")).modify_icon("idea", None), Ok(Rewrite::Unchanged));
}

#[test]
fn from_text_reads_every_line() {
    let entry = DesktopEntry::from_text("p", "Name=First\nIcon=i\nName=Last").unwrap();
    assert_eq!(entry.entry_path, "p");
    assert_eq!(entry.name, "Last");
    assert_eq!(entry.icon, Some("i".to_string()));
    assert_eq!(DesktopEntry::from_text("p", ""), Err(ParseError::MissingName));
    assert_eq!(DesktopEntry::from_text("p", "Icon=i\n"), Err(ParseError::MissingName));
}

#[test]
fn set_icon_gives_the_whole_text() {
    assert_eq!(set_icon("a\nIcon=b\n\n c ", "d"), "a\nIcon=d\nc\n\n");
    assert_eq!(set_icon("", "d"), "\n");
    assert_eq!(set_icon("Icon", ""), "Icon=\n\n");
}

#[test]
fn icon_name_is_written_as_it_is() {
    assert_eq!(set_icon("Icon=x", " a=b "), "Icon= a=b \n\n");
    assert_eq!(set_icon("Icon=x\nName=n", "a\nb"), "Icon=a\nb\nName=n\n\n");
}

#[test]
fn clone_is_equal() {
    let one = entry(Some("idea"));
    assert_eq!(one.clone(), one);
    assert_eq!(entry(None).clone(), entry(None));
}
