use zcstring::ZCString;

#[test]
fn split_lines_three_views() {
    let zc = ZCString::from_str_without_source("line1\nline2\nline3");
    let lines = zc.split_lines();
    assert_eq!(lines.len(), 3);
    assert_eq!(lines[0].as_str(), "line1");
    assert_eq!(lines[1].as_str(), "line2");
    assert_eq!(lines[2].as_str(), "line3");
    for line in &lines {
        // each line is zero-copy against the original buffer
        assert!(zc.source_of(line.as_str()));
    }
}

#[test]
fn split_lines_matches_std_semantics() {
    for text in [
        "",
        "\n",
        "one",
        "one\n",
        "a\r\nb\r",
        "foo\r\nbar\n\nbaz\r",
        "\r\n\r\n",
        "h\u{e9}llo\nw\u{f8}rld",
    ] {
        let zc = ZCString::from_str_without_source(text);
        let got: Vec<String> = zc.split_lines().iter().map(|z| String::from(z.as_str())).collect();
        let want: Vec<String> = text.lines().map(String::from).collect();
        assert_eq!(got, want, "splitting {:?}", text);
    }
}

#[test]
fn wrap_iter_yields_zero_copy_views() {
    let zc = ZCString::from_str_without_source("line1\nline2\nline3");
    let fragments: Vec<&str> = zc.as_str().lines().collect();
    let mut it = zc.wrap_iter(fragments);
    let a = it.next().unwrap();
    assert_eq!(a.as_str(), "line1");
    assert!(zc.source_of(a.as_str()));
    let b = it.next().unwrap();
    assert_eq!(b.as_str(), "line2");
    assert!(zc.source_of(b.as_str()));
    let c = it.next().unwrap();
    assert_eq!(c.as_str(), "line3");
    assert!(zc.source_of(c.as_str()));
    assert!(it.next().is_none());
    assert!(it.next().is_none());
}

#[test]
fn wrap_iter_keeps_the_buffer_alive() {
    let zc = ZCString::from_str_without_source("keep\nalive");
    let fragments: Vec<&str> = zc.as_str().lines().collect();
    let mut it = zc.wrap_iter(fragments);
    drop(zc);
    // the wrapper holds its own handle onto the source buffer
    let a = it.next().unwrap();
    assert_eq!(a.as_str(), "keep");
    let b = it.next().unwrap();
    assert_eq!(b.as_str(), "alive");
    assert!(it.next().is_none());
}

#[test]
fn wrap_iter_copies_foreign_fragments() {
    let zc = ZCString::from_str_without_source("source");
    let foreign = String::from("elsewhere");
    let mut it = zc.wrap_iter(vec![foreign.as_str()]);
    let v = it.next().unwrap();
    assert_eq!(v.as_str(), "elsewhere");
    assert!(!zc.source_of(v.as_str()));
    assert!(it.next().is_none());
}

#[test]
fn split_then_detach_outlives_source() {
    let zc = ZCString::from_str_without_source("line1\nline2\nline3");
    let lines = zc.split_lines();
    let kept = lines[1].detach();
    drop(lines);
    drop(zc);
    assert_eq!(kept.as_str(), "line2");
}
