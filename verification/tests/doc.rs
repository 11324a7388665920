use systemctl::CtlError;
use systemctl::Doc;

#[test]
fn man_descriptor_drops_the_section() {
    assert_eq!(Doc::from_str("man:cron(8)"), Ok(Doc::Man("cron".to_string())));
    assert_eq!(Doc::from_str("man:systemd.special(7)"), Ok(Doc::Man("systemd.special".to_string())));
}

#[test]
fn man_descriptor_keeps_the_payload_verbatim() {
    // nothing is trimmed, and only the first bracket cuts
    assert_eq!(Doc::from_str("man: sshd (8) (x)"), Ok(Doc::Man(" sshd ".to_string())));
    assert_eq!(Doc::from_str("man:sshd"), Ok(Doc::Man("sshd".to_string())));
    assert_eq!(Doc::from_str("man:"), Ok(Doc::Man(String::new())));
    assert_eq!(Doc::from_str("man:(8)"), Ok(Doc::Man(String::new())));
}

#[test]
fn url_descriptor_puts_the_scheme_back() {
    assert_eq!(
        Doc::from_str("https://www.freedesktop.org/wiki/Software/systemd"),
        Ok(Doc::Url("https://www.freedesktop.org/wiki/Software/systemd".to_string()))
    );
    assert_eq!(Doc::from_str("http://example.org/"), Ok(Doc::Url("http://example.org/".to_string())));
}

#[test]
fn url_descriptor_trims_the_payload() {
    assert_eq!(Doc::from_str("http:  //example.org/a b \t"), Ok(Doc::Url("http://example.org/a b".to_string())));
    assert_eq!(Doc::from_str("https:"), Ok(Doc::Url("https:".to_string())));
}

#[test]
fn descriptor_needs_exactly_one_separator() {
    assert_eq!(Doc::from_str(""), Err(CtlError::MalformedDescriptor));
    assert_eq!(Doc::from_str("man"), Err(CtlError::MalformedDescriptor));
    assert_eq!(Doc::from_str("man cron(8)"), Err(CtlError::MalformedDescriptor));
    assert_eq!(Doc::from_str("man:cron:8"), Err(CtlError::MalformedDescriptor));
    assert_eq!(Doc::from_str("https://example.org:8080/"), Err(CtlError::MalformedDescriptor));
    assert_eq!(Doc::from_str("::"), Err(CtlError::MalformedDescriptor));
}

#[test]
fn descriptor_needs_a_known_scheme() {
    assert_eq!(Doc::from_str("ftp://example.org"), Err(CtlError::MalformedDescriptor));
    assert_eq!(Doc::from_str("info:cron"), Err(CtlError::MalformedDescriptor));
    assert_eq!(Doc::from_str("Man:cron(8)"), Err(CtlError::MalformedDescriptor));
    assert_eq!(Doc::from_str(" man:cron(8)"), Err(CtlError::MalformedDescriptor));
    assert_eq!(Doc::from_str("HTTPS://example.org"), Err(CtlError::MalformedDescriptor));
    assert_eq!(Doc::from_str(":payload"), Err(CtlError::MalformedDescriptor));
}

#[test]
fn as_man_and_as_url_pick_their_variant() {
    let man = Doc::Man("cron".to_string());
    let url = Doc::Url("https://example.org".to_string());
    assert_eq!(man.as_man(), Some("cron"));
    assert_eq!(man.as_url(), None);
    assert_eq!(url.as_url(), Some("https://example.org"));
    assert_eq!(url.as_man(), None);
}

#[test]
fn descriptor_read_twice_is_the_same() {
    for text in ["man:cron(8)", "https://example.org", "bad", "a:b:c"] {
        assert_eq!(Doc::from_str(text), Doc::from_str(text));
    }
}

#[test]
fn descriptor_from_chars_agrees_with_from_str() {
    for text in ["man:cron(8)", "http:x", "https: y ", "nope", "ma:n"] {
        let chars: Vec<char> = text.chars().collect();
        assert_eq!(Doc::from_chars(&chars), Doc::from_str(text));
    }
}
