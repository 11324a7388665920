use systemctl::directives::read_directive;
use systemctl::directives::read_directives;
use systemctl::Unit;

fn chars(s: &str) -> Vec<char> {
    s.chars().collect()
}

fn own(items: &[&str]) -> Option<Vec<String>> {
    Some(items.iter().map(|s| s.to_string()).collect())
}

#[test]
fn list_directives_add_in_file_order() {
    let mut u = Unit::default();
    read_directives(
        &mut u,
        "Wants=a.service\nAfter=b.target\nWants=c.service\nWantedBy=multi-user.target\nAlso=d.socket\nBefore=e.target\nAfter=f.target\nAfter=b.target\n",
    );
    assert_eq!(u.wants, own(&["a.service", "c.service"]));
    assert_eq!(u.after, own(&["b.target", "f.target", "b.target"]));
    assert_eq!(u.wanted_by, own(&["multi-user.target"]));
    assert_eq!(u.also, own(&["d.socket"]));
    assert_eq!(u.before, own(&["e.target"]));
}

#[test]
fn scalar_directives_take_the_last_value() {
    let mut u = Unit::default();
    read_directives(&mut u, "ExecStart=/bin/a\nExecReload=/bin/kill -HUP $MAINPID\nRestart=always\nKillMode=process\nExecStart=/bin/b -x\n");
    assert_eq!(u.exec_start.as_deref(), Some("/bin/b -x"));
    assert_eq!(u.exec_reload.as_deref(), Some("/bin/kill -HUP $MAINPID"));
    assert_eq!(u.restart_policy.as_deref(), Some("always"));
    assert_eq!(u.kill_mode.as_deref(), Some("process"));
}

#[test]
fn lines_without_exactly_one_equals_sign_are_skipped() {
    let mut u = Unit::default();
    read_directives(
        &mut u,
        "# /lib/systemd/system/x.service\n[Unit]\n\nWants\nExecStart=/bin/a --mode=fast\nEnvironment=A=B\nAfter==x\n=\n",
    );
    assert_eq!(u, Unit::default());
}

#[test]
fn unknown_keys_are_ignored_and_keys_are_exact() {
    let mut u = Unit::default();
    for line in ["Description=Thing", "Type=simple", "wants=a", "Wants =a", " Wants=a", "WANTS=a", "Requires=b", "=a", "ExecStop=/bin/x"] {
        read_directive(&mut u, &chars(line));
    }
    assert_eq!(u, Unit::default());
}

#[test]
fn values_are_taken_verbatim() {
    let mut u = Unit::default();
    read_directive(&mut u, &chars("Wants= a b "));
    read_directive(&mut u, &chars("Wants="));
    read_directive(&mut u, &chars("ExecStart="));
    assert_eq!(u.wants, own(&[" a b ", ""]));
    assert_eq!(u.exec_start.as_deref(), Some(""));
}

#[test]
fn directives_leave_the_rest_of_the_record_alone() {
    let mut u = Unit::default();
    u.name = "x".to_string();
    u.pid = Some(4);
    u.script = "/a".to_string();
    let before = u.clone();
    read_directives(&mut u, "After=a.target\r\nKillMode=mixed\r\n");
    assert_eq!(u.after, own(&["a.target"]));
    assert_eq!(u.kill_mode.as_deref(), Some("mixed"));
    u.after = None;
    u.kill_mode = None;
    assert_eq!(u, before);
}

#[test]
fn empty_dump_changes_nothing() {
    let mut u = Unit::default();
    read_directives(&mut u, "");
    assert_eq!(u, Unit::default());
}
