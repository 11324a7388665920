use systemctl::AutoStartStatus;
use systemctl::CtlError;
use systemctl::Doc;
use systemctl::RunResult;
use systemctl::State;
use systemctl::SystemCtl;
use systemctl::Type;
use systemctl::Unit;
use systemctl::UnitList;

fn ctl() -> SystemCtl {
    SystemCtl::default()
}

fn run(code: Option<i32>, out: &str) -> RunResult {
    RunResult { stdout: out.to_string(), stderr: String::new(), exit_code: code }
}

const LISTING: &str = "UNIT FILE                                  STATE           VENDOR PRESET\n\
cron.service                               enabled         enabled\n\
ssh.service                                enabled         enabled\n\
getty@.service                             enabled         enabled\n\
tmp.mount                                  disabled        -\n\
systemd-journald.socket                    static          -\n\
apt-daily.timer                            enabled         enabled\n\
rescue.target                              static          disabled\n\
\n\
7 unit files listed.\n";

/// What `list-unit-files <unit>` answers on a machine that has ssh, cron and ntp.
fn listing_for(unit: &str) -> RunResult {
    match unit {
        "sshd" => run(Some(0), "UNIT FILE    STATE VENDOR PRESET\nsshd.service alias -\n\n1 unit files listed.\n"),
        "ntpd" => run(Some(0), "UNIT FILE    STATE   VENDOR PRESET\nntpd.service enabled enabled\n\n1 unit files listed.\n"),
        "cron.service" => run(Some(0), "UNIT FILE    STATE   VENDOR PRESET\ncron.service enabled enabled\n\n1 unit files listed.\n"),
        _ => run(Some(0), "UNIT FILE STATE VENDOR PRESET\n\n0 unit files listed.\n"),
    }
}

/// What `is-active <unit>` answers there.
fn activity_of(unit: &str) -> RunResult {
    match unit {
        "sshd" => run(Some(0), "active\n"),
        "ntpd" => run(Some(3), "inactive\n"),
        _ => run(Some(3), "inactive\n"),
    }
}

fn status_of(unit_file: &str, description: &str) -> RunResult {
    let text = format!(
        "\u{25cf} {unit_file} - {description}\n     Loaded: loaded (/lib/systemd/system/{unit_file}; enabled; vendor preset: enabled)\n     Active: active (running) since Mon 2024-01-01 10:00:00 UTC; 1h ago\n       Docs: man:{name}(8)\n             https://example.org/{name}\n   Main PID: 787 ({name})\n      Tasks: 1 (limit: 4915)\n     Memory: 1.2M\n        CPU: 25ms\n     CGroup: /system.slice/{unit_file}\n             \u{2514}\u{2500}787 /usr/sbin/{name} -f\n",
        unit_file = unit_file,
        description = description,
        name = unit_file.split('.').next().unwrap(),
    );
    run(Some(0), &text)
}

fn cat_of(unit_file: &str) -> RunResult {
    let text = format!(
        "# /lib/systemd/system/{unit_file}\n[Unit]\nDescription=Thing\nAfter=remote-fs.target\nAfter=nss-user-lookup.target\n\n[Service]\nExecStart=/usr/sbin/thing -f\nRestart=on-failure\nKillMode=process\n\n[Install]\nWantedBy=multi-user.target\n",
        unit_file = unit_file,
    );
    run(Some(0), &text)
}

#[test]
fn test_status_success() {
    let ctl = ctl();
    let answer = status_of("cron.service", "Regular background program processing daemon");
    let status = ctl.systemctl_capture(&answer);
    println!("cron status: {:#?}", status);
    assert!(status.is_ok());
}

#[test]
fn test_status_failure() {
    let ctl = ctl();
    let answer = RunResult {
        stdout: String::new(),
        stderr: "Unit not-existing.service could not be found.\n".to_string(),
        exit_code: Some(4),
    };
    let status = ctl.systemctl_capture(&answer);
    println!("not-existing status: {:#?}", status);
    assert!(status.is_err());
    let result = status.map(|_| ());
    let expected = Err(CtlError::PermissionOrAmbiguous);
    assert_eq!(expected, result);
}

#[test]
fn test_is_active() {
    let units = ["sshd", "dropbear", "ntpd"];
    let ctl = ctl();
    for u in units {
        let active = ctl.is_active(&activity_of(u));
        println!("{} is-active: {:#?}", u, active);
        assert!(active.is_ok());
    }
}

#[test]
fn test_service_exists() {
    let units = ["sshd", "dropbear", "ntpd", "example", "non-existing", "dummy"];
    let ctl = ctl();
    for u in units {
        let ex = ctl.unit_exists(&listing_for(u));
        println!("{} exists: {:#?}", u, ex);
        assert!(ex.is_ok());
    }
}

#[test]
fn test_disabled_services() {
    let answer = run(
        Some(0),
        "UNIT FILE       STATE    VENDOR PRESET\nnftables.service disabled enabled\nrsync.service    disabled enabled\n\n2 unit files listed.\n",
    );
    let services = ctl().list_disabled_services(&answer).unwrap();
    println!("disabled services: {:#?}", services);
    assert_eq!(services, vec!["nftables.service".to_string(), "rsync.service".to_string()]);
}

#[test]
fn test_enabled_services() {
    let answer = run(
        Some(0),
        "UNIT FILE    STATE   VENDOR PRESET\ncron.service enabled enabled\nssh.service  enabled enabled\n\n2 unit files listed.\n",
    );
    let services = ctl().list_enabled_services(&answer).unwrap();
    println!("enabled services: {:#?}", services);
    assert_eq!(services, vec!["cron.service".to_string(), "ssh.service".to_string()]);
}

#[test]
fn test_non_existing_unit() {
    let ctl = ctl();
    let listing = listing_for("non-existing");
    let status = RunResult {
        stdout: String::new(),
        stderr: "Unit non-existing.service could not be found.\n".to_string(),
        exit_code: Some(4),
    };
    let cat = run(Some(1), "");
    let active = activity_of("non-existing");
    let unit = ctl.create_unit(Some(&listing), &status, Some(&cat), &active);
    assert!(unit.is_err());
    let result = unit.map(|_| ());
    let expected = Err(CtlError::NotFound);
    assert_eq!(expected, result);
}

#[test]
fn test_systemctl_exitcode_success() {
    let ctl = ctl();
    let u = ctl.create_unit(
        Some(&listing_for("cron.service")),
        &status_of("cron.service", "Regular background program processing daemon"),
        Some(&cat_of("cron.service")),
        &run(Some(0), "active\n"),
    );
    println!("{:#?}", u);
    assert!(u.is_ok());
}

#[test]
fn test_systemctl_exitcode_not_found() {
    let ctl = ctl();
    let u = ctl.create_unit(
        Some(&listing_for("cran.service")),
        &run(Some(4), ""),
        Some(&run(Some(1), "")),
        &run(Some(3), "inactive\n"),
    );
    println!("{:#?}", u);
    assert!(u.is_err());
    let result = u.map(|_| ());
    let expected = Err(CtlError::NotFound);
    assert_eq!(expected, result);
}

#[test]
fn test_service_unit_construction() {
    let ctl = ctl();
    let units = ctl.list_units(&run(Some(0), LISTING)).unwrap(); // all units
    let mut built = 0;
    for unit in units {
        let unit = unit.as_str();
        if unit.contains('@') {
            // not testing this one
            // would require @x service # identification / enumeration
            continue;
        }
        let c0 = unit.chars().next().unwrap();
        if c0.is_alphanumeric() {
            // valid unit name --> run test
            let listing = run(Some(0), &format!("{} enabled enabled\n", unit));
            let u = ctl
                .create_unit(
                    Some(&listing),
                    &status_of(unit, "A unit"),
                    Some(&cat_of(unit)),
                    &run(Some(0), "active\n"),
                )
                .unwrap();
            println!("####################################");
            println!("Unit: {:#?}", u);
            println!("active: {}", u.active);
            println!("preset: {}", u.preset);
            println!("auto_start (enabled): {:#?}", u.auto_start);
            println!("config script : {}", u.script);
            println!("pid: {:?}", u.pid);
            println!("Running task(s): {:?}", u.tasks);
            println!("Memory consumption: {:?}", u.memory);
            println!("####################################");
            built += 1;
        }
    }
    assert_eq!(built, 6);
}

#[test]
fn test_list_units_full() {
    let units = ctl().list_units_full(&run(Some(0), LISTING)).unwrap(); // all units
    assert_eq!(units.len(), 7);
    for unit in units {
        println!("####################################");
        println!("Unit: {}", unit.unit_file);
        println!("State: {}", unit.state);
        println!("Vendor Preset: {:?}", unit.vendor_preset);
        println!("####################################");
    }
}

#[test]
fn listing_rows_keep_order_and_columns() {
    let units = ctl().list_units_full(&run(Some(0), LISTING)).unwrap();
    assert_eq!(
        units[0],
        UnitList {
            unit_file: "cron.service".to_string(),
            state: "enabled".to_string(),
            vendor_preset: Some(true),
        }
    );
    assert_eq!(units[3].unit_file, "tmp.mount");
    assert_eq!(units[3].state, "disabled");
    assert_eq!(units[3].vendor_preset, None);
    assert_eq!(units[6].unit_file, "rescue.target");
    assert_eq!(units[6].vendor_preset, Some(false));
}

#[test]
fn exists_is_whether_the_listing_has_a_row() {
    let ctl = ctl();
    assert_eq!(ctl.unit_exists(&listing_for("sshd")), Ok(true));
    assert_eq!(ctl.unit_exists(&listing_for("dummy")), Ok(false));
    assert_eq!(ctl.unit_exists(&run(Some(4), "")), Err(CtlError::PermissionOrAmbiguous));
    assert_eq!(ctl.unit_exists(&run(None, "")), Err(CtlError::KilledBySignal));
    assert_eq!(ctl.unit_exists(&run(Some(0), "broken.service enabled\n")), Err(CtlError::MalformedDescriptor));
}

#[test]
fn is_active_reads_the_word() {
    let ctl = ctl();
    assert_eq!(ctl.is_active(&run(Some(0), "active\n")), Ok(true));
    assert_eq!(ctl.is_active(&run(Some(0), "active")), Ok(true));
    assert_eq!(ctl.is_active(&run(Some(0), "active \r\n\n")), Ok(true));
    assert_eq!(ctl.is_active(&run(Some(3), "inactive\n")), Ok(false));
    assert_eq!(ctl.is_active(&run(Some(3), " active\n")), Ok(false));
    assert_eq!(ctl.is_active(&run(Some(0), "")), Ok(false));
    assert_eq!(ctl.is_active(&run(Some(4), "active\n")), Err(CtlError::PermissionOrAmbiguous));
    assert_eq!(ctl.is_active(&run(Some(2), "active\n")), Err(CtlError::UnknownExitCode(2)));
    assert_eq!(ctl.is_active(&run(None, "active\n")), Err(CtlError::KilledBySignal));
}

#[test]
fn capture_hands_the_result_on() {
    let ctl = ctl();
    for code in [0, 1, 3] {
        let answer = run(Some(code), "text");
        assert_eq!(ctl.systemctl_capture(&answer), Ok(&answer));
    }
    assert_eq!(ctl.systemctl_capture(&run(Some(-1), "")), Err(CtlError::UnknownExitCode(-1)));
    assert_eq!(ctl.systemctl_capture(&run(Some(255), "")), Err(CtlError::UnknownExitCode(255)));
}

#[test]
fn path_defaults_and_can_be_set() {
    assert_eq!(ctl().get_path(), "/usr/bin/systemctl");
    let custom = SystemCtl::builder().path("/bin/systemctl".to_string()).build();
    assert_eq!(custom.get_path(), "/bin/systemctl");
}

#[test]
fn arguments_put_the_global_ones_first() {
    let user = SystemCtl::builder()
        .additional_args(vec!["--user".to_string(), "--no-pager".to_string()])
        .build();
    let call = vec!["status".to_string(), "cron".to_string()];
    assert_eq!(user.arguments(&call), vec!["--user", "--no-pager", "status", "cron"]);
    assert_eq!(ctl().arguments(&call), vec!["status", "cron"]);
    assert_eq!(user.get_path(), "/usr/bin/systemctl");
}

#[test]
fn listing_arguments_follow_the_filters() {
    assert_eq!(SystemCtl::list_units_args(None, None, None), vec!["list-unit-files"]);
    assert_eq!(
        SystemCtl::list_units_args(Some("service"), Some("disabled"), None),
        vec!["list-unit-files", "--type", "service", "--state", "disabled"]
    );
    assert_eq!(
        SystemCtl::list_units_args(None, Some("enabled"), Some("cron*")),
        vec!["list-unit-files", "--state", "enabled", "cron*"]
    );
    assert_eq!(
        SystemCtl::list_units_args(Some("timer"), None, Some("apt")),
        vec!["list-unit-files", "--type", "timer", "apt"]
    );
}

fn expected_cron() -> Unit {
    Unit {
        name: "cron".to_string(),
        utype: Type::Service,
        description: Some("Regular background program processing daemon".to_string()),
        state: State::Loaded,
        auto_start: AutoStartStatus::Enabled,
        active: true,
        preset: true,
        script: "/lib/systemd/system/cron.service".to_string(),
        restart_policy: Some("on-failure".to_string()),
        kill_mode: Some("process".to_string()),
        process: Some("cron".to_string()),
        pid: Some(787),
        tasks: None,
        cpu: Some("25ms".to_string()),
        memory: Some("1.2M".to_string()),
        mounted: None,
        mountpoint: None,
        docs: Some(vec![
            Doc::Man("cron".to_string()),
            Doc::Url("https://example.org/cron".to_string()),
        ]),
        wants: None,
        wanted_by: Some(vec!["multi-user.target".to_string()]),
        also: None,
        before: None,
        after: Some(vec!["remote-fs.target".to_string(), "nss-user-lookup.target".to_string()]),
        exec_start: Some("/usr/sbin/thing -f".to_string()),
        exec_reload: None,
        transient: false,
    }
}

#[test]
fn create_unit_fills_the_whole_record() {
    let ctl = ctl();
    let u = ctl
        .create_unit(
            Some(&listing_for("cron.service")),
            &status_of("cron.service", "Regular   background program\tprocessing daemon"),
            Some(&cat_of("cron.service")),
            &run(Some(0), "active\n"),
        )
        .unwrap();
    assert_eq!(u, expected_cron());
}

#[test]
fn create_unit_twice_gives_the_same_record() {
    let ctl = ctl();
    let listing = listing_for("cron.service");
    let status = status_of("cron.service", "Regular background program processing daemon");
    let cat = cat_of("cron.service");
    let active = run(Some(0), "active\n");
    let first = ctl.create_unit(Some(&listing), &status, Some(&cat), &active);
    let second = ctl.create_unit(Some(&listing), &status, Some(&cat), &active);
    assert_eq!(first, second);
    assert_eq!(first, Ok(expected_cron()));
}

#[test]
fn create_unit_failures() {
    let ctl = ctl();
    let listing = listing_for("cron.service");
    let status = status_of("cron.service", "Cron");
    let cat = cat_of("cron.service");
    let active = run(Some(0), "active\n");
    // the status query decides
    assert_eq!(
        ctl.create_unit(Some(&listing), &run(Some(4), ""), Some(&cat), &active),
        Err(CtlError::PermissionOrAmbiguous)
    );
    assert_eq!(
        ctl.create_unit(Some(&listing), &run(None, ""), Some(&cat), &active),
        Err(CtlError::KilledBySignal)
    );
    assert_eq!(
        ctl.create_unit(Some(&listing), &run(Some(7), ""), Some(&cat), &active),
        Err(CtlError::UnknownExitCode(7))
    );
    // a suffix that names no type
    assert_eq!(
        ctl.create_unit(Some(&listing), &run(Some(0), "\u{25cf} foo.widget - A widget\n"), Some(&cat), &active),
        Err(CtlError::DecodeFailure)
    );
    assert_eq!(
        ctl.create_unit(Some(&listing), &run(Some(0), ""), Some(&cat), &active),
        Err(CtlError::DecodeFailure)
    );
    // the activity probe
    assert_eq!(
        ctl.create_unit(Some(&listing), &status, Some(&cat), &run(Some(4), "")),
        Err(CtlError::PermissionOrAmbiguous)
    );
    // an empty listing comes first
    assert_eq!(
        ctl.create_unit(Some(&listing_for("dummy")), &status, Some(&cat), &active),
        Err(CtlError::NotFound)
    );
}

#[test]
fn create_unit_goes_on_without_listing_or_dump() {
    let ctl = ctl();
    let status = status_of("cron.service", "Cron");
    let active = run(Some(3), "inactive\n");
    // a listing that failed says nothing about the unit
    let u = ctl.create_unit(Some(&run(Some(4), "")), &status, None, &active).unwrap();
    assert_eq!(u.name, "cron");
    assert!(!u.active);
    assert_eq!(u.after, None);
    assert_eq!(u.exec_start, None);
    let v = ctl.create_unit(None, &status, Some(&run(Some(4), "After=x.target\n")), &active).unwrap();
    assert_eq!(v, u);
    let w = ctl.create_unit(None, &status, Some(&run(Some(1), "After=x.target\n")), &active).unwrap();
    assert_eq!(w.after, Some(vec!["x.target".to_string()]));
}
