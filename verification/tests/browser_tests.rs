use velaris_lead_gen::browser::{
    browser_args, new_profile_dir_name, profile_dir_name_for, should_report_handler_error,
};
use velaris_lead_gen::clock::{new_uuid_text, now_utc};
use velaris_lead_gen::config::DEFAULT_USER_AGENT;

#[test]
fn browser_arguments_in_order() {
    let args = browser_args("/tmp/velaris_browser_1");
    assert_eq!(
        args,
        vec![
            "--headless=new".to_string(),
            "--user-data-dir=/tmp/velaris_browser_1".to_string(),
            format!("--user-agent={}", DEFAULT_USER_AGENT),
            "--disable-blink-features=AutomationControlled".to_string(),
            "--no-sandbox".to_string(),
            "--disable-gpu".to_string(),
            "--disable-dev-shm-usage".to_string(),
            "--no-first-run".to_string(),
        ]
    );
}

#[test]
fn profile_directories_are_unique() {
    assert_eq!(profile_dir_name_for("abc"), "velaris_browser_abc");
    let a = new_profile_dir_name();
    let b = new_profile_dir_name();
    assert!(a.starts_with("velaris_browser_"));
    assert_eq!(a.len(), "velaris_browser_".len() + 36);
    assert_ne!(a, b);
}

#[test]
fn decoding_errors_of_the_browser_are_ignored() {
    assert!(!should_report_handler_error("Serde(Error(\"unknown variant\"))"));
    assert!(!should_report_handler_error("data did not match any variant"));
    assert!(should_report_handler_error("Ws(ConnectionClosed)"));
}

#[test]
fn uuid_text_has_the_v4_shape() {
    let id = new_uuid_text();
    let c: Vec<char> = id.chars().collect();
    assert_eq!(c.len(), 36);
    for (i, ch) in c.iter().enumerate() {
        if [8, 13, 18, 23].contains(&i) {
            assert_eq!(*ch, '-');
        } else {
            assert!(ch.is_ascii_hexdigit() && !ch.is_ascii_uppercase());
        }
    }
    assert_eq!(c[14], '4');
    assert!(['8', '9', 'a', 'b'].contains(&c[19]));
}

#[test]
fn clock_reads_after_the_epoch() {
    let t = now_utc();
    assert!(t.secs > 1_600_000_000);
    assert!(t.nanos < 1_000_000_000);
    let u = now_utc();
    assert!((u.secs, u.nanos) >= (t.secs, t.nanos));
}
