use object0::updater::{
    non_empty_setting, split_entries, updater_channel, updater_local_info_endpoint,
};

const DEFAULT_ENDPOINT: &str =
    "https://github.com/sayedhfatimi/object0/releases/latest/download/latest.json";

#[test]
fn a_setting_is_trimmed() {
    assert_eq!(non_empty_setting(Some("  beta \n")), Some("beta".to_string()));
    assert_eq!(non_empty_setting(Some("beta")), Some("beta".to_string()));
}

#[test]
fn a_blank_setting_counts_as_unset() {
    assert_eq!(non_empty_setting(None), None);
    assert_eq!(non_empty_setting(Some("")), None);
    assert_eq!(non_empty_setting(Some(" \t\r\n")), None);
}

#[test]
fn entries_are_split_at_commas_and_line_ends() {
    assert_eq!(
        split_entries("https://a.example/x.json, https://b.example/y.json\nhttps://c.example\r\n"),
        vec![
            "https://a.example/x.json".to_string(),
            "https://b.example/y.json".to_string(),
            "https://c.example".to_string(),
        ]
    );
}

#[test]
fn blank_entries_are_left_out() {
    assert_eq!(split_entries(",, ,\n\r"), Vec::<String>::new());
    assert_eq!(split_entries(""), Vec::<String>::new());
    assert_eq!(split_entries(" , a ,, b"), vec!["a".to_string(), "b".to_string()]);
    assert_eq!(split_entries("one"), vec!["one".to_string()]);
}

#[test]
fn the_first_named_endpoint_is_used() {
    assert_eq!(
        updater_local_info_endpoint(Some(" ,\nhttps://a.example/x.json,https://b.example")),
        "https://a.example/x.json"
    );
}

#[test]
fn the_default_endpoint_stands_where_none_is_named() {
    assert_eq!(updater_local_info_endpoint(None), DEFAULT_ENDPOINT);
    assert_eq!(updater_local_info_endpoint(Some("   ")), DEFAULT_ENDPOINT);
    assert_eq!(updater_local_info_endpoint(Some(" , ,\n")), DEFAULT_ENDPOINT);
}

#[test]
fn the_channel_defaults_to_stable() {
    assert_eq!(updater_channel(None), "stable");
    assert_eq!(updater_channel(Some("  ")), "stable");
    assert_eq!(updater_channel(Some(" nightly ")), "nightly");
}
