use kulua::apps::{is_valid_package_name, parse_apps_output, AppCache, AppInfo};

#[test]
fn parse_system_and_regular_apps() {
    let output = "\
[server] INFO: Device: [Xiaomi] Redmi (Android 13)
[server] INFO: Processing Android apps... (this may take some time)
[server] INFO: List of apps:
 * Settings                             com.android.settings
 - Google Chrome                        com.android.chrome
";
    let apps = parse_apps_output(output);
    assert_eq!(apps.len(), 2);
    assert_eq!(apps[0].package_name, "com.android.settings");
    assert_eq!(apps[0].label, "Settings");
    assert!(apps[0].system);
    assert_eq!(apps[1].package_name, "com.android.chrome");
    assert_eq!(apps[1].label, "Google Chrome");
    assert!(!apps[1].system);
}

#[test]
fn parse_chinese_labels() {
    let output = "\
List of apps:
 * 设置                                 com.android.settings
 - 微信                                 com.tencent.mm
";
    let apps = parse_apps_output(output);
    assert_eq!(apps.len(), 2);
    assert_eq!(apps[0].label, "设置");
    assert_eq!(apps[0].package_name, "com.android.settings");
    assert_eq!(apps[1].label, "微信");
    assert_eq!(apps[1].package_name, "com.tencent.mm");
}

#[test]
fn parse_long_name_with_continuation_line() {
    let output = "\
List of apps:
 * ThisIsAReallyLongApplicationNameThatExceedsThirtyCharacters
    com.example.longname
 - Short                              com.example.short
";
    let apps = parse_apps_output(output);
    assert_eq!(apps.len(), 2);
    assert_eq!(
        apps[0].label,
        "ThisIsAReallyLongApplicationNameThatExceedsThirtyCharacters"
    );
    assert_eq!(apps[0].package_name, "com.example.longname");
    assert_eq!(apps[1].package_name, "com.example.short");
}

#[test]
fn parse_crlf_output() {
    let output =
        "List of apps:\r\n * Settings                             com.android.settings\r\n";
    let apps = parse_apps_output(output);
    assert_eq!(apps.len(), 1);
    assert_eq!(apps[0].package_name, "com.android.settings");
}

#[test]
fn parse_empty_or_missing_header() {
    assert!(parse_apps_output("").is_empty());
    assert!(parse_apps_output("[server] INFO: Device: [X] Y (Android 13)").is_empty());
}

#[test]
fn parse_drops_app_without_package() {
    let output = "List of apps:\n * Settings                             \n";
    assert!(parse_apps_output(output).is_empty());
}

#[test]
fn package_name_validation() {
    assert!(is_valid_package_name("com.android.settings"));
    assert!(is_valid_package_name("org.videolan.vlc"));
    assert!(is_valid_package_name("a"));
    assert!(!is_valid_package_name(""));
    assert!(!is_valid_package_name("com..settings"));
    assert!(!is_valid_package_name("1com.android"));
    assert!(!is_valid_package_name("com.android settings"));
    assert!(!is_valid_package_name("com.android/evil"));
    let long = format!("{}.x", "a".repeat(300));
    assert!(!is_valid_package_name(&long));
}

#[test]
fn cache_ttl_and_invalidation() {
    let uuid = uuid::Uuid::new_v4().as_u128();
    let mut cache = AppCache::new();
    let apps = vec![AppInfo {
        package_name: "com.android.settings".into(),
        label: "Settings".into(),
        system: true,
    }];
    cache.put(uuid, apps.clone(), 0);
    assert_eq!(cache.get(uuid, 0), Some(apps.as_slice()));

    cache.invalidate(uuid);
    assert_eq!(cache.get(uuid, 0), None, "gone after invalidate");

    cache.put(uuid, apps.clone(), 0);
    cache.clear();
    assert_eq!(cache.get(uuid, 0), None, "gone after clear");
}

fn app(package_name: &str, label: &str, system: bool) -> AppInfo {
    AppInfo {
        package_name: package_name.into(),
        label: label.into(),
        system,
    }
}

#[test]
fn long_name_with_a_blank_in_the_column() {
    let output = "List of apps:\n * Abcdefghijklmnopqrstuvwxyz1234 Foo\n    com.example.x\n";
    assert_eq!(
        parse_apps_output(output),
        vec![app("com.example.x", "Abcdefghijklmnopqrstuvwxyz1234 Foo", true)]
    );
}

#[test]
fn listing_is_read_back() {
    let apps = vec![
        app("com.example.short", "Short name", false),
        app("com.example.none", "", true),
        app("com.example.exact", "123456789012345678901234567890", false),
        app("com.example.long", "1234567890123456789012345678901", true),
        app("com.example.blank", "123456789012345678901234567890 and more", false),
        app("com.example.last", "设置", true),
    ];
    let mut output = String::from("[server] INFO: Device\n[server] INFO: List of apps:\n");
    for a in &apps {
        output.push_str(if a.system { " * " } else { " - " });
        output.push_str(&a.label);
        let n = a.label.chars().count();
        if n <= 30 {
            output.push_str(&" ".repeat(30 - n));
            output.push(' ');
        } else {
            output.push('\n');
            output.push_str(&" ".repeat(35));
        }
        output.push_str(&a.package_name);
        output.push('\n');
    }
    assert_eq!(parse_apps_output(&output), apps);
    // What a program complains of afterwards is no package.
    output.push_str("WARNING: linker: something is unused\n");
    assert_eq!(parse_apps_output(&output), apps);
}
