use sayall::app_launcher::{
    activate_or_launch, is_custom_path_target, plan_activation, preset_app, preset_apps,
    probe_preset_apps, ActivationPlan,
};

#[test]
fn preset_ids_are_unique_and_nonempty() {
    let apps = preset_apps();
    let mut ids: Vec<&str> = apps.iter().map(|app| app.id).collect();
    ids.sort_unstable();
    let count = ids.len();
    ids.dedup();
    assert_eq!(ids.len(), count, "预设应用 id 必须唯一");
    assert!(!ids.is_empty());
    for app in &apps {
        assert!(!app.name.is_empty());
        assert!(!app.exe_names.is_empty());
    }
}

#[test]
fn preset_app_lookup_rejects_unknown() {
    assert!(preset_app("wechat").is_some());
    assert!(preset_app("nonexistent-app").is_none());
}

#[test]
fn custom_path_targets_are_recognized() {
    assert!(is_custom_path_target(r"C:\Apps\Tool.exe"));
    assert!(is_custom_path_target(r"C:\Apps\快捷方式.lnk"));
    assert!(is_custom_path_target("D:/dir/app.exe"));
    assert!(!is_custom_path_target("wechat"), "预设 id 不是路径");
    assert!(
        !is_custom_path_target(r"C:\Apps\readme.txt"),
        "仅支持 exe/lnk"
    );
    assert!(!is_custom_path_target("CAppsapp.exe"), "不含路径分隔符");
}

#[test]
fn activate_or_launch_rejects_unknown_non_path() {
    let result = activate_or_launch("nonexistent-app");
    assert!(result.is_err(), "未知预设 id 应报错");
}

#[test]
fn sayall_preset_is_always_installed() {
    let apps = probe_preset_apps(&[]);
    let sayall = apps
        .iter()
        .find(|app| app.id == "sayall")
        .expect("无线麦自身应在预设表首位");
    assert!(sayall.installed, "无线麦自身恒为已安装");
    assert_eq!(apps[0].id, "sayall", "对齐 Mac：自身排首位");
}

#[test]
fn system_apps_report_installed() {
    let apps = probe_preset_apps(&["notepad.exe".to_owned()]);
    let notepad = apps.iter().find(|app| app.id == "notepad");
    assert!(
        notepad.is_some_and(|app| app.installed),
        "记事本应视为已安装"
    );
    let wechat = apps.iter().find(|app| app.id == "wechat").unwrap();
    assert!(!wechat.installed);
}

#[test]
fn preset_lookup_gives_the_table_entry() {
    let wechat = preset_app("wechat").unwrap();
    assert_eq!(wechat.name, "微信");
    assert_eq!(wechat.exe_names, vec!["WeChat.exe", "Weixin.exe"]);
    assert_eq!(preset_apps().len(), 8);
}

#[test]
fn activation_plans_follow_the_target() {
    match plan_activation("notepad", false) {
        Ok(ActivationPlan::Preset { .. }) => {}
        other => panic!("unexpected plan {:?}", other),
    }
    assert!(plan_activation("nonexistent-app", false).is_err());
    assert!(plan_activation(r"C:\Apps\Tool.exe", false).is_err());
    assert!(plan_activation(r"C:\Apps\Tool.exe", true).is_ok());
}
