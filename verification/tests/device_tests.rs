use kindle_dashboard::device::{
    disable_frontlight, disable_pillow_overlay, disable_screensaver_module, disable_stock_screensaver,
    reassert_device_state, DeviceCommand,
};

fn run_args(c: &DeviceCommand) -> (String, Vec<String>) {
    match c {
        DeviceCommand::Run { program, args } => (program.clone(), args.clone()),
        DeviceCommand::WriteFile { .. } => panic!("expected a program run"),
    }
}

#[test]
fn stock_screensaver_command() {
    let c = disable_stock_screensaver();
    assert_eq!(c.len(), 1);
    let (p, a) = run_args(&c[0]);
    assert_eq!(p, "lipc-set-prop");
    assert_eq!(a, vec!["com.lab126.powerd", "preventScreenSaver", "1"]);
}

#[test]
fn frontlight_command() {
    let c = disable_frontlight();
    assert_eq!(c.len(), 1);
    match &c[0] {
        DeviceCommand::WriteFile { path, contents } => {
            assert_eq!(path, "/sys/class/backlight/max77696-bl/brightness");
            assert_eq!(contents, "0");
        }
        DeviceCommand::Run { .. } => panic!("expected a file write"),
    }
}

#[test]
fn pillow_commands() {
    let c = disable_pillow_overlay();
    assert_eq!(c.len(), 2);
    assert_eq!(run_args(&c[0]).1, vec!["com.lab126.pillow", "disableEnablePillow", "disable"]);
    assert_eq!(
        run_args(&c[1]).1[2],
        r#"{"pillowId": "default_status_bar", "function": "nativeBridge.hideMe();"}"#
    );
}

#[test]
fn screensaver_module_command() {
    let c = disable_screensaver_module();
    assert_eq!(run_args(&c[0]).1, vec!["com.lab126.blanket", "unload", "-s", "screensaver"]);
}

#[test]
fn all_overrides_in_order() {
    let c = reassert_device_state();
    assert_eq!(c.len(), 5);
    assert_eq!(run_args(&c[0]).1[0], "com.lab126.powerd");
    assert!(matches!(c[1], DeviceCommand::WriteFile { .. }));
    assert_eq!(run_args(&c[2]).1[0], "com.lab126.pillow");
    assert_eq!(run_args(&c[3]).1[0], "com.lab126.pillow");
    assert_eq!(run_args(&c[4]).1[0], "com.lab126.blanket");
}
