//! The stock-Kindle behaviour the dashboard overrides on every start and
//! wake, as commands for the caller to run.

use vstd::prelude::*;

verus! {

/// A command that changes device state: run a program with arguments, or
/// write text to a file.
pub enum DeviceCommand {
    Run { program: String, args: Vec<String> },
    WriteFile { path: String, contents: String },
}

/// A `DeviceCommand` as text.
pub enum DeviceCommandModel {
    Run(Seq<char>, Seq<Seq<char>>),
    WriteFile(Seq<char>, Seq<char>),
}

impl View for DeviceCommand {
    type V = DeviceCommandModel;

    open spec fn view(&self) -> DeviceCommandModel {
        match self {
            DeviceCommand::Run { program, args } => DeviceCommandModel::Run(
                program@,
                args@.map_values(|a: String| a@),
            ),
            DeviceCommand::WriteFile { path, contents } => DeviceCommandModel::WriteFile(path@, contents@),
        }
    }
}

/// The text of a sequence of commands.
pub open spec fn commands_view(v: Seq<DeviceCommand>) -> Seq<DeviceCommandModel> {
    v.map_values(|c: DeviceCommand| c@)
}

/// `lipc-set-prop` with the given arguments.
pub open spec fn lipc_set(args: Seq<Seq<char>>) -> DeviceCommandModel {
    DeviceCommandModel::Run("lipc-set-prop"@, args)
}

/// Keeps powerd's stock screensaver/lock image from drawing over the dashboard.
pub open spec fn stock_screensaver_off() -> Seq<DeviceCommandModel> {
    seq![lipc_set(seq!["com.lab126.powerd"@, "preventScreenSaver"@, "1"@])]
}

/// Turns the frontlight LED fully off through the raw backlight file (the
/// lipc intensity setting only dims it on this hardware).
pub open spec fn frontlight_off() -> Seq<DeviceCommandModel> {
    seq![DeviceCommandModel::WriteFile("/sys/class/backlight/max77696-bl/brightness"@, "0"@)]
}

/// Hides the stock "pillow" status bar overlay.
pub open spec fn pillow_overlay_off() -> Seq<DeviceCommandModel> {
    seq![
        lipc_set(seq!["com.lab126.pillow"@, "disableEnablePillow"@, "disable"@]),
        lipc_set(
            seq![
                "com.lab126.pillow"@,
                "interrogatePillow"@,
                "{\"pillowId\": \"default_status_bar\", \"function\": \"nativeBridge.hideMe();\"}"@,
            ],
        ),
    ]
}

/// Unloads only the "screensaver" module of the `blanket` service.
pub open spec fn screensaver_module_off() -> Seq<DeviceCommandModel> {
    seq![lipc_set(seq!["com.lab126.blanket"@, "unload"@, "-s"@, "screensaver"@])]
}

/// All overrides, in the order they are applied.
pub open spec fn device_overrides() -> Seq<DeviceCommandModel> {
    stock_screensaver_off() + frontlight_off() + pillow_overlay_off() + screensaver_module_off()
}

fn lipc_set_prop(args: Vec<String>) -> (c: DeviceCommand)
    ensures
        c@ == lipc_set(args@.map_values(|a: String| a@)),
{
    DeviceCommand::Run { program: String::from_str("lipc-set-prop"), args }
}

/// Stop the stock screensaver/lock image from taking over the framebuffer.
pub fn disable_stock_screensaver() -> (r: Vec<DeviceCommand>)
    ensures
        commands_view(r@) == stock_screensaver_off(),
{
    let args = vec![
        String::from_str("com.lab126.powerd"),
        String::from_str("preventScreenSaver"),
        String::from_str("1"),
    ];
    assert(args@.map_values(|a: String| a@) =~= seq!["com.lab126.powerd"@, "preventScreenSaver"@, "1"@]);
    let r = vec![lipc_set_prop(args)];
    assert(commands_view(r@) =~= stock_screensaver_off());
    r
}

/// Turn the frontlight LED off.
pub fn disable_frontlight() -> (r: Vec<DeviceCommand>)
    ensures
        commands_view(r@) == frontlight_off(),
{
    let r = vec![
        DeviceCommand::WriteFile {
            path: String::from_str("/sys/class/backlight/max77696-bl/brightness"),
            contents: String::from_str("0"),
        },
    ];
    assert(commands_view(r@) =~= frontlight_off());
    r
}

/// Stop the stock status bar overlay from showing through.
pub fn disable_pillow_overlay() -> (r: Vec<DeviceCommand>)
    ensures
        commands_view(r@) == pillow_overlay_off(),
{
    let first = vec![
        String::from_str("com.lab126.pillow"),
        String::from_str("disableEnablePillow"),
        String::from_str("disable"),
    ];
    assert(first@.map_values(|a: String| a@) =~= seq!["com.lab126.pillow"@, "disableEnablePillow"@, "disable"@]);
    let second = vec![
        String::from_str("com.lab126.pillow"),
        String::from_str("interrogatePillow"),
        String::from_str("{\"pillowId\": \"default_status_bar\", \"function\": \"nativeBridge.hideMe();\"}"),
    ];
    assert(second@.map_values(|a: String| a@) =~= seq![
        "com.lab126.pillow"@,
        "interrogatePillow"@,
        "{\"pillowId\": \"default_status_bar\", \"function\": \"nativeBridge.hideMe();\"}"@,
    ]);
    let r = vec![lipc_set_prop(first), lipc_set_prop(second)];
    assert(commands_view(r@) =~= pillow_overlay_off());
    r
}

/// Stop the other reader's own idle screensaver module from drawing a clock
/// into the shared framebuffer.
pub fn disable_screensaver_module() -> (r: Vec<DeviceCommand>)
    ensures
        commands_view(r@) == screensaver_module_off(),
{
    let args = vec![
        String::from_str("com.lab126.blanket"),
        String::from_str("unload"),
        String::from_str("-s"),
        String::from_str("screensaver"),
    ];
    assert(args@.map_values(|a: String| a@) =~= seq!["com.lab126.blanket"@, "unload"@, "-s"@, "screensaver"@]);
    let r = vec![lipc_set_prop(args)];
    assert(commands_view(r@) =~= screensaver_module_off());
    r
}

fn append_commands(dst: &mut Vec<DeviceCommand>, src: Vec<DeviceCommand>)
    ensures
        commands_view(final(dst)@) == commands_view(old(dst)@) + commands_view(src@),
{
    let mut src = src;
    let ghost before = dst@;
    let ghost added = src@;
    dst.append(&mut src);
    assert(dst@ == before + added);
    assert(commands_view(dst@) =~= commands_view(before) + commands_view(added));
}

/// The overrides to re-apply on every start and every wake: stock
/// screensaver, frontlight, status bar overlay and the screensaver module.
pub fn reassert_device_state() -> (r: Vec<DeviceCommand>)
    ensures
        commands_view(r@) == device_overrides(),
{
    let mut r = disable_stock_screensaver();
    append_commands(&mut r, disable_frontlight());
    append_commands(&mut r, disable_pillow_overlay());
    append_commands(&mut r, disable_screensaver_module());
    assert(commands_view(r@) =~= device_overrides());
    r
}

/// Every override, with its program and full argument list, in the order the
/// overrides are applied: powerd's `preventScreenSaver` set to `1`, `0`
/// written to the backlight brightness file, the pillow's
/// `disableEnablePillow` set to `disable`, the pillow's `interrogatePillow`
/// handed the call that hides the default status bar, and the blanket
/// service's `screensaver` module unloaded.
pub proof fn law_device_override_commands()
    ensures
        device_overrides() == seq![
            DeviceCommandModel::Run(
                "lipc-set-prop"@,
                seq!["com.lab126.powerd"@, "preventScreenSaver"@, "1"@],
            ),
            DeviceCommandModel::WriteFile("/sys/class/backlight/max77696-bl/brightness"@, "0"@),
            DeviceCommandModel::Run(
                "lipc-set-prop"@,
                seq!["com.lab126.pillow"@, "disableEnablePillow"@, "disable"@],
            ),
            DeviceCommandModel::Run(
                "lipc-set-prop"@,
                seq![
                    "com.lab126.pillow"@,
                    "interrogatePillow"@,
                    "{\"pillowId\": \"default_status_bar\", \"function\": \"nativeBridge.hideMe();\"}"@,
                ],
            ),
            DeviceCommandModel::Run(
                "lipc-set-prop"@,
                seq!["com.lab126.blanket"@, "unload"@, "-s"@, "screensaver"@],
            ),
        ],
{
    assert(device_overrides() =~= seq![
        DeviceCommandModel::Run(
            "lipc-set-prop"@,
            seq!["com.lab126.powerd"@, "preventScreenSaver"@, "1"@],
        ),
        DeviceCommandModel::WriteFile("/sys/class/backlight/max77696-bl/brightness"@, "0"@),
        DeviceCommandModel::Run(
            "lipc-set-prop"@,
            seq!["com.lab126.pillow"@, "disableEnablePillow"@, "disable"@],
        ),
        DeviceCommandModel::Run(
            "lipc-set-prop"@,
            seq![
                "com.lab126.pillow"@,
                "interrogatePillow"@,
                "{\"pillowId\": \"default_status_bar\", \"function\": \"nativeBridge.hideMe();\"}"@,
            ],
        ),
        DeviceCommandModel::Run(
            "lipc-set-prop"@,
            seq!["com.lab126.blanket"@, "unload"@, "-s"@, "screensaver"@],
        ),
    ]);
}

/// No two overrides set the same property: the `lipc-set-prop` commands
/// name pairwise different (service, property) pairs, each with a value.
pub proof fn law_device_overrides_set_distinct_properties(i: int, j: int)
    requires
        0 <= i < device_overrides().len(),
        0 <= j < device_overrides().len(),
        i != j,
    ensures
        device_overrides()[i] matches DeviceCommandModel::Run(p, a) ==> p == "lipc-set-prop"@ && a.len() >= 3,
        device_overrides()[i] matches DeviceCommandModel::Run(_, a) ==> (device_overrides()[j] matches DeviceCommandModel::Run(
            _,
            b,
        ) ==> (a[0], a[1]) != (b[0], b[1])),
{
    law_device_override_commands();
    reveal_strlit("com.lab126.powerd");
    reveal_strlit("com.lab126.pillow");
    reveal_strlit("com.lab126.blanket");
    reveal_strlit("disableEnablePillow");
    reveal_strlit("interrogatePillow");
    assert("com.lab126.powerd"@.len() == 17);
    assert("com.lab126.pillow"@.len() == 17);
    assert("com.lab126.blanket"@.len() == 18);
    assert("disableEnablePillow"@.len() == 19);
    assert("interrogatePillow"@.len() == 17);
    assert("com.lab126.powerd"@[12] != "com.lab126.pillow"@[12]);
}

} // verus!
