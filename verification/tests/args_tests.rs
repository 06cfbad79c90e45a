use pocketjs_kobo::args::{ArgsError, Command, Environment, profile_interval};
use pocketjs_kobo::args::Args;
use pocketjs_kobo::geometry::Rotation;
use pocketjs_kobo::host::SimHzError;
use pocketjs_kobo::power::PowerPress;
use pocketjs_kobo::refresh::Waveform;

fn empty_env() -> Environment {
    Environment {
        js: None,
        pak: None,
        framebuffer: None,
        fbink: None,
        present_hz: None,
        motion_waveform: None,
        ghost_budget: None,
        rotation: None,
        sim_hz: None,
        power_helper: None,
    }
}

fn words(ws: &[&str]) -> Vec<String> {
    ws.iter().map(|w| w.to_string()).collect()
}

fn run(env: &Environment, ws: &[&str]) -> Args {
    match Args::parse(env, &words(ws)) {
        Ok(Command::Run(args)) => args,
        Ok(Command::Help) => panic!("help"),
        Err(e) => panic!("{}", e.message()),
    }
}

fn refusal(env: &Environment, ws: &[&str]) -> ArgsError {
    match Args::parse(env, &words(ws)) {
        Err(e) => e,
        Ok(_) => panic!("accepted"),
    }
}

#[test]
fn without_words_or_variables_the_documented_defaults_apply() {
    let args = run(&empty_env(), &[]);
    assert_eq!(args.js, "app.js");
    assert_eq!(args.pak, "app.pak");
    assert_eq!(args.framebuffer, "/dev/fb0");
    assert_eq!(args.fbink, "/mnt/onboard/.apps/pocketjs/bin/fbink");
    assert_eq!(args.present_hz, 30);
    assert_eq!(args.motion_waveform, Waveform::Du);
    assert_eq!(args.ghost_budget, 80);
    assert_eq!(args.rotation, None);
    assert_eq!(args.sim_hz, 30);
    assert_eq!(
        args.power_helper.as_deref(),
        Some("/mnt/onboard/.apps/pocketjs/power.sh")
    );
    assert!(!args.probe && !args.probe_touch && !args.probe_epdc && !args.allow_active_gui);
    assert_eq!(args.power_press, PowerPress::Ignore);
    assert_eq!(args.doze_max_secs, 600);
}

#[test]
fn variables_set_the_defaults() {
    let mut env = empty_env();
    env.js = Some("bundle.js".into());
    env.present_hz = Some("15".into());
    env.motion_waveform = Some("a2".into());
    env.ghost_budget = Some("+12".into());
    env.rotation = Some("270".into());
    env.sim_hz = Some("20".into());
    env.power_helper = Some("/bin/sleep.sh".into());
    let args = run(&env, &[]);
    assert_eq!(args.js, "bundle.js");
    assert_eq!(args.present_hz, 15);
    assert_eq!(args.motion_waveform, Waveform::A2);
    assert_eq!(args.ghost_budget, 12);
    assert_eq!(args.rotation, Some(Rotation::Deg270));
    assert_eq!(args.sim_hz, 20);
    assert_eq!(args.power_helper.as_deref(), Some("/bin/sleep.sh"));
}

#[test]
fn words_override_variables_and_the_last_word_wins() {
    let mut env = empty_env();
    env.pak = Some("env.pak".into());
    let args = run(
        &env,
        &[
            "--pak", "a.pak", "--present-hz", "5", "--pak", "b.pak", "--rotation", "90",
            "--sim-hz", "60", "--ghost-budget", "3", "--motion-waveform", "Du", "--fbink",
            "/x/fbink", "--framebuffer", "/dev/fb1", "--js", "main.js",
        ],
    );
    assert_eq!(args.pak, "b.pak");
    assert_eq!(args.present_hz, 5);
    assert_eq!(args.rotation, Some(Rotation::Deg90));
    assert_eq!(args.sim_hz, 60);
    assert_eq!(args.ghost_budget, 3);
    assert_eq!(args.motion_waveform, Waveform::Du);
    assert_eq!(args.fbink, "/x/fbink");
    assert_eq!(args.framebuffer, "/dev/fb1");
    assert_eq!(args.js, "main.js");
}

#[test]
fn switches_take_no_value() {
    let args = run(
        &empty_env(),
        &["--probe", "--probe-touch", "--probe-epdc", "--allow-active-gui", "--no-power-key"],
    );
    assert!(args.probe && args.probe_touch && args.probe_epdc && args.allow_active_gui);
    assert_eq!(args.power_helper, None);
    let args = run(&empty_env(), &["--no-power-key", "--power-helper", "/p"]);
    assert_eq!(args.power_helper.as_deref(), Some("/p"));
}

#[test]
fn help_stops_reading_words() {
    assert!(matches!(
        Args::parse(&empty_env(), &words(&["--probe", "-h", "--bogus"])),
        Ok(Command::Help)
    ));
    assert!(matches!(
        Args::parse(&empty_env(), &words(&["--help", "--sim-hz"])),
        Ok(Command::Help)
    ));
    let e = refusal(&empty_env(), &["--bogus", "--help"]);
    assert_eq!(e, ArgsError::Unknown("--bogus".into()));
}

#[test]
fn refused_words_name_what_was_wrong() {
    let e = refusal(&empty_env(), &["--js"]);
    assert_eq!(e, ArgsError::MissingValue("--js".into()));
    assert_eq!(e.message(), "--js requires a value");
    let e = refusal(&empty_env(), &["--present-hz", "fast"]);
    assert_eq!(e.message(), "--present-hz must be an integer");
    let e = refusal(&empty_env(), &["--ghost-budget", "-1"]);
    assert_eq!(e.message(), "--ghost-budget must be an integer");
    let e = refusal(&empty_env(), &["--sim-hz", "7"]);
    assert_eq!(e, ArgsError::SimHz(SimHzError::DoesNotDivide(7)));
    assert!(e.message().contains("must divide 60 exactly"));
    let e = refusal(&empty_env(), &["--sim-hz", "x"]);
    assert_eq!(e.message(), "--sim-hz must be an integer");
    let e = refusal(&empty_env(), &["--motion-waveform", "GC16"]);
    assert!(matches!(e, ArgsError::Waveform(_)));
    assert!(e.message().contains("\"GC16\""));
    let e = refusal(&empty_env(), &["--rotation", "45"]);
    assert!(matches!(e, ArgsError::Rotation(_)));
    assert!(e.message().contains("\"45\""));
    let e = refusal(&empty_env(), &["js"]);
    assert_eq!(e.message(), "unknown argument \"js\"; use --help");
}

#[test]
fn a_bad_variable_is_refused_before_any_word_is_read() {
    let mut env = empty_env();
    env.present_hz = Some("thirty".into());
    let e = refusal(&env, &["--help"]);
    assert_eq!(
        e.message(),
        "POCKETJS_PRESENT_HZ=\"thirty\": invalid digit found in string"
    );
    let mut env = empty_env();
    env.ghost_budget = Some("".into());
    let e = refusal(&env, &[]);
    assert_eq!(
        e.message(),
        "POCKETJS_GHOST_BUDGET=\"\": cannot parse integer from empty string"
    );
    let mut env = empty_env();
    env.motion_waveform = Some("gc16".into());
    env.present_hz = Some("1x".into());
    assert!(matches!(refusal(&env, &[]), ArgsError::Variable(_)));
    let mut env = empty_env();
    env.sim_hz = Some("45".into());
    assert_eq!(
        refusal(&env, &["--sim-hz", "30"]),
        ArgsError::SimHz(SimHzError::DoesNotDivide(45))
    );
}

#[test]
fn the_panel_guard_needs_a_paused_gui_or_an_override() {
    let args = run(&empty_env(), &[]);
    assert!(!args.may_write_panel(None));
    assert!(!args.may_write_panel(Some("0")));
    assert!(args.may_write_panel(Some("1")));
    assert!(args.may_write_panel(Some("true")));
    assert!(args.may_write_panel(Some("yes")));
    assert!(!args.may_write_panel(Some("YES")));
    let args = run(&empty_env(), &["--allow-active-gui"]);
    assert!(args.may_write_panel(None));
}

#[test]
fn the_profile_interval_is_off_unless_positive() {
    assert_eq!(profile_interval(None), Ok(None));
    assert_eq!(profile_interval(Some("0")), Ok(None));
    assert_eq!(profile_interval(Some("5")), Ok(Some(5)));
    assert_eq!(profile_interval(Some("5000000000")), Ok(Some(5_000_000_000)));
    let e = profile_interval(Some("-1")).unwrap_err();
    assert_eq!(
        e.message(),
        "POCKETJS_PROFILE_SECS=\"-1\": invalid digit found in string"
    );
}

#[test]
fn rotation_words_are_exact() {
    assert_eq!(Rotation::parse("auto"), Ok(None));
    assert_eq!(Rotation::parse("0"), Ok(Some(Rotation::Deg0)));
    assert_eq!(Rotation::parse("180"), Ok(Some(Rotation::Deg180)));
    assert!(Rotation::parse("AUTO").is_err());
    assert!(Rotation::parse("360").is_err());
}

#[test]
fn the_power_press_mode_and_doze_limit_are_options() {
    let args = run(&empty_env(), &["--power-press", "none"]);
    assert_eq!(args.power_press, PowerPress::Ignore);
    let args = run(&empty_env(), &["--power-press", "doze", "--doze-max-secs", "120"]);
    assert_eq!(args.power_press, PowerPress::Doze);
    assert_eq!(args.doze_max_secs, 120);
    let args = run(&empty_env(), &["--power-press", "suspend"]);
    assert_eq!(args.power_press, PowerPress::Suspend);
    let e = refusal(&empty_env(), &["--power-press", "sleep"]);
    assert_eq!(e.message(), "--power-press must be none, doze or suspend (got \"sleep\")");
    let e = refusal(&empty_env(), &["--doze-max-secs", "ten"]);
    assert_eq!(e, ArgsError::DozeMaxSecsNotAnInteger);
    assert_eq!(e.message(), "--doze-max-secs must be an integer");
}
