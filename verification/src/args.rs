//! The host's settings: defaults taken from the environment, then overridden
//! word by word from the command line.
use vstd::prelude::*;

use crate::geometry::{Rotation, RotationError, rotation_error_text, spec_rotation};
use crate::host::{CORE_TICKS_PER_SECOND, SimHzError, parse_sim_hz, sim_hz_divide_text};
use crate::input::flag_enabled;
use crate::power::{PowerPress, PowerPressError, power_press_error_text, spec_power_press};
use crate::refresh::{Waveform, WaveformError, waveform_error_text};
use crate::text::{
    VariableError,
    ascii_upper_seq,
    parse_u32,
    parse_u32_error_text,
    parse_u64,
    parse_u64_error_text,
    spec_parse_u32,
    spec_parse_u64,
    str_equals,
    variable_error_text,
};

verus! {

/// Physical refreshes per second when nothing else is asked for.
pub const DEFAULT_PRESENT_HZ: u32 = 30;
/// Fast updates allowed before a full cleanup, when nothing else is asked for.
pub const DEFAULT_GHOST_BUDGET: u32 = 80;
/// Virtual frames per second when nothing else is asked for.
pub const DEFAULT_SIM_HZ: u32 = 30;
/// The longest a doze lasts, in seconds, when nothing else is asked for.
pub const DEFAULT_DOZE_MAX_SECS: u64 = 600;

/// The values the process found for the variables the settings default to;
/// `None` where a variable is unset.
pub struct Environment {
    pub js: Option<String>,
    pub pak: Option<String>,
    pub framebuffer: Option<String>,
    pub fbink: Option<String>,
    pub present_hz: Option<String>,
    pub motion_waveform: Option<String>,
    pub ghost_budget: Option<String>,
    pub rotation: Option<String>,
    pub sim_hz: Option<String>,
    pub power_helper: Option<String>,
}

pub struct EnvironmentModel {
    pub js: Option<Seq<char>>,
    pub pak: Option<Seq<char>>,
    pub framebuffer: Option<Seq<char>>,
    pub fbink: Option<Seq<char>>,
    pub present_hz: Option<Seq<char>>,
    pub motion_waveform: Option<Seq<char>>,
    pub ghost_budget: Option<Seq<char>>,
    pub rotation: Option<Seq<char>>,
    pub sim_hz: Option<Seq<char>>,
    pub power_helper: Option<Seq<char>>,
}

pub open spec fn opt_view(o: Option<String>) -> Option<Seq<char>> {
    match o {
        Some(s) => Some(s@),
        None => None,
    }
}

impl View for Environment {
    type V = EnvironmentModel;

    open spec fn view(&self) -> EnvironmentModel {
        EnvironmentModel {
            js: opt_view(self.js),
            pak: opt_view(self.pak),
            framebuffer: opt_view(self.framebuffer),
            fbink: opt_view(self.fbink),
            present_hz: opt_view(self.present_hz),
            motion_waveform: opt_view(self.motion_waveform),
            ghost_budget: opt_view(self.ghost_budget),
            rotation: opt_view(self.rotation),
            sim_hz: opt_view(self.sim_hz),
            power_helper: opt_view(self.power_helper),
        }
    }
}

/// What the host was asked to do, paths as given.
#[derive(Clone, Debug, PartialEq, Eq)]
pub struct Args {
    pub js: String,
    pub pak: String,
    pub framebuffer: String,
    pub fbink: String,
    pub present_hz: u32,
    pub motion_waveform: Waveform,
    pub ghost_budget: u32,
    pub rotation: Option<Rotation>,
    pub sim_hz: u32,
    pub power_helper: Option<String>,
    pub power_press: PowerPress,
    pub doze_max_secs: u64,
    pub probe: bool,
    pub probe_touch: bool,
    pub probe_epdc: bool,
    pub allow_active_gui: bool,
}

pub struct ArgsModel {
    pub js: Seq<char>,
    pub pak: Seq<char>,
    pub framebuffer: Seq<char>,
    pub fbink: Seq<char>,
    pub present_hz: u32,
    pub motion_waveform: Waveform,
    pub ghost_budget: u32,
    pub rotation: Option<Rotation>,
    pub sim_hz: u32,
    pub power_helper: Option<Seq<char>>,
    pub power_press: PowerPress,
    pub doze_max_secs: u64,
    pub probe: bool,
    pub probe_touch: bool,
    pub probe_epdc: bool,
    pub allow_active_gui: bool,
}

impl View for Args {
    type V = ArgsModel;

    open spec fn view(&self) -> ArgsModel {
        ArgsModel {
            js: self.js@,
            pak: self.pak@,
            framebuffer: self.framebuffer@,
            fbink: self.fbink@,
            present_hz: self.present_hz,
            motion_waveform: self.motion_waveform,
            ghost_budget: self.ghost_budget,
            rotation: self.rotation,
            sim_hz: self.sim_hz,
            power_helper: opt_view(self.power_helper),
            power_press: self.power_press,
            doze_max_secs: self.doze_max_secs,
            probe: self.probe,
            probe_touch: self.probe_touch,
            probe_epdc: self.probe_epdc,
            allow_active_gui: self.allow_active_gui,
        }
    }
}

/// Why the settings were refused.
#[derive(Clone, Debug, PartialEq, Eq)]
pub enum ArgsError {
    /// A numeric variable that does not parse.
    Variable(VariableError),
    Waveform(WaveformError),
    Rotation(RotationError),
    SimHz(SimHzError),
    /// An option that takes a value came last.
    MissingValue(String),
    PresentHzNotAnInteger,
    GhostBudgetNotAnInteger,
    PowerPress(PowerPressError),
    DozeMaxSecsNotAnInteger,
    Unknown(String),
}

pub enum ArgsFault {
    Variable { name: Seq<char>, value: Seq<char>, reason: Seq<char> },
    Waveform(Seq<char>),
    Rotation(Seq<char>),
    SimHz(SimHzError),
    MissingValue(Seq<char>),
    PresentHzNotAnInteger,
    GhostBudgetNotAnInteger,
    PowerPress(Seq<char>),
    DozeMaxSecsNotAnInteger,
    Unknown(Seq<char>),
}

impl View for ArgsError {
    type V = ArgsFault;

    open spec fn view(&self) -> ArgsFault {
        match self {
            ArgsError::Variable(e) => ArgsFault::Variable {
                name: e.name@,
                value: e.value@,
                reason: e.reason@,
            },
            ArgsError::Waveform(e) => ArgsFault::Waveform(e.value@),
            ArgsError::Rotation(e) => ArgsFault::Rotation(e.value@),
            ArgsError::SimHz(e) => ArgsFault::SimHz(*e),
            ArgsError::MissingValue(w) => ArgsFault::MissingValue(w@),
            ArgsError::PresentHzNotAnInteger => ArgsFault::PresentHzNotAnInteger,
            ArgsError::GhostBudgetNotAnInteger => ArgsFault::GhostBudgetNotAnInteger,
            ArgsError::PowerPress(e) => ArgsFault::PowerPress(e.value@),
            ArgsError::DozeMaxSecsNotAnInteger => ArgsFault::DozeMaxSecsNotAnInteger,
            ArgsError::Unknown(w) => ArgsFault::Unknown(w@),
        }
    }
}

/// The text of the error for a word that is no option.
pub open spec fn unknown_argument_text(word: Seq<char>) -> Seq<char> {
    "unknown argument "@ + crate::text::str_debug(word) + "; use --help"@
}

/// Formats the refusal of an unknown word with `format!`, quoting it as
/// `{:?}` does.
#[verifier::external_body]
fn describe_unknown_argument(word: &str) -> (m: String)
    ensures
        m@ == "unknown argument "@ + crate::text::str_debug(word@) + "; use --help"@,
{
    format!("unknown argument {word:?}; use --help")
}

/// The refusal of an option without its value: the option, then
/// ` requires a value`.
fn describe_missing_value(word: &str) -> (m: String)
    ensures
        m@ == word@ + " requires a value"@,
{
    word.to_owned().concat(" requires a value")
}

/// The text of a refused virtual frame rate.
pub open spec fn sim_hz_error_text(e: SimHzError) -> Seq<char> {
    match e {
        SimHzError::NotAnInteger => "--sim-hz must be an integer"@,
        SimHzError::DoesNotDivide(hz) => sim_hz_divide_text(hz),
    }
}

impl ArgsError {
    pub fn message(&self) -> (m: String)
        ensures
            m@ == match self@ {
                ArgsFault::Variable { name, value, reason } => variable_error_text(
                    name,
                    value,
                    reason,
                ),
                ArgsFault::Waveform(v) => waveform_error_text(v),
                ArgsFault::Rotation(v) => rotation_error_text(v),
                ArgsFault::SimHz(e) => sim_hz_error_text(e),
                ArgsFault::MissingValue(w) => w + " requires a value"@,
                ArgsFault::PresentHzNotAnInteger => "--present-hz must be an integer"@,
                ArgsFault::GhostBudgetNotAnInteger => "--ghost-budget must be an integer"@,
                ArgsFault::PowerPress(v) => power_press_error_text(v),
                ArgsFault::DozeMaxSecsNotAnInteger => "--doze-max-secs must be an integer"@,
                ArgsFault::Unknown(w) => unknown_argument_text(w),
            },
    {
        match self {
            ArgsError::Variable(e) => e.message(),
            ArgsError::Waveform(e) => e.message(),
            ArgsError::Rotation(e) => e.message(),
            ArgsError::SimHz(e) => e.message(),
            ArgsError::MissingValue(w) => describe_missing_value(w.as_str()),
            ArgsError::PresentHzNotAnInteger => "--present-hz must be an integer".to_owned(),
            ArgsError::GhostBudgetNotAnInteger => "--ghost-budget must be an integer".to_owned(),
            ArgsError::PowerPress(e) => e.message(),
            ArgsError::DozeMaxSecsNotAnInteger => "--doze-max-secs must be an integer".to_owned(),
            ArgsError::Unknown(w) => describe_unknown_argument(w.as_str()),
        }
    }
}

pub open spec fn fault_view<T>(r: Result<T, ArgsError>) -> Result<T, ArgsFault> {
    match r {
        Ok(v) => Ok(v),
        Err(e) => Err(e@),
    }
}

// ---------------------------------------------------------------------------
// The settings, as functions of the environment and the words.

pub open spec fn or_default(o: Option<Seq<char>>, d: Seq<char>) -> Seq<char> {
    match o {
        Some(v) => v,
        None => d,
    }
}

/// A `u32` variable: its default where unset, its value where that parses.
pub open spec fn sp_u32_variable(name: Seq<char>, value: Option<Seq<char>>, default: u32) -> Result<
    u32,
    ArgsFault,
> {
    match value {
        None => Ok(default),
        Some(v) => match spec_parse_u32(v) {
            Some(n) => Ok(n),
            None => Err(ArgsFault::Variable { name, value: v, reason: parse_u32_error_text(v) }),
        },
    }
}

/// The motion waveform a word names, in any ASCII case.
pub open spec fn sp_motion(v: Seq<char>) -> Option<Waveform> {
    if ascii_upper_seq(v) == seq!['D', 'U'] {
        Some(Waveform::Du)
    } else if ascii_upper_seq(v) == seq!['A', '2'] {
        Some(Waveform::A2)
    } else {
        None
    }
}

/// A virtual frame rate: a decimal `u32` that divides the core tick rate.
pub open spec fn sp_sim_hz(v: Seq<char>) -> Result<u32, SimHzError> {
    match spec_parse_u32(v) {
        None => Err(SimHzError::NotAnInteger),
        Some(hz) => if hz != 0 && CORE_TICKS_PER_SECOND % hz == 0 {
            Ok(hz)
        } else {
            Err(SimHzError::DoesNotDivide(hz))
        },
    }
}

/// The settings before any word is read. The numeric and named variables
/// are checked in the order present rate, motion waveform, ghost budget,
/// rotation, virtual rate; the first that is refused is the error.
pub open spec fn sp_defaults(env: EnvironmentModel) -> Result<ArgsModel, ArgsFault> {
    match sp_u32_variable("POCKETJS_PRESENT_HZ"@, env.present_hz, DEFAULT_PRESENT_HZ) {
        Err(e) => Err(e),
        Ok(present_hz) => {
            let motion = or_default(env.motion_waveform, "DU"@);
            match sp_motion(motion) {
                None => Err(ArgsFault::Waveform(motion)),
                Some(motion_waveform) => match sp_u32_variable(
                    "POCKETJS_GHOST_BUDGET"@,
                    env.ghost_budget,
                    DEFAULT_GHOST_BUDGET,
                ) {
                    Err(e) => Err(e),
                    Ok(ghost_budget) => {
                        let turn = or_default(env.rotation, "auto"@);
                        match spec_rotation(turn) {
                            None => Err(ArgsFault::Rotation(turn)),
                            Some(rotation) => {
                                let sim = match env.sim_hz {
                                    None => Ok(DEFAULT_SIM_HZ),
                                    Some(v) => sp_sim_hz(v),
                                };
                                match sim {
                                    Err(e) => Err(ArgsFault::SimHz(e)),
                                    Ok(sim_hz) => Ok(
                                        ArgsModel {
                                            js: or_default(env.js, "app.js"@),
                                            pak: or_default(env.pak, "app.pak"@),
                                            framebuffer: or_default(env.framebuffer, "/dev/fb0"@),
                                            fbink: or_default(
                                                env.fbink,
                                                "/mnt/onboard/.apps/pocketjs/bin/fbink"@,
                                            ),
                                            present_hz,
                                            motion_waveform,
                                            ghost_budget,
                                            rotation,
                                            sim_hz,
                                            power_helper: Some(
                                                or_default(
                                                    env.power_helper,
                                                    "/mnt/onboard/.apps/pocketjs/power.sh"@,
                                                ),
                                            ),
                                            power_press: PowerPress::Ignore,
                                            doze_max_secs: DEFAULT_DOZE_MAX_SECS,
                                            probe: false,
                                            probe_touch: false,
                                            probe_epdc: false,
                                            allow_active_gui: false,
                                        },
                                    ),
                                }
                            },
                        }
                    },
                },
            }
        },
    }
}

/// The options that take the word after them as their value.
pub open spec fn is_valued(word: Seq<char>) -> bool {
    ||| word == "--js"@
    ||| word == "--pak"@
    ||| word == "--framebuffer"@
    ||| word == "--fbink"@
    ||| word == "--present-hz"@
    ||| word == "--motion-waveform"@
    ||| word == "--ghost-budget"@
    ||| word == "--rotation"@
    ||| word == "--sim-hz"@
    ||| word == "--power-press"@
    ||| word == "--doze-max-secs"@
    ||| word == "--power-helper"@
}

/// The settings after the option `flag` is given `v`.
pub open spec fn sp_apply(a: ArgsModel, flag: Seq<char>, v: Seq<char>) -> Result<ArgsModel, ArgsFault> {
    if flag == "--js"@ {
        Ok(ArgsModel { js: v, ..a })
    } else if flag == "--pak"@ {
        Ok(ArgsModel { pak: v, ..a })
    } else if flag == "--framebuffer"@ {
        Ok(ArgsModel { framebuffer: v, ..a })
    } else if flag == "--fbink"@ {
        Ok(ArgsModel { fbink: v, ..a })
    } else if flag == "--present-hz"@ {
        match spec_parse_u32(v) {
            Some(n) => Ok(ArgsModel { present_hz: n, ..a }),
            None => Err(ArgsFault::PresentHzNotAnInteger),
        }
    } else if flag == "--motion-waveform"@ {
        match sp_motion(v) {
            Some(w) => Ok(ArgsModel { motion_waveform: w, ..a }),
            None => Err(ArgsFault::Waveform(v)),
        }
    } else if flag == "--ghost-budget"@ {
        match spec_parse_u32(v) {
            Some(n) => Ok(ArgsModel { ghost_budget: n, ..a }),
            None => Err(ArgsFault::GhostBudgetNotAnInteger),
        }
    } else if flag == "--rotation"@ {
        match spec_rotation(v) {
            Some(r) => Ok(ArgsModel { rotation: r, ..a }),
            None => Err(ArgsFault::Rotation(v)),
        }
    } else if flag == "--sim-hz"@ {
        match sp_sim_hz(v) {
            Ok(hz) => Ok(ArgsModel { sim_hz: hz, ..a }),
            Err(e) => Err(ArgsFault::SimHz(e)),
        }
    } else if flag == "--power-press"@ {
        match spec_power_press(v) {
            Some(p) => Ok(ArgsModel { power_press: p, ..a }),
            None => Err(ArgsFault::PowerPress(v)),
        }
    } else if flag == "--doze-max-secs"@ {
        match spec_parse_u64(v) {
            Some(n) => Ok(ArgsModel { doze_max_secs: n, ..a }),
            None => Err(ArgsFault::DozeMaxSecsNotAnInteger),
        }
    } else {
        Ok(ArgsModel { power_helper: Some(v), ..a })
    }
}

/// The settings after the words `w`, read from the first; `Ok(None)` when a
/// help word is reached first.
pub open spec fn sp_words(a: ArgsModel, w: Seq<Seq<char>>) -> Result<Option<ArgsModel>, ArgsFault>
    decreases w.len(),
{
    if w.len() == 0 {
        Ok(Some(a))
    } else if is_valued(w[0]) {
        if w.len() < 2 {
            Err(ArgsFault::MissingValue(w[0]))
        } else {
            match sp_apply(a, w[0], w[1]) {
                Err(e) => Err(e),
                Ok(next) => sp_words(next, w.subrange(2, w.len() as int)),
            }
        }
    } else if w[0] == "--no-power-key"@ {
        sp_words(ArgsModel { power_helper: None, ..a }, w.drop_first())
    } else if w[0] == "--probe"@ {
        sp_words(ArgsModel { probe: true, ..a }, w.drop_first())
    } else if w[0] == "--probe-touch"@ {
        sp_words(ArgsModel { probe_touch: true, ..a }, w.drop_first())
    } else if w[0] == "--probe-epdc"@ {
        sp_words(ArgsModel { probe_epdc: true, ..a }, w.drop_first())
    } else if w[0] == "--allow-active-gui"@ {
        sp_words(ArgsModel { allow_active_gui: true, ..a }, w.drop_first())
    } else if w[0] == "-h"@ || w[0] == "--help"@ {
        Ok(None)
    } else {
        Err(ArgsFault::Unknown(w[0]))
    }
}

pub open spec fn words_view(w: Seq<String>) -> Seq<Seq<char>> {
    w.map_values(|s: String| s@)
}

/// The settings the environment and the words select.
pub open spec fn sp_parse(env: EnvironmentModel, w: Seq<Seq<char>>) -> Result<
    Option<ArgsModel>,
    ArgsFault,
> {
    match sp_defaults(env) {
        Err(e) => Err(e),
        Ok(a) => sp_words(a, w),
    }
}

/// What the words ask for.
pub enum Command {
    Run(Args),
    Help,
}

pub open spec fn command_view(r: Result<Command, ArgsError>) -> Result<Option<ArgsModel>, ArgsFault> {
    match r {
        Ok(Command::Run(a)) => Ok(Some(a@)),
        Ok(Command::Help) => Ok(None),
        Err(e) => Err(e@),
    }
}

fn u32_variable(name: &str, value: &Option<String>, default: u32) -> (r: Result<u32, ArgsError>)
    ensures
        fault_view(r) == sp_u32_variable(name@, opt_view(*value), default),
{
    match value {
        None => Ok(default),
        Some(v) => match parse_u32(v.as_str()) {
            Ok(n) => Ok(n),
            Err(reason) => Err(
                ArgsError::Variable(
                    VariableError { name: name.to_owned(), value: v.clone(), reason },
                ),
            ),
        },
    }
}

fn text_or(value: &Option<String>, default: &str) -> (r: String)
    ensures
        r@ == or_default(opt_view(*value), default@),
{
    match value {
        Some(v) => v.clone(),
        None => default.to_owned(),
    }
}

fn motion_waveform(value: &str) -> (r: Result<Waveform, ArgsError>)
    ensures
        match sp_motion(value@) {
            Some(w) => r == Ok::<Waveform, ArgsError>(w),
            None => r matches Err(e) && e@ == ArgsFault::Waveform(value@),
        },
{
    match Waveform::parse_motion(value) {
        Ok(w) => Ok(w),
        Err(e) => Err(ArgsError::Waveform(e)),
    }
}

fn rotation(value: &str) -> (r: Result<Option<Rotation>, ArgsError>)
    ensures
        match spec_rotation(value@) {
            Some(choice) => r == Ok::<Option<Rotation>, ArgsError>(choice),
            None => r matches Err(e) && e@ == ArgsFault::Rotation(value@),
        },
{
    match Rotation::parse(value) {
        Ok(choice) => Ok(choice),
        Err(e) => Err(ArgsError::Rotation(e)),
    }
}

fn sim_hz(value: &str) -> (r: Result<u32, ArgsError>)
    ensures
        match sp_sim_hz(value@) {
            Ok(hz) => r == Ok::<u32, ArgsError>(hz),
            Err(e) => r matches Err(f) && f@ == ArgsFault::SimHz(e),
        },
{
    match parse_sim_hz(value) {
        Ok(hz) => Ok(hz),
        Err(e) => Err(ArgsError::SimHz(e)),
    }
}

fn valued_flag(word: &str) -> (r: bool)
    ensures
        r == is_valued(word@),
{
    str_equals(word, "--js") || str_equals(word, "--pak") || str_equals(word, "--framebuffer")
        || str_equals(word, "--fbink") || str_equals(word, "--present-hz") || str_equals(
        word,
        "--motion-waveform",
    ) || str_equals(word, "--ghost-budget") || str_equals(word, "--rotation") || str_equals(
        word,
        "--sim-hz",
    ) || str_equals(word, "--power-press") || str_equals(word, "--doze-max-secs") || str_equals(
        word,
        "--power-helper",
    )
}

fn apply_value(args: Args, flag: &str, value: &str) -> (r: Result<Args, ArgsError>)
    ensures
        match sp_apply(args@, flag@, value@) {
            Ok(a) => r matches Ok(next) && next@ == a,
            Err(e) => r matches Err(f) && f@ == e,
        },
{
    let mut args = args;
    if str_equals(flag, "--js") {
        args.js = value.to_owned();
    } else if str_equals(flag, "--pak") {
        args.pak = value.to_owned();
    } else if str_equals(flag, "--framebuffer") {
        args.framebuffer = value.to_owned();
    } else if str_equals(flag, "--fbink") {
        args.fbink = value.to_owned();
    } else if str_equals(flag, "--present-hz") {
        match parse_u32(value) {
            Ok(n) => args.present_hz = n,
            Err(_) => return Err(ArgsError::PresentHzNotAnInteger),
        }
    } else if str_equals(flag, "--motion-waveform") {
        args.motion_waveform = motion_waveform(value)?;
    } else if str_equals(flag, "--ghost-budget") {
        match parse_u32(value) {
            Ok(n) => args.ghost_budget = n,
            Err(_) => return Err(ArgsError::GhostBudgetNotAnInteger),
        }
    } else if str_equals(flag, "--rotation") {
        args.rotation = rotation(value)?;
    } else if str_equals(flag, "--sim-hz") {
        args.sim_hz = sim_hz(value)?;
    } else if str_equals(flag, "--power-press") {
        match PowerPress::parse(value) {
            Ok(p) => args.power_press = p,
            Err(e) => return Err(ArgsError::PowerPress(e)),
        }
    } else if str_equals(flag, "--doze-max-secs") {
        match parse_u64(value) {
            Ok(n) => args.doze_max_secs = n,
            Err(_) => return Err(ArgsError::DozeMaxSecsNotAnInteger),
        }
    } else {
        args.power_helper = Some(value.to_owned());
    }
    Ok(args)
}

impl Args {
    /// The settings before any word is read.
    pub fn defaults(env: &Environment) -> (r: Result<Args, ArgsError>)
        ensures
            match sp_defaults(env@) {
                Ok(a) => r matches Ok(args) && args@ == a,
                Err(e) => r matches Err(f) && f@ == e,
            },
    {
        let present_hz = u32_variable("POCKETJS_PRESENT_HZ", &env.present_hz, DEFAULT_PRESENT_HZ)?;
        let motion = text_or(&env.motion_waveform, "DU");
        let motion_waveform = motion_waveform(motion.as_str())?;
        let ghost_budget = u32_variable(
            "POCKETJS_GHOST_BUDGET",
            &env.ghost_budget,
            DEFAULT_GHOST_BUDGET,
        )?;
        let turn = text_or(&env.rotation, "auto");
        let rotation = rotation(turn.as_str())?;
        let sim_hz = match &env.sim_hz {
            None => DEFAULT_SIM_HZ,
            Some(v) => sim_hz(v.as_str())?,
        };
        Ok(
            Args {
                js: text_or(&env.js, "app.js"),
                pak: text_or(&env.pak, "app.pak"),
                framebuffer: text_or(&env.framebuffer, "/dev/fb0"),
                fbink: text_or(&env.fbink, "/mnt/onboard/.apps/pocketjs/bin/fbink"),
                present_hz,
                motion_waveform,
                ghost_budget,
                rotation,
                sim_hz,
                power_helper: Some(
                    text_or(&env.power_helper, "/mnt/onboard/.apps/pocketjs/power.sh"),
                ),
                power_press: PowerPress::Ignore,
                doze_max_secs: DEFAULT_DOZE_MAX_SECS,
                probe: false,
                probe_touch: false,
                probe_epdc: false,
                allow_active_gui: false,
            },
        )
    }

    /// The settings the environment selects, overridden by the words in
    /// order; `Help` as soon as a help word is reached.
    pub fn parse(env: &Environment, words: &[String]) -> (r: Result<Command, ArgsError>)
        ensures
            command_view(r) == sp_parse(env@, words_view(words@)),
    {
        let mut args = Args::defaults(env)?;
        let ghost w = words_view(words@);
        let ghost start = args@;
        let mut i: usize = 0;
        assert(w.subrange(0, w.len() as int) =~= w);
        while i < words.len()
            invariant
                i <= words.len(),
                w == words_view(words@),
                sp_parse(env@, w) == sp_words(start, w),
                sp_words(start, w) == sp_words(args@, w.subrange(i as int, w.len() as int)),
            decreases words.len() - i,
        {
            let ghost rest = w.subrange(i as int, w.len() as int);
            assert(rest[0] == words@[i as int]@);
            let word = words[i].as_str();
            if valued_flag(word) {
                if i + 1 >= words.len() {
                    return Err(ArgsError::MissingValue(word.to_owned()));
                }
                assert(rest[1] == words@[i + 1]@);
                let value = words[i + 1].as_str();
                args = apply_value(args, word, value)?;
                assert(rest.subrange(2, rest.len() as int) =~= w.subrange(
                    i + 2,
                    w.len() as int,
                ));
                i = i + 2;
            } else {
                assert(rest.drop_first() =~= w.subrange(i + 1, w.len() as int));
                if str_equals(word, "--no-power-key") {
                    args.power_helper = None;
                } else if str_equals(word, "--probe") {
                    args.probe = true;
                } else if str_equals(word, "--probe-touch") {
                    args.probe_touch = true;
                } else if str_equals(word, "--probe-epdc") {
                    args.probe_epdc = true;
                } else if str_equals(word, "--allow-active-gui") {
                    args.allow_active_gui = true;
                } else if str_equals(word, "-h") || str_equals(word, "--help") {
                    return Ok(Command::Help);
                } else {
                    return Err(ArgsError::Unknown(word.to_owned()));
                }
                i = i + 1;
            }
        }
        assert(w.subrange(i as int, w.len() as int) =~= Seq::<Seq<char>>::empty());
        Ok(Command::Run(args))
    }

    /// Whether the host may write the panel: the GUI was paused for it
    /// (`1`, `true` or `yes`), or the guard was overridden on purpose.
    pub fn may_write_panel(&self, gui_paused: Option<&str>) -> (r: bool)
        ensures
            r == (self.allow_active_gui || (gui_paused matches Some(v) && (v@ == "1"@ || v@
                == "true"@ || v@ == "yes"@))),
    {
        flag_enabled(gui_paused) || self.allow_active_gui
    }
}

/// How often to report where a tick's time goes, in seconds: never where the
/// variable is unset or zero.
pub open spec fn sp_profile_interval(value: Option<Seq<char>>) -> Result<Option<u64>, ArgsFault> {
    match value {
        None => Ok(None),
        Some(v) => match spec_parse_u64(v) {
            None => Err(
                ArgsFault::Variable {
                    name: "POCKETJS_PROFILE_SECS"@,
                    value: v,
                    reason: parse_u64_error_text(v),
                },
            ),
            Some(n) => if n == 0 {
                Ok(None)
            } else {
                Ok(Some(n))
            },
        },
    }
}

pub fn profile_interval(value: Option<&str>) -> (r: Result<Option<u64>, ArgsError>)
    ensures
        fault_view(r) == sp_profile_interval(
            match value {
                Some(v) => Some(v@),
                None => None,
            },
        ),
{
    match value {
        None => Ok(None),
        Some(v) => match parse_u64(v) {
            Ok(0) => Ok(None),
            Ok(n) => Ok(Some(n)),
            Err(reason) => Err(
                ArgsError::Variable(
                    VariableError {
                        name: "POCKETJS_PROFILE_SECS".to_owned(),
                        value: v.to_owned(),
                        reason,
                    },
                ),
            ),
        },
    }
}


// ---------------------------------------------------------------------------
// Laws.

/// The last value given to an option is the one that counts: a second value
/// for the same option leaves the settings as if the first had never been
/// given.
pub proof fn law_last_value_wins(a: ArgsModel, flag: Seq<char>, first: Seq<char>, second: Seq<char>)
    requires
        is_valued(flag),
        sp_apply(a, flag, first) is Ok,
    ensures
        sp_apply(sp_apply(a, flag, first)->Ok_0, flag, second) == sp_apply(a, flag, second),
{
}

/// A help word ends the reading: whatever follows it, valid or not, is never
/// looked at.
pub proof fn law_help_ends_the_words(a: ArgsModel, rest: Seq<Seq<char>>)
    ensures
        sp_words(a, seq!["--help"@] + rest) == Ok::<Option<ArgsModel>, ArgsFault>(None),
        sp_words(a, seq!["-h"@] + rest) == Ok::<Option<ArgsModel>, ArgsFault>(None),
{
    reveal_strlit("--help");
    reveal_strlit("-h");
    reveal_strlit("--js");
    reveal_strlit("--pak");
    reveal_strlit("--framebuffer");
    reveal_strlit("--fbink");
    reveal_strlit("--present-hz");
    reveal_strlit("--motion-waveform");
    reveal_strlit("--ghost-budget");
    reveal_strlit("--rotation");
    reveal_strlit("--sim-hz");
    reveal_strlit("--power-helper");
    reveal_strlit("--power-press");
    reveal_strlit("--doze-max-secs");
    reveal_strlit("--no-power-key");
    reveal_strlit("--probe");
    reveal_strlit("--probe-touch");
    reveal_strlit("--probe-epdc");
    reveal_strlit("--allow-active-gui");
    assert((seq!["--help"@] + rest)[0] == "--help"@);
    assert((seq!["-h"@] + rest)[0] == "-h"@);
}


/// No word of `w` is `flag`.
pub open spec fn never_says(w: Seq<Seq<char>>, flag: Seq<char>) -> bool {
    forall|i: int| 0 <= i < w.len() ==> #[trigger] w[i] != flag
}

proof fn lemma_words_keep_paths(a: ArgsModel, w: Seq<Seq<char>>)
    ensures
        sp_words(a, w) matches Ok(Some(b)) ==> {
            &&& never_says(w, "--js"@) ==> b.js == a.js
            &&& never_says(w, "--pak"@) ==> b.pak == a.pak
            &&& never_says(w, "--framebuffer"@) ==> b.framebuffer == a.framebuffer
            &&& never_says(w, "--fbink"@) ==> b.fbink == a.fbink
            &&& never_says(w, "--power-helper"@) && never_says(w, "--no-power-key"@)
                ==> b.power_helper == a.power_helper
            &&& never_says(w, "--present-hz"@) ==> b.present_hz == a.present_hz
            &&& never_says(w, "--motion-waveform"@) ==> b.motion_waveform == a.motion_waveform
            &&& never_says(w, "--ghost-budget"@) ==> b.ghost_budget == a.ghost_budget
            &&& never_says(w, "--rotation"@) ==> b.rotation == a.rotation
            &&& never_says(w, "--sim-hz"@) ==> b.sim_hz == a.sim_hz
        },
    decreases w.len(),
{
    if w.len() > 0 {
        if is_valued(w[0]) {
            if w.len() >= 2 {
                let rest = w.subrange(2, w.len() as int);
                if let Ok(next) = sp_apply(a, w[0], w[1]) {
                    lemma_words_keep_paths(next, rest);
                    assert forall|flag: Seq<char>| never_says(w, flag) implies never_says(
                        rest,
                        flag,
                    ) by {
                        assert forall|i: int| 0 <= i < rest.len() implies #[trigger] rest[i]
                            != flag by {
                            assert(rest[i] == w[i + 2]);
                        }
                    }
                    assert(never_says(w, "--js"@) ==> w[0] != "--js"@);
                    assert(never_says(w, "--pak"@) ==> w[0] != "--pak"@);
                    assert(never_says(w, "--framebuffer"@) ==> w[0] != "--framebuffer"@);
                    assert(never_says(w, "--fbink"@) ==> w[0] != "--fbink"@);
                    assert(never_says(w, "--power-helper"@) ==> w[0] != "--power-helper"@);
                    assert(never_says(w, "--present-hz"@) ==> w[0] != "--present-hz"@);
                    assert(never_says(w, "--motion-waveform"@) ==> w[0] != "--motion-waveform"@);
                    assert(never_says(w, "--ghost-budget"@) ==> w[0] != "--ghost-budget"@);
                    assert(never_says(w, "--rotation"@) ==> w[0] != "--rotation"@);
                    assert(never_says(w, "--sim-hz"@) ==> w[0] != "--sim-hz"@);
                }
            }
        } else {
            let rest = w.drop_first();
            assert forall|flag: Seq<char>| never_says(w, flag) implies never_says(rest, flag) by {
                assert forall|i: int| 0 <= i < rest.len() implies #[trigger] rest[i] != flag by {
                    assert(rest[i] == w[i + 1]);
                }
            }
            assert(never_says(w, "--no-power-key"@) ==> w[0] != "--no-power-key"@);
            if w[0] == "--no-power-key"@ {
                lemma_words_keep_paths(ArgsModel { power_helper: None, ..a }, rest);
            } else if w[0] == "--probe"@ {
                lemma_words_keep_paths(ArgsModel { probe: true, ..a }, rest);
            } else if w[0] == "--probe-touch"@ {
                lemma_words_keep_paths(ArgsModel { probe_touch: true, ..a }, rest);
            } else if w[0] == "--probe-epdc"@ {
                lemma_words_keep_paths(ArgsModel { probe_epdc: true, ..a }, rest);
            } else if w[0] == "--allow-active-gui"@ {
                lemma_words_keep_paths(ArgsModel { allow_active_gui: true, ..a }, rest);
            }
        }
    }
}

/// A setting's variable is its default: when the variable is set and no
/// word names the option, the settings hold the variable's value (read as
/// the option would read it). This holds for the bundle, the pak, the
/// framebuffer, the panel helper, the power helper, the present rate, the
/// motion waveform, the ghost budget, the rotation and the virtual rate.
pub proof fn law_variables_set_the_defaults(env: EnvironmentModel, w: Seq<Seq<char>>)
    ensures
        sp_parse(env, w) matches Ok(Some(b)) ==> {
            &&& (env.js is Some && never_says(w, "--js"@)) ==> b.js == env.js->0
            &&& (env.pak is Some && never_says(w, "--pak"@)) ==> b.pak == env.pak->0
            &&& (env.framebuffer is Some && never_says(w, "--framebuffer"@)) ==> b.framebuffer
                == env.framebuffer->0
            &&& (env.fbink is Some && never_says(w, "--fbink"@)) ==> b.fbink == env.fbink->0
            &&& (env.power_helper is Some && never_says(w, "--power-helper"@) && never_says(
                w,
                "--no-power-key"@,
            )) ==> b.power_helper == Some(env.power_helper->0)
            &&& (env.present_hz is Some && never_says(w, "--present-hz"@)) ==> Some(b.present_hz)
                == spec_parse_u32(env.present_hz->0)
            &&& (env.motion_waveform is Some && never_says(w, "--motion-waveform"@)) ==> Some(
                b.motion_waveform,
            ) == sp_motion(env.motion_waveform->0)
            &&& (env.ghost_budget is Some && never_says(w, "--ghost-budget"@)) ==> Some(
                b.ghost_budget,
            ) == spec_parse_u32(env.ghost_budget->0)
            &&& (env.rotation is Some && never_says(w, "--rotation"@)) ==> Some(b.rotation)
                == spec_rotation(env.rotation->0)
            &&& (env.sim_hz is Some && never_says(w, "--sim-hz"@)) ==> Ok::<u32, SimHzError>(
                b.sim_hz,
            ) == sp_sim_hz(env.sim_hz->0)
        },
{
    if let Ok(a) = sp_defaults(env) {
        lemma_words_keep_paths(a, w);
    }
}


/// With its variable unset and no word naming its option, a setting takes
/// its documented default: the framebuffer `/dev/fb0`, the present rate, the
/// ghost budget and the virtual rate their default numbers, the motion
/// waveform `DU` and the rotation `auto`.
pub proof fn law_unset_variables_give_the_defaults(env: EnvironmentModel, w: Seq<Seq<char>>)
    ensures
        sp_parse(env, w) matches Ok(Some(b)) ==> {
            &&& (env.framebuffer is None && never_says(w, "--framebuffer"@)) ==> b.framebuffer
                == "/dev/fb0"@
            &&& (env.present_hz is None && never_says(w, "--present-hz"@)) ==> b.present_hz
                == DEFAULT_PRESENT_HZ
            &&& (env.ghost_budget is None && never_says(w, "--ghost-budget"@)) ==> b.ghost_budget
                == DEFAULT_GHOST_BUDGET
            &&& (env.sim_hz is None && never_says(w, "--sim-hz"@)) ==> b.sim_hz == DEFAULT_SIM_HZ
            &&& (env.motion_waveform is None && never_says(w, "--motion-waveform"@)) ==> Some(
                b.motion_waveform,
            ) == sp_motion("DU"@)
            &&& (env.rotation is None && never_says(w, "--rotation"@)) ==> Some(b.rotation)
                == spec_rotation("auto"@)
        },
{
    if let Ok(a) = sp_defaults(env) {
        lemma_words_keep_paths(a, w);
    }
}


/// Each option sets its own setting and no other: an option with its value
/// sets exactly that field (read as the option reads it), and each switch
/// sets exactly its flag.
pub proof fn law_each_option_sets_its_own_setting(a: ArgsModel, v: Seq<char>)
    ensures
        sp_words(a, seq!["--js"@, v]) == Ok::<Option<ArgsModel>, ArgsFault>(
            Some(ArgsModel { js: v, ..a }),
        ),
        sp_words(a, seq!["--pak"@, v]) == Ok::<Option<ArgsModel>, ArgsFault>(
            Some(ArgsModel { pak: v, ..a }),
        ),
        sp_words(a, seq!["--framebuffer"@, v]) == Ok::<Option<ArgsModel>, ArgsFault>(
            Some(ArgsModel { framebuffer: v, ..a }),
        ),
        sp_words(a, seq!["--fbink"@, v]) == Ok::<Option<ArgsModel>, ArgsFault>(
            Some(ArgsModel { fbink: v, ..a }),
        ),
        sp_words(a, seq!["--power-helper"@, v]) == Ok::<Option<ArgsModel>, ArgsFault>(
            Some(ArgsModel { power_helper: Some(v), ..a }),
        ),
        spec_parse_u32(v) matches Some(n) ==> sp_words(a, seq!["--present-hz"@, v]) == Ok::<
            Option<ArgsModel>,
            ArgsFault,
        >(Some(ArgsModel { present_hz: n, ..a })),
        spec_parse_u32(v) matches Some(n) ==> sp_words(a, seq!["--ghost-budget"@, v]) == Ok::<
            Option<ArgsModel>,
            ArgsFault,
        >(Some(ArgsModel { ghost_budget: n, ..a })),
        spec_parse_u64(v) matches Some(n) ==> sp_words(a, seq!["--doze-max-secs"@, v]) == Ok::<
            Option<ArgsModel>,
            ArgsFault,
        >(Some(ArgsModel { doze_max_secs: n, ..a })),
        sp_words(a, seq!["--probe"@]) == Ok::<Option<ArgsModel>, ArgsFault>(
            Some(ArgsModel { probe: true, ..a }),
        ),
        sp_words(a, seq!["--probe-touch"@]) == Ok::<Option<ArgsModel>, ArgsFault>(
            Some(ArgsModel { probe_touch: true, ..a }),
        ),
        sp_words(a, seq!["--probe-epdc"@]) == Ok::<Option<ArgsModel>, ArgsFault>(
            Some(ArgsModel { probe_epdc: true, ..a }),
        ),
        sp_words(a, seq!["--allow-active-gui"@]) == Ok::<Option<ArgsModel>, ArgsFault>(
            Some(ArgsModel { allow_active_gui: true, ..a }),
        ),
        sp_words(a, seq!["--no-power-key"@]) == Ok::<Option<ArgsModel>, ArgsFault>(
            Some(ArgsModel { power_helper: None, ..a }),
        ),
{
    lemma_apply_js(a, v);
    lemma_apply_pak(a, v);
    lemma_apply_framebuffer(a, v);
    lemma_apply_fbink(a, v);
    lemma_apply_power_helper(a, v);
    lemma_apply_present_hz(a, v);
    lemma_apply_ghost_budget(a, v);
    lemma_apply_doze_max_secs(a, v);
    lemma_one_option(a, "--js"@, v);
    lemma_one_option(a, "--pak"@, v);
    lemma_one_option(a, "--framebuffer"@, v);
    lemma_one_option(a, "--fbink"@, v);
    lemma_one_option(a, "--power-helper"@, v);
    lemma_one_option(a, "--present-hz"@, v);
    lemma_one_option(a, "--ghost-budget"@, v);
    lemma_one_option(a, "--doze-max-secs"@, v);
    lemma_switch_no_power_key(a);
    lemma_switch_probe(a);
    lemma_switch_probe_touch(a);
    lemma_switch_probe_epdc(a);
    lemma_switch_allow_active_gui(a);
}


proof fn lemma_one_option(a: ArgsModel, flag: Seq<char>, v: Seq<char>)
    requires
        is_valued(flag),
    ensures
        sp_words(a, seq![flag, v]) == match sp_apply(a, flag, v) {
            Ok(next) => Ok::<Option<ArgsModel>, ArgsFault>(Some(next)),
            Err(e) => Err(e),
        },
{
    let w = seq![flag, v];
    assert(w[0] == flag);
    assert(w[1] == v);
    assert(w.subrange(2, 2) =~= Seq::<Seq<char>>::empty());
    if let Ok(next) = sp_apply(a, flag, v) {
        assert(sp_words(next, w.subrange(2, 2)) == Ok::<Option<ArgsModel>, ArgsFault>(Some(next)));
    }
}


proof fn lemma_apply_js(a: ArgsModel, v: Seq<char>)
    ensures
        sp_apply(a, "--js"@, v) == Ok::<ArgsModel, ArgsFault>(ArgsModel { js: v, ..a }),
        is_valued("--js"@),
{
    reveal_strlit("--js");
}

proof fn lemma_apply_pak(a: ArgsModel, v: Seq<char>)
    ensures
        sp_apply(a, "--pak"@, v) == Ok::<ArgsModel, ArgsFault>(ArgsModel { pak: v, ..a }),
        is_valued("--pak"@),
{
    reveal_strlit("--js");
    reveal_strlit("--pak");
    assert(("--js"@).len() != ("--pak"@).len() || ("--js"@)[2] != ("--pak"@)[2] || ("--js"@)[3] != ("--pak"@)[3]);
}

proof fn lemma_apply_framebuffer(a: ArgsModel, v: Seq<char>)
    ensures
        sp_apply(a, "--framebuffer"@, v) == Ok::<ArgsModel, ArgsFault>(ArgsModel { framebuffer: v, ..a }),
        is_valued("--framebuffer"@),
{
    reveal_strlit("--js");
    reveal_strlit("--pak");
    reveal_strlit("--framebuffer");
    assert(("--js"@).len() != ("--framebuffer"@).len() || ("--js"@)[2] != ("--framebuffer"@)[2] || ("--js"@)[3] != ("--framebuffer"@)[3]);
    assert(("--pak"@).len() != ("--framebuffer"@).len() || ("--pak"@)[2] != ("--framebuffer"@)[2] || ("--pak"@)[3] != ("--framebuffer"@)[3]);
}

proof fn lemma_apply_fbink(a: ArgsModel, v: Seq<char>)
    ensures
        sp_apply(a, "--fbink"@, v) == Ok::<ArgsModel, ArgsFault>(ArgsModel { fbink: v, ..a }),
        is_valued("--fbink"@),
{
    reveal_strlit("--js");
    reveal_strlit("--pak");
    reveal_strlit("--framebuffer");
    reveal_strlit("--fbink");
    assert(("--js"@).len() != ("--fbink"@).len() || ("--js"@)[2] != ("--fbink"@)[2] || ("--js"@)[3] != ("--fbink"@)[3]);
    assert(("--pak"@).len() != ("--fbink"@).len() || ("--pak"@)[2] != ("--fbink"@)[2] || ("--pak"@)[3] != ("--fbink"@)[3]);
    assert(("--framebuffer"@).len() != ("--fbink"@).len() || ("--framebuffer"@)[2] != ("--fbink"@)[2] || ("--framebuffer"@)[3] != ("--fbink"@)[3]);
}

proof fn lemma_apply_power_helper(a: ArgsModel, v: Seq<char>)
    ensures
        sp_apply(a, "--power-helper"@, v) == Ok::<ArgsModel, ArgsFault>(ArgsModel { power_helper: Some(v), ..a }),
        is_valued("--power-helper"@),
{
    reveal_strlit("--js");
    reveal_strlit("--pak");
    reveal_strlit("--framebuffer");
    reveal_strlit("--fbink");
    reveal_strlit("--present-hz");
    reveal_strlit("--motion-waveform");
    reveal_strlit("--ghost-budget");
    reveal_strlit("--rotation");
    reveal_strlit("--sim-hz");
    reveal_strlit("--power-press");
    reveal_strlit("--doze-max-secs");
    reveal_strlit("--power-helper");
    assert(("--js"@).len() != ("--power-helper"@).len() || ("--js"@)[2] != ("--power-helper"@)[2] || ("--js"@)[3] != ("--power-helper"@)[3]);
    assert(("--pak"@).len() != ("--power-helper"@).len() || ("--pak"@)[2] != ("--power-helper"@)[2] || ("--pak"@)[3] != ("--power-helper"@)[3]);
    assert(("--framebuffer"@).len() != ("--power-helper"@).len() || ("--framebuffer"@)[2] != ("--power-helper"@)[2] || ("--framebuffer"@)[3] != ("--power-helper"@)[3]);
    assert(("--fbink"@).len() != ("--power-helper"@).len() || ("--fbink"@)[2] != ("--power-helper"@)[2] || ("--fbink"@)[3] != ("--power-helper"@)[3]);
    assert(("--present-hz"@).len() != ("--power-helper"@).len() || ("--present-hz"@)[2] != ("--power-helper"@)[2] || ("--present-hz"@)[3] != ("--power-helper"@)[3]);
    assert(("--motion-waveform"@).len() != ("--power-helper"@).len() || ("--motion-waveform"@)[2] != ("--power-helper"@)[2] || ("--motion-waveform"@)[3] != ("--power-helper"@)[3]);
    assert(("--ghost-budget"@).len() != ("--power-helper"@).len() || ("--ghost-budget"@)[2] != ("--power-helper"@)[2] || ("--ghost-budget"@)[3] != ("--power-helper"@)[3]);
    assert(("--rotation"@).len() != ("--power-helper"@).len() || ("--rotation"@)[2] != ("--power-helper"@)[2] || ("--rotation"@)[3] != ("--power-helper"@)[3]);
    assert(("--sim-hz"@).len() != ("--power-helper"@).len() || ("--sim-hz"@)[2] != ("--power-helper"@)[2] || ("--sim-hz"@)[3] != ("--power-helper"@)[3]);
    assert(("--power-press"@).len() != ("--power-helper"@).len() || ("--power-press"@)[2] != ("--power-helper"@)[2] || ("--power-press"@)[3] != ("--power-helper"@)[3]);
    assert(("--doze-max-secs"@).len() != ("--power-helper"@).len() || ("--doze-max-secs"@)[2] != ("--power-helper"@)[2] || ("--doze-max-secs"@)[3] != ("--power-helper"@)[3]);
}

proof fn lemma_apply_present_hz(a: ArgsModel, v: Seq<char>)
    ensures
        spec_parse_u32(v) matches Some(n) ==> sp_apply(a, "--present-hz"@, v) == Ok::<ArgsModel, ArgsFault>(
            ArgsModel { present_hz: n, ..a },
        ),
        is_valued("--present-hz"@),
{
    reveal_strlit("--js");
    reveal_strlit("--pak");
    reveal_strlit("--framebuffer");
    reveal_strlit("--fbink");
    reveal_strlit("--present-hz");
    assert(("--js"@).len() != ("--present-hz"@).len() || ("--js"@)[2] != ("--present-hz"@)[2] || ("--js"@)[3] != ("--present-hz"@)[3]);
    assert(("--pak"@).len() != ("--present-hz"@).len() || ("--pak"@)[2] != ("--present-hz"@)[2] || ("--pak"@)[3] != ("--present-hz"@)[3]);
    assert(("--framebuffer"@).len() != ("--present-hz"@).len() || ("--framebuffer"@)[2] != ("--present-hz"@)[2] || ("--framebuffer"@)[3] != ("--present-hz"@)[3]);
    assert(("--fbink"@).len() != ("--present-hz"@).len() || ("--fbink"@)[2] != ("--present-hz"@)[2] || ("--fbink"@)[3] != ("--present-hz"@)[3]);
}

proof fn lemma_apply_ghost_budget(a: ArgsModel, v: Seq<char>)
    ensures
        spec_parse_u32(v) matches Some(n) ==> sp_apply(a, "--ghost-budget"@, v) == Ok::<ArgsModel, ArgsFault>(
            ArgsModel { ghost_budget: n, ..a },
        ),
        is_valued("--ghost-budget"@),
{
    reveal_strlit("--js");
    reveal_strlit("--pak");
    reveal_strlit("--framebuffer");
    reveal_strlit("--fbink");
    reveal_strlit("--present-hz");
    reveal_strlit("--motion-waveform");
    reveal_strlit("--ghost-budget");
    assert(("--js"@).len() != ("--ghost-budget"@).len() || ("--js"@)[2] != ("--ghost-budget"@)[2] || ("--js"@)[3] != ("--ghost-budget"@)[3]);
    assert(("--pak"@).len() != ("--ghost-budget"@).len() || ("--pak"@)[2] != ("--ghost-budget"@)[2] || ("--pak"@)[3] != ("--ghost-budget"@)[3]);
    assert(("--framebuffer"@).len() != ("--ghost-budget"@).len() || ("--framebuffer"@)[2] != ("--ghost-budget"@)[2] || ("--framebuffer"@)[3] != ("--ghost-budget"@)[3]);
    assert(("--fbink"@).len() != ("--ghost-budget"@).len() || ("--fbink"@)[2] != ("--ghost-budget"@)[2] || ("--fbink"@)[3] != ("--ghost-budget"@)[3]);
    assert(("--present-hz"@).len() != ("--ghost-budget"@).len() || ("--present-hz"@)[2] != ("--ghost-budget"@)[2] || ("--present-hz"@)[3] != ("--ghost-budget"@)[3]);
    assert(("--motion-waveform"@).len() != ("--ghost-budget"@).len() || ("--motion-waveform"@)[2] != ("--ghost-budget"@)[2] || ("--motion-waveform"@)[3] != ("--ghost-budget"@)[3]);
}

proof fn lemma_apply_doze_max_secs(a: ArgsModel, v: Seq<char>)
    ensures
        spec_parse_u64(v) matches Some(n) ==> sp_apply(a, "--doze-max-secs"@, v) == Ok::<ArgsModel, ArgsFault>(
            ArgsModel { doze_max_secs: n, ..a },
        ),
        is_valued("--doze-max-secs"@),
{
    reveal_strlit("--js");
    reveal_strlit("--pak");
    reveal_strlit("--framebuffer");
    reveal_strlit("--fbink");
    reveal_strlit("--present-hz");
    reveal_strlit("--motion-waveform");
    reveal_strlit("--ghost-budget");
    reveal_strlit("--rotation");
    reveal_strlit("--sim-hz");
    reveal_strlit("--power-press");
    reveal_strlit("--doze-max-secs");
    assert(("--js"@).len() != ("--doze-max-secs"@).len() || ("--js"@)[2] != ("--doze-max-secs"@)[2] || ("--js"@)[3] != ("--doze-max-secs"@)[3]);
    assert(("--pak"@).len() != ("--doze-max-secs"@).len() || ("--pak"@)[2] != ("--doze-max-secs"@)[2] || ("--pak"@)[3] != ("--doze-max-secs"@)[3]);
    assert(("--framebuffer"@).len() != ("--doze-max-secs"@).len() || ("--framebuffer"@)[2] != ("--doze-max-secs"@)[2] || ("--framebuffer"@)[3] != ("--doze-max-secs"@)[3]);
    assert(("--fbink"@).len() != ("--doze-max-secs"@).len() || ("--fbink"@)[2] != ("--doze-max-secs"@)[2] || ("--fbink"@)[3] != ("--doze-max-secs"@)[3]);
    assert(("--present-hz"@).len() != ("--doze-max-secs"@).len() || ("--present-hz"@)[2] != ("--doze-max-secs"@)[2] || ("--present-hz"@)[3] != ("--doze-max-secs"@)[3]);
    assert(("--motion-waveform"@).len() != ("--doze-max-secs"@).len() || ("--motion-waveform"@)[2] != ("--doze-max-secs"@)[2] || ("--motion-waveform"@)[3] != ("--doze-max-secs"@)[3]);
    assert(("--ghost-budget"@).len() != ("--doze-max-secs"@).len() || ("--ghost-budget"@)[2] != ("--doze-max-secs"@)[2] || ("--ghost-budget"@)[3] != ("--doze-max-secs"@)[3]);
    assert(("--rotation"@).len() != ("--doze-max-secs"@).len() || ("--rotation"@)[2] != ("--doze-max-secs"@)[2] || ("--rotation"@)[3] != ("--doze-max-secs"@)[3]);
    assert(("--sim-hz"@).len() != ("--doze-max-secs"@).len() || ("--sim-hz"@)[2] != ("--doze-max-secs"@)[2] || ("--sim-hz"@)[3] != ("--doze-max-secs"@)[3]);
    assert(("--power-press"@).len() != ("--doze-max-secs"@).len() || ("--power-press"@)[2] != ("--doze-max-secs"@)[2] || ("--power-press"@)[3] != ("--doze-max-secs"@)[3]);
}

/// Two option words are told apart by their length or by one of their
/// first letters after the dashes.
spec fn words_differ(x: Seq<char>, y: Seq<char>) -> bool {
    ||| x.len() != y.len()
    ||| x[2] != y[2]
    ||| x[3] != y[3]
    ||| x[4] != y[4]
}

proof fn lemma_switch_no_power_key(a: ArgsModel)
    ensures
        sp_words(a, seq!["--no-power-key"@]) == Ok::<Option<ArgsModel>, ArgsFault>(Some(ArgsModel { power_helper: None, ..a })),
{
    reveal_strlit("--js");
    reveal_strlit("--pak");
    reveal_strlit("--framebuffer");
    reveal_strlit("--fbink");
    reveal_strlit("--present-hz");
    reveal_strlit("--motion-waveform");
    reveal_strlit("--ghost-budget");
    reveal_strlit("--rotation");
    reveal_strlit("--sim-hz");
    reveal_strlit("--power-press");
    reveal_strlit("--doze-max-secs");
    reveal_strlit("--power-helper");
    reveal_strlit("--no-power-key");
    assert(words_differ("--js"@, "--no-power-key"@));
    assert(words_differ("--pak"@, "--no-power-key"@));
    assert(words_differ("--framebuffer"@, "--no-power-key"@));
    assert(words_differ("--fbink"@, "--no-power-key"@));
    assert(words_differ("--present-hz"@, "--no-power-key"@));
    assert(words_differ("--motion-waveform"@, "--no-power-key"@));
    assert(words_differ("--ghost-budget"@, "--no-power-key"@));
    assert(words_differ("--rotation"@, "--no-power-key"@));
    assert(words_differ("--sim-hz"@, "--no-power-key"@));
    assert(words_differ("--power-press"@, "--no-power-key"@));
    assert(words_differ("--doze-max-secs"@, "--no-power-key"@));
    assert(words_differ("--power-helper"@, "--no-power-key"@));
    let w = seq!["--no-power-key"@];
    let next = ArgsModel { power_helper: None, ..a };
    assert(w[0] == "--no-power-key"@);
    assert(!is_valued(w[0]));
    assert(w.drop_first() =~= Seq::<Seq<char>>::empty());
    assert(sp_words(next, Seq::<Seq<char>>::empty()) == Ok::<Option<ArgsModel>, ArgsFault>(Some(next)));
}

proof fn lemma_switch_probe(a: ArgsModel)
    ensures
        sp_words(a, seq!["--probe"@]) == Ok::<Option<ArgsModel>, ArgsFault>(Some(ArgsModel { probe: true, ..a })),
{
    reveal_strlit("--js");
    reveal_strlit("--pak");
    reveal_strlit("--framebuffer");
    reveal_strlit("--fbink");
    reveal_strlit("--present-hz");
    reveal_strlit("--motion-waveform");
    reveal_strlit("--ghost-budget");
    reveal_strlit("--rotation");
    reveal_strlit("--sim-hz");
    reveal_strlit("--power-press");
    reveal_strlit("--doze-max-secs");
    reveal_strlit("--power-helper");
    reveal_strlit("--no-power-key");
    reveal_strlit("--probe");
    assert(words_differ("--js"@, "--probe"@));
    assert(words_differ("--pak"@, "--probe"@));
    assert(words_differ("--framebuffer"@, "--probe"@));
    assert(words_differ("--fbink"@, "--probe"@));
    assert(words_differ("--present-hz"@, "--probe"@));
    assert(words_differ("--motion-waveform"@, "--probe"@));
    assert(words_differ("--ghost-budget"@, "--probe"@));
    assert(words_differ("--rotation"@, "--probe"@));
    assert(words_differ("--sim-hz"@, "--probe"@));
    assert(words_differ("--power-press"@, "--probe"@));
    assert(words_differ("--doze-max-secs"@, "--probe"@));
    assert(words_differ("--power-helper"@, "--probe"@));
    assert(words_differ("--no-power-key"@, "--probe"@));
    let w = seq!["--probe"@];
    let next = ArgsModel { probe: true, ..a };
    assert(w[0] == "--probe"@);
    assert(!is_valued(w[0]));
    assert(w.drop_first() =~= Seq::<Seq<char>>::empty());
    assert(sp_words(next, Seq::<Seq<char>>::empty()) == Ok::<Option<ArgsModel>, ArgsFault>(Some(next)));
}

proof fn lemma_switch_probe_touch(a: ArgsModel)
    ensures
        sp_words(a, seq!["--probe-touch"@]) == Ok::<Option<ArgsModel>, ArgsFault>(Some(ArgsModel { probe_touch: true, ..a })),
{
    reveal_strlit("--js");
    reveal_strlit("--pak");
    reveal_strlit("--framebuffer");
    reveal_strlit("--fbink");
    reveal_strlit("--present-hz");
    reveal_strlit("--motion-waveform");
    reveal_strlit("--ghost-budget");
    reveal_strlit("--rotation");
    reveal_strlit("--sim-hz");
    reveal_strlit("--power-press");
    reveal_strlit("--doze-max-secs");
    reveal_strlit("--power-helper");
    reveal_strlit("--no-power-key");
    reveal_strlit("--probe");
    reveal_strlit("--probe-touch");
    assert(words_differ("--js"@, "--probe-touch"@));
    assert(words_differ("--pak"@, "--probe-touch"@));
    assert(words_differ("--framebuffer"@, "--probe-touch"@));
    assert(words_differ("--fbink"@, "--probe-touch"@));
    assert(words_differ("--present-hz"@, "--probe-touch"@));
    assert(words_differ("--motion-waveform"@, "--probe-touch"@));
    assert(words_differ("--ghost-budget"@, "--probe-touch"@));
    assert(words_differ("--rotation"@, "--probe-touch"@));
    assert(words_differ("--sim-hz"@, "--probe-touch"@));
    assert(words_differ("--power-press"@, "--probe-touch"@));
    assert(words_differ("--doze-max-secs"@, "--probe-touch"@));
    assert(words_differ("--power-helper"@, "--probe-touch"@));
    assert(words_differ("--no-power-key"@, "--probe-touch"@));
    assert(words_differ("--probe"@, "--probe-touch"@));
    let w = seq!["--probe-touch"@];
    let next = ArgsModel { probe_touch: true, ..a };
    assert(w[0] == "--probe-touch"@);
    assert(!is_valued(w[0]));
    assert(w.drop_first() =~= Seq::<Seq<char>>::empty());
    assert(sp_words(next, Seq::<Seq<char>>::empty()) == Ok::<Option<ArgsModel>, ArgsFault>(Some(next)));
}

proof fn lemma_switch_probe_epdc(a: ArgsModel)
    ensures
        sp_words(a, seq!["--probe-epdc"@]) == Ok::<Option<ArgsModel>, ArgsFault>(Some(ArgsModel { probe_epdc: true, ..a })),
{
    reveal_strlit("--js");
    reveal_strlit("--pak");
    reveal_strlit("--framebuffer");
    reveal_strlit("--fbink");
    reveal_strlit("--present-hz");
    reveal_strlit("--motion-waveform");
    reveal_strlit("--ghost-budget");
    reveal_strlit("--rotation");
    reveal_strlit("--sim-hz");
    reveal_strlit("--power-press");
    reveal_strlit("--doze-max-secs");
    reveal_strlit("--power-helper");
    reveal_strlit("--no-power-key");
    reveal_strlit("--probe");
    reveal_strlit("--probe-touch");
    reveal_strlit("--probe-epdc");
    assert(words_differ("--js"@, "--probe-epdc"@));
    assert(words_differ("--pak"@, "--probe-epdc"@));
    assert(words_differ("--framebuffer"@, "--probe-epdc"@));
    assert(words_differ("--fbink"@, "--probe-epdc"@));
    assert(words_differ("--present-hz"@, "--probe-epdc"@));
    assert(words_differ("--motion-waveform"@, "--probe-epdc"@));
    assert(words_differ("--ghost-budget"@, "--probe-epdc"@));
    assert(words_differ("--rotation"@, "--probe-epdc"@));
    assert(words_differ("--sim-hz"@, "--probe-epdc"@));
    assert(words_differ("--power-press"@, "--probe-epdc"@));
    assert(words_differ("--doze-max-secs"@, "--probe-epdc"@));
    assert(words_differ("--power-helper"@, "--probe-epdc"@));
    assert(words_differ("--no-power-key"@, "--probe-epdc"@));
    assert(words_differ("--probe"@, "--probe-epdc"@));
    assert(words_differ("--probe-touch"@, "--probe-epdc"@));
    let w = seq!["--probe-epdc"@];
    let next = ArgsModel { probe_epdc: true, ..a };
    assert(w[0] == "--probe-epdc"@);
    assert(!is_valued(w[0]));
    assert(w.drop_first() =~= Seq::<Seq<char>>::empty());
    assert(sp_words(next, Seq::<Seq<char>>::empty()) == Ok::<Option<ArgsModel>, ArgsFault>(Some(next)));
}

proof fn lemma_switch_allow_active_gui(a: ArgsModel)
    ensures
        sp_words(a, seq!["--allow-active-gui"@]) == Ok::<Option<ArgsModel>, ArgsFault>(Some(ArgsModel { allow_active_gui: true, ..a })),
{
    reveal_strlit("--js");
    reveal_strlit("--pak");
    reveal_strlit("--framebuffer");
    reveal_strlit("--fbink");
    reveal_strlit("--present-hz");
    reveal_strlit("--motion-waveform");
    reveal_strlit("--ghost-budget");
    reveal_strlit("--rotation");
    reveal_strlit("--sim-hz");
    reveal_strlit("--power-press");
    reveal_strlit("--doze-max-secs");
    reveal_strlit("--power-helper");
    reveal_strlit("--no-power-key");
    reveal_strlit("--probe");
    reveal_strlit("--probe-touch");
    reveal_strlit("--probe-epdc");
    reveal_strlit("--allow-active-gui");
    assert(words_differ("--js"@, "--allow-active-gui"@));
    assert(words_differ("--pak"@, "--allow-active-gui"@));
    assert(words_differ("--framebuffer"@, "--allow-active-gui"@));
    assert(words_differ("--fbink"@, "--allow-active-gui"@));
    assert(words_differ("--present-hz"@, "--allow-active-gui"@));
    assert(words_differ("--motion-waveform"@, "--allow-active-gui"@));
    assert(words_differ("--ghost-budget"@, "--allow-active-gui"@));
    assert(words_differ("--rotation"@, "--allow-active-gui"@));
    assert(words_differ("--sim-hz"@, "--allow-active-gui"@));
    assert(words_differ("--power-press"@, "--allow-active-gui"@));
    assert(words_differ("--doze-max-secs"@, "--allow-active-gui"@));
    assert(words_differ("--power-helper"@, "--allow-active-gui"@));
    assert(words_differ("--no-power-key"@, "--allow-active-gui"@));
    assert(words_differ("--probe"@, "--allow-active-gui"@));
    assert(words_differ("--probe-touch"@, "--allow-active-gui"@));
    assert(words_differ("--probe-epdc"@, "--allow-active-gui"@));
    let w = seq!["--allow-active-gui"@];
    let next = ArgsModel { allow_active_gui: true, ..a };
    assert(w[0] == "--allow-active-gui"@);
    assert(!is_valued(w[0]));
    assert(w.drop_first() =~= Seq::<Seq<char>>::empty());
    assert(sp_words(next, Seq::<Seq<char>>::empty()) == Ok::<Option<ArgsModel>, ArgsFault>(Some(next)));
}

} // verus!
