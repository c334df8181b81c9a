//! The command line of the grouped-query attention evidence run, and the process variables that
//! put its modes into effect.
use crate::text::{
    joined, later_arguments_stand_behind, number_behind, parse_u32, same_text, stands_behind,
    str_opt, text_opt, texts, unsigned_number,
};
use vstd::prelude::*;

verus! {

broadcast use vstd::string::group_string_axioms;

/// Which kernel candidate a run is about.
#[derive(Clone, Copy, Debug, PartialEq, Eq, Structural)]
pub enum Mode {
    Baseline,
    QTile1,
    K4,
    K8,
    K16,
    K32,
    BlockSoftmax,
    BlockSoftmaxQ8,
    DecodeP32,
    DecodeP64,
}

impl Mode {
    /// The name of a mode.
    pub open spec fn label(self) -> Seq<char> {
        match self {
            Mode::Baseline => "baseline"@,
            Mode::QTile1 => "qtile1-control"@,
            Mode::K4 => "k4-candidate"@,
            Mode::K8 => "k8-candidate"@,
            Mode::K16 => "k16-candidate"@,
            Mode::K32 => "k32-candidate"@,
            Mode::BlockSoftmax => "blocksoftmax-candidate"@,
            Mode::BlockSoftmaxQ8 => "blocksoftmax-q8-candidate"@,
            Mode::DecodeP32 => "decode-p32-candidate"@,
            Mode::DecodeP64 => "decode-p64-candidate"@,
        }
    }

    /// The name of a mode.
    pub fn name(self) -> (out: &'static str)
        ensures
            out@ == self.label(),
    {
        match self {
            Mode::Baseline => "baseline",
            Mode::QTile1 => "qtile1-control",
            Mode::K4 => "k4-candidate",
            Mode::K8 => "k8-candidate",
            Mode::K16 => "k16-candidate",
            Mode::K32 => "k32-candidate",
            Mode::BlockSoftmax => "blocksoftmax-candidate",
            Mode::BlockSoftmaxQ8 => "blocksoftmax-q8-candidate",
            Mode::DecodeP32 => "decode-p32-candidate",
            Mode::DecodeP64 => "decode-p64-candidate",
        }
    }

    /// The mode that an argument names, by its short or its full name.
    pub open spec fn named(name: Seq<char>) -> Option<Mode> {
        if name == "baseline"@ {
            Some(Mode::Baseline)
        } else if name == "qtile1"@ || name == "qtile1-control"@ {
            Some(Mode::QTile1)
        } else if name == "k4"@ || name == "k4-candidate"@ {
            Some(Mode::K4)
        } else if name == "k8"@ || name == "k8-candidate"@ {
            Some(Mode::K8)
        } else if name == "k16"@ || name == "k16-candidate"@ {
            Some(Mode::K16)
        } else if name == "k32"@ || name == "k32-candidate"@ || name == "candidate"@ {
            Some(Mode::K32)
        } else if name == "blocksoftmax"@ || name == "blocksoftmax-candidate"@ {
            Some(Mode::BlockSoftmax)
        } else if name == "blocksoftmax-q8"@ || name == "blocksoftmax-q8-candidate"@ {
            Some(Mode::BlockSoftmaxQ8)
        } else if name == "decode-p32"@ || name == "decode-p32-candidate"@ {
            Some(Mode::DecodeP32)
        } else if name == "decode-p64"@ || name == "decode-p64-candidate"@ {
            Some(Mode::DecodeP64)
        } else {
            None
        }
    }

    fn from_name(name: &str) -> (out: Option<Mode>)
        ensures
            out == Mode::named(name@),
    {
        if same_text(name, "baseline") {
            Some(Mode::Baseline)
        } else if same_text(name, "qtile1") || same_text(name, "qtile1-control") {
            Some(Mode::QTile1)
        } else if same_text(name, "k4") || same_text(name, "k4-candidate") {
            Some(Mode::K4)
        } else if same_text(name, "k8") || same_text(name, "k8-candidate") {
            Some(Mode::K8)
        } else if same_text(name, "k16") || same_text(name, "k16-candidate") {
            Some(Mode::K16)
        } else if same_text(name, "k32") || same_text(name, "k32-candidate") || same_text(name, "candidate") {
            Some(Mode::K32)
        } else if same_text(name, "blocksoftmax") || same_text(name, "blocksoftmax-candidate") {
            Some(Mode::BlockSoftmax)
        } else if same_text(name, "blocksoftmax-q8") || same_text(name, "blocksoftmax-q8-candidate") {
            Some(Mode::BlockSoftmaxQ8)
        } else if same_text(name, "decode-p32") || same_text(name, "decode-p32-candidate") {
            Some(Mode::DecodeP32)
        } else if same_text(name, "decode-p64") || same_text(name, "decode-p64-candidate") {
            Some(Mode::DecodeP64)
        } else {
            None
        }
    }
}

/// What the arguments gave so far.
pub struct Given {
    pub device_index: Option<nat>,
    pub target: Option<Seq<char>>,
    pub mode: Option<Mode>,
    pub benchmark: bool,
    pub case_filter: Option<Seq<char>>,
    pub benchmark_filter: Option<Seq<char>>,
}

/// Nothing given.
pub open spec fn nothing_given() -> Given {
    Given {
        device_index: None,
        target: None,
        mode: None,
        benchmark: false,
        case_filter: None,
        benchmark_filter: None,
    }
}

/// What the arguments give, read from the front.
pub open spec fn read_arguments(arguments: Seq<Seq<char>>, given: Given) -> Result<
    Given,
    Seq<char>,
>
    decreases arguments.len(),
{
    if arguments.len() == 0 {
        Ok(given)
    } else {
        let name = arguments[0];
        let rest = arguments.skip(1);
        if name == "--device-index"@ {
            if given.device_index is Some {
                Err("duplicate --device-index"@)
            } else if rest.len() == 0 {
                Err("--device-index requires a value"@)
            } else {
                match unsigned_number(rest[0], u32::MAX as nat) {
                    None => Err("--device-index must be a u32"@),
                    Some(index) => read_arguments(
                        rest.skip(1),
                        Given { device_index: Some(index), ..given },
                    ),
                }
            }
        } else if name == "--target"@ {
            if given.target is Some {
                Err("duplicate --target"@)
            } else if rest.len() == 0 {
                Err("--target requires a value"@)
            } else if rest[0] != "gfx1030"@ && rest[0] != "gfx1201"@ {
                Err("--target must be gfx1030 or gfx1201"@)
            } else {
                read_arguments(rest.skip(1), Given { target: Some(rest[0]), ..given })
            }
        } else if name == "--mode"@ {
            if given.mode is Some {
                Err("duplicate --mode"@)
            } else if rest.len() == 0 {
                Err(
                    "--mode requires baseline, qtile1, k4, k8, k16, k32, blocksoftmax, blocksoftmax-q8, decode-p32, or decode-p64"@,
                )
            } else {
                match Mode::named(rest[0]) {
                    None => Err(
                        "--mode must be baseline, qtile1, k4, k8, k16, k32, blocksoftmax, blocksoftmax-q8, decode-p32, or decode-p64"@,
                    ),
                    Some(mode) => read_arguments(
                        rest.skip(1),
                        Given { mode: Some(mode), ..given },
                    ),
                }
            }
        } else if name == "--benchmark"@ {
            read_arguments(rest, Given { benchmark: true, ..given })
        } else if name == "--cases"@ {
            if given.case_filter is Some {
                Err("duplicate --cases"@)
            } else if rest.len() == 0 {
                Err("--cases requires a comma-separated value"@)
            } else {
                read_arguments(rest.skip(1), Given { case_filter: Some(rest[0]), ..given })
            }
        } else if name == "--benchmark-cases"@ {
            if given.benchmark_filter is Some {
                Err("duplicate --benchmark-cases"@)
            } else if rest.len() == 0 {
                Err("--benchmark-cases requires a comma-separated value"@)
            } else {
                read_arguments(rest.skip(1), Given { benchmark_filter: Some(rest[0]), ..given })
            }
        } else {
            Err("unexpected argument "@ + name)
        }
    }
}

/// What stands in where the arguments give no mode or no filter.
#[derive(Debug)]
pub struct Defaults {
    pub mode: Option<String>,
    pub case_filter: Option<String>,
    pub benchmark_filter: Option<String>,
}

/// The first of two optional texts that is there.
pub open spec fn or_else(first: Option<Seq<char>>, second: Option<Seq<char>>) -> Option<Seq<char>> {
    match first {
        Some(text) => Some(text),
        None => second,
    }
}

/// The mode of a run: the one given, or the one that the default names.
pub open spec fn mode_of(given: Given, defaults: Defaults) -> Option<Mode> {
    match given.mode {
        Some(mode) => Some(mode),
        None => match text_opt(defaults.mode) {
            Some(name) => Mode::named(name),
            None => None,
        },
    }
}

/// The message that refuses a command line, if there is one.
pub open spec fn config_refusal(arguments: Seq<Seq<char>>, defaults: Defaults) -> Option<
    Seq<char>,
> {
    match read_arguments(arguments, nothing_given()) {
        Err(message) => Some(message),
        Ok(given) => if mode_of(given, defaults) is None {
            Some("missing --mode or SLLM_GQA6_ATTENTION_MODE"@)
        } else if given.device_index is None {
            Some("missing --device-index"@)
        } else if given.target is None {
            Some("missing --target"@)
        } else {
            None
        },
    }
}

/// What a run is asked to do.
#[derive(Debug)]
pub struct Config {
    pub device_index: u32,
    pub target: String,
    pub mode: Mode,
    pub benchmark: bool,
    pub case_filter: Option<String>,
    pub benchmark_filter: Option<String>,
}

impl Config {
    /// Whether this is what the arguments and defaults gave.
    pub open spec fn holds(self, given: Given, defaults: Defaults) -> bool {
        &&& given.device_index == Some(self.device_index as nat)
        &&& given.target == Some(self.target@)
        &&& mode_of(given, defaults) == Some(self.mode)
        &&& self.benchmark == given.benchmark
        &&& text_opt(self.case_filter) == or_else(given.case_filter, text_opt(defaults.case_filter))
        &&& text_opt(self.benchmark_filter) == or_else(
            given.benchmark_filter,
            text_opt(defaults.benchmark_filter),
        )
    }
}

struct Parsed {
    device_index: Option<u32>,
    target: Option<String>,
    mode: Option<Mode>,
    benchmark: bool,
    case_filter: Option<String>,
    benchmark_filter: Option<String>,
}

impl View for Parsed {
    type V = Given;

    closed spec fn view(&self) -> Given {
        Given {
            device_index: match self.device_index {
                Some(index) => Some(index as nat),
                None => None,
            },
            target: text_opt(self.target),
            mode: self.mode,
            benchmark: self.benchmark,
            case_filter: text_opt(self.case_filter),
            benchmark_filter: text_opt(self.benchmark_filter),
        }
    }
}

#[verifier::loop_isolation(false)]
fn parse_arguments(arguments: &Vec<String>) -> (out: Result<Parsed, String>)
    ensures
        match read_arguments(texts(arguments@), nothing_given()) {
            Err(message) => out is Err && out->Err_0@ == message,
            Ok(given) => out is Ok && out->Ok_0@ == given,
        },
{
    let ghost all = texts(arguments@);
    let mut parsed = Parsed {
        device_index: None,
        target: None,
        mode: None,
        benchmark: false,
        case_filter: None,
        benchmark_filter: None,
    };
    let mut i: usize = 0;
    assert(all.skip(0) =~= all);
    while i < arguments.len()
        invariant
            i <= arguments@.len(),
            all == texts(arguments@),
            read_arguments(all.skip(i as int), parsed@) == read_arguments(all, nothing_given()),
        decreases arguments@.len() - i,
    {
        let name = arguments[i].as_str();
        assert(all.skip(i as int)[0] == name@);
        assert(all.skip(i as int).skip(1) =~= all.skip(i + 1));
        let has_value = i + 1 < arguments.len();
        let value = if has_value {
            arguments[i + 1].as_str()
        } else {
            ""
        };
        if has_value {
            assert(all.skip(i + 1)[0] == value@);
            assert(all.skip(i + 1).skip(1) =~= all.skip(i + 2));
        }
        if same_text(name, "--device-index") {
            if parsed.device_index.is_some() {
                return Err("duplicate --device-index".to_owned());
            }
            if !has_value {
                return Err("--device-index requires a value".to_owned());
            }
            match parse_u32(value) {
                Some(index) => {
                    parsed.device_index = Some(index);
                },
                None => {
                    return Err("--device-index must be a u32".to_owned());
                },
            }
            i += 2;
        } else if same_text(name, "--target") {
            if parsed.target.is_some() {
                return Err("duplicate --target".to_owned());
            }
            if !has_value {
                return Err("--target requires a value".to_owned());
            }
            if !same_text(value, "gfx1030") && !same_text(value, "gfx1201") {
                return Err("--target must be gfx1030 or gfx1201".to_owned());
            }
            parsed.target = Some(value.to_owned());
            i += 2;
        } else if same_text(name, "--mode") {
            if parsed.mode.is_some() {
                return Err("duplicate --mode".to_owned());
            }
            if !has_value {
                return Err(
                    "--mode requires baseline, qtile1, k4, k8, k16, k32, blocksoftmax, blocksoftmax-q8, decode-p32, or decode-p64".to_owned(),
                );
            }
            match Mode::from_name(value) {
                Some(mode) => {
                    parsed.mode = Some(mode);
                },
                None => {
                    return Err(
                        "--mode must be baseline, qtile1, k4, k8, k16, k32, blocksoftmax, blocksoftmax-q8, decode-p32, or decode-p64".to_owned(),
                    );
                },
            }
            i += 2;
        } else if same_text(name, "--benchmark") {
            parsed.benchmark = true;
            i += 1;
        } else if same_text(name, "--cases") {
            if parsed.case_filter.is_some() {
                return Err("duplicate --cases".to_owned());
            }
            if !has_value {
                return Err("--cases requires a comma-separated value".to_owned());
            }
            parsed.case_filter = Some(value.to_owned());
            i += 2;
        } else if same_text(name, "--benchmark-cases") {
            if parsed.benchmark_filter.is_some() {
                return Err("duplicate --benchmark-cases".to_owned());
            }
            if !has_value {
                return Err("--benchmark-cases requires a comma-separated value".to_owned());
            }
            parsed.benchmark_filter = Some(value.to_owned());
            i += 2;
        } else {
            return Err(joined("unexpected argument ", name));
        }
    }
    Ok(parsed)
}

/// Reads the command line of a run; the defaults stand in for a mode and for filters that it does
/// not give.
pub fn parse_config(arguments: &Vec<String>, defaults: Defaults) -> (out: Result<Config, String>)
    ensures
        match config_refusal(texts(arguments@), defaults) {
            Some(message) => out is Err && out->Err_0@ == message,
            None => {
                &&& out is Ok
                &&& read_arguments(texts(arguments@), nothing_given()) is Ok
                &&& out->Ok_0.holds(
                    read_arguments(texts(arguments@), nothing_given())->Ok_0,
                    defaults,
                )
            },
        },
{
    let parsed = match parse_arguments(arguments) {
        Ok(parsed) => parsed,
        Err(message) => {
            return Err(message);
        },
    };
    let mode = match parsed.mode {
        Some(mode) => mode,
        None => {
            let fallback = match &defaults.mode {
                Some(name) => Mode::from_name(name.as_str()),
                None => None,
            };
            match fallback {
                Some(mode) => mode,
                None => {
                    return Err("missing --mode or SLLM_GQA6_ATTENTION_MODE".to_owned());
                },
            }
        },
    };
    let device_index: u32 = match parsed.device_index {
        Some(index) => index,
        None => {
            return Err("missing --device-index".to_owned());
        },
    };
    let target = match parsed.target {
        Some(target) => target,
        None => {
            return Err("missing --target".to_owned());
        },
    };
    Ok(
        Config {
            device_index,
            target,
            mode,
            benchmark: parsed.benchmark,
            case_filter: match parsed.case_filter {
                Some(filter) => Some(filter),
                None => defaults.case_filter,
            },
            benchmark_filter: match parsed.benchmark_filter {
                Some(filter) => Some(filter),
                None => defaults.benchmark_filter,
            },
        },
    )
}

/// The process variables of a mode: those that are removed, and the one that is then set to `1`.
#[derive(Debug)]
pub struct ModeVariables {
    pub removed: Vec<&'static str>,
    pub set: Option<&'static str>,
}

/// The variables that any mode could have set.
pub open spec fn mode_variables() -> Seq<Seq<char>> {
    seq![
        "SLLM_CAUSAL_ATTENTION_FORCE_BASELINE"@,
        "SLLM_CAUSAL_ATTENTION_GQA6_QTILE4"@,
        "SLLM_CAUSAL_ATTENTION_GQA6_QTILE4_K4_FP16"@,
        "SLLM_CAUSAL_ATTENTION_GQA6_QTILE4_K8_FP16"@,
        "SLLM_CAUSAL_ATTENTION_GQA6_QTILE4_K16_FP16"@,
        "SLLM_CAUSAL_ATTENTION_GQA6_QTILE4_K32_FP16"@,
        "SLLM_CAUSAL_ATTENTION_GQA6_DECODE_SPLIT_P32"@,
        "SLLM_CAUSAL_ATTENTION_GQA6_DECODE_SPLIT_P64"@,
        "SLLM_CAUSAL_ATTENTION_GQA6_PREFILL_BLOCKSOFTMAX_GFX1030"@,
        "SLLM_CAUSAL_ATTENTION_GQA6_PREFILL_BLOCKSOFTMAX_GFX1201"@,
        "SLLM_CAUSAL_ATTENTION_GQA6_PREFILL_BLOCKSOFTMAX_Q8_GFX1201"@,
    ]
}

/// The variable that puts a mode into effect on a target.
pub open spec fn variable_of(mode: Mode, target: Seq<char>) -> Option<Seq<char>> {
    match mode {
        Mode::Baseline => Some(mode_variables()[0]),
        Mode::QTile1 => Some(mode_variables()[1]),
        Mode::K4 => Some(mode_variables()[2]),
        Mode::K8 => Some(mode_variables()[3]),
        Mode::K16 => Some(mode_variables()[4]),
        Mode::K32 => Some(mode_variables()[5]),
        Mode::DecodeP32 => Some(mode_variables()[6]),
        Mode::DecodeP64 => Some(mode_variables()[7]),
        Mode::BlockSoftmax => if target == "gfx1030"@ {
            Some(mode_variables()[8])
        } else if target == "gfx1201"@ {
            Some(mode_variables()[9])
        } else {
            None
        },
        Mode::BlockSoftmaxQ8 => if target == "gfx1201"@ {
            Some(mode_variables()[10])
        } else {
            None
        },
    }
}

/// The views of a list of names.
pub open spec fn names_of(names: Seq<&'static str>) -> Seq<Seq<char>> {
    Seq::new(names.len(), |i: int| names[i]@)
}

/// The process variables that put a mode into effect: those of all modes are removed, then the one
/// of this mode is set.
pub fn configure_mode(mode: Mode, target: &str) -> (out: ModeVariables)
    ensures
        names_of(out.removed@) == mode_variables(),
        str_opt(out.set) == variable_of(mode, target@),
{
    let mut removed: Vec<&'static str> = Vec::new();
    removed.push("SLLM_CAUSAL_ATTENTION_FORCE_BASELINE");
    removed.push("SLLM_CAUSAL_ATTENTION_GQA6_QTILE4");
    removed.push("SLLM_CAUSAL_ATTENTION_GQA6_QTILE4_K4_FP16");
    removed.push("SLLM_CAUSAL_ATTENTION_GQA6_QTILE4_K8_FP16");
    removed.push("SLLM_CAUSAL_ATTENTION_GQA6_QTILE4_K16_FP16");
    removed.push("SLLM_CAUSAL_ATTENTION_GQA6_QTILE4_K32_FP16");
    removed.push("SLLM_CAUSAL_ATTENTION_GQA6_DECODE_SPLIT_P32");
    removed.push("SLLM_CAUSAL_ATTENTION_GQA6_DECODE_SPLIT_P64");
    removed.push("SLLM_CAUSAL_ATTENTION_GQA6_PREFILL_BLOCKSOFTMAX_GFX1030");
    removed.push("SLLM_CAUSAL_ATTENTION_GQA6_PREFILL_BLOCKSOFTMAX_GFX1201");
    removed.push("SLLM_CAUSAL_ATTENTION_GQA6_PREFILL_BLOCKSOFTMAX_Q8_GFX1201");
    assert(names_of(removed@) =~= mode_variables());
    let set: Option<&'static str> = match mode {
        Mode::Baseline => Some("SLLM_CAUSAL_ATTENTION_FORCE_BASELINE"),
        Mode::QTile1 => Some("SLLM_CAUSAL_ATTENTION_GQA6_QTILE4"),
        Mode::K4 => Some("SLLM_CAUSAL_ATTENTION_GQA6_QTILE4_K4_FP16"),
        Mode::K8 => Some("SLLM_CAUSAL_ATTENTION_GQA6_QTILE4_K8_FP16"),
        Mode::K16 => Some("SLLM_CAUSAL_ATTENTION_GQA6_QTILE4_K16_FP16"),
        Mode::K32 => Some("SLLM_CAUSAL_ATTENTION_GQA6_QTILE4_K32_FP16"),
        Mode::DecodeP32 => Some("SLLM_CAUSAL_ATTENTION_GQA6_DECODE_SPLIT_P32"),
        Mode::DecodeP64 => Some("SLLM_CAUSAL_ATTENTION_GQA6_DECODE_SPLIT_P64"),
        Mode::BlockSoftmax => if same_text(target, "gfx1030") {
            Some("SLLM_CAUSAL_ATTENTION_GQA6_PREFILL_BLOCKSOFTMAX_GFX1030")
        } else if same_text(target, "gfx1201") {
            Some("SLLM_CAUSAL_ATTENTION_GQA6_PREFILL_BLOCKSOFTMAX_GFX1201")
        } else {
            None
        },
        Mode::BlockSoftmaxQ8 => if same_text(target, "gfx1201") {
            Some("SLLM_CAUSAL_ATTENTION_GQA6_PREFILL_BLOCKSOFTMAX_Q8_GFX1201")
        } else {
            None
        },
    };
    ModeVariables { removed, set }
}

/// A mode sets only a variable that every mode removes first: whatever ran before, at most the
/// variable of this mode is set.
pub proof fn modes_do_not_leak(mode: Mode, target: Seq<char>)
    ensures
        variable_of(mode, target) is Some ==> mode_variables().contains(
            variable_of(mode, target)->Some_0,
        ),
{
    match variable_of(mode, target) {
        Some(name) => {
            let i = match mode {
                Mode::Baseline => 0int,
                Mode::QTile1 => 1,
                Mode::K4 => 2,
                Mode::K8 => 3,
                Mode::K16 => 4,
                Mode::K32 => 5,
                Mode::DecodeP32 => 6,
                Mode::DecodeP64 => 7,
                Mode::BlockSoftmax => if target == "gfx1030"@ {
                    8
                } else {
                    9
                },
                Mode::BlockSoftmaxQ8 => 10,
            };
            assert(mode_variables()[i] == name);
        },
        None => {},
    }
}

proof fn read_values_stand_behind(arguments: Seq<Seq<char>>, given: Given)
    ensures
        read_arguments(arguments, given) matches Ok(found) ==> {
            &&& found.target != given.target ==> found.target is Some && stands_behind(
                arguments,
                "--target"@,
                found.target->Some_0,
            ) && (found.target->Some_0 == "gfx1030"@ || found.target->Some_0 == "gfx1201"@)
            &&& found.case_filter != given.case_filter ==> found.case_filter is Some
                && stands_behind(arguments, "--cases"@, found.case_filter->Some_0)
            &&& found.benchmark_filter != given.benchmark_filter ==> found.benchmark_filter is Some
                && stands_behind(
                arguments,
                "--benchmark-cases"@,
                found.benchmark_filter->Some_0,
            )
            &&& found.device_index != given.device_index ==> found.device_index is Some
                && number_behind(
                arguments,
                "--device-index"@,
                u32::MAX as nat,
                found.device_index->Some_0,
            )
            &&& found.benchmark && !given.benchmark ==> arguments.contains("--benchmark"@)
        },
    decreases arguments.len(),
{
    if arguments.len() >= 1 {
        let name = arguments[0];
        let rest = arguments.skip(1);
        later_arguments_stand_behind(arguments, 1);
        assert(arguments.contains(name));
        assert forall|x: Seq<char>| #[trigger] rest.contains(x) implies arguments.contains(x) by {
            let i = choose|i: int| 0 <= i < rest.len() && rest[i] == x;
            assert(arguments[i + 1] == x);
        }
        if name == "--benchmark"@ {
            other_options_differ();
            read_values_stand_behind(rest, Given { benchmark: true, ..given });
        } else if rest.len() > 0 {
            let value = rest[0];
            let later = rest.skip(1);
            later_arguments_stand_behind(rest, 1);
            assert(arguments[1] == value);
            assert(stands_behind(arguments, name, value));
            assert forall|x: Seq<char>| #[trigger] later.contains(x) implies rest.contains(x) by {
                let i = choose|i: int| 0 <= i < later.len() && later[i] == x;
                assert(rest[i + 1] == x);
            }
            if name == "--device-index"@ {
                if let Some(index) = unsigned_number(value, u32::MAX as nat) {
                    assert(number_behind(arguments, name, u32::MAX as nat, index));
                    read_values_stand_behind(later, Given { device_index: Some(index), ..given });
                }
            } else if name == "--target"@ {
                read_values_stand_behind(later, Given { target: Some(value), ..given });
            } else if name == "--mode"@ {
                if let Some(mode) = Mode::named(value) {
                    read_values_stand_behind(later, Given { mode: Some(mode), ..given });
                }
            } else if name == "--cases"@ {
                read_values_stand_behind(later, Given { case_filter: Some(value), ..given });
            } else if name == "--benchmark-cases"@ {
                read_values_stand_behind(later, Given { benchmark_filter: Some(value), ..given });
            }
        }
    }
}

proof fn other_options_differ()
    ensures
        "--benchmark"@ != "--device-index"@,
        "--benchmark"@ != "--target"@,
        "--benchmark"@ != "--mode"@,
{
    reveal_strlit("--benchmark");
    reveal_strlit("--device-index");
    reveal_strlit("--target");
    reveal_strlit("--mode");
    assert("--benchmark"@.len() == 11 && "--device-index"@.len() == 14 && "--target"@.len() == 8
        && "--mode"@.len() == 6);
}

/// What a run is asked for stands in its command line, each part behind its own name; a filter that is
/// not there is the default one, and the target is one of two.
pub proof fn parts_stand_behind_their_names(
    arguments: &Vec<String>,
    defaults: Defaults,
    config: Config,
)
    requires
        call_ensures(parse_config, (arguments, defaults), Ok(config)),
    ensures
        ({
            let all = texts(arguments@);
            &&& stands_behind(all, "--target"@, config.target@)
            &&& config.target@ == "gfx1030"@ || config.target@ == "gfx1201"@
            &&& number_behind(all, "--device-index"@, u32::MAX as nat, config.device_index as nat)
            &&& config.benchmark ==> all.contains("--benchmark"@)
            &&& text_opt(config.case_filter) matches Some(filter) ==> stands_behind(
                all,
                "--cases"@,
                filter,
            ) || text_opt(defaults.case_filter) == Some(filter)
            &&& text_opt(config.benchmark_filter) matches Some(filter) ==> stands_behind(
                all,
                "--benchmark-cases"@,
                filter,
            ) || text_opt(defaults.benchmark_filter) == Some(filter)
        }),
{
    read_values_stand_behind(texts(arguments@), nothing_given());
}

proof fn variables_differ()
    ensures
        forall|i: int, j: int|
            0 <= i < j < 11 ==> #[trigger] mode_variables()[i] != #[trigger] mode_variables()[j],
{
    reveal_strlit("SLLM_CAUSAL_ATTENTION_FORCE_BASELINE");
    reveal_strlit("SLLM_CAUSAL_ATTENTION_GQA6_QTILE4");
    reveal_strlit("SLLM_CAUSAL_ATTENTION_GQA6_QTILE4_K4_FP16");
    reveal_strlit("SLLM_CAUSAL_ATTENTION_GQA6_QTILE4_K8_FP16");
    reveal_strlit("SLLM_CAUSAL_ATTENTION_GQA6_QTILE4_K16_FP16");
    reveal_strlit("SLLM_CAUSAL_ATTENTION_GQA6_QTILE4_K32_FP16");
    reveal_strlit("SLLM_CAUSAL_ATTENTION_GQA6_DECODE_SPLIT_P32");
    reveal_strlit("SLLM_CAUSAL_ATTENTION_GQA6_DECODE_SPLIT_P64");
    reveal_strlit("SLLM_CAUSAL_ATTENTION_GQA6_PREFILL_BLOCKSOFTMAX_GFX1030");
    reveal_strlit("SLLM_CAUSAL_ATTENTION_GQA6_PREFILL_BLOCKSOFTMAX_GFX1201");
    reveal_strlit("SLLM_CAUSAL_ATTENTION_GQA6_PREFILL_BLOCKSOFTMAX_Q8_GFX1201");
    let names = mode_variables();
    assert(names[0].len() == 36 && names[1].len() == 33 && names[2].len() == 41 && names[3].len() == 41
        && names[4].len() == 42 && names[5].len() == 42 && names[6].len() == 43 && names[7].len() == 43
        && names[8].len() == 55 && names[9].len() == 55 && names[10].len() == 58);
    assert(names[2][35] == '4' && names[3][35] == '8');
    assert(names[4][35] == '1' && names[5][35] == '3');
    assert(names[6][41] == '3' && names[7][41] == '6');
    assert(names[8][52] == '0' && names[9][52] == '2');
}

/// A mode sets one of the variables that are removed before it, and no two modes set the same one: what
/// another mode left behind cannot be taken for it. The block softmax has a variable for each target.
pub proof fn modes_have_variables_of_their_own(
    a: Mode,
    b: Mode,
    target: &str,
    first: ModeVariables,
    second: ModeVariables,
)
    requires
        call_ensures(configure_mode, (a, target), first),
        call_ensures(configure_mode, (b, target), second),
    ensures
        names_of(first.removed@) == names_of(second.removed@),
        first.removed@.len() == 11,
        first.set is None <==> a == Mode::BlockSoftmax && target@ != "gfx1030"@ && target@
            != "gfx1201"@ || a == Mode::BlockSoftmaxQ8 && target@ != "gfx1201"@,
        first.set is Some ==> names_of(first.removed@).contains(first.set->Some_0@),
        a != b && first.set is Some && second.set is Some ==> first.set->Some_0@
            != second.set->Some_0@,
        a == Mode::Baseline ==> first.set is Some && first.set->Some_0@
            == "SLLM_CAUSAL_ATTENTION_FORCE_BASELINE"@,
{
    variables_differ();
    let names = mode_variables();
    assert(names.len() == 11);
    if first.set is Some {
        let at: int = match a {
            Mode::Baseline => 0,
            Mode::QTile1 => 1,
            Mode::K4 => 2,
            Mode::K8 => 3,
            Mode::K16 => 4,
            Mode::K32 => 5,
            Mode::DecodeP32 => 6,
            Mode::DecodeP64 => 7,
            Mode::BlockSoftmax => if target@ == "gfx1030"@ {
                8
            } else {
                9
            },
            Mode::BlockSoftmaxQ8 => 10,
        };
        assert(first.set->Some_0@ == names[at]);
        assert(names_of(first.removed@)[at] == names[at]);
    }
}

/// A mode is found again by the name that it is reported under.
pub proof fn modes_are_found_by_their_names(mode: Mode, name: &'static str)
    requires
        call_ensures(Mode::name, (mode,), name),
    ensures
        Mode::named(name@) == Some(mode),
{
    reveal_strlit("baseline");
    reveal_strlit("qtile1");
    reveal_strlit("qtile1-control");
    reveal_strlit("k4");
    reveal_strlit("k4-candidate");
    reveal_strlit("k8");
    reveal_strlit("k8-candidate");
    reveal_strlit("k16");
    reveal_strlit("k16-candidate");
    reveal_strlit("k32");
    reveal_strlit("k32-candidate");
    reveal_strlit("candidate");
    reveal_strlit("blocksoftmax");
    reveal_strlit("blocksoftmax-candidate");
    reveal_strlit("blocksoftmax-q8");
    reveal_strlit("blocksoftmax-q8-candidate");
    reveal_strlit("decode-p32");
    reveal_strlit("decode-p32-candidate");
    reveal_strlit("decode-p64");
    reveal_strlit("decode-p64-candidate");
    assert("k4-candidate"@[1] == '4' && "k8-candidate"@[1] == '8' && "blocksoftmax"@[0] == 'b');
    assert("k16-candidate"@[1] == '1' && "k32-candidate"@[1] == '3');
    assert("baseline"@.len() == 8 && "qtile1"@.len() == 6 && "qtile1-control"@.len() == 14);
    assert("k4"@.len() == 2 && "k4-candidate"@.len() == 12 && "k8"@.len() == 2 && "k8-candidate"@.len()
        == 12);
    assert("k16"@.len() == 3 && "k16-candidate"@.len() == 13 && "k32"@.len() == 3
        && "k32-candidate"@.len() == 13 && "candidate"@.len() == 9);
    assert("blocksoftmax"@.len() == 12 && "blocksoftmax-candidate"@.len() == 22
        && "blocksoftmax-q8"@.len() == 15 && "blocksoftmax-q8-candidate"@.len() == 25);
    assert("decode-p32"@.len() == 10 && "decode-p32-candidate"@.len() == 20 && "decode-p64"@.len() == 10
        && "decode-p64-candidate"@.len() == 20);
    assert("decode-p32-candidate"@[8] == '3' && "decode-p64-candidate"@[8] == '6');
}

} // verus!
