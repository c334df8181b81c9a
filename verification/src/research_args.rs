//! The command line of the cache research run, by flags or by position, and what a target runs.
use crate::text::{
    begins_with, joined, joined3, later_arguments_stand_behind, number_behind, parse_u32,
    same_text, stands_behind, starts_with, text_opt, texts, unsigned_number,
};
use vstd::prelude::*;
use vstd::string::StringExecFns;

verus! {

broadcast use vstd::string::group_string_axioms;

/// The cache encodings of the run.
#[derive(Clone, Copy, Debug, PartialEq, Eq, Structural)]
pub enum Block16Encoding {
    Fp8E4M3Block16,
    Fp8E5M2Block16,
}

/// The forms in which an eight-bit value is stored.
#[derive(Clone, Copy, Debug, PartialEq, Eq, Structural)]
pub enum PhysicalVariant {
    OcpE4M3Fn,
    OcpE5M2,
    E4M3FnuZ,
}

/// The name of an encoding.
pub open spec fn encoding_label(encoding: Block16Encoding) -> Seq<char> {
    match encoding {
        Block16Encoding::Fp8E4M3Block16 => "kv-fp8-e4-block16"@,
        Block16Encoding::Fp8E5M2Block16 => "kv-fp8-e5-block16"@,
    }
}

/// The name of an encoding.
pub fn encoding_name(encoding: Block16Encoding) -> (out: &'static str)
    ensures
        out@ == encoding_label(encoding),
{
    match encoding {
        Block16Encoding::Fp8E4M3Block16 => "kv-fp8-e4-block16",
        Block16Encoding::Fp8E5M2Block16 => "kv-fp8-e5-block16",
    }
}

/// The name of a form.
pub fn variant_name(variant: PhysicalVariant) -> (out: &'static str)
    ensures
        out@ == match variant {
            PhysicalVariant::OcpE4M3Fn => "E4M3-OCP"@,
            PhysicalVariant::OcpE5M2 => "E5M2-software"@,
            PhysicalVariant::E4M3FnuZ => "E4M3-FNUZ"@,
        },
{
    match variant {
        PhysicalVariant::OcpE4M3Fn => "E4M3-OCP",
        PhysicalVariant::OcpE5M2 => "E5M2-software",
        PhysicalVariant::E4M3FnuZ => "E4M3-FNUZ",
    }
}

/// The name of the production descriptor of an encoding.
pub open spec fn descriptor_label(encoding: Block16Encoding) -> Seq<char> {
    match encoding {
        Block16Encoding::Fp8E4M3Block16 => "kv-fp8-e4-block16-v2"@,
        Block16Encoding::Fp8E5M2Block16 => "kv-fp8-e5-block16-v2"@,
    }
}

/// The name of the production descriptor of an encoding.
pub fn production_descriptor(encoding: Block16Encoding) -> (out: &'static str)
    ensures
        out@ == descriptor_label(encoding),
{
    match encoding {
        Block16Encoding::Fp8E4M3Block16 => "kv-fp8-e4-block16-v2",
        Block16Encoding::Fp8E5M2Block16 => "kv-fp8-e5-block16-v2",
    }
}

/// The encoding and the form that a target runs.
pub open spec fn target_outcome(target: Seq<char>) -> Option<(Block16Encoding, PhysicalVariant)> {
    if target == "gfx1030"@ {
        Some((Block16Encoding::Fp8E5M2Block16, PhysicalVariant::OcpE5M2))
    } else if target == "gfx1201"@ {
        Some((Block16Encoding::Fp8E4M3Block16, PhysicalVariant::OcpE4M3Fn))
    } else {
        None
    }
}

/// The encoding and the form that a target runs.
pub fn target_config(target: &str) -> (out: Result<(Block16Encoding, PhysicalVariant), String>)
    ensures
        match target_outcome(target@) {
            Some(config) => out is Ok && out->Ok_0 == config,
            None => out is Err && out->Err_0@ == "--target must be exact gfx1030 or gfx1201"@,
        },
{
    if same_text(target, "gfx1030") {
        Ok((Block16Encoding::Fp8E5M2Block16, PhysicalVariant::OcpE5M2))
    } else if same_text(target, "gfx1201") {
        Ok((Block16Encoding::Fp8E4M3Block16, PhysicalVariant::OcpE4M3Fn))
    } else {
        Err("--target must be exact gfx1030 or gfx1201".to_owned())
    }
}

/// What the arguments give.
pub struct Given {
    pub device_index: Option<nat>,
    pub target: Option<Seq<char>>,
    pub encoding: Option<Seq<char>>,
    pub candidate: Option<Seq<char>>,
    pub output: Option<Seq<char>>,
}

/// Nothing given.
pub open spec fn nothing_given() -> Given {
    Given { device_index: None, target: None, encoding: None, candidate: None, output: None }
}

/// What flags give, read from the front: each takes a value, and the last of a name counts.
pub open spec fn read_flags(arguments: Seq<Seq<char>>, given: Given) -> Result<Given, Seq<char>>
    decreases arguments.len(),
{
    if arguments.len() == 0 {
        Ok(given)
    } else {
        let name = arguments[0];
        let rest = arguments.skip(1);
        if name == "--device-index"@ {
            if rest.len() == 0 {
                Err("--device-index needs a value"@)
            } else {
                match unsigned_number(rest[0], u32::MAX as nat) {
                    None => Err("--device-index must be u32"@),
                    Some(index) => read_flags(
                        rest.skip(1),
                        Given { device_index: Some(index), ..given },
                    ),
                }
            }
        } else if name == "--target"@ {
            if rest.len() == 0 {
                Err("--target needs a value"@)
            } else {
                read_flags(rest.skip(1), Given { target: Some(rest[0]), ..given })
            }
        } else if name == "--encoding"@ {
            if rest.len() == 0 {
                Err("--encoding needs a value"@)
            } else {
                read_flags(rest.skip(1), Given { encoding: Some(rest[0]), ..given })
            }
        } else if name == "--candidate-spec"@ {
            if rest.len() == 0 {
                Err("--candidate-spec needs a value"@)
            } else {
                read_flags(rest.skip(1), Given { candidate: Some(rest[0]), ..given })
            }
        } else if name == "--output"@ {
            if rest.len() == 0 {
                Err("--output needs a value"@)
            } else {
                read_flags(rest.skip(1), Given { output: Some(rest[0]), ..given })
            }
        } else {
            Err("unexpected argument "@ + name)
        }
    }
}

/// What flags give: a device, a target and a candidate must be among it.
pub open spec fn flag_outcome(arguments: Seq<Seq<char>>) -> Result<Given, Seq<char>> {
    match read_flags(arguments, nothing_given()) {
        Err(message) => Err(message),
        Ok(given) => if given.device_index is None {
            Err("missing --device-index"@)
        } else if given.target is None {
            Err("missing --target"@)
        } else if given.candidate is None {
            Err("missing --candidate-spec"@)
        } else {
            Ok(given)
        },
    }
}

/// Whether an argument is the name of an encoding.
pub open spec fn is_encoding_name(name: Seq<char>) -> bool {
    name == "kv-fp8-e4-block16"@ || name == "kv-fp8-e5-block16"@ || name == "e4"@ || name == "e5"@
}

/// What arguments give by their position: a device, a target, an encoding that may be left out, a
/// candidate, and an output that may be left out.
pub open spec fn position_outcome(arguments: Seq<Seq<char>>) -> Result<Given, Seq<char>> {
    if arguments.len() < 3 || arguments.len() > 5 {
        Err("usage: DEVICE_INDEX TARGET [ENCODING] CANDIDATE_SPEC_JSON [OUTPUT_JSON]"@)
    } else {
        match unsigned_number(arguments[0], u32::MAX as nat) {
            None => Err("DEVICE_INDEX must be u32"@),
            Some(index) => {
                let named = arguments.len() >= 4 && is_encoding_name(arguments[2]);
                let at = if named {
                    3int
                } else {
                    2
                };
                Ok(
                    Given {
                        device_index: Some(index),
                        target: Some(arguments[1]),
                        encoding: if named {
                            Some(arguments[2])
                        } else {
                            None
                        },
                        candidate: Some(arguments[at]),
                        output: if at + 1 < arguments.len() {
                            Some(arguments[at + 1])
                        } else {
                            None
                        },
                    },
                )
            },
        }
    }
}

/// What a command line gives: by flags where it starts with one, else by position.
pub open spec fn given_outcome(arguments: Seq<Seq<char>>) -> Result<Given, Seq<char>> {
    if arguments.len() > 0 && begins_with(arguments[0], "--"@) {
        flag_outcome(arguments)
    } else {
        position_outcome(arguments)
    }
}

/// Whether a given encoding is the one that the target runs.
pub open spec fn encoding_fits(encoding: Block16Encoding, supplied: Seq<char>) -> bool {
    ||| supplied == encoding_label(encoding)
    ||| encoding == Block16Encoding::Fp8E4M3Block16 && supplied == "e4"@
    ||| encoding == Block16Encoding::Fp8E5M2Block16 && supplied == "e5"@
}

/// The message that refuses what a command line gives, if there is one.
pub open spec fn target_refusal(given: Given) -> Option<Seq<char>> {
    let target = given.target->Some_0;
    match target_outcome(target) {
        None => Some("--target must be exact gfx1030 or gfx1201"@),
        Some((encoding, _)) => match given.encoding {
            None => None,
            Some(supplied) => if encoding_fits(encoding, supplied) {
                None
            } else {
                Some(
                    "encoding "@ + supplied + " is incompatible with target "@ + target
                        + " (expected "@ + encoding_label(encoding) + ")"@,
                )
            },
        },
    }
}

/// The message that refuses a command line, if there is one.
pub open spec fn arguments_refusal(arguments: Seq<Seq<char>>) -> Option<Seq<char>> {
    match given_outcome(arguments) {
        Err(message) => Some(message),
        Ok(given) => target_refusal(given),
    }
}

/// What a run is asked to do.
#[derive(Debug)]
pub struct ResearchArguments {
    pub device_index: u32,
    pub target: String,
    pub encoding: Block16Encoding,
    pub variant: PhysicalVariant,
    pub candidate_path: String,
    pub output: Option<String>,
}

impl ResearchArguments {
    /// Whether this is what the arguments gave.
    pub open spec fn holds(self, given: Given) -> bool {
        &&& given.device_index == Some(self.device_index as nat)
        &&& given.target == Some(self.target@)
        &&& target_outcome(self.target@) == Some((self.encoding, self.variant))
        &&& given.candidate == Some(self.candidate_path@)
        &&& given.output == text_opt(self.output)
    }
}

struct Parsed {
    device_index: Option<u32>,
    target: Option<String>,
    encoding: Option<String>,
    candidate: Option<String>,
    output: Option<String>,
}

impl View for Parsed {
    type V = Given;

    closed spec fn view(&self) -> Given {
        Given {
            device_index: match self.device_index {
                Some(index) => Some(index as nat),
                None => None,
            },
            target: text_opt(self.target),
            encoding: text_opt(self.encoding),
            candidate: text_opt(self.candidate),
            output: text_opt(self.output),
        }
    }
}

#[verifier::loop_isolation(false)]
fn parse_flags(arguments: &Vec<String>) -> (out: Result<Parsed, String>)
    ensures
        match flag_outcome(texts(arguments@)) {
            Err(message) => out is Err && out->Err_0@ == message,
            Ok(given) => out is Ok && out->Ok_0@ == given,
        },
{
    let ghost all = texts(arguments@);
    let mut parsed = Parsed {
        device_index: None,
        target: None,
        encoding: None,
        candidate: None,
        output: None,
    };
    let mut i: usize = 0;
    assert(all.skip(0) =~= all);
    while i < arguments.len()
        invariant
            i <= arguments@.len(),
            all == texts(arguments@),
            read_flags(all.skip(i as int), parsed@) == read_flags(all, nothing_given()),
        decreases arguments@.len() - i,
    {
        let name = arguments[i].as_str();
        assert(all.skip(i as int)[0] == name@);
        assert(all.skip(i as int).skip(1) =~= all.skip(i + 1));
        let has_value = i + 1 < arguments.len();
        let value = if has_value {
            arguments[i + 1].as_str()
        } else {
            ""
        };
        if has_value {
            assert(all.skip(i + 1)[0] == value@);
            assert(all.skip(i + 1).skip(1) =~= all.skip(i + 2));
        }
        if same_text(name, "--device-index") {
            if !has_value {
                return Err("--device-index needs a value".to_owned());
            }
            match parse_u32(value) {
                Some(index) => {
                    parsed.device_index = Some(index);
                },
                None => {
                    return Err("--device-index must be u32".to_owned());
                },
            }
        } else if same_text(name, "--target") {
            if !has_value {
                return Err("--target needs a value".to_owned());
            }
            parsed.target = Some(value.to_owned());
        } else if same_text(name, "--encoding") {
            if !has_value {
                return Err("--encoding needs a value".to_owned());
            }
            parsed.encoding = Some(value.to_owned());
        } else if same_text(name, "--candidate-spec") {
            if !has_value {
                return Err("--candidate-spec needs a value".to_owned());
            }
            parsed.candidate = Some(value.to_owned());
        } else if same_text(name, "--output") {
            if !has_value {
                return Err("--output needs a value".to_owned());
            }
            parsed.output = Some(value.to_owned());
        } else {
            return Err(joined("unexpected argument ", name));
        }
        i += 2;
    }
    if parsed.device_index.is_none() {
        return Err("missing --device-index".to_owned());
    }
    if parsed.target.is_none() {
        return Err("missing --target".to_owned());
    }
    if parsed.candidate.is_none() {
        return Err("missing --candidate-spec".to_owned());
    }
    Ok(parsed)
}

fn parse_positions(arguments: &Vec<String>) -> (out: Result<Parsed, String>)
    ensures
        match position_outcome(texts(arguments@)) {
            Err(message) => out is Err && out->Err_0@ == message,
            Ok(given) => out is Ok && out->Ok_0@ == given,
        },
{
    if arguments.len() < 3 || arguments.len() > 5 {
        return Err(
            "usage: DEVICE_INDEX TARGET [ENCODING] CANDIDATE_SPEC_JSON [OUTPUT_JSON]".to_owned(),
        );
    }
    let ghost all = texts(arguments@);
    let device_index: u32 = match parse_u32(arguments[0].as_str()) {
        Some(index) => index,
        None => {
            return Err("DEVICE_INDEX must be u32".to_owned());
        },
    };
    let third = arguments[2].as_str();
    let named = arguments.len() >= 4 && (same_text(third, "kv-fp8-e4-block16") || same_text(
        third,
        "kv-fp8-e5-block16",
    ) || same_text(third, "e4") || same_text(third, "e5"));
    let at: usize = if named {
        3
    } else {
        2
    };
    let encoding = if named {
        Some(third.to_owned())
    } else {
        None
    };
    let output = if at + 1 < arguments.len() {
        Some(arguments[at + 1].as_str().to_owned())
    } else {
        None
    };
    let parsed = Parsed {
        device_index: Some(device_index),
        target: Some(arguments[1].as_str().to_owned()),
        encoding,
        candidate: Some(arguments[at].as_str().to_owned()),
        output,
    };
    assert(all[1] == arguments@[1]@ && all[2] == arguments@[2]@);
    Ok(parsed)
}

/// Reads the command line of a run.
pub fn parse_research_arguments(arguments: &Vec<String>) -> (out: Result<ResearchArguments, String>)
    ensures
        match arguments_refusal(texts(arguments@)) {
            Some(message) => out is Err && out->Err_0@ == message,
            None => {
                &&& out is Ok
                &&& given_outcome(texts(arguments@)) is Ok
                &&& out->Ok_0.holds(given_outcome(texts(arguments@))->Ok_0)
            },
        },
{
    let flags = arguments.len() > 0 && starts_with(arguments[0].as_str(), "--");
    assert(arguments@.len() > 0 ==> texts(arguments@)[0] == arguments@[0]@);
    let outcome = if flags {
        parse_flags(arguments)
    } else {
        parse_positions(arguments)
    };
    let parsed = match outcome {
        Ok(parsed) => parsed,
        Err(message) => {
            return Err(message);
        },
    };
    match (parsed.device_index, parsed.target, parsed.candidate) {
        (Some(device_index), Some(target), Some(candidate_path)) => {
            let (encoding, variant) = match target_config(target.as_str()) {
                Ok(config) => config,
                Err(message) => {
                    return Err(message);
                },
            };
            match &parsed.encoding {
                None => {},
                Some(supplied) => {
                    let supplied = supplied.as_str();
                    let expected = encoding_name(encoding);
                    let fits = same_text(supplied, expected) || (encoding
                        == Block16Encoding::Fp8E4M3Block16 && same_text(supplied, "e4")) || (
                    encoding == Block16Encoding::Fp8E5M2Block16 && same_text(supplied, "e5"));
                    if !fits {
                        let mut message = joined3(
                            "encoding ",
                            supplied,
                            " is incompatible with target ",
                        );
                        message.append(target.as_str());
                        message.append(" (expected ");
                        message.append(expected);
                        message.append(")");
                        return Err(message);
                    }
                },
            }
            Ok(
                ResearchArguments {
                    device_index,
                    target,
                    encoding,
                    variant,
                    candidate_path,
                    output: parsed.output,
                },
            )
        },
        _ => {
            assert(false);
            Err("missing --target".to_owned())
        },
    }
}

proof fn read_values_stand_behind(arguments: Seq<Seq<char>>, given: Given)
    ensures
        read_flags(arguments, given) matches Ok(found) ==> {
            &&& found.target != given.target ==> found.target is Some && stands_behind(
                arguments,
                "--target"@,
                found.target->Some_0,
            )
            &&& found.encoding != given.encoding ==> found.encoding is Some && stands_behind(
                arguments,
                "--encoding"@,
                found.encoding->Some_0,
            )
            &&& found.candidate != given.candidate ==> found.candidate is Some && stands_behind(
                arguments,
                "--candidate-spec"@,
                found.candidate->Some_0,
            )
            &&& found.output != given.output ==> found.output is Some && stands_behind(
                arguments,
                "--output"@,
                found.output->Some_0,
            )
            &&& found.device_index != given.device_index ==> found.device_index is Some
                && number_behind(
                arguments,
                "--device-index"@,
                u32::MAX as nat,
                found.device_index->Some_0,
            )
        },
    decreases arguments.len(),
{
    if arguments.len() >= 2 {
        let name = arguments[0];
        let value = arguments[1];
        let rest = arguments.skip(1);
        let later = rest.skip(1);
        later_arguments_stand_behind(arguments, 1);
        later_arguments_stand_behind(rest, 1);
        assert(rest[0] == value);
        assert(stands_behind(arguments, name, value));
        if name == "--device-index"@ {
            if let Some(index) = unsigned_number(value, u32::MAX as nat) {
                assert(number_behind(arguments, name, u32::MAX as nat, index));
                read_values_stand_behind(later, Given { device_index: Some(index), ..given });
            }
        } else if name == "--target"@ {
            read_values_stand_behind(later, Given { target: Some(value), ..given });
        } else if name == "--encoding"@ {
            read_values_stand_behind(later, Given { encoding: Some(value), ..given });
        } else if name == "--candidate-spec"@ {
            read_values_stand_behind(later, Given { candidate: Some(value), ..given });
        } else if name == "--output"@ {
            read_values_stand_behind(later, Given { output: Some(value), ..given });
        }
    }
}

/// What a run is asked for stands in its command line: behind its names where it starts with one, else
/// device and target first, the candidate behind them or behind an encoding, and the output right behind
/// the candidate. The target fixes the encoding.
pub proof fn parts_stand_where_they_belong(arguments: &Vec<String>, config: ResearchArguments)
    requires
        call_ensures(parse_research_arguments, (arguments,), Ok(config)),
    ensures
        ({
            let all = texts(arguments@);
            let flags = all.len() > 0 && begins_with(all[0], "--"@);
            &&& flags ==> {
                &&& stands_behind(all, "--target"@, config.target@)
                &&& stands_behind(all, "--candidate-spec"@, config.candidate_path@)
                &&& number_behind(
                    all,
                    "--device-index"@,
                    u32::MAX as nat,
                    config.device_index as nat,
                )
                &&& text_opt(config.output) matches Some(output) ==> stands_behind(
                    all,
                    "--output"@,
                    output,
                )
            }
            &&& !flags ==> {
                &&& 3 <= all.len() <= 5
                &&& unsigned_number(all[0], u32::MAX as nat) == Some(config.device_index as nat)
                &&& config.target@ == all[1]
                &&& exists|at: int|
                    {
                        &&& 2 <= at <= 3 && at < all.len()
                        &&& config.candidate_path@ == #[trigger] all[at]
                        &&& at == 3 ==> is_encoding_name(all[2])
                        &&& config.output is Some <==> at + 1 < all.len()
                        &&& text_opt(config.output) matches Some(output) ==> output == all[at + 1]
                    }
            }
            &&& config.target@ == "gfx1030"@ && config.encoding == Block16Encoding::Fp8E5M2Block16
                && config.variant == PhysicalVariant::OcpE5M2 || config.target@ == "gfx1201"@
                && config.encoding == Block16Encoding::Fp8E4M3Block16 && config.variant
                == PhysicalVariant::OcpE4M3Fn
        }),
{
    let all = texts(arguments@);
    read_values_stand_behind(all, nothing_given());
    if !(all.len() > 0 && begins_with(all[0], "--"@)) {
        let at: int = if all.len() >= 4 && is_encoding_name(all[2]) {
            3
        } else {
            2
        };
        assert(config.candidate_path@ == all[at]);
    }
}

} // verus!
