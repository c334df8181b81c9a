//! The command lines of the operator runs.
use crate::text::{
    joined, joined3, later_arguments_stand_behind, number_behind, parse_u32, parse_unsigned,
    same_text, stands_behind, text_opt, texts, unsigned_number,
};
use vstd::prelude::*;

verus! {

broadcast use vstd::string::group_string_axioms;

/// The runs whose command line names a device and its target.
#[derive(Clone, Copy, Debug, PartialEq, Eq, Structural)]
pub enum DeviceTool {
    AttentionPreprocess,
    Elementwise,
    Transfer,
}

impl DeviceTool {
    /// Whether a run knows a target.
    pub open spec fn knows(self, target: Seq<char>) -> bool {
        ||| target == "gfx1030"@
        ||| target == "gfx1201"@
        ||| self != DeviceTool::Transfer && target == "gfx942"@
    }

    /// What a run says about a target that it does not know.
    pub open spec fn target_message(self) -> Seq<char> {
        match self {
            DeviceTool::AttentionPreprocess =>
                "--target must be the exact gfx1030, gfx1201, or gfx942 target"@,
            DeviceTool::Elementwise => "--target must be gfx1030, gfx1201, or gfx942"@,
            DeviceTool::Transfer => "--target must be gfx1030 or gfx1201"@,
        }
    }

    fn is_known(self, target: &str) -> (out: bool)
        ensures
            out == self.knows(target@),
    {
        same_text(target, "gfx1030") || same_text(target, "gfx1201") || (self
            != DeviceTool::Transfer && same_text(target, "gfx942"))
    }

    fn unknown_target(self) -> (out: String)
        ensures
            out@ == self.target_message(),
    {
        match self {
            DeviceTool::AttentionPreprocess =>
                "--target must be the exact gfx1030, gfx1201, or gfx942 target".to_owned(),
            DeviceTool::Elementwise => "--target must be gfx1030, gfx1201, or gfx942".to_owned(),
            DeviceTool::Transfer => "--target must be gfx1030 or gfx1201".to_owned(),
        }
    }
}

/// What the arguments gave so far.
pub struct Given {
    pub device_index: Option<nat>,
    pub target: Option<Seq<char>>,
    pub gemma_ops: bool,
}

/// Nothing given.
pub open spec fn nothing_given() -> Given {
    Given { device_index: None, target: None, gemma_ops: false }
}

/// What the arguments give, read from the front: nothing may stand twice, and only the elementwise
/// run takes the Gemma operations.
pub open spec fn read_arguments(tool: DeviceTool, arguments: Seq<Seq<char>>, given: Given) -> Result<
    Given,
    Seq<char>,
>
    decreases arguments.len(),
{
    if arguments.len() == 0 {
        Ok(given)
    } else {
        let name = arguments[0];
        if name == "--device-index"@ {
            if given.device_index is Some {
                Err("duplicate --device-index"@)
            } else if arguments.len() == 1 {
                Err("--device-index requires a value"@)
            } else {
                match unsigned_number(arguments[1], u32::MAX as nat) {
                    None => Err("--device-index must be a u32"@),
                    Some(index) => read_arguments(
                        tool,
                        arguments.skip(2),
                        Given { device_index: Some(index), ..given },
                    ),
                }
            }
        } else if name == "--target"@ {
            if given.target is Some {
                Err("duplicate --target"@)
            } else if arguments.len() == 1 {
                Err("--target requires a value"@)
            } else if !tool.knows(arguments[1]) {
                Err(tool.target_message())
            } else {
                read_arguments(
                    tool,
                    arguments.skip(2),
                    Given { target: Some(arguments[1]), ..given },
                )
            }
        } else if tool == DeviceTool::Elementwise && name == "--gemma-ops"@ {
            if given.gemma_ops {
                Err("duplicate --gemma-ops"@)
            } else {
                read_arguments(tool, arguments.skip(1), Given { gemma_ops: true, ..given })
            }
        } else {
            Err("unexpected argument `"@ + name + "`"@)
        }
    }
}

/// What a command line gives: a device and its target must be there.
pub open spec fn device_outcome(tool: DeviceTool, arguments: Seq<Seq<char>>) -> Result<
    Given,
    Seq<char>,
> {
    match read_arguments(tool, arguments, nothing_given()) {
        Err(message) => Err(message),
        Ok(given) => if given.device_index is None {
            Err("missing --device-index"@)
        } else if given.target is None {
            Err("missing --target"@)
        } else {
            Ok(given)
        },
    }
}

/// The device that a run was asked for.
#[derive(Debug)]
pub struct DeviceConfig {
    pub device_index: u32,
    pub target: String,
    pub gemma_ops: bool,
}

impl DeviceConfig {
    /// Whether this is what the arguments gave.
    pub open spec fn holds(self, given: Given) -> bool {
        &&& given.device_index == Some(self.device_index as nat)
        &&& given.target == Some(self.target@)
        &&& given.gemma_ops == self.gemma_ops
    }
}

struct Parsed {
    device_index: Option<u32>,
    target: Option<String>,
    gemma_ops: bool,
}

impl View for Parsed {
    type V = Given;

    closed spec fn view(&self) -> Given {
        Given {
            device_index: match self.device_index {
                Some(index) => Some(index as nat),
                None => None,
            },
            target: text_opt(self.target),
            gemma_ops: self.gemma_ops,
        }
    }
}

/// Reads the command line of a run.
#[verifier::loop_isolation(false)]
pub fn parse_device_config(tool: DeviceTool, arguments: &Vec<String>) -> (out: Result<
    DeviceConfig,
    String,
>)
    ensures
        match device_outcome(tool, texts(arguments@)) {
            Err(message) => out is Err && out->Err_0@ == message,
            Ok(given) => out is Ok && out->Ok_0.holds(given),
        },
{
    let ghost all = texts(arguments@);
    let mut parsed = Parsed { device_index: None, target: None, gemma_ops: false };
    let mut i: usize = 0;
    assert(all.skip(0) =~= all);
    while i < arguments.len()
        invariant
            i <= arguments@.len(),
            all == texts(arguments@),
            read_arguments(tool, all.skip(i as int), parsed@) == read_arguments(
                tool,
                all,
                nothing_given(),
            ),
        decreases arguments@.len() - i,
    {
        let name = arguments[i].as_str();
        assert(all.skip(i as int)[0] == name@);
        assert(all.skip(i as int).skip(1) =~= all.skip(i + 1));
        if same_text(name, "--device-index") {
            if parsed.device_index.is_some() {
                return Err("duplicate --device-index".to_owned());
            }
            if i + 1 >= arguments.len() {
                return Err("--device-index requires a value".to_owned());
            }
            let value = arguments[i + 1].as_str();
            assert(all.skip(i as int)[1] == value@);
            assert(all.skip(i as int).skip(2) =~= all.skip(i + 2));
            match parse_u32(value) {
                Some(index) => {
                    parsed.device_index = Some(index);
                },
                None => {
                    return Err("--device-index must be a u32".to_owned());
                },
            }
            i += 2;
        } else if same_text(name, "--target") {
            if parsed.target.is_some() {
                return Err("duplicate --target".to_owned());
            }
            if i + 1 >= arguments.len() {
                return Err("--target requires a value".to_owned());
            }
            let value = arguments[i + 1].as_str();
            assert(all.skip(i as int)[1] == value@);
            assert(all.skip(i as int).skip(2) =~= all.skip(i + 2));
            if !tool.is_known(value) {
                return Err(tool.unknown_target());
            }
            parsed.target = Some(value.to_owned());
            i += 2;
        } else if tool == DeviceTool::Elementwise && same_text(name, "--gemma-ops") {
            if parsed.gemma_ops {
                return Err("duplicate --gemma-ops".to_owned());
            }
            parsed.gemma_ops = true;
            i += 1;
        } else {
            return Err(joined3("unexpected argument `", name, "`"));
        }
    }
    let device_index: u32 = match parsed.device_index {
        Some(index) => index,
        None => {
            return Err("missing --device-index".to_owned());
        },
    };
    let target = match parsed.target {
        Some(target) => target,
        None => {
            return Err("missing --target".to_owned());
        },
    };
    Ok(DeviceConfig { device_index, target, gemma_ops: parsed.gemma_ops })
}

/// A run's target is one that it knows.
pub proof fn accepted_targets_are_known(tool: DeviceTool, arguments: Seq<Seq<char>>, given: Given)
    requires
        given.target is Some ==> tool.knows(given.target->Some_0),
        read_arguments(tool, arguments, given) is Ok,
    ensures
        ({
            let target = read_arguments(tool, arguments, given)->Ok_0.target;
            target is Some ==> tool.knows(target->Some_0)
        }),
    decreases arguments.len(),
{
    if arguments.len() > 0 {
        let name = arguments[0];
        if name == "--device-index"@ {
            let index = unsigned_number(arguments[1], u32::MAX as nat)->Some_0;
            accepted_targets_are_known(
                tool,
                arguments.skip(2),
                Given { device_index: Some(index), ..given },
            );
        } else if name == "--target"@ {
            accepted_targets_are_known(
                tool,
                arguments.skip(2),
                Given { target: Some(arguments[1]), ..given },
            );
        } else {
            accepted_targets_are_known(
                tool,
                arguments.skip(1),
                Given { gemma_ops: true, ..given },
            );
        }
    }
}

/// What the arguments of an embedding run gave so far.
pub struct EmbeddingGiven {
    pub device_index: Option<nat>,
    pub target: Option<Seq<char>>,
    pub weight_shard: Option<Seq<char>>,
    pub weight_offset: Option<nat>,
}

/// Nothing given.
pub open spec fn no_embedding_given() -> EmbeddingGiven {
    EmbeddingGiven { device_index: None, target: None, weight_shard: None, weight_offset: None }
}

/// What the arguments of an embedding run give, read from the front in pairs: a later value takes
/// the place of an earlier one.
pub open spec fn read_embedding_arguments(
    arguments: Seq<Seq<char>>,
    given: EmbeddingGiven,
) -> Result<EmbeddingGiven, Seq<char>>
    decreases arguments.len(),
{
    if arguments.len() == 0 {
        Ok(given)
    } else if arguments.len() == 1 {
        Err(arguments[0] + " requires a value"@)
    } else {
        let name = arguments[0];
        let value = arguments[1];
        let rest = arguments.skip(2);
        if name == "--device-index"@ {
            match unsigned_number(value, u32::MAX as nat) {
                None => Err("--device-index must be a u32"@),
                Some(index) => read_embedding_arguments(
                    rest,
                    EmbeddingGiven { device_index: Some(index), ..given },
                ),
            }
        } else if name == "--target"@ && (value == "gfx1030"@ || value == "gfx1201"@) {
            read_embedding_arguments(rest, EmbeddingGiven { target: Some(value), ..given })
        } else if name == "--weight-shard"@ {
            read_embedding_arguments(rest, EmbeddingGiven { weight_shard: Some(value), ..given })
        } else if name == "--weight-offset"@ {
            match unsigned_number(value, u64::MAX as nat) {
                None => Err("--weight-offset must be a u64"@),
                Some(offset) => read_embedding_arguments(
                    rest,
                    EmbeddingGiven { weight_offset: Some(offset), ..given },
                ),
            }
        } else if name == "--target"@ {
            Err("--target must be gfx1030 or gfx1201"@)
        } else {
            Err("unexpected argument `"@ + name + "`"@)
        }
    }
}

/// What the command line of an embedding run gives.
pub open spec fn embedding_outcome(arguments: Seq<Seq<char>>) -> Result<
    EmbeddingGiven,
    Seq<char>,
> {
    match read_embedding_arguments(arguments, no_embedding_given()) {
        Err(message) => Err(message),
        Ok(given) => if given.device_index is None {
            Err("missing --device-index"@)
        } else if given.target is None {
            Err("missing --target"@)
        } else if given.weight_shard is None {
            Err("missing --weight-shard"@)
        } else if given.weight_offset is None {
            Err("missing --weight-offset"@)
        } else {
            Ok(given)
        },
    }
}

/// What an embedding run was asked for.
#[derive(Debug)]
pub struct EmbeddingConfig {
    pub device_index: u32,
    pub target: String,
    pub weight_shard: String,
    pub weight_offset: u64,
}

impl EmbeddingConfig {
    /// Whether this is what the arguments gave.
    pub open spec fn holds(self, given: EmbeddingGiven) -> bool {
        &&& given.device_index == Some(self.device_index as nat)
        &&& given.target == Some(self.target@)
        &&& given.weight_shard == Some(self.weight_shard@)
        &&& given.weight_offset == Some(self.weight_offset as nat)
    }
}

struct EmbeddingParsed {
    device_index: Option<u32>,
    target: Option<String>,
    weight_shard: Option<String>,
    weight_offset: Option<u64>,
}

impl View for EmbeddingParsed {
    type V = EmbeddingGiven;

    closed spec fn view(&self) -> EmbeddingGiven {
        EmbeddingGiven {
            device_index: match self.device_index {
                Some(index) => Some(index as nat),
                None => None,
            },
            target: text_opt(self.target),
            weight_shard: text_opt(self.weight_shard),
            weight_offset: match self.weight_offset {
                Some(offset) => Some(offset as nat),
                None => None,
            },
        }
    }
}

/// Reads the command line of an embedding run.
#[verifier::loop_isolation(false)]
pub fn parse_embedding_config(arguments: &Vec<String>) -> (out: Result<EmbeddingConfig, String>)
    ensures
        match embedding_outcome(texts(arguments@)) {
            Err(message) => out is Err && out->Err_0@ == message,
            Ok(given) => out is Ok && out->Ok_0.holds(given),
        },
{
    let ghost all = texts(arguments@);
    let mut parsed = EmbeddingParsed {
        device_index: None,
        target: None,
        weight_shard: None,
        weight_offset: None,
    };
    let mut i: usize = 0;
    assert(all.skip(0) =~= all);
    while i < arguments.len()
        invariant
            i <= arguments@.len(),
            all == texts(arguments@),
            read_embedding_arguments(all.skip(i as int), parsed@) == read_embedding_arguments(
                all,
                no_embedding_given(),
            ),
        decreases arguments@.len() - i,
    {
        let name = arguments[i].as_str();
        assert(all.skip(i as int)[0] == name@);
        if i + 1 >= arguments.len() {
            return Err(joined(name, " requires a value"));
        }
        let value = arguments[i + 1].as_str();
        assert(all.skip(i as int)[1] == value@);
        assert(all.skip(i as int).skip(2) =~= all.skip(i + 2));
        if same_text(name, "--device-index") {
            match parse_u32(value) {
                Some(index) => {
                    parsed.device_index = Some(index);
                },
                None => {
                    return Err("--device-index must be a u32".to_owned());
                },
            }
        } else if same_text(name, "--target") && (same_text(value, "gfx1030") || same_text(
            value,
            "gfx1201",
        )) {
            parsed.target = Some(value.to_owned());
        } else if same_text(name, "--weight-shard") {
            parsed.weight_shard = Some(value.to_owned());
        } else if same_text(name, "--weight-offset") {
            match parse_unsigned(value, u64::MAX) {
                Some(offset) => {
                    parsed.weight_offset = Some(offset);
                },
                None => {
                    return Err("--weight-offset must be a u64".to_owned());
                },
            }
        } else if same_text(name, "--target") {
            return Err("--target must be gfx1030 or gfx1201".to_owned());
        } else {
            return Err(joined3("unexpected argument `", name, "`"));
        }
        i += 2;
    }
    let device_index: u32 = match parsed.device_index {
        Some(index) => index,
        None => {
            return Err("missing --device-index".to_owned());
        },
    };
    let target = match parsed.target {
        Some(target) => target,
        None => {
            return Err("missing --target".to_owned());
        },
    };
    let weight_shard = match parsed.weight_shard {
        Some(path) => path,
        None => {
            return Err("missing --weight-shard".to_owned());
        },
    };
    let weight_offset: u64 = match parsed.weight_offset {
        Some(offset) => offset,
        None => {
            return Err("missing --weight-offset".to_owned());
        },
    };
    Ok(EmbeddingConfig { device_index, target, weight_shard, weight_offset })
}

proof fn read_values_stand_behind(tool: DeviceTool, arguments: Seq<Seq<char>>, given: Given)
    ensures
        read_arguments(tool, arguments, given) matches Ok(found) ==> {
            &&& found.target != given.target ==> found.target is Some && stands_behind(
                arguments,
                "--target"@,
                found.target->Some_0,
            ) && tool.knows(found.target->Some_0)
            &&& found.device_index != given.device_index ==> found.device_index is Some
                && number_behind(
                arguments,
                "--device-index"@,
                u32::MAX as nat,
                found.device_index->Some_0,
            )
            &&& found.gemma_ops && !given.gemma_ops ==> tool == DeviceTool::Elementwise
                && arguments.contains("--gemma-ops"@)
        },
    decreases arguments.len(),
{
    reveal_strlit("--device-index");
    reveal_strlit("--target");
    reveal_strlit("--gemma-ops");
    assert("--gemma-ops"@.len() == 11 && "--device-index"@.len() == 14 && "--target"@.len() == 8);
    if arguments.len() >= 1 {
        let name = arguments[0];
        later_arguments_stand_behind(arguments, 1);
        assert(arguments.contains(name));
        assert forall|x: Seq<char>| #[trigger] arguments.skip(1).contains(
            x,
        ) implies arguments.contains(x) by {
            let i = choose|i: int|
                0 <= i < arguments.skip(1).len() && arguments.skip(1)[i] == x;
            assert(arguments[i + 1] == x);
        }
        if name == "--gemma-ops"@ {
            read_values_stand_behind(tool, arguments.skip(1), Given { gemma_ops: true, ..given });
        } else if arguments.len() >= 2 {
            let value = arguments[1];
            let rest = arguments.skip(2);
            later_arguments_stand_behind(arguments, 2);
            assert(stands_behind(arguments, name, value));
            assert forall|x: Seq<char>| #[trigger] rest.contains(x) implies arguments.contains(x) by {
                let i = choose|i: int| 0 <= i < rest.len() && rest[i] == x;
                assert(arguments[i + 2] == x);
            }
            if name == "--device-index"@ {
                if let Some(index) = unsigned_number(value, u32::MAX as nat) {
                    assert(number_behind(arguments, name, u32::MAX as nat, index));
                    read_values_stand_behind(
                        tool,
                        rest,
                        Given { device_index: Some(index), ..given },
                    );
                }
            } else if name == "--target"@ {
                read_values_stand_behind(tool, rest, Given { target: Some(value), ..given });
            }
        }
    }
}

/// The device and the target of a run stand in its command line behind their names. The transfer run
/// knows two targets, the others a third; the Gemma operations are for the elementwise run alone.
pub proof fn parts_stand_behind_their_names(
    tool: DeviceTool,
    arguments: &Vec<String>,
    config: DeviceConfig,
)
    requires
        call_ensures(parse_device_config, (tool, arguments), Ok(config)),
    ensures
        stands_behind(texts(arguments@), "--target"@, config.target@),
        number_behind(
            texts(arguments@),
            "--device-index"@,
            u32::MAX as nat,
            config.device_index as nat,
        ),
        config.target@ == "gfx1030"@ || config.target@ == "gfx1201"@ || config.target@ == "gfx942"@
            && tool != DeviceTool::Transfer,
        config.gemma_ops ==> tool == DeviceTool::Elementwise && texts(arguments@).contains(
            "--gemma-ops"@,
        ),
{
    read_values_stand_behind(tool, texts(arguments@), nothing_given());
}

proof fn read_embedding_values_stand_behind(arguments: Seq<Seq<char>>, given: EmbeddingGiven)
    ensures
        read_embedding_arguments(arguments, given) matches Ok(found) ==> {
            &&& found.target != given.target ==> found.target is Some && stands_behind(
                arguments,
                "--target"@,
                found.target->Some_0,
            ) && (found.target->Some_0 == "gfx1030"@ || found.target->Some_0 == "gfx1201"@)
            &&& found.weight_shard != given.weight_shard ==> found.weight_shard is Some
                && stands_behind(arguments, "--weight-shard"@, found.weight_shard->Some_0)
            &&& found.device_index != given.device_index ==> found.device_index is Some
                && number_behind(
                arguments,
                "--device-index"@,
                u32::MAX as nat,
                found.device_index->Some_0,
            )
            &&& found.weight_offset != given.weight_offset ==> found.weight_offset is Some
                && number_behind(
                arguments,
                "--weight-offset"@,
                u64::MAX as nat,
                found.weight_offset->Some_0,
            )
        },
    decreases arguments.len(),
{
    if arguments.len() >= 2 {
        let name = arguments[0];
        let value = arguments[1];
        let rest = arguments.skip(2);
        later_arguments_stand_behind(arguments, 2);
        assert(stands_behind(arguments, name, value));
        if name == "--device-index"@ {
            if let Some(index) = unsigned_number(value, u32::MAX as nat) {
                assert(number_behind(arguments, name, u32::MAX as nat, index));
                read_embedding_values_stand_behind(
                    rest,
                    EmbeddingGiven { device_index: Some(index), ..given },
                );
            }
        } else if name == "--target"@ && (value == "gfx1030"@ || value == "gfx1201"@) {
            read_embedding_values_stand_behind(
                rest,
                EmbeddingGiven { target: Some(value), ..given },
            );
        } else if name == "--weight-shard"@ {
            read_embedding_values_stand_behind(
                rest,
                EmbeddingGiven { weight_shard: Some(value), ..given },
            );
        } else if name == "--weight-offset"@ {
            if let Some(offset) = unsigned_number(value, u64::MAX as nat) {
                assert(number_behind(arguments, name, u64::MAX as nat, offset));
                read_embedding_values_stand_behind(
                    rest,
                    EmbeddingGiven { weight_offset: Some(offset), ..given },
                );
            }
        }
    }
}

/// All four parts of an embedding run stand in its command line, each behind its own name.
pub proof fn embedding_parts_stand_behind_their_names(
    arguments: &Vec<String>,
    config: EmbeddingConfig,
)
    requires
        call_ensures(parse_embedding_config, (arguments,), Ok(config)),
    ensures
        ({
            let all = texts(arguments@);
            &&& stands_behind(all, "--target"@, config.target@)
            &&& config.target@ == "gfx1030"@ || config.target@ == "gfx1201"@
            &&& stands_behind(all, "--weight-shard"@, config.weight_shard@)
            &&& number_behind(all, "--device-index"@, u32::MAX as nat, config.device_index as nat)
            &&& number_behind(all, "--weight-offset"@, u64::MAX as nat, config.weight_offset as nat)
        }),
{
    read_embedding_values_stand_behind(texts(arguments@), no_embedding_given());
}

} // verus!
