//! The command line of the causal attention evidence run.
use crate::text::{
    joined, later_arguments_stand_behind, number_behind, parse_u32, same_text, stands_behind,
    text_opt, texts, unsigned_number,
};
use vstd::prelude::*;

verus! {

broadcast use vstd::string::group_string_axioms;

/// How a key-value cache stores its values.
#[derive(Clone, Copy, Debug, PartialEq, Eq, Structural)]
pub enum KvCacheEncoding {
    Fp16,
    Fp8E4M3Fn,
    Fp8E4M3FnStatic,
    Nvfp4,
}

impl KvCacheEncoding {
    /// The encoding that an argument names.
    pub open spec fn named(name: Seq<char>) -> Option<KvCacheEncoding> {
        if name == "fp16"@ {
            Some(KvCacheEncoding::Fp16)
        } else if name == "fp8"@ {
            Some(KvCacheEncoding::Fp8E4M3Fn)
        } else if name == "fp8-static"@ {
            Some(KvCacheEncoding::Fp8E4M3FnStatic)
        } else if name == "nvfp4"@ {
            Some(KvCacheEncoding::Nvfp4)
        } else {
            None
        }
    }

    fn from_name(name: &str) -> (out: Option<KvCacheEncoding>)
        ensures
            out == KvCacheEncoding::named(name@),
    {
        if same_text(name, "fp16") {
            Some(KvCacheEncoding::Fp16)
        } else if same_text(name, "fp8") {
            Some(KvCacheEncoding::Fp8E4M3Fn)
        } else if same_text(name, "fp8-static") {
            Some(KvCacheEncoding::Fp8E4M3FnStatic)
        } else if same_text(name, "nvfp4") {
            Some(KvCacheEncoding::Nvfp4)
        } else {
            None
        }
    }
}

/// The name of an encoding in a report.
pub fn kv_encoding_name(encoding: KvCacheEncoding) -> (out: &'static str)
    ensures
        out@ == match encoding {
            KvCacheEncoding::Fp16 => "fp16-v1"@,
            KvCacheEncoding::Fp8E4M3Fn => "kv-fp8-v1"@,
            KvCacheEncoding::Fp8E4M3FnStatic => "kv-fp8-static-v1"@,
            KvCacheEncoding::Nvfp4 => "kv-nvfp4-v1"@,
        },
{
    match encoding {
        KvCacheEncoding::Fp16 => "fp16-v1",
        KvCacheEncoding::Fp8E4M3Fn => "kv-fp8-v1",
        KvCacheEncoding::Fp8E4M3FnStatic => "kv-fp8-static-v1",
        KvCacheEncoding::Nvfp4 => "kv-nvfp4-v1",
    }
}

/// What the arguments gave so far.
pub struct Given {
    pub device_index: Option<nat>,
    pub target: Option<Seq<char>>,
    pub kv_encoding: KvCacheEncoding,
    pub phase12_subset: bool,
    pub phase49_operator: bool,
    pub phase49_decode_operator: bool,
    pub phase49_decode_short: bool,
}

/// What a run is asked to do.
#[derive(Debug)]
pub struct Config {
    pub device_index: u32,
    pub target: String,
    pub kv_encoding: KvCacheEncoding,
    pub phase12_subset: bool,
    pub phase49_operator: bool,
    pub phase49_decode_operator: bool,
    pub phase49_decode_short: bool,
}

/// Nothing given.
pub open spec fn nothing_given() -> Given {
    Given {
        device_index: None,
        target: None,
        kv_encoding: KvCacheEncoding::Fp16,
        phase12_subset: false,
        phase49_operator: false,
        phase49_decode_operator: false,
        phase49_decode_short: false,
    }
}

/// Whether a target is one that the run knows.
pub open spec fn is_known_target(target: Seq<char>) -> bool {
    target == "gfx1030"@ || target == "gfx1201"@ || target == "gfx942"@
}

/// What the arguments give, read from the front: an option with a value takes the argument behind
/// it, an option or flag other than the encoding may stand once, and nothing else may stand.
pub open spec fn read_arguments(arguments: Seq<Seq<char>>, given: Given) -> Result<
    Given,
    Seq<char>,
>
    decreases arguments.len(),
{
    if arguments.len() == 0 {
        Ok(given)
    } else {
        let name = arguments[0];
        let rest = arguments.skip(1);
        if name == "--device-index"@ {
            if given.device_index is Some {
                Err("duplicate --device-index"@)
            } else if rest.len() == 0 {
                Err("--device-index requires a value"@)
            } else {
                match unsigned_number(rest[0], u32::MAX as nat) {
                    None => Err("--device-index must be a u32"@),
                    Some(index) => read_arguments(
                        rest.skip(1),
                        Given { device_index: Some(index), ..given },
                    ),
                }
            }
        } else if name == "--target"@ {
            if given.target is Some {
                Err("duplicate --target"@)
            } else if rest.len() == 0 {
                Err("--target requires a value"@)
            } else if !is_known_target(rest[0]) {
                Err("--target must be gfx1030, gfx1201, or gfx942"@)
            } else {
                read_arguments(rest.skip(1), Given { target: Some(rest[0]), ..given })
            }
        } else if name == "--kv-encoding"@ {
            if rest.len() == 0 {
                Err("--kv-encoding requires a value"@)
            } else {
                match KvCacheEncoding::named(rest[0]) {
                    None => Err("--kv-encoding must be fp16, fp8, fp8-static, or nvfp4"@),
                    Some(encoding) => read_arguments(
                        rest.skip(1),
                        Given { kv_encoding: encoding, ..given },
                    ),
                }
            }
        } else if name == "--phase12-subset"@ {
            if given.phase12_subset {
                Err("duplicate --phase12-subset"@)
            } else {
                read_arguments(rest, Given { phase12_subset: true, ..given })
            }
        } else if name == "--phase49-operator"@ {
            if given.phase49_operator {
                Err("duplicate --phase49-operator"@)
            } else {
                read_arguments(rest, Given { phase49_operator: true, ..given })
            }
        } else if name == "--phase49-decode-operator"@ {
            if given.phase49_decode_operator {
                Err("duplicate --phase49-decode-operator"@)
            } else {
                read_arguments(rest, Given { phase49_decode_operator: true, ..given })
            }
        } else if name == "--phase49-decode-short"@ {
            if given.phase49_decode_short {
                Err("duplicate --phase49-decode-short"@)
            } else {
                read_arguments(rest, Given { phase49_decode_short: true, ..given })
            }
        } else {
            Err("unexpected argument "@ + name)
        }
    }
}

/// What a command line gives: a device and a target must be among it.
pub open spec fn config_outcome(arguments: Seq<Seq<char>>) -> Result<Given, Seq<char>> {
    match read_arguments(arguments, nothing_given()) {
        Err(message) => Err(message),
        Ok(given) => if given.device_index is None {
            Err("missing --device-index"@)
        } else if given.target is None {
            Err("missing --target"@)
        } else {
            Ok(given)
        },
    }
}

impl Config {
    /// Whether this is what the arguments gave.
    pub open spec fn holds(self, given: Given) -> bool {
        &&& given.device_index == Some(self.device_index as nat)
        &&& given.target == Some(self.target@)
        &&& self.kv_encoding == given.kv_encoding
        &&& self.phase12_subset == given.phase12_subset
        &&& self.phase49_operator == given.phase49_operator
        &&& self.phase49_decode_operator == given.phase49_decode_operator
        &&& self.phase49_decode_short == given.phase49_decode_short
    }
}

struct Parsed {
    device_index: Option<u32>,
    target: Option<String>,
    kv_encoding: KvCacheEncoding,
    phase12_subset: bool,
    phase49_operator: bool,
    phase49_decode_operator: bool,
    phase49_decode_short: bool,
}

impl View for Parsed {
    type V = Given;

    closed spec fn view(&self) -> Given {
        Given {
            device_index: match self.device_index {
                Some(index) => Some(index as nat),
                None => None,
            },
            target: text_opt(self.target),
            kv_encoding: self.kv_encoding,
            phase12_subset: self.phase12_subset,
            phase49_operator: self.phase49_operator,
            phase49_decode_operator: self.phase49_decode_operator,
            phase49_decode_short: self.phase49_decode_short,
        }
    }
}

/// Reads the command line of a run.
#[verifier::loop_isolation(false)]
pub fn parse_config_from(arguments: &Vec<String>) -> (out: Result<Config, String>)
    ensures
        match config_outcome(texts(arguments@)) {
            Err(message) => out is Err && out->Err_0@ == message,
            Ok(given) => out is Ok && out->Ok_0.holds(given),
        },
{
    let ghost all = texts(arguments@);
    let mut parsed = Parsed {
        device_index: None,
        target: None,
        kv_encoding: KvCacheEncoding::Fp16,
        phase12_subset: false,
        phase49_operator: false,
        phase49_decode_operator: false,
        phase49_decode_short: false,
    };
    let mut i: usize = 0;
    assert(all.skip(0) =~= all);
    while i < arguments.len()
        invariant
            i <= arguments@.len(),
            all == texts(arguments@),
            read_arguments(all.skip(i as int), parsed@) == read_arguments(all, nothing_given()),
        decreases arguments@.len() - i,
    {
        let name = arguments[i].as_str();
        assert(all.skip(i as int)[0] == name@);
        assert(all.skip(i as int).skip(1) =~= all.skip(i + 1));
        let ghost rest = all.skip(i + 1);
        let has_value = i + 1 < arguments.len();
        let value = if has_value {
            arguments[i + 1].as_str()
        } else {
            ""
        };
        if has_value {
            assert(rest[0] == value@);
            assert(rest.skip(1) =~= all.skip(i + 2));
        }
        if same_text(name, "--device-index") {
            if parsed.device_index.is_some() {
                return Err("duplicate --device-index".to_owned());
            }
            if !has_value {
                return Err("--device-index requires a value".to_owned());
            }
            match parse_u32(value) {
                Some(index) => {
                    parsed.device_index = Some(index);
                },
                None => {
                    return Err("--device-index must be a u32".to_owned());
                },
            }
            i += 2;
        } else if same_text(name, "--target") {
            if parsed.target.is_some() {
                return Err("duplicate --target".to_owned());
            }
            if !has_value {
                return Err("--target requires a value".to_owned());
            }
            if !same_text(value, "gfx1030") && !same_text(value, "gfx1201") && !same_text(
                value,
                "gfx942",
            ) {
                return Err("--target must be gfx1030, gfx1201, or gfx942".to_owned());
            }
            parsed.target = Some(value.to_owned());
            i += 2;
        } else if same_text(name, "--kv-encoding") {
            if !has_value {
                return Err("--kv-encoding requires a value".to_owned());
            }
            match KvCacheEncoding::from_name(value) {
                Some(encoding) => {
                    parsed.kv_encoding = encoding;
                },
                None => {
                    return Err("--kv-encoding must be fp16, fp8, fp8-static, or nvfp4".to_owned());
                },
            }
            i += 2;
        } else {
            if same_text(name, "--phase12-subset") {
                if parsed.phase12_subset {
                    return Err("duplicate --phase12-subset".to_owned());
                }
                parsed.phase12_subset = true;
            } else if same_text(name, "--phase49-operator") {
                if parsed.phase49_operator {
                    return Err("duplicate --phase49-operator".to_owned());
                }
                parsed.phase49_operator = true;
            } else if same_text(name, "--phase49-decode-operator") {
                if parsed.phase49_decode_operator {
                    return Err("duplicate --phase49-decode-operator".to_owned());
                }
                parsed.phase49_decode_operator = true;
            } else if same_text(name, "--phase49-decode-short") {
                if parsed.phase49_decode_short {
                    return Err("duplicate --phase49-decode-short".to_owned());
                }
                parsed.phase49_decode_short = true;
            } else {
                return Err(joined("unexpected argument ", name));
            }
            i += 1;
        }
    }
    let device_index: u32 = match parsed.device_index {
        Some(index) => index,
        None => {
            return Err("missing --device-index".to_owned());
        },
    };
    match parsed.target {
        Some(target) => Ok(
            Config {
                device_index,
                target,
                kv_encoding: parsed.kv_encoding,
                phase12_subset: parsed.phase12_subset,
                phase49_operator: parsed.phase49_operator,
                phase49_decode_operator: parsed.phase49_decode_operator,
                phase49_decode_short: parsed.phase49_decode_short,
            },
        ),
        None => Err("missing --target".to_owned()),
    }
}

proof fn options_differ()
    ensures
        "--phase12-subset"@ != "--device-index"@,
        "--phase12-subset"@ != "--target"@,
        "--phase12-subset"@ != "--kv-encoding"@,
        "--phase49-operator"@ != "--device-index"@,
        "--phase49-operator"@ != "--target"@,
        "--phase49-operator"@ != "--kv-encoding"@,
        "--phase49-operator"@ != "--phase12-subset"@,
        "--phase49-decode-operator"@ != "--device-index"@,
        "--phase49-decode-operator"@ != "--target"@,
        "--phase49-decode-operator"@ != "--kv-encoding"@,
        "--phase49-decode-operator"@ != "--phase12-subset"@,
        "--phase49-decode-operator"@ != "--phase49-operator"@,
        "--phase49-decode-short"@ != "--device-index"@,
        "--phase49-decode-short"@ != "--target"@,
        "--phase49-decode-short"@ != "--kv-encoding"@,
        "--phase49-decode-short"@ != "--phase12-subset"@,
        "--phase49-decode-short"@ != "--phase49-operator"@,
        "--phase49-decode-short"@ != "--phase49-decode-operator"@,
{
    reveal_strlit("--device-index");
    reveal_strlit("--target");
    reveal_strlit("--kv-encoding");
    reveal_strlit("--phase12-subset");
    reveal_strlit("--phase49-operator");
    reveal_strlit("--phase49-decode-operator");
    reveal_strlit("--phase49-decode-short");
    assert("--device-index"@.len() == 14 && "--target"@.len() == 8 && "--kv-encoding"@.len() == 13
        && "--phase12-subset"@.len() == 16 && "--phase49-operator"@.len() == 18
        && "--phase49-decode-operator"@.len() == 25 && "--phase49-decode-short"@.len() == 22);
}

proof fn read_values_stand_behind(arguments: Seq<Seq<char>>, given: Given)
    ensures
        read_arguments(arguments, given) matches Ok(found) ==> {
            &&& found.target != given.target ==> found.target is Some && stands_behind(
                arguments,
                "--target"@,
                found.target->Some_0,
            ) && is_known_target(found.target->Some_0)
            &&& found.device_index != given.device_index ==> found.device_index is Some
                && number_behind(
                arguments,
                "--device-index"@,
                u32::MAX as nat,
                found.device_index->Some_0,
            )
            &&& found.phase12_subset && !given.phase12_subset ==> arguments.contains(
                "--phase12-subset"@,
            )
            &&& found.phase49_operator && !given.phase49_operator ==> arguments.contains(
                "--phase49-operator"@,
            )
            &&& found.phase49_decode_operator && !given.phase49_decode_operator
                ==> arguments.contains("--phase49-decode-operator"@)
            &&& found.phase49_decode_short && !given.phase49_decode_short ==> arguments.contains(
                "--phase49-decode-short"@,
            )
            &&& found.kv_encoding != given.kv_encoding ==> arguments.contains("--kv-encoding"@)
        },
    decreases arguments.len(),
{
    options_differ();
    if arguments.len() >= 1 {
        let name = arguments[0];
        let rest = arguments.skip(1);
        later_arguments_stand_behind(arguments, 1);
        assert(arguments.contains(name));
        assert forall|x: Seq<char>| #[trigger] rest.contains(x) implies arguments.contains(x) by {
            let i = choose|i: int| 0 <= i < rest.len() && rest[i] == x;
            assert(arguments[i + 1] == x);
        }
        if name == "--phase12-subset"@ {
            read_values_stand_behind(rest, Given { phase12_subset: true, ..given });
        } else if name == "--phase49-operator"@ {
            read_values_stand_behind(rest, Given { phase49_operator: true, ..given });
        } else if name == "--phase49-decode-operator"@ {
            read_values_stand_behind(rest, Given { phase49_decode_operator: true, ..given });
        } else if name == "--phase49-decode-short"@ {
            read_values_stand_behind(rest, Given { phase49_decode_short: true, ..given });
        } else if rest.len() > 0 {
            let value = rest[0];
            let later = rest.skip(1);
            later_arguments_stand_behind(rest, 1);
            assert(arguments[1] == value);
            assert(stands_behind(arguments, name, value));
            assert forall|x: Seq<char>| #[trigger] later.contains(x) implies rest.contains(x) by {
                let i = choose|i: int| 0 <= i < later.len() && later[i] == x;
                assert(rest[i + 1] == x);
            }
            if name == "--device-index"@ {
                if let Some(index) = unsigned_number(value, u32::MAX as nat) {
                    assert(number_behind(arguments, name, u32::MAX as nat, index));
                    read_values_stand_behind(later, Given { device_index: Some(index), ..given });
                }
            } else if name == "--target"@ {
                read_values_stand_behind(later, Given { target: Some(value), ..given });
            } else if name == "--kv-encoding"@ {
                if let Some(encoding) = KvCacheEncoding::named(value) {
                    read_values_stand_behind(later, Given { kv_encoding: encoding, ..given });
                }
            }
        }
    }
}

/// What a run is asked for stands in its command line: its device and its target behind their names,
/// and a matrix only where its own flag stands there. Without an encoding the cache is plain.
pub proof fn parts_stand_behind_their_names(arguments: &Vec<String>, config: Config)
    requires
        call_ensures(parse_config_from, (arguments,), Ok(config)),
    ensures
        ({
            let all = texts(arguments@);
            &&& stands_behind(all, "--target"@, config.target@)
            &&& config.target@ == "gfx1030"@ || config.target@ == "gfx1201"@ || config.target@
                == "gfx942"@
            &&& number_behind(all, "--device-index"@, u32::MAX as nat, config.device_index as nat)
            &&& config.phase12_subset ==> all.contains("--phase12-subset"@)
            &&& config.phase49_operator ==> all.contains("--phase49-operator"@)
            &&& config.phase49_decode_operator ==> all.contains("--phase49-decode-operator"@)
            &&& config.phase49_decode_short ==> all.contains("--phase49-decode-short"@)
            &&& config.kv_encoding != KvCacheEncoding::Fp16 ==> all.contains("--kv-encoding"@)
        }),
{
    read_values_stand_behind(texts(arguments@), nothing_given());
}

} // verus!
