//! The command lines of the Gemma runs.
use crate::text::{
    joined, later_arguments_stand_behind, number_behind, parse_i32, parse_u32, same_text,
    signed_number, stands_behind, text_opt, texts, unsigned_number,
};
use vstd::prelude::*;

verus! {

broadcast use vstd::string::group_string_axioms;

/// The token that a generation starts from.
pub const REFERENCE_INPUT_TOKEN: i32 = 2;

/// What the arguments gave so far.
pub struct Given {
    pub lock: Option<Seq<char>>,
    pub cache: Option<Seq<char>>,
    pub device_index: Option<nat>,
    pub target: Option<Seq<char>>,
    pub token_id: Option<int>,
}

/// Nothing given.
pub open spec fn nothing_given() -> Given {
    Given { lock: None, cache: None, device_index: None, target: None, token_id: None }
}

/// What the arguments give, read from the front in pairs: each name may stand once, and a token
/// only where the run takes one.
pub open spec fn read_arguments(arguments: Seq<Seq<char>>, takes_token: bool, given: Given) -> Result<
    Given,
    Seq<char>,
>
    decreases arguments.len(),
{
    if arguments.len() == 0 {
        Ok(given)
    } else if arguments.len() == 1 {
        Err(arguments[0] + " requires a value"@)
    } else {
        let name = arguments[0];
        let value = arguments[1];
        let rest = arguments.skip(2);
        if name == "--lock"@ && given.lock is None {
            read_arguments(rest, takes_token, Given { lock: Some(value), ..given })
        } else if name == "--cache"@ && given.cache is None {
            read_arguments(rest, takes_token, Given { cache: Some(value), ..given })
        } else if name == "--device-index"@ && given.device_index is None {
            match unsigned_number(value, u32::MAX as nat) {
                None => Err("--device-index must be a u32"@),
                Some(index) => read_arguments(
                    rest,
                    takes_token,
                    Given { device_index: Some(index), ..given },
                ),
            }
        } else if name == "--target"@ && given.target is None && (value == "gfx1030"@ || value
            == "gfx1201"@) {
            read_arguments(rest, takes_token, Given { target: Some(value), ..given })
        } else if name == "--target"@ {
            Err("--target must be exactly gfx1030 or gfx1201"@)
        } else if takes_token && name == "--token-id"@ && given.token_id is None {
            match signed_number(value) {
                None => Err("--token-id must be an i32"@),
                Some(token) => read_arguments(
                    rest,
                    takes_token,
                    Given { token_id: Some(token), ..given },
                ),
            }
        } else {
            Err("duplicate or unknown argument: "@ + name)
        }
    }
}

/// The message that refuses what the arguments gave, if there is one.
pub open spec fn given_refusal(given: Given) -> Option<Seq<char>> {
    if given.token_id is Some && given.token_id->Some_0 != REFERENCE_INPUT_TOKEN {
        Some("--token-id must match the fixed CPU reference input 2"@)
    } else if given.lock is None {
        Some("missing --lock"@)
    } else if given.cache is None {
        Some("missing --cache"@)
    } else if given.device_index is None {
        Some("missing --device-index"@)
    } else if given.target is None {
        Some("missing --target"@)
    } else {
        None
    }
}

/// What a command line gives.
pub open spec fn config_outcome(arguments: Seq<Seq<char>>, takes_token: bool) -> Result<
    Given,
    Seq<char>,
> {
    match read_arguments(arguments, takes_token, nothing_given()) {
        Err(message) => Err(message),
        Ok(given) => match given_refusal(given) {
            Some(message) => Err(message),
            None => Ok(given),
        },
    }
}

/// What a run is asked to do. The token it starts from is the reference token in any case.
#[derive(Debug)]
pub struct GemmaConfig {
    pub lock: String,
    pub cache: String,
    pub device_index: u32,
    pub target: String,
    pub token_id: i32,
}

impl GemmaConfig {
    /// Whether this is what the arguments gave.
    pub open spec fn holds(self, given: Given) -> bool {
        &&& given.lock == Some(self.lock@)
        &&& given.cache == Some(self.cache@)
        &&& given.device_index == Some(self.device_index as nat)
        &&& given.target == Some(self.target@)
        &&& self.token_id == REFERENCE_INPUT_TOKEN
    }
}

struct Parsed {
    lock: Option<String>,
    cache: Option<String>,
    device_index: Option<u32>,
    target: Option<String>,
    token_id: Option<i32>,
}

impl View for Parsed {
    type V = Given;

    closed spec fn view(&self) -> Given {
        Given {
            lock: text_opt(self.lock),
            cache: text_opt(self.cache),
            device_index: match self.device_index {
                Some(index) => Some(index as nat),
                None => None,
            },
            target: text_opt(self.target),
            token_id: match self.token_id {
                Some(token) => Some(token as int),
                None => None,
            },
        }
    }
}

#[verifier::loop_isolation(false)]
fn parse(arguments: &Vec<String>, takes_token: bool) -> (out: Result<GemmaConfig, String>)
    ensures
        match config_outcome(texts(arguments@), takes_token) {
            Err(message) => out is Err && out->Err_0@ == message,
            Ok(given) => out is Ok && out->Ok_0.holds(given),
        },
{
    let ghost all = texts(arguments@);
    let mut parsed = Parsed {
        lock: None,
        cache: None,
        device_index: None,
        target: None,
        token_id: None,
    };
    let mut i: usize = 0;
    assert(all.skip(0) =~= all);
    while i < arguments.len()
        invariant
            i <= arguments@.len(),
            all == texts(arguments@),
            read_arguments(all.skip(i as int), takes_token, parsed@) == read_arguments(
                all,
                takes_token,
                nothing_given(),
            ),
        decreases arguments@.len() - i,
    {
        let name = arguments[i].as_str();
        assert(all.skip(i as int)[0] == name@);
        if i + 1 >= arguments.len() {
            return Err(joined(name, " requires a value"));
        }
        let value = arguments[i + 1].as_str();
        assert(all.skip(i as int)[1] == value@);
        assert(all.skip(i as int).skip(2) =~= all.skip(i + 2));
        if same_text(name, "--lock") && parsed.lock.is_none() {
            parsed.lock = Some(value.to_owned());
        } else if same_text(name, "--cache") && parsed.cache.is_none() {
            parsed.cache = Some(value.to_owned());
        } else if same_text(name, "--device-index") && parsed.device_index.is_none() {
            match parse_u32(value) {
                Some(index) => {
                    parsed.device_index = Some(index);
                },
                None => {
                    return Err("--device-index must be a u32".to_owned());
                },
            }
        } else if same_text(name, "--target") && parsed.target.is_none() && (same_text(
            value,
            "gfx1030",
        ) || same_text(value, "gfx1201")) {
            parsed.target = Some(value.to_owned());
        } else if same_text(name, "--target") {
            return Err("--target must be exactly gfx1030 or gfx1201".to_owned());
        } else if takes_token && same_text(name, "--token-id") && parsed.token_id.is_none() {
            match parse_i32(value) {
                Some(token) => {
                    parsed.token_id = Some(token);
                },
                None => {
                    return Err("--token-id must be an i32".to_owned());
                },
            }
        } else {
            return Err(joined("duplicate or unknown argument: ", name));
        }
        i += 2;
    }
    let token_id: i32 = match parsed.token_id {
        Some(token) => token,
        None => REFERENCE_INPUT_TOKEN,
    };
    if token_id != REFERENCE_INPUT_TOKEN {
        return Err("--token-id must match the fixed CPU reference input 2".to_owned());
    }
    let lock = match parsed.lock {
        Some(lock) => lock,
        None => {
            return Err("missing --lock".to_owned());
        },
    };
    let cache = match parsed.cache {
        Some(cache) => cache,
        None => {
            return Err("missing --cache".to_owned());
        },
    };
    let device_index: u32 = match parsed.device_index {
        Some(index) => index,
        None => {
            return Err("missing --device-index".to_owned());
        },
    };
    match parsed.target {
        Some(target) => Ok(GemmaConfig { lock, cache, device_index, target, token_id }),
        None => Err("missing --target".to_owned()),
    }
}

/// Reads the command line of the slice run or of the profile run.
pub fn parse_gemma_config(arguments: &Vec<String>) -> (out: Result<GemmaConfig, String>)
    ensures
        match config_outcome(texts(arguments@), false) {
            Err(message) => out is Err && out->Err_0@ == message,
            Ok(given) => out is Ok && out->Ok_0.holds(given),
        },
{
    parse(arguments, false)
}

/// Reads the command line of the full run, which may name the token that it starts from.
pub fn parse_gemma_full_config(arguments: &Vec<String>) -> (out: Result<GemmaConfig, String>)
    ensures
        match config_outcome(texts(arguments@), true) {
            Err(message) => out is Err && out->Err_0@ == message,
            Ok(given) => out is Ok && out->Ok_0.holds(given),
        },
{
    parse(arguments, true)
}

proof fn read_values_stand_behind(arguments: Seq<Seq<char>>, takes_token: bool, given: Given)
    ensures
        read_arguments(arguments, takes_token, given) matches Ok(found) ==> {
            &&& found.lock != given.lock ==> found.lock is Some && stands_behind(
                arguments,
                "--lock"@,
                found.lock->Some_0,
            )
            &&& found.cache != given.cache ==> found.cache is Some && stands_behind(
                arguments,
                "--cache"@,
                found.cache->Some_0,
            )
            &&& found.target != given.target ==> found.target is Some && stands_behind(
                arguments,
                "--target"@,
                found.target->Some_0,
            ) && (found.target->Some_0 == "gfx1030"@ || found.target->Some_0 == "gfx1201"@)
            &&& found.device_index != given.device_index ==> found.device_index is Some
                && number_behind(
                arguments,
                "--device-index"@,
                u32::MAX as nat,
                found.device_index->Some_0,
            )
        },
    decreases arguments.len(),
{
    if arguments.len() >= 2 {
        let name = arguments[0];
        let value = arguments[1];
        let rest = arguments.skip(2);
        later_arguments_stand_behind(arguments, 2);
        assert(stands_behind(arguments, name, value));
        if name == "--lock"@ && given.lock is None {
            read_values_stand_behind(rest, takes_token, Given { lock: Some(value), ..given });
        } else if name == "--cache"@ && given.cache is None {
            read_values_stand_behind(rest, takes_token, Given { cache: Some(value), ..given });
        } else if name == "--device-index"@ && given.device_index is None {
            if let Some(index) = unsigned_number(value, u32::MAX as nat) {
                assert(number_behind(arguments, name, u32::MAX as nat, index));
                read_values_stand_behind(
                    rest,
                    takes_token,
                    Given { device_index: Some(index), ..given },
                );
            }
        } else if name == "--target"@ && given.target is None && (value == "gfx1030"@ || value
            == "gfx1201"@) {
            read_values_stand_behind(rest, takes_token, Given { target: Some(value), ..given });
        } else if takes_token && name == "--token-id"@ && given.token_id is None {
            if let Some(token) = signed_number(value) {
                read_values_stand_behind(rest, takes_token, Given { token_id: Some(token), ..given });
            }
        }
    }
}

/// What a run is asked for stands in its command line, each part behind its own name; its target is one
/// of two, and it starts from the one token.
pub proof fn parts_stand_behind_their_names(
    arguments: &Vec<String>,
    plain: Result<GemmaConfig, String>,
    full: Result<GemmaConfig, String>,
)
    requires
        call_ensures(parse_gemma_config, (arguments,), plain),
        call_ensures(parse_gemma_full_config, (arguments,), full),
    ensures
        plain matches Ok(config) ==> {
            &&& stands_behind(texts(arguments@), "--lock"@, config.lock@)
            &&& stands_behind(texts(arguments@), "--cache"@, config.cache@)
            &&& stands_behind(texts(arguments@), "--target"@, config.target@)
            &&& number_behind(
                texts(arguments@),
                "--device-index"@,
                u32::MAX as nat,
                config.device_index as nat,
            )
            &&& config.target@ == "gfx1030"@ || config.target@ == "gfx1201"@
            &&& config.token_id == 2
        },
        full matches Ok(config) ==> {
            &&& stands_behind(texts(arguments@), "--lock"@, config.lock@)
            &&& stands_behind(texts(arguments@), "--cache"@, config.cache@)
            &&& stands_behind(texts(arguments@), "--target"@, config.target@)
            &&& number_behind(
                texts(arguments@),
                "--device-index"@,
                u32::MAX as nat,
                config.device_index as nat,
            )
            &&& config.target@ == "gfx1030"@ || config.target@ == "gfx1201"@
            &&& config.token_id == 2
        },
{
    read_values_stand_behind(texts(arguments@), false, nothing_given());
    read_values_stand_behind(texts(arguments@), true, nothing_given());
}

} // verus!
