//! Which kernel provider a causal attention dispatch must come from, and what its dispatch must
//! report.
use crate::attention_cases::{is_phase33_common_target, is_rdna, Case};
use crate::attention_config::KvCacheEncoding;
use crate::audit::DispatchEvidence;
use crate::text::{same_text, str_opt};
use vstd::prelude::*;

verus! {

broadcast use vstd::string::group_string_axioms;

/// The query heads of the run.
pub const Q_HEADS: usize = 16;

/// The key-value heads of the run.
pub const KV_HEADS: usize = 4;

/// The width of a head.
pub const HEAD_DIM: usize = 256;

/// The workgroup size of all providers but the split decodes.
pub const WORKGROUP_SIZE: u32 = 256;

/// Whether a setting that is on by default is on.
pub open spec fn default_on(setting: Option<Seq<char>>) -> bool {
    setting is None || setting->Some_0 == "1"@
}

/// Whether a setting that is off by default is on.
pub open spec fn opted_in(setting: Option<Seq<char>>) -> bool {
    setting is Some && setting->Some_0 == "1"@
}

fn on_by_default(setting: Option<&str>) -> (out: bool)
    ensures
        out == default_on(str_opt(setting)),
{
    match setting {
        None => true,
        Some(text) => same_text(text, "1"),
    }
}

fn off_by_default(setting: Option<&str>) -> (out: bool)
    ensures
        out == opted_in(str_opt(setting)),
{
    match setting {
        None => false,
        Some(text) => same_text(text, "1"),
    }
}

/// The tokens that a case ends with.
pub open spec fn committed(case: Case) -> int {
    case.start_position + case.m
}

/// Whether the long decode of a target preloads its query.
pub open spec fn q_preload_gate(
    target: Seq<char>,
    use_decode_wave_split: bool,
    setting: Option<Seq<char>>,
) -> bool {
    target == "gfx1030"@ && use_decode_wave_split && default_on(setting)
}

/// Whether the long decode of a target preloads its query.
pub fn decode_wave_split_q_preload_enabled(
    expected_target: &str,
    use_decode_wave_split: bool,
    q_preload_opt_in: Option<&str>,
) -> (out: bool)
    ensures
        out == q_preload_gate(expected_target@, use_decode_wave_split, str_opt(q_preload_opt_in)),
{
    same_text(expected_target, "gfx1030") && use_decode_wave_split && on_by_default(
        q_preload_opt_in,
    )
}

/// Whether a long decode reads its cache in pairs.
pub open spec fn fp16_pair_gate(
    target: Seq<char>,
    case: Case,
    encoding: KvCacheEncoding,
    setting: Option<Seq<char>>,
    force_baseline: bool,
) -> bool {
    &&& !force_baseline
    &&& target == "gfx1030"@
    &&& default_on(setting)
    &&& case.m == 1
    &&& committed(case) >= 1024
    &&& encoding == KvCacheEncoding::Fp16
}

/// Whether a long decode reads its cache in pairs.
pub fn decode_wave_split_fp16_pair_enabled(
    expected_target: &str,
    case: Case,
    encoding: KvCacheEncoding,
    opt_in: Option<&str>,
    force_baseline: bool,
) -> (out: bool)
    requires
        committed(case) <= u64::MAX,
    ensures
        out == fp16_pair_gate(expected_target@, case, encoding, str_opt(opt_in), force_baseline),
{
    !force_baseline && same_text(expected_target, "gfx1030") && on_by_default(opt_in) && case.m
        == 1 && case.start_position + case.m as u64 >= 1024 && encoding == KvCacheEncoding::Fp16
}

/// Whether a very long decode is split over the query heads of a cache head.
pub open spec fn gqa4_split_gate(
    target: Seq<char>,
    case: Case,
    encoding: KvCacheEncoding,
    setting: Option<Seq<char>>,
    force_baseline: bool,
) -> bool {
    &&& !force_baseline
    &&& target == "gfx1030"@
    &&& opted_in(setting)
    &&& case.m == 1
    &&& committed(case) >= 4096
    &&& encoding == KvCacheEncoding::Fp16
}

/// Whether a very long decode is split over the query heads of a cache head.
pub fn decode_gqa4_split_enabled(
    expected_target: &str,
    case: Case,
    encoding: KvCacheEncoding,
    opt_in: Option<&str>,
    force_baseline: bool,
) -> (out: bool)
    requires
        committed(case) <= u64::MAX,
    ensures
        out == gqa4_split_gate(expected_target@, case, encoding, str_opt(opt_in), force_baseline),
{
    !force_baseline && same_text(expected_target, "gfx1030") && off_by_default(opt_in) && case.m
        == 1 && case.start_position + case.m as u64 >= 4096 && encoding == KvCacheEncoding::Fp16
}

/// Whether a short decode is split over waves.
pub open spec fn short_decode_gate(
    target: Seq<char>,
    case: Case,
    encoding: KvCacheEncoding,
    setting: Option<Seq<char>>,
) -> bool {
    &&& target == "gfx1030"@
    &&& default_on(setting)
    &&& case.m == 1
    &&& 32 <= committed(case) < 1024
    &&& encoding == KvCacheEncoding::Fp16
}

/// Whether a short decode is split over waves.
pub fn decode_wave_split_short_enabled(
    expected_target: &str,
    case: Case,
    encoding: KvCacheEncoding,
    short_decode_opt_in: Option<&str>,
) -> (out: bool)
    requires
        committed(case) <= u64::MAX,
    ensures
        out == short_decode_gate(expected_target@, case, encoding, str_opt(short_decode_opt_in)),
{
    same_text(expected_target, "gfx1030") && on_by_default(short_decode_opt_in) && case.m == 1
        && case.start_position + case.m as u64 >= 32 && case.start_position + (case.m as u64) < 1024
        && encoding == KvCacheEncoding::Fp16
}

/// Whether a short decode preloads its query.
pub fn decode_wave_split_short_q_preload_enabled(
    use_decode_wave_split_short: bool,
    short_q_preload_opt_in: Option<&str>,
) -> (out: bool)
    ensures
        out == (use_decode_wave_split_short && default_on(str_opt(short_q_preload_opt_in))),
{
    use_decode_wave_split_short && on_by_default(short_q_preload_opt_in)
}

/// Whether a long prefill is a scaled matrix product.
pub open spec fn scaled_prefill_gate(
    target: Seq<char>,
    case: Case,
    encoding: KvCacheEncoding,
    setting: Option<Seq<char>>,
    force_baseline: bool,
) -> bool {
    &&& !force_baseline
    &&& target == "gfx1030"@
    &&& default_on(setting)
    &&& case.m >= 1024
    &&& encoding == KvCacheEncoding::Fp16
}

/// Whether a long prefill is a scaled matrix product.
pub fn scaled_prefill_gemm_enabled(
    expected_target: &str,
    case: Case,
    encoding: KvCacheEncoding,
    opt_in: Option<&str>,
    force_baseline: bool,
) -> (out: bool)
    ensures
        out == scaled_prefill_gate(
            expected_target@,
            case,
            encoding,
            str_opt(opt_in),
            force_baseline,
        ),
{
    !force_baseline && same_text(expected_target, "gfx1030") && on_by_default(opt_in) && case.m
        >= 1024 && encoding == KvCacheEncoding::Fp16
}

/// Whether a long prefill is split over its keys.
pub open spec fn long_prefill_gate(
    target: Seq<char>,
    case: Case,
    encoding: KvCacheEncoding,
    setting: Option<Seq<char>>,
    force_baseline: bool,
) -> bool {
    &&& !force_baseline
    &&& target == "gfx1030"@
    &&& opted_in(setting)
    &&& case.m >= 1024
    &&& encoding == KvCacheEncoding::Fp16
}

/// Whether a long prefill is split over its keys.
pub fn long_prefill_v2_enabled(
    expected_target: &str,
    case: Case,
    encoding: KvCacheEncoding,
    opt_in: Option<&str>,
    force_baseline: bool,
) -> (out: bool)
    ensures
        out == long_prefill_gate(
            expected_target@,
            case,
            encoding,
            str_opt(opt_in),
            force_baseline,
        ),
{
    !force_baseline && same_text(expected_target, "gfx1030") && off_by_default(opt_in) && case.m
        >= 1024 && encoding == KvCacheEncoding::Fp16
}

/// The settings that choose among the providers.
#[derive(Clone, Copy, Debug)]
pub struct ProviderSettings<'a> {
    pub force_baseline: Option<&'a str>,
    pub short_decode: Option<&'a str>,
    pub fp16_pair: Option<&'a str>,
    pub gqa4_split: Option<&'a str>,
    pub gqa4_split_p32: Option<&'a str>,
    pub q_preload: Option<&'a str>,
    pub short_q_preload: Option<&'a str>,
    pub scaled_prefill: Option<&'a str>,
    pub long_prefill_v2: Option<&'a str>,
}

/// A kernel provider.
#[derive(Clone, Copy, Debug, PartialEq, Eq, Structural)]
pub enum Provider {
    DecodeGqa4SplitP32,
    DecodeGqa4Split,
    DecodeWaveFp16Pair,
    DecodeWaveQPreload,
    DecodeWave,
    PrefillScaledGemm,
    PrefillSplitV2,
    PrefillGqa4Qtile4,
    PrefillGqa4Shared,
    Gfx1201Wave,
    Gfx1201WavePacked,
    OnlineSoftmax,
    OnlineSoftmaxPacked,
}

/// The provider of a case: the first of these that applies.
pub open spec fn provider_of(
    case: Case,
    target: Seq<char>,
    encoding: KvCacheEncoding,
    settings: ProviderSettings,
) -> Provider {
    let force = opted_in(str_opt(settings.force_baseline));
    let long_decode = is_rdna(target) && case.m == 1 && case.start_position + 1 >= 1024;
    let short_decode = short_decode_gate(target, case, encoding, str_opt(settings.short_decode));
    let long_prefill = long_prefill_gate(
        target,
        case,
        encoding,
        str_opt(settings.long_prefill_v2),
        force,
    );
    let scaled_prefill = scaled_prefill_gate(
        target,
        case,
        encoding,
        str_opt(settings.scaled_prefill),
        force,
    );
    if gqa4_split_gate(target, case, encoding, str_opt(settings.gqa4_split_p32), force) {
        Provider::DecodeGqa4SplitP32
    } else if gqa4_split_gate(target, case, encoding, str_opt(settings.gqa4_split), force) {
        Provider::DecodeGqa4Split
    } else if fp16_pair_gate(target, case, encoding, str_opt(settings.fp16_pair), force) {
        Provider::DecodeWaveFp16Pair
    } else if long_decode || short_decode {
        if q_preload_gate(target, long_decode, str_opt(settings.q_preload)) || (short_decode
            && default_on(str_opt(settings.short_q_preload))) {
            Provider::DecodeWaveQPreload
        } else {
            Provider::DecodeWave
        }
    } else if long_prefill {
        Provider::PrefillSplitV2
    } else if scaled_prefill {
        Provider::PrefillScaledGemm
    } else if is_rdna(target) && case.m >= 128 && !force {
        Provider::PrefillGqa4Qtile4
    } else if is_rdna(target) && case.m >= 64 {
        Provider::PrefillGqa4Shared
    } else if target == "gfx1201"@ && (case.m == 1 || case.m >= 32) {
        if encoding == KvCacheEncoding::Fp16 {
            Provider::Gfx1201Wave
        } else {
            Provider::Gfx1201WavePacked
        }
    } else if encoding == KvCacheEncoding::Fp16 {
        Provider::OnlineSoftmax
    } else {
        Provider::OnlineSoftmaxPacked
    }
}

/// Chooses the provider of a case.
pub fn select_provider(
    case: Case,
    expected_target: &str,
    encoding: KvCacheEncoding,
    settings: &ProviderSettings,
) -> (out: Provider)
    requires
        committed(case) <= u64::MAX,
    ensures
        out == provider_of(case, expected_target@, encoding, *settings),
{
    let rdna = is_phase33_common_target(expected_target);
    let force_baseline = off_by_default(settings.force_baseline);
    let long_decode = rdna && case.m == 1 && case.start_position >= 1023;
    let short_decode = decode_wave_split_short_enabled(
        expected_target,
        case,
        encoding,
        settings.short_decode,
    );
    if decode_gqa4_split_enabled(
        expected_target,
        case,
        encoding,
        settings.gqa4_split_p32,
        force_baseline,
    ) {
        Provider::DecodeGqa4SplitP32
    } else if decode_gqa4_split_enabled(
        expected_target,
        case,
        encoding,
        settings.gqa4_split,
        force_baseline,
    ) {
        Provider::DecodeGqa4Split
    } else if decode_wave_split_fp16_pair_enabled(
        expected_target,
        case,
        encoding,
        settings.fp16_pair,
        force_baseline,
    ) {
        Provider::DecodeWaveFp16Pair
    } else if long_decode || short_decode {
        if decode_wave_split_q_preload_enabled(expected_target, long_decode, settings.q_preload)
            || decode_wave_split_short_q_preload_enabled(short_decode, settings.short_q_preload) {
            Provider::DecodeWaveQPreload
        } else {
            Provider::DecodeWave
        }
    } else if long_prefill_v2_enabled(
        expected_target,
        case,
        encoding,
        settings.long_prefill_v2,
        force_baseline,
    ) {
        Provider::PrefillSplitV2
    } else if scaled_prefill_gemm_enabled(
        expected_target,
        case,
        encoding,
        settings.scaled_prefill,
        force_baseline,
    ) {
        Provider::PrefillScaledGemm
    } else if rdna && case.m >= 128 && !force_baseline {
        Provider::PrefillGqa4Qtile4
    } else if rdna && case.m >= 64 {
        Provider::PrefillGqa4Shared
    } else if same_text(expected_target, "gfx1201") && (case.m == 1 || case.m >= 32) {
        if encoding == KvCacheEncoding::Fp16 {
            Provider::Gfx1201Wave
        } else {
            Provider::Gfx1201WavePacked
        }
    } else if encoding == KvCacheEncoding::Fp16 {
        Provider::OnlineSoftmax
    } else {
        Provider::OnlineSoftmaxPacked
    }
}

/// Whether a setting reads `1`.
pub open spec fn reads_one(setting: Option<&str>) -> bool {
    setting matches Some(text) && text@ == "1"@
}

/// Which prefills each provider serves. On both targets the tiles of four rows take every prefill of
/// 128 rows or more, unless the baseline is forced or a long prefill of one target goes to a
/// provider of its own; the shared provider takes 64 to 127 rows, and all above under a forced
/// baseline.
pub proof fn prefills_come_from_their_provider(
    case: Case,
    target: &str,
    encoding: KvCacheEncoding,
    settings: &ProviderSettings,
    provider: Provider,
)
    requires
        committed(case) <= u64::MAX,
        call_ensures(select_provider, (case, target, encoding, settings), provider),
    ensures
        ({
            let rdna = target@ == "gfx1030"@ || target@ == "gfx1201"@;
            let forced = reads_one(settings.force_baseline);
            let long = target@ == "gfx1030"@ && case.m >= 1024 && encoding == KvCacheEncoding::Fp16
                && !forced;
            let split = long && reads_one(settings.long_prefill_v2);
            let scaled = long && !split && (settings.scaled_prefill is None || reads_one(
                settings.scaled_prefill,
            ));
            &&& provider == Provider::PrefillGqa4Qtile4 <==> rdna && case.m >= 128 && !forced
                && !split && !scaled
            &&& provider == Provider::PrefillGqa4Shared <==> rdna && case.m >= 64 && (case.m < 128
                || forced)
            &&& provider == Provider::PrefillSplitV2 <==> split
            &&& provider == Provider::PrefillScaledGemm <==> scaled
        }),
{
}

/// Which decodes each provider serves: the two splits over query heads from 4096 tokens on, the
/// pairs and the waves from 1024 tokens on, and the waves of one target from 32 tokens on.
pub proof fn decodes_come_from_their_provider(
    case: Case,
    target: &str,
    encoding: KvCacheEncoding,
    settings: &ProviderSettings,
    provider: Provider,
)
    requires
        committed(case) <= u64::MAX,
        call_ensures(select_provider, (case, target, encoding, settings), provider),
    ensures
        ({
            let length = case.start_position + case.m;
            let on = |setting: Option<&str>| setting is None || reads_one(setting);
            let own = target@ == "gfx1030"@ && case.m == 1;
            let free = own && encoding == KvCacheEncoding::Fp16 && !reads_one(
                settings.force_baseline,
            );
            let p32 = free && length >= 4096 && reads_one(settings.gqa4_split_p32);
            let split = free && length >= 4096 && reads_one(settings.gqa4_split) && !p32;
            let pair = free && length >= 1024 && on(settings.fp16_pair) && !p32 && !split;
            let long = own && length >= 1024 && !p32 && !split && !pair;
            let short = own && encoding == KvCacheEncoding::Fp16 && 32 <= length < 1024 && on(
                settings.short_decode,
            );
            &&& provider == Provider::DecodeGqa4SplitP32 <==> p32
            &&& provider == Provider::DecodeGqa4Split <==> split
            &&& provider == Provider::DecodeWaveFp16Pair <==> pair
            &&& provider == Provider::DecodeWaveQPreload <==> long && on(settings.q_preload)
                || short && on(settings.short_q_preload)
            &&& provider == Provider::DecodeWave <==> target@ == "gfx1201"@ && case.m == 1 && length
                >= 1024 || long && !on(settings.q_preload) || short && !on(settings.short_q_preload)
        }),
{
    reveal_strlit("gfx1030");
    reveal_strlit("gfx1201");
    assert("gfx1030"@[3] != "gfx1201"@[3] || "gfx1030"@[4] != "gfx1201"@[4]);
}

/// What no other provider takes goes to the waves of the one target, for single tokens and from 32
/// rows on, or to the online softmax; packed caches have their own form of either.
pub proof fn the_rest_comes_from_the_general_providers(
    case: Case,
    target: &str,
    encoding: KvCacheEncoding,
    settings: &ProviderSettings,
    provider: Provider,
)
    requires
        committed(case) <= u64::MAX,
        call_ensures(select_provider, (case, target, encoding, settings), provider),
    ensures
        ({
            let length = case.start_position + case.m;
            let waves = target@ == "gfx1201"@ && (case.m == 1 && length < 1024 || 32 <= case.m
                < 64);
            let decoded = case.m == 1 && (length >= 1024 || encoding == KvCacheEncoding::Fp16
                && length >= 32 && (settings.short_decode is None || reads_one(
                settings.short_decode,
            )));
            let rest = if target@ == "gfx1201"@ {
                case.m != 1 && case.m < 32
            } else if target@ == "gfx1030"@ {
                case.m < 64 && !decoded
            } else {
                true
            };
            let plain = encoding == KvCacheEncoding::Fp16;
            &&& provider == Provider::Gfx1201Wave <==> waves && plain
            &&& provider == Provider::Gfx1201WavePacked <==> waves && !plain
            &&& provider == Provider::OnlineSoftmax <==> rest && plain
            &&& provider == Provider::OnlineSoftmaxPacked <==> rest && !plain
        }),
{
    reveal_strlit("gfx1030");
    reveal_strlit("gfx1201");
    assert("gfx1030"@[3] != "gfx1201"@[3] || "gfx1030"@[4] != "gfx1201"@[4]);
}

/// A forced baseline keeps every provider away that it can be forced from.
pub proof fn forced_baseline_is_respected(
    case: Case,
    target: Seq<char>,
    encoding: KvCacheEncoding,
    settings: ProviderSettings,
)
    requires
        opted_in(str_opt(settings.force_baseline)),
    ensures
        ({
            let provider = provider_of(case, target, encoding, settings);
            &&& provider != Provider::DecodeGqa4SplitP32
            &&& provider != Provider::DecodeGqa4Split
            &&& provider != Provider::DecodeWaveFp16Pair
            &&& provider != Provider::PrefillScaledGemm
            &&& provider != Provider::PrefillSplitV2
            &&& provider != Provider::PrefillGqa4Qtile4
        }),
{
}

/// The gates of the short and of the long decodes never open for the same case.
pub proof fn decode_gates_are_disjoint(
    target: Seq<char>,
    case: Case,
    encoding: KvCacheEncoding,
    short: Option<Seq<char>>,
    long: Option<Seq<char>>,
    force_baseline: bool,
)
    ensures
        !(short_decode_gate(target, case, encoding, short) && fp16_pair_gate(
            target,
            case,
            encoding,
            long,
            force_baseline,
        )),
        gqa4_split_gate(target, case, encoding, long, force_baseline) ==> fp16_pair_gate(
            target,
            case,
            encoding,
            None,
            force_baseline,
        ),
{
}

impl Provider {
    /// The provider's kernel symbol.
    pub open spec fn kernel_symbol(self) -> Seq<char> {
        match self {
            Provider::DecodeGqa4SplitP32 => "causal_attention.decode.gqa4_tiled_split.p32.v1"@,
            Provider::DecodeGqa4Split => "causal_attention.decode.gqa4_tiled_split.v1"@,
            Provider::DecodeWaveFp16Pair => "causal_attention.decode.wave8_split.fp16_pair.v1"@,
            Provider::DecodeWaveQPreload => "causal_attention.decode.wave8_split.q_preload.v1"@,
            Provider::DecodeWave => "causal_attention.decode.wave8_split.v5"@,
            Provider::PrefillScaledGemm => "causal_attention.prefill.gfx1030_hipblas_scaled_fp16.v1"@,
            Provider::PrefillSplitV2 => "causal_attention.prefill.gfx1030_qtile8_split.v2"@,
            Provider::PrefillGqa4Qtile4 => "causal_attention.prefill.gqa4_qtile4.v7"@,
            Provider::PrefillGqa4Shared => "causal_attention.prefill.gqa4_shared.v6"@,
            Provider::Gfx1201Wave => "causal_attention.online_softmax_gqa.gfx1201_wave.v4"@,
            Provider::Gfx1201WavePacked => "causal_attention.online_softmax_gqa.packed_kv.gfx1201_wave.v4"@,
            Provider::OnlineSoftmax => "causal_attention.online_softmax_gqa.v2"@,
            Provider::OnlineSoftmaxPacked => "causal_attention.online_softmax_gqa.packed_kv.v3"@,
        }
    }

    /// The provider's device symbol.
    pub open spec fn device_symbol(self) -> Seq<char> {
        match self {
            Provider::DecodeGqa4SplitP32 => "sllm_causal_attention_decode_gqa4_split_p32_v1"@,
            Provider::DecodeGqa4Split => "sllm_causal_attention_decode_gqa4_tiled_split_v1"@,
            Provider::DecodeWaveFp16Pair => "sllm_causal_attention_decode_wave8_split_fp16_pair_v1"@,
            Provider::DecodeWaveQPreload => "sllm_causal_attention_decode_wave8_split_q_preload_v1"@,
            Provider::DecodeWave => "sllm_causal_attention_decode_wave8_split_v5"@,
            Provider::PrefillScaledGemm => "sllm_causal_attention_prefill_gfx1030_hipblas_scaled_fp16_v1"@,
            Provider::PrefillSplitV2 => "sllm_causal_attention_prefill_gfx1030_qtile8_split_v2"@,
            Provider::PrefillGqa4Qtile4 => "sllm_causal_attention_prefill_gqa4_qtile4_v7"@,
            Provider::PrefillGqa4Shared => "sllm_causal_attention_prefill_gqa4_shared_v6"@,
            Provider::Gfx1201Wave => "sllm_causal_attention_gfx1201_wave_v4"@,
            Provider::Gfx1201WavePacked => "sllm_causal_attention_packed_gfx1201_wave_v4"@,
            Provider::OnlineSoftmax => "sllm_causal_attention_online_softmax_gqa_v2"@,
            Provider::OnlineSoftmaxPacked => "sllm_causal_attention_online_softmax_gqa_packed_kv_v3"@,
        }
    }

    /// How many dispatches the provider makes.
    pub open spec fn dispatch_count(self) -> u32 {
        match self {
            Provider::DecodeGqa4SplitP32 => 2,
            Provider::DecodeGqa4Split => 2,
            Provider::PrefillSplitV2 => 2,
            _ => 1,
        }
    }

    /// The provider's workgroup size.
    pub open spec fn workgroup(self) -> u32 {
        match self {
            Provider::DecodeGqa4SplitP32 => 128,
            Provider::DecodeGqa4Split => 128,
            _ => WORKGROUP_SIZE,
        }
    }

    /// The provider's grid for a number of query rows.
    pub open spec fn grid(self, m: int) -> int {
        match self {
            Provider::DecodeGqa4SplitP32 => 128,
            Provider::DecodeGqa4Split => 64,
            Provider::PrefillScaledGemm => (m + 255) / 256 * KV_HEADS,
            Provider::PrefillSplitV2 => (m + 7) / 8 * KV_HEADS * 16,
            Provider::PrefillGqa4Qtile4 => (m + 3) / 4 * KV_HEADS,
            Provider::PrefillGqa4Shared => m * KV_HEADS,
            _ => m * Q_HEADS,
        }
    }

    fn kernel_name(self) -> (out: &'static str)
        ensures
            out@ == self.kernel_symbol(),
    {
        match self {
            Provider::DecodeGqa4SplitP32 => "causal_attention.decode.gqa4_tiled_split.p32.v1",
            Provider::DecodeGqa4Split => "causal_attention.decode.gqa4_tiled_split.v1",
            Provider::DecodeWaveFp16Pair => "causal_attention.decode.wave8_split.fp16_pair.v1",
            Provider::DecodeWaveQPreload => "causal_attention.decode.wave8_split.q_preload.v1",
            Provider::DecodeWave => "causal_attention.decode.wave8_split.v5",
            Provider::PrefillScaledGemm => "causal_attention.prefill.gfx1030_hipblas_scaled_fp16.v1",
            Provider::PrefillSplitV2 => "causal_attention.prefill.gfx1030_qtile8_split.v2",
            Provider::PrefillGqa4Qtile4 => "causal_attention.prefill.gqa4_qtile4.v7",
            Provider::PrefillGqa4Shared => "causal_attention.prefill.gqa4_shared.v6",
            Provider::Gfx1201Wave => "causal_attention.online_softmax_gqa.gfx1201_wave.v4",
            Provider::Gfx1201WavePacked => "causal_attention.online_softmax_gqa.packed_kv.gfx1201_wave.v4",
            Provider::OnlineSoftmax => "causal_attention.online_softmax_gqa.v2",
            Provider::OnlineSoftmaxPacked => "causal_attention.online_softmax_gqa.packed_kv.v3",
        }
    }

    fn device_name(self) -> (out: &'static str)
        ensures
            out@ == self.device_symbol(),
    {
        match self {
            Provider::DecodeGqa4SplitP32 => "sllm_causal_attention_decode_gqa4_split_p32_v1",
            Provider::DecodeGqa4Split => "sllm_causal_attention_decode_gqa4_tiled_split_v1",
            Provider::DecodeWaveFp16Pair => "sllm_causal_attention_decode_wave8_split_fp16_pair_v1",
            Provider::DecodeWaveQPreload => "sllm_causal_attention_decode_wave8_split_q_preload_v1",
            Provider::DecodeWave => "sllm_causal_attention_decode_wave8_split_v5",
            Provider::PrefillScaledGemm => "sllm_causal_attention_prefill_gfx1030_hipblas_scaled_fp16_v1",
            Provider::PrefillSplitV2 => "sllm_causal_attention_prefill_gfx1030_qtile8_split_v2",
            Provider::PrefillGqa4Qtile4 => "sllm_causal_attention_prefill_gqa4_qtile4_v7",
            Provider::PrefillGqa4Shared => "sllm_causal_attention_prefill_gqa4_shared_v6",
            Provider::Gfx1201Wave => "sllm_causal_attention_gfx1201_wave_v4",
            Provider::Gfx1201WavePacked => "sllm_causal_attention_packed_gfx1201_wave_v4",
            Provider::OnlineSoftmax => "sllm_causal_attention_online_softmax_gqa_v2",
            Provider::OnlineSoftmaxPacked => "sllm_causal_attention_online_softmax_gqa_packed_kv_v3",
        }
    }

    fn counts(self) -> (out: (u32, u32))
        ensures
            out.0 == self.dispatch_count(),
            out.1 == self.workgroup(),
    {
        match self {
            Provider::DecodeGqa4SplitP32 => (2, 128),
            Provider::DecodeGqa4Split => (2, 128),
            Provider::PrefillSplitV2 => (2, WORKGROUP_SIZE),
            _ => (1, WORKGROUP_SIZE),
        }
    }

    fn grid_size(self, m: u64) -> (out: u64)
        requires
            self.grid(m as int) <= u32::MAX,
        ensures
            out == self.grid(m as int),
    {
        match self {
            Provider::DecodeGqa4SplitP32 => 128,
            Provider::DecodeGqa4Split => 64,
            Provider::PrefillScaledGemm => (m + 255) / 256 * 4,
            Provider::PrefillSplitV2 => (m + 7) / 8 * 4 * 16,
            Provider::PrefillGqa4Qtile4 => (m + 3) / 4 * 4,
            Provider::PrefillGqa4Shared => m * 4,
            _ => m * 16,
        }
    }
}

/// The numbers that the native interface gives its versions, its backend and its kernels.
#[derive(Clone, Copy, Debug, PartialEq, Eq, Structural)]
pub struct AttentionAbi {
    pub abi_version: u32,
    pub dispatch_info_version: u32,
    pub kernel_online_softmax_v2: u32,
    pub kernel_packed_kv_v3: u32,
    pub backend_hip: u32,
}

/// Whether a dispatch is the one that a provider makes for a case.
pub open spec fn is_dispatch_of(
    dispatch: DispatchEvidence,
    provider: Provider,
    case: Case,
    target: Seq<char>,
    encoding: KvCacheEncoding,
    abi: AttentionAbi,
) -> bool {
    &&& dispatch.abi_version == abi.abi_version
    &&& dispatch.info_version == abi.dispatch_info_version
    &&& dispatch.dispatch_id != 0
    &&& dispatch.dispatch_count == provider.dispatch_count()
    &&& dispatch.kernel_id == if encoding == KvCacheEncoding::Fp16 {
        abi.kernel_online_softmax_v2
    } else {
        abi.kernel_packed_kv_v3
    }
    &&& dispatch.workgroup_size_x == provider.workgroup()
    &&& dispatch.grid_size_x == provider.grid(case.m as int)
    &&& dispatch.row_count == case.m
    &&& dispatch.normalized_size == HEAD_DIM
    &&& dispatch.backend == abi.backend_hip
    &&& !dispatch.fallback_allowed
    &&& !dispatch.fallback_used
    &&& dispatch.kernel_symbol@ == provider.kernel_symbol()
    &&& dispatch.device_symbol@ == provider.device_symbol()
    &&& dispatch.target@ == target
}

/// Whether a dispatch is the one that the provider of its case makes. The grid of that provider
/// must fit its field.
pub fn metadata_matches(
    dispatch: &DispatchEvidence,
    case: Case,
    expected_target: &str,
    encoding: KvCacheEncoding,
    settings: &ProviderSettings,
    abi: &AttentionAbi,
) -> (out: bool)
    requires
        committed(case) <= u64::MAX,
        provider_of(case, expected_target@, encoding, *settings).grid(case.m as int) <= u32::MAX,
    ensures
        out == is_dispatch_of(
            *dispatch,
            provider_of(case, expected_target@, encoding, *settings),
            case,
            expected_target@,
            encoding,
            *abi,
        ),
{
    let provider = select_provider(case, expected_target, encoding, settings);
    let (dispatch_count, workgroup) = provider.counts();
    let grid: u64 = provider.grid_size(case.m as u64);
    let kernel_id: u32 = if encoding == KvCacheEncoding::Fp16 {
        abi.kernel_online_softmax_v2
    } else {
        abi.kernel_packed_kv_v3
    };
    dispatch.abi_version == abi.abi_version && dispatch.info_version == abi.dispatch_info_version
        && dispatch.dispatch_id != 0 && dispatch.dispatch_count == dispatch_count
        && dispatch.kernel_id == kernel_id && dispatch.workgroup_size_x == workgroup
        && dispatch.grid_size_x as u64 == grid && dispatch.row_count == case.m as u64
        && dispatch.normalized_size == HEAD_DIM as u64 && dispatch.backend == abi.backend_hip
        && !dispatch.fallback_allowed && !dispatch.fallback_used && same_text(
        dispatch.kernel_symbol.as_str(),
        provider.kernel_name(),
    ) && same_text(dispatch.device_symbol.as_str(), provider.device_name()) && same_text(
        dispatch.target.as_str(),
        expected_target,
    )
}

/// A matching dispatch is a fresh one of the HIP backend without fallback, on the case's target and
/// rows, with the kernel number of its cache encoding. Its grid has a group for each query head and
/// row; the shared provider has one for each cache head and row, and the tiled ones one for each
/// cache head and as many tiles of four, eight or 256 rows as just cover the rows.
pub proof fn matching_dispatches_cover_the_case(
    dispatch: &DispatchEvidence,
    case: Case,
    target: &str,
    encoding: KvCacheEncoding,
    settings: &ProviderSettings,
    abi: &AttentionAbi,
    provider: Provider,
    fours: int,
    eights: int,
    large: int,
)
    requires
        committed(case) <= u64::MAX,
        call_ensures(select_provider, (case, target, encoding, settings), provider),
        call_ensures(metadata_matches, (dispatch, case, target, encoding, settings, abi), true),
        4 * (fours - 1) < case.m <= 4 * fours,
        8 * (eights - 1) < case.m <= 8 * eights,
        256 * (large - 1) < case.m <= 256 * large,
    ensures
        dispatch.abi_version == abi.abi_version,
        dispatch.info_version == abi.dispatch_info_version,
        dispatch.dispatch_id != 0,
        dispatch.backend == abi.backend_hip,
        !dispatch.fallback_allowed && !dispatch.fallback_used,
        dispatch.target@ == target@,
        dispatch.row_count == case.m,
        dispatch.normalized_size == 256,
        encoding == KvCacheEncoding::Fp16 ==> dispatch.kernel_id == abi.kernel_online_softmax_v2,
        encoding != KvCacheEncoding::Fp16 ==> dispatch.kernel_id == abi.kernel_packed_kv_v3,
        dispatch.grid_size_x == match provider {
            Provider::DecodeGqa4SplitP32 => 4 * 32int,
            Provider::DecodeGqa4Split => 4 * 16int,
            Provider::PrefillScaledGemm => 4 * large,
            Provider::PrefillSplitV2 => 4 * 16 * eights,
            Provider::PrefillGqa4Qtile4 => 4 * fours,
            Provider::PrefillGqa4Shared => 4 * case.m,
            _ => 16 * case.m,
        },
        dispatch.workgroup_size_x == (if provider == Provider::DecodeGqa4SplitP32 || provider
            == Provider::DecodeGqa4Split {
            128u32
        } else {
            256
        }),
        dispatch.dispatch_count == (if provider == Provider::DecodeGqa4SplitP32 || provider
            == Provider::DecodeGqa4Split || provider == Provider::PrefillSplitV2 {
            2u32
        } else {
            1
        }),
{
    assert((case.m + 3) / 4 == fours);
    assert((case.m + 7) / 8 == eights);
    assert((case.m + 255) / 256 == large);
    assert(eights * KV_HEADS * 16 == 4 * 16 * eights) by (nonlinear_arith)
        requires
            KV_HEADS == 4,
    ;
    assert(provider.grid(case.m as int) == dispatch.grid_size_x);
}

/// A case fixes its dispatch: two that match differ in their number at most, and another number
/// makes no difference.
pub proof fn a_case_fixes_its_dispatch(
    a: &DispatchEvidence,
    b: &DispatchEvidence,
    case: Case,
    target: &str,
    encoding: KvCacheEncoding,
    settings: &ProviderSettings,
    abi: &AttentionAbi,
    matches: bool,
)
    requires
        committed(case) <= u64::MAX,
        call_ensures(metadata_matches, (a, case, target, encoding, settings, abi), true),
        call_ensures(metadata_matches, (b, case, target, encoding, settings, abi), matches),
    ensures
        matches <==> {
            &&& b.dispatch_id != 0
            &&& a.abi_version == b.abi_version
            &&& a.info_version == b.info_version
            &&& a.dispatch_count == b.dispatch_count
            &&& a.kernel_id == b.kernel_id
            &&& a.workgroup_size_x == b.workgroup_size_x
            &&& a.grid_size_x == b.grid_size_x
            &&& a.row_count == b.row_count
            &&& a.normalized_size == b.normalized_size
            &&& a.backend == b.backend
            &&& a.fallback_allowed == b.fallback_allowed
            &&& a.fallback_used == b.fallback_used
            &&& a.kernel_symbol@ == b.kernel_symbol@
            &&& a.device_symbol@ == b.device_symbol@
            &&& a.target@ == b.target@
        },
{
}

/// Two dispatches that match under different providers come from different kernels: no two providers
/// share a kernel symbol or a device symbol.
pub proof fn providers_have_symbols_of_their_own(a: Provider, b: Provider)
    ensures
        a != b ==> a.kernel_symbol() != b.kernel_symbol(),
        a != b ==> a.device_symbol() != b.device_symbol(),
{
    reveal_strlit("causal_attention.decode.gqa4_tiled_split.p32.v1");
    reveal_strlit("causal_attention.decode.gqa4_tiled_split.v1");
    reveal_strlit("causal_attention.decode.wave8_split.fp16_pair.v1");
    reveal_strlit("causal_attention.decode.wave8_split.q_preload.v1");
    reveal_strlit("causal_attention.decode.wave8_split.v5");
    reveal_strlit("causal_attention.prefill.gfx1030_hipblas_scaled_fp16.v1");
    reveal_strlit("causal_attention.prefill.gfx1030_qtile8_split.v2");
    reveal_strlit("causal_attention.prefill.gqa4_qtile4.v7");
    reveal_strlit("causal_attention.prefill.gqa4_shared.v6");
    reveal_strlit("causal_attention.online_softmax_gqa.gfx1201_wave.v4");
    reveal_strlit("causal_attention.online_softmax_gqa.packed_kv.gfx1201_wave.v4");
    reveal_strlit("causal_attention.online_softmax_gqa.v2");
    reveal_strlit("causal_attention.online_softmax_gqa.packed_kv.v3");
    reveal_strlit("sllm_causal_attention_decode_gqa4_split_p32_v1");
    reveal_strlit("sllm_causal_attention_decode_gqa4_tiled_split_v1");
    reveal_strlit("sllm_causal_attention_decode_wave8_split_fp16_pair_v1");
    reveal_strlit("sllm_causal_attention_decode_wave8_split_q_preload_v1");
    reveal_strlit("sllm_causal_attention_decode_wave8_split_v5");
    reveal_strlit("sllm_causal_attention_prefill_gfx1030_hipblas_scaled_fp16_v1");
    reveal_strlit("sllm_causal_attention_prefill_gfx1030_qtile8_split_v2");
    reveal_strlit("sllm_causal_attention_prefill_gqa4_qtile4_v7");
    reveal_strlit("sllm_causal_attention_prefill_gqa4_shared_v6");
    reveal_strlit("sllm_causal_attention_gfx1201_wave_v4");
    reveal_strlit("sllm_causal_attention_packed_gfx1201_wave_v4");
    reveal_strlit("sllm_causal_attention_online_softmax_gqa_v2");
    reveal_strlit("sllm_causal_attention_online_softmax_gqa_packed_kv_v3");
    let (k, l) = (a.kernel_symbol(), b.kernel_symbol());
    assert(k == l ==> k.len() == l.len() && k[17] == l[17] && k[30] == l[30] && k[36] == l[36]);
    let (d, e) = (a.device_symbol(), b.device_symbol());
    assert(d == e ==> d.len() == e.len() && d[22] == e[22] && d[23] == e[23] && d[35] == e[35]
        && d[41] == e[41]);
}

/// Where the gates of the prefills stand open: both from 1024 rows on, for plain caches of the one
/// target and no forced baseline, the one unless it is switched off and the other where it is switched on.
pub proof fn prefill_gates_open_for_long_prefills(
    target: &str,
    case: Case,
    encoding: KvCacheEncoding,
    setting: Option<&str>,
    forced: bool,
    scaled: bool,
    long: bool,
)
    requires
        call_ensures(scaled_prefill_gemm_enabled, (target, case, encoding, setting, forced), scaled),
        call_ensures(long_prefill_v2_enabled, (target, case, encoding, setting, forced), long),
    ensures
        ({
            let open = target@ == "gfx1030"@ && case.m >= 1024 && encoding == KvCacheEncoding::Fp16
                && !forced;
            &&& long <==> open && reads_one(setting)
            &&& scaled <==> open && (setting is None || reads_one(setting))
        }),
{
}

/// Where the gates of the decodes stand open: for single rows of the one target, by the length of what
/// they read; a preloaded query follows its decode.
pub proof fn decode_gates_open_by_length(
    target: &str,
    case: Case,
    encoding: KvCacheEncoding,
    setting: Option<&str>,
    forced: bool,
    short: bool,
    pair: bool,
    split: bool,
    preload: bool,
    short_preload: bool,
)
    requires
        committed(case) <= u64::MAX,
        call_ensures(decode_wave_split_short_enabled, (target, case, encoding, setting), short),
        call_ensures(
            decode_wave_split_fp16_pair_enabled,
            (target, case, encoding, setting, forced),
            pair,
        ),
        call_ensures(decode_gqa4_split_enabled, (target, case, encoding, setting, forced), split),
        call_ensures(decode_wave_split_q_preload_enabled, (target, pair, setting), preload),
        call_ensures(decode_wave_split_short_q_preload_enabled, (short, setting), short_preload),
    ensures
        ({
            let length = case.start_position + case.m;
            let open = target@ == "gfx1030"@ && case.m == 1 && encoding == KvCacheEncoding::Fp16;
            let on = setting is None || reads_one(setting);
            &&& short <==> open && on && 32 <= length < 1024
            &&& pair <==> open && on && length >= 1024 && !forced
            &&& split <==> open && reads_one(setting) && length >= 4096 && !forced
            &&& preload <==> pair
            &&& short_preload <==> short
        }),
{
}

} // verus!
