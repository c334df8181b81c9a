# sllm_hip

The decisions behind the HIP evidence runs of sLLM, verified with Verus: which cases a run makes,
which words it feeds a device, which kernel a dispatch must come from, how results are held against
each other, and when a run passes.

## Layout

- `src/` is the library. Every item of it is verified; nothing in it touches a device, a file or a
  floating-point value. Floating-point numbers are carried as their bits.
- `tests/` holds its tests.
- `app/` is the program around it: command lines, settings, files, reports, the floating-point
  oracles, and the ports through which a build that links the native library drives a device.

## Modules

| Modules | What they hold |
| --- | --- |
| `text`, `bytes`, `number`, `digest`, `json`, `stats` | Texts and their parsing, byte images, floating-point formats as bits, digests, documents, medians |
| `audit`, `session`, `native`, `argmax`, `attention_preprocess` | What a device reports, and the descriptors that are handed to the native library |
| `device_args`, `transfer`, `elementwise`, `embedding`, `preprocess_inputs`, `preprocess_run` | The operator runs |
| `fp8_matmul`, `fp8_accuracy` | The FP8 runs |
| `attention_config`, `attention_cases`, `attention_inputs`, `attention_provider`, `attention_run` | The attention run |
| `gqa6_config`, `gqa6_run` | The attention run at six query heads to one key-value head |
| `research_args`, `research_candidate`, `research_inputs`, `research_run` | The research run on caches quantized in blocks |
| `gemma_args`, `gemma_full`, `gemma_profile`, `gemma_slice`, `gemma_slice_run` | The Gemma runs |
| `mtp_numeric`, `mtp_path`, `mtp_case`, `draft_run`, `candidates`, `diagnostic`, `kv_image` | The draft-path diagnostic, and the draft rows that the state check shares with it |
| `state_check`, `state_report` | The catch-up state check |
| `manifest`, `catch_up`, `catch_up_entry`, `catch_up_ledger`, `catch_up_report` | The forced-column catch-up run |
| `companion` | The comparison of two draft companions |

## What is trusted

Four things are believed without proof, each stated where it is declared: `String::push`, SHA-256
as the `sha2` crate computes it, and the two steps by which `serde_json` turns bytes into a document.
