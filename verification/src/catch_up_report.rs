//! Where the prefixes of a catch-up run come from, and the reports that it ends in.
use crate::catch_up::{CatchUpMode, WIDTH};
use crate::catch_up_ledger::{all_entries_valid, report_state, Phase86Entry};
use vstd::prelude::*;

verus! {

/// The setting that says where the manifest of the conditions lies.
pub const MANIFEST_SETTING: &'static str = "SLLM_PHASE86_BENCH_MANIFEST";

/// The setting that says where prepared prefixes go.
pub const OUTPUT_SETTING: &'static str = "SLLM_PHASE86_PREFIX_OUTPUT";

/// The setting that says where the prefixes lie.
pub const PREFIX_SETTING: &'static str = "SLLM_PHASE86_PREFIX_FILE";

/// A path and whether it is absolute.
#[derive(Debug)]
pub struct PathArg {
    pub text: String,
    pub absolute: bool,
}

/// Where a run takes its prefixes from.
#[derive(Debug)]
pub enum PrefixPlan {
    /// Prepared from a manifest into an output file.
    Prepare { manifest: String, output: String },
    /// Read from a named file.
    File { path: String },
    /// Read from the file of the stage before.
    Stage0,
}

/// The path that was given, or the default one.
pub open spec fn or_default(given: Option<PathArg>, default: PathArg) -> PathArg {
    match given {
        Some(path) => path,
        None => default,
    }
}

/// The message that refuses to prepare prefixes, if there is one.
pub open spec fn prepare_refusal(manifest: PathArg, output: PathArg) -> Option<Seq<char>> {
    if !manifest.absolute {
        Some("SLLM_PHASE86_BENCH_MANIFEST must be an absolute path"@)
    } else if !output.absolute {
        Some("SLLM_PHASE86_PREFIX_OUTPUT must be an absolute path"@)
    } else {
        None
    }
}

fn prepare_paths(
    manifest: PathArg,
    output: Option<PathArg>,
    default_output: PathArg,
) -> (out: Result<(String, String), String>)
    ensures
        match prepare_refusal(manifest, or_default(output, default_output)) {
            Some(message) => out is Err && out->Err_0@ == message,
            None => out == Ok::<(String, String), String>(
                (manifest.text, or_default(output, default_output).text),
            ),
        },
{
    if !manifest.absolute {
        return Err("SLLM_PHASE86_BENCH_MANIFEST must be an absolute path".to_owned());
    }
    let output = match output {
        Some(path) => path,
        None => default_output,
    };
    if !output.absolute {
        return Err("SLLM_PHASE86_PREFIX_OUTPUT must be an absolute path".to_owned());
    }
    Ok((manifest.text, output.text))
}

/// Decides where a run takes its prefixes from: a manifest goes first, then a named file.
pub fn stage1_prefix_path(
    manifest: Option<PathArg>,
    output: Option<PathArg>,
    default_output: PathArg,
    prefix: Option<PathArg>,
) -> (out: Result<PrefixPlan, String>)
    ensures
        match manifest {
            Some(path) => match prepare_refusal(path, or_default(output, default_output)) {
                Some(message) => out is Err && out->Err_0@ == message,
                None => out == Ok::<PrefixPlan, String>(
                    (PrefixPlan::Prepare {
                        manifest: path.text,
                        output: or_default(output, default_output).text,
                    }),
                ),
            },
            None => match prefix {
                Some(path) => if path.absolute {
                    out == Ok::<PrefixPlan, String>((PrefixPlan::File { path: path.text }))
                } else {
                    out is Err && out->Err_0@
                        == "SLLM_PHASE86_PREFIX_FILE must be an absolute path"@
                },
                None => out == Ok::<PrefixPlan, String>(PrefixPlan::Stage0),
            },
        },
{
    match manifest {
        Some(path) => match prepare_paths(path, output, default_output) {
            Ok(paths) => Ok(PrefixPlan::Prepare { manifest: paths.0, output: paths.1 }),
            Err(message) => Err(message),
        },
        None => match prefix {
            Some(path) => {
                if path.absolute {
                    Ok(PrefixPlan::File { path: path.text })
                } else {
                    Err("SLLM_PHASE86_PREFIX_FILE must be an absolute path".to_owned())
                }
            },
            None => Ok(PrefixPlan::Stage0),
        },
    }
}

/// The manifest and the output file of a run that only prepares prefixes.
pub fn prepare_prefixes_only(
    manifest: Option<PathArg>,
    output: Option<PathArg>,
    default_output: PathArg,
) -> (out: Result<(String, String), String>)
    ensures
        match manifest {
            None => out is Err && out->Err_0@ == "SLLM_PHASE86_BENCH_MANIFEST is required"@,
            Some(path) => match prepare_refusal(path, or_default(output, default_output)) {
                Some(message) => out is Err && out->Err_0@ == message,
                None => out == Ok::<(String, String), String>(
                    (path.text, or_default(output, default_output).text),
                ),
            },
        },
{
    match manifest {
        None => Err("SLLM_PHASE86_BENCH_MANIFEST is required".to_owned()),
        Some(path) => prepare_paths(path, output, default_output),
    }
}

/// The report of a run that only prepares prefixes.
#[derive(Debug)]
pub struct Phase86PrepareReport {
    pub schema_version: &'static str,
    pub state: &'static str,
    pub prefix_file: String,
    pub prefix_file_sha256: String,
    pub entry_count: usize,
    pub prefix_provenance: &'static str,
}

/// Reports the prefixes that were prepared.
pub fn prepare_report(
    prefix_file: String,
    prefix_file_sha256: String,
    entry_count: usize,
) -> (out: Phase86PrepareReport)
    ensures
        out.schema_version@ == "phase86-prefix-prep-v1"@,
        out.state@ == "PASS"@,
        out.prefix_file == prefix_file,
        out.prefix_file_sha256 == prefix_file_sha256,
        out.entry_count == entry_count,
        out.prefix_provenance@
            == "existing Stage0 entries preserved; missing Tier A entries appended from frozen BF16 sequences"@,
{
    Phase86PrepareReport {
        schema_version: "phase86-prefix-prep-v1",
        state: "PASS",
        prefix_file,
        prefix_file_sha256,
        entry_count,
        prefix_provenance:
            "existing Stage0 entries preserved; missing Tier A entries appended from frozen BF16 sequences",
    }
}

/// The report of a run.
#[derive(Debug)]
pub struct Phase86Report {
    pub schema_version: &'static str,
    pub state: &'static str,
    pub mode: &'static str,
    pub catch_up: &'static str,
    pub width: usize,
    pub fixed_column_contract: &'static str,
    pub p_q_relationship: &'static str,
    pub prefix_file: String,
    pub prefix_file_sha256: String,
    pub prefix_provenance: &'static str,
    pub entries: Vec<Phase86Entry>,
    pub all_valid: bool,
}

/// Whether a run has entries and each is valid.
pub open spec fn run_is_valid(entries: Seq<Phase86Entry>, margins_finite: Seq<bool>) -> bool {
    entries.len() > 0 && forall|i: int|
        0 <= i < entries.len() ==> (#[trigger] entries[i]).is_valid(margins_finite[i])
}

/// Reports a run over all its entries. `margins_finite` tells for each entry whether all its
/// margins are finite, `from_manifest` whether the prefixes were prepared from a manifest.
pub fn run(
    mode: CatchUpMode,
    separate: bool,
    prefix_file: String,
    prefix_file_sha256: String,
    from_manifest: bool,
    entries: Vec<Phase86Entry>,
    margins_finite: &Vec<bool>,
) -> (out: Phase86Report)
    requires
        margins_finite@.len() == entries@.len(),
    ensures
        out.schema_version@ == "phase86-mtp-catch-up-v1"@,
        out.all_valid == run_is_valid(entries@, margins_finite@),
        out.state@ == if out.all_valid {
            "PASS"@
        } else {
            "FAIL"@
        },
        out.mode@ == mode.letter(),
        out.catch_up@ == if separate {
            "separate"@
        } else {
            "off"@
        },
        out.width == WIDTH,
        out.fixed_column_contract@
            == "block=[c[i],c[i+1],c[i+2]], accepted advances i by accepted+1; incomplete tail is omitted"@,
        out.p_q_relationship@
            == "forced-column top1 diagnostic; production p/q acceptance and residual replacement are not measured"@,
        out.prefix_file == prefix_file,
        out.prefix_file_sha256 == prefix_file_sha256,
        out.prefix_provenance@ == if from_manifest {
            "existing Stage0 entries preserved; missing Tier A entries appended from frozen BF16 sequences"@
        } else {
            "existing Stage0 frozen prefix file"@
        },
        out.entries == entries,
{
    let all_valid: bool = all_entries_valid(&entries, margins_finite);
    Phase86Report {
        schema_version: "phase86-mtp-catch-up-v1",
        state: report_state(all_valid),
        mode: mode.name(),
        catch_up: if separate { "separate" } else { "off" },
        width: WIDTH,
        fixed_column_contract:
            "block=[c[i],c[i+1],c[i+2]], accepted advances i by accepted+1; incomplete tail is omitted",
        p_q_relationship:
            "forced-column top1 diagnostic; production p/q acceptance and residual replacement are not measured",
        prefix_file,
        prefix_file_sha256,
        prefix_provenance: if from_manifest {
            "existing Stage0 entries preserved; missing Tier A entries appended from frozen BF16 sequences"
        } else {
            "existing Stage0 frozen prefix file"
        },
        entries,
        all_valid,
    }
}

/// A manifest goes before a file of prefixes, and a file before those of the stage before; every path
/// that is used must be absolute.
pub proof fn a_manifest_goes_first(
    manifest: Option<PathArg>,
    output: Option<PathArg>,
    default_output: PathArg,
    prefix: Option<PathArg>,
    out: Result<PrefixPlan, String>,
)
    requires
        call_ensures(stage1_prefix_path, (manifest, output, default_output, prefix), out),
    ensures
        ({
            let chosen = if output is Some {
                output->Some_0
            } else {
                default_output
            };
            &&& manifest is Some ==> (out is Ok <==> manifest->Some_0.absolute && chosen.absolute)
            &&& manifest is Some && out is Ok ==> {
                &&& out->Ok_0 is Prepare
                &&& out->Ok_0->manifest@ == manifest->Some_0.text@
                &&& out->Ok_0->output@ == chosen.text@
            }
            &&& manifest is None && prefix is Some ==> (out is Ok <==> prefix->Some_0.absolute)
            &&& manifest is None && prefix is Some && out is Ok ==> out->Ok_0 is File
                && out->Ok_0->path@ == prefix->Some_0.text@
            &&& manifest is None && prefix is None ==> out matches Ok(PrefixPlan::Stage0)
        }),
{
}

/// A report passes just where it has entries and each of them is valid.
pub proof fn reports_pass_where_every_entry_is_valid(
    mode: CatchUpMode,
    separate: bool,
    prefix_file: String,
    prefix_file_sha256: String,
    from_manifest: bool,
    entries: Vec<Phase86Entry>,
    margins_finite: &Vec<bool>,
    report: Phase86Report,
)
    requires
        margins_finite@.len() == entries@.len(),
        call_ensures(
            run,
            (
                mode,
                separate,
                prefix_file,
                prefix_file_sha256,
                from_manifest,
                entries,
                margins_finite,
            ),
            report,
        ),
    ensures
        report.width == 2,
        report.state@ == "PASS"@ <==> report.all_valid,
        report.all_valid <==> entries@.len() >= 1 && forall|i: int|
            0 <= i < entries@.len() ==> (#[trigger] entries@[i]).is_valid(margins_finite@[i]),
        report.entries@ == entries@,
{
    reveal_strlit("PASS");
    reveal_strlit("FAIL");
    assert("PASS"@[0] != "FAIL"@[0]);
}

/// Prefixes are prepared exactly where both paths are absolute: from the manifest that is given, into the
/// output that is given or else the usual one.
pub proof fn prefixes_go_where_they_are_sent(
    manifest: Option<PathArg>,
    output: Option<PathArg>,
    default_output: PathArg,
    out: Result<(String, String), String>,
)
    requires
        call_ensures(prepare_prefixes_only, (manifest, output, default_output), out),
    ensures
        ({
            let path = match output {
                Some(given) => given,
                None => default_output,
            };
            &&& out is Ok <==> manifest is Some && manifest->Some_0.absolute && path.absolute
            &&& out matches Ok(paths) ==> paths.0 == manifest->Some_0.text && paths.1 == path.text
        }),
{
}

} // verus!
