//! The file scanner: signature match, heuristic pattern scan and
//! entropy analysis over file content, fused into one confidence-scored
//! result.
//!
//! Confidences are integers in ten-thousandths (10_000 = 1.0). Fusion
//! raises a running maximum monotonically; the final verdict is gated
//! purely on the 0.5 threshold, and below it the threat name is cleared.

use crate::entropy::{entropy_q, shannon_entropy_q};
use crate::search::{
    bytes_eq, bytes_of_chars, contains_bytes, contains_seq, lower_bytes, str_to_bytes,
    to_lower_bytes,
};
use crate::signatures::{first_match_from, SignatureStore, SIGNATURE_CONFIDENCE};
use vstd::prelude::*;

verus! {

/// Confidence of a suspicious-command hit.
pub const COMMAND_CONFIDENCE: u32 = 7000;

/// Confidence of the high-entropy-chunks heuristic.
pub const HIGH_ENTROPY_CONTENT_CONFIDENCE: u32 = 6000;

/// Confidence of a packer-marker hit.
pub const PACKER_CONFIDENCE: u32 = 8000;

/// Whole-file entropy confidences: high and moderate.
pub const ENTROPY_HIGH_CONFIDENCE: u32 = 9000;

pub const ENTROPY_MODERATE_CONFIDENCE: u32 = 5000;

/// Fused confidence at or above this is malicious.
pub const MALICIOUS_THRESHOLD: u32 = 5000;

/// One heuristic finding: a label and its confidence.
pub struct HeuristicFinding {
    pub label: String,
    pub confidence: u32,
}

/// The label/confidence pairs of a list of findings.
pub open spec fn findings_view(s: Seq<HeuristicFinding>) -> Seq<(Seq<char>, u32)> {
    s.map_values(|f: HeuristicFinding| (f.label@, f.confidence))
}

/// The fixed list of suspicious command names, by index.
pub open spec fn command_name(i: int) -> Seq<char> {
    if i == 0 {
        "cmd.exe"@
    } else if i == 1 {
        "powershell.exe"@
    } else if i == 2 {
        "net user"@
    } else if i == 3 {
        "reg add"@
    } else if i == 4 {
        "schtasks"@
    } else if i == 5 {
        "bitsadmin"@
    } else if i == 6 {
        "certutil"@
    } else if i == 7 {
        "mshta"@
    } else if i == 8 {
        "rundll32"@
    } else if i == 9 {
        "wscript"@
    } else {
        "cscript"@
    }
}

/// The finding label for each suspicious command.
pub open spec fn command_label(i: int) -> Seq<char> {
    if i == 0 {
        "SUSPICIOUS_COMMAND_cmd.exe"@
    } else if i == 1 {
        "SUSPICIOUS_COMMAND_powershell.exe"@
    } else if i == 2 {
        "SUSPICIOUS_COMMAND_net user"@
    } else if i == 3 {
        "SUSPICIOUS_COMMAND_reg add"@
    } else if i == 4 {
        "SUSPICIOUS_COMMAND_schtasks"@
    } else if i == 5 {
        "SUSPICIOUS_COMMAND_bitsadmin"@
    } else if i == 6 {
        "SUSPICIOUS_COMMAND_certutil"@
    } else if i == 7 {
        "SUSPICIOUS_COMMAND_mshta"@
    } else if i == 8 {
        "SUSPICIOUS_COMMAND_rundll32"@
    } else if i == 9 {
        "SUSPICIOUS_COMMAND_wscript"@
    } else {
        "SUSPICIOUS_COMMAND_cscript"@
    }
}

/// Findings from the command list, from index `i` on. The content is
/// scanned as bytes; the command names are ASCII, so this is the
/// case-sensitive substring search of the lossy text decode.
pub open spec fn command_findings_from(content: Seq<u8>, i: int) -> Seq<(Seq<char>, u32)>
    decreases 11 - i,
{
    if i < 0 || i >= 11 {
        Seq::empty()
    } else {
        (if contains_seq(content, bytes_of_chars(command_name(i))) {
            seq![(command_label(i), COMMAND_CONFIDENCE)]
        } else {
            Seq::empty()
        }) + command_findings_from(content, i + 1)
    }
}

/// The 256-byte chunk at index `j` (the last chunk may be shorter).
pub open spec fn chunk_of(s: Seq<u8>, j: int) -> Seq<u8> {
    s.subrange(
        256 * j,
        if 256 * j + 256 <= s.len() {
            256 * j + 256
        } else {
            s.len() as int
        },
    )
}

/// Number of 256-byte chunks of a buffer of length `n`.
pub open spec fn num_chunks(n: int) -> int {
    (n + 255) / 256
}

/// How many of the first `j` chunks have entropy above 7.5 bits.
pub open spec fn high_chunks_below(s: Seq<u8>, j: int) -> nat
    decreases j,
{
    if j <= 0 {
        0
    } else {
        high_chunks_below(s, j - 1) + if entropy_q(chunk_of(s, j - 1)) > 7680 {
            1nat
        } else {
            0nat
        }
    }
}

/// The encryption-like-content heuristic: in content over 1024 bytes,
/// more high-entropy 256-byte chunks than one per KiB.
pub open spec fn spec_entropy_heuristic(s: Seq<u8>) -> bool {
    s.len() > 1024 && high_chunks_below(s, num_chunks(s.len() as int)) > s.len() as int / 1024
}

/// The two fixed packer markers.
pub open spec fn packer_sig(i: int) -> Seq<u8> {
    if i == 0 {
        seq![0x60u8, 0xE8u8, 0x00u8, 0x00u8, 0x00u8, 0x00u8]
    } else {
        seq![0x4Du8, 0x5Au8, 0x90u8, 0x00u8, 0x03u8, 0x00u8]
    }
}

/// The finding label for each packer marker.
pub open spec fn packer_label(i: int) -> Seq<char> {
    if i == 0 {
        "PACKER_DETECTED_0"@
    } else {
        "PACKER_DETECTED_1"@
    }
}

/// Findings from the packer markers, from index `i` on.
pub open spec fn packer_findings_from(content: Seq<u8>, i: int) -> Seq<(Seq<char>, u32)>
    decreases 2 - i,
{
    if i < 0 || i >= 2 {
        Seq::empty()
    } else {
        (if contains_seq(content, packer_sig(i)) {
            seq![(packer_label(i), PACKER_CONFIDENCE)]
        } else {
            Seq::empty()
        }) + packer_findings_from(content, i + 1)
    }
}

/// All heuristic findings of a buffer, in the order the scan emits
/// them: commands, then the entropy-chunk heuristic, then packers.
pub open spec fn spec_heuristics(content: Seq<u8>) -> Seq<(Seq<char>, u32)> {
    command_findings_from(content, 0) + (if spec_entropy_heuristic(content) {
        seq![("HIGH_ENTROPY_CONTENT"@, HIGH_ENTROPY_CONTENT_CONFIDENCE)]
    } else {
        Seq::empty()
    }) + packer_findings_from(content, 0)
}

/// The whole-file entropy confidence: 0 for content under 256 bytes,
/// else 0.9 above 0.8 normalized entropy, 0.5 above 0.6, and 0 below.
pub open spec fn spec_entropy_confidence(s: Seq<u8>) -> u32 {
    if s.len() < 256 {
        0
    } else if 10 * entropy_q(s) > 65536 {
        ENTROPY_HIGH_CONFIDENCE
    } else if 10 * entropy_q(s) > 49152 {
        ENTROPY_MODERATE_CONFIDENCE
    } else {
        0
    }
}

/// Fusion state: running maximum confidence, the threat name if one is
/// set, and whether any detector fired.
pub open spec fn fuse_step(
    state: (u32, Option<Seq<char>>, bool),
    f: (Seq<char>, u32),
) -> (u32, Option<Seq<char>>, bool) {
    if f.1 > state.0 {
        (
            f.1,
            if state.1 is None {
                Some(f.0)
            } else {
                state.1
            },
            true,
        )
    } else {
        state
    }
}

/// Fold the heuristic findings into the fusion state, in order.
pub open spec fn fuse_findings(
    state: (u32, Option<Seq<char>>, bool),
    fs: Seq<(Seq<char>, u32)>,
) -> (u32, Option<Seq<char>>, bool)
    decreases fs.len(),
{
    if fs.len() == 0 {
        state
    } else {
        fuse_step(fuse_findings(state, fs.drop_last()), fs.last())
    }
}

/// The fused scan outcome: (is_malicious, threat name, confidence).
/// A signature result seeds the state; each finding that strictly
/// exceeds the running maximum replaces it; the entropy score is
/// compared last with the default name; and the whole decision is gated
/// on the threshold, below which the name is cleared.
pub open spec fn spec_fuse(
    sig: Option<(Seq<char>, u32)>,
    fs: Seq<(Seq<char>, u32)>,
    ent: u32,
) -> (bool, Option<Seq<char>>, u32) {
    let st0 = match sig {
        None => (0u32, None::<Seq<char>>, false),
        Some(s) => (s.1, Some(s.0), true),
    };
    let st1 = fuse_findings(st0, fs);
    let st2 = if ent > st1.0 {
        (
            ent,
            if st1.1 is None {
                Some("HIGH_ENTROPY_SUSPICIOUS"@)
            } else {
                st1.1
            },
            true,
        )
    } else {
        st1
    };
    if st2.0 >= MALICIOUS_THRESHOLD {
        (true, st2.1, st2.0)
    } else {
        (false, None, st2.0)
    }
}

/// The view of an optional signature-scan result.
pub open spec fn sig_view(o: Option<(String, u32)>) -> Option<(Seq<char>, u32)> {
    match o {
        None => None,
        Some(p) => Some((p.0@, p.1)),
    }
}

/// The view of an optional threat name.
pub open spec fn name_view(o: Option<String>) -> Option<Seq<char>> {
    match o {
        None => None,
        Some(s) => Some(s@),
    }
}

/// The outcome of scanning `content` against a store's entries.
pub open spec fn spec_scan_outcome(content: Seq<u8>, entries: Seq<(String, Vec<u8>)>) -> (
    bool,
    Option<Seq<char>>,
    u32,
) {
    let sig = match first_match_from(content, entries, 0) {
        None => None,
        Some(i) => Some((entries[i].0@, SIGNATURE_CONFIDENCE)),
    };
    spec_fuse(sig, spec_heuristics(content), spec_entropy_confidence(content))
}

/// The command name and finding label at index `i`.
fn command_pair(i: usize) -> (r: (&'static str, &'static str))
    requires
        i < 11,
    ensures
        r.0@ == command_name(i as int),
        r.1@ == command_label(i as int),
{
    match i {
        0 => ("cmd.exe", "SUSPICIOUS_COMMAND_cmd.exe"),
        1 => ("powershell.exe", "SUSPICIOUS_COMMAND_powershell.exe"),
        2 => ("net user", "SUSPICIOUS_COMMAND_net user"),
        3 => ("reg add", "SUSPICIOUS_COMMAND_reg add"),
        4 => ("schtasks", "SUSPICIOUS_COMMAND_schtasks"),
        5 => ("bitsadmin", "SUSPICIOUS_COMMAND_bitsadmin"),
        6 => ("certutil", "SUSPICIOUS_COMMAND_certutil"),
        7 => ("mshta", "SUSPICIOUS_COMMAND_mshta"),
        8 => ("rundll32", "SUSPICIOUS_COMMAND_rundll32"),
        9 => ("wscript", "SUSPICIOUS_COMMAND_wscript"),
        _ => ("cscript", "SUSPICIOUS_COMMAND_cscript"),
    }
}

/// The packer marker and finding label at index `i`.
fn packer_pair(i: usize) -> (r: (Vec<u8>, &'static str))
    requires
        i < 2,
    ensures
        r.0@ == packer_sig(i as int),
        r.1@ == packer_label(i as int),
{
    if i == 0 {
        let sig: Vec<u8> = vec![0x60, 0xE8, 0x00, 0x00, 0x00, 0x00];
        assert(sig@ =~= packer_sig(0));
        (sig, "PACKER_DETECTED_0")
    } else {
        let sig: Vec<u8> = vec![0x4D, 0x5A, 0x90, 0x00, 0x03, 0x00];
        assert(sig@ =~= packer_sig(1));
        (sig, "PACKER_DETECTED_1")
    }
}

/// The heuristic scan: suspicious command names, the high-entropy-chunk
/// rule, and packer markers, in that order.
pub fn perform_heuristic_analysis(content: &[u8]) -> (r: Vec<HeuristicFinding>)
    ensures
        findings_view(r@) == spec_heuristics(content@),
{
    let mut out: Vec<HeuristicFinding> = Vec::new();
    assert(findings_view(out@) =~= Seq::<(Seq<char>, u32)>::empty());
    for i in 0..11usize
        invariant
            findings_view(out@) + command_findings_from(content@, i as int) =~= command_findings_from(
                content@,
                0,
            ),
    {
        let (name, label) = command_pair(i);
        let needle = str_to_bytes(name);
        let ghost before = out@;
        if contains_bytes(content, needle.as_slice()) {
            out.push(HeuristicFinding { label: label.to_owned(), confidence: COMMAND_CONFIDENCE });
            proof {
                assert(findings_view(out@) =~= findings_view(before) + seq![
                    (command_label(i as int), COMMAND_CONFIDENCE),
                ]);
            }
        }
        proof {
            assert(findings_view(out@) + command_findings_from(content@, i + 1)
                =~= command_findings_from(content@, 0));
        }
    }
    let ghost after_commands = out@;
    proof {
        assert(findings_view(after_commands) =~= command_findings_from(content@, 0));
    }
    // High-entropy chunks: count 256-byte chunks above 7.5 bits.
    if content.len() > 1024 {
        let n = content.len();
        let mut high_count: usize = 0;
        let mut j: usize = 0;
        let mut start: usize = 0;
        while start < n
            invariant
                n == content@.len(),
                n > 1024,
                start == if 256 * j <= n {
                    256 * (j as int)
                } else {
                    n as int
                },
                j == 0 || 256 * (j as int - 1) < n,
                high_count == high_chunks_below(content@, j as int),
                high_count <= j,
            decreases n - start,
        {
            let end = if n - start > 256 {
                start + 256
            } else {
                n
            };
            let chunk = vstd::slice::slice_subrange(content, start, end);
            let e = shannon_entropy_q(chunk);
            proof {
                assert(chunk@ == chunk_of(content@, j as int));
            }
            if e > 7680 {
                high_count = high_count + 1;
            }
            j = j + 1;
            start = end;
        }
        proof {
            // 256*(j-1) < n <= 256*j, so j is exactly the chunk count.
            assert(j as int == num_chunks(n as int)) by {
                assert(256 * (j as int - 1) < n <= 256 * (j as int));
                let b = n as int + 255 - 256 * (j as int);
                assert(n as int + 255 == 256 * (j as int) + b);
                assert(0 <= b < 256);
                vstd::arithmetic::div_mod::lemma_div_multiples_vanish_fancy(j as int, b, 256);
            }
        }
        if high_count > n / 1024 {
            let ghost before = out@;
            out.push(
                HeuristicFinding {
                    label: "HIGH_ENTROPY_CONTENT".to_owned(),
                    confidence: HIGH_ENTROPY_CONTENT_CONFIDENCE,
                },
            );
            proof {
                assert(findings_view(out@) =~= findings_view(before) + seq![
                    ("HIGH_ENTROPY_CONTENT"@, HIGH_ENTROPY_CONTENT_CONFIDENCE),
                ]);
            }
        }
    }
    let ghost after_entropy = out@;
    proof {
        assert(findings_view(after_entropy) =~= command_findings_from(content@, 0) + (
        if spec_entropy_heuristic(content@) {
            seq![("HIGH_ENTROPY_CONTENT"@, HIGH_ENTROPY_CONTENT_CONFIDENCE)]
        } else {
            Seq::<(Seq<char>, u32)>::empty()
        }));
    }
    for i in 0..2usize
        invariant
            findings_view(out@) + packer_findings_from(content@, i as int) =~= findings_view(
                after_entropy,
            ) + packer_findings_from(content@, 0),
    {
        let (sig, label) = packer_pair(i);
        let ghost before = out@;
        if contains_bytes(content, sig.as_slice()) {
            out.push(HeuristicFinding { label: label.to_owned(), confidence: PACKER_CONFIDENCE });
            proof {
                assert(findings_view(out@) =~= findings_view(before) + seq![
                    (packer_label(i as int), PACKER_CONFIDENCE),
                ]);
            }
        }
        proof {
            assert(findings_view(out@) + packer_findings_from(content@, i + 1) =~= findings_view(
                after_entropy,
            ) + packer_findings_from(content@, 0));
        }
    }
    proof {
        assert(findings_view(out@) =~= spec_heuristics(content@));
    }
    out
}

/// The whole-file entropy stage.
pub fn analyze_entropy(content: &[u8]) -> (r: u32)
    ensures
        r == spec_entropy_confidence(content@),
{
    if content.len() < 256 {
        return 0;
    }
    let e = shannon_entropy_q(content);
    if 10 * e > 65536 {
        ENTROPY_HIGH_CONFIDENCE
    } else if 10 * e > 49152 {
        ENTROPY_MODERATE_CONFIDENCE
    } else {
        0
    }
}

/// Fuse the three stages into the final (is_malicious, threat name,
/// confidence) triple.
pub fn combine_scan_results(
    signature_result: Option<(String, u32)>,
    heuristic_results: Vec<HeuristicFinding>,
    entropy_score: u32,
) -> (r: (bool, Option<String>, u32))
    ensures
        ({
            let outcome = spec_fuse(
                sig_view(signature_result),
                findings_view(heuristic_results@),
                entropy_score,
            );
            r.0 == outcome.0 && name_view(r.1) == outcome.1 && r.2 == outcome.2
        }),
{
    let ghost st0 = match sig_view(signature_result) {
        None => (0u32, None::<Seq<char>>, false),
        Some(s) => (s.1, Some(s.0), true),
    };
    let mut max_confidence: u32 = 0;
    let mut threat_name: Option<String> = None;
    let mut is_malicious = false;
    match signature_result {
        Some((name, confidence)) => {
            max_confidence = confidence;
            threat_name = Some(name);
            is_malicious = true;
        },
        None => {},
    }
    proof {
        assert(max_confidence == st0.0 && name_view(threat_name) == st0.1 && is_malicious == st0.2);
    }
    let n = heuristic_results.len();
    let ghost fs = findings_view(heuristic_results@);
    let mut i: usize = 0;
    while i < n
        invariant
            n == heuristic_results@.len(),
            i <= n,
            fs == findings_view(heuristic_results@),
            ({
                let st = fuse_findings(st0, fs.take(i as int));
                max_confidence == st.0 && name_view(threat_name) == st.1 && is_malicious == st.2
            }),
        decreases n - i,
    {
        proof {
            assert(fs.take(i + 1).drop_last() =~= fs.take(i as int));
            assert(fs.take(i + 1).last() == fs[i as int]);
        }
        let f = &heuristic_results[i];
        if f.confidence > max_confidence {
            max_confidence = f.confidence;
            if threat_name.is_none() {
                threat_name = Some(f.label.clone());
            }
            is_malicious = true;
        }
        i = i + 1;
    }
    proof {
        assert(fs.take(n as int) =~= fs);
    }
    if entropy_score > max_confidence {
        max_confidence = entropy_score;
        if threat_name.is_none() {
            threat_name = Some("HIGH_ENTROPY_SUSPICIOUS".to_owned());
        }
        is_malicious = true;
    }
    if max_confidence >= MALICIOUS_THRESHOLD {
        (true, threat_name, max_confidence)
    } else {
        (false, None, max_confidence)
    }
}

/// The result of one file scan. `scan_time_ms` is filled in by the
/// caller that measured the scan; the engine itself reports 0.
#[derive(Debug, Clone, PartialEq)]
pub struct ScanResult {
    pub file_path: String,
    pub is_malicious: bool,
    pub threat_name: Option<String>,
    pub confidence: u32,
    pub scan_time_ms: u64,
}

/// `r` is the scan result the engine owes for `content` under
/// `entries`, up to the caller-measured elapsed time.
pub open spec fn result_matches(
    r: ScanResult,
    path: Seq<char>,
    content: Seq<u8>,
    entries: Seq<(String, Vec<u8>)>,
) -> bool {
    let outcome = spec_scan_outcome(content, entries);
    r.file_path@ == path && r.is_malicious == outcome.0 && name_view(r.threat_name) == outcome.1
        && r.confidence == outcome.2
}

/// Scan one file's content against the signature store: the engine's
/// file-side entry point. The caller reads the file and hands the bytes
/// in; a path that does not exist never reaches this function (see
/// `file_not_found_result`).
pub fn scan_content(path: String, content: &[u8], store: &SignatureStore) -> (r: ScanResult)
    ensures
        result_matches(r, path@, content@, store.entries()),
        r.scan_time_ms == 0,
{
    let signature_result = store.scan(content);
    let heuristic_results = perform_heuristic_analysis(content);
    let entropy_result = analyze_entropy(content);
    let (is_malicious, threat_name, confidence) = combine_scan_results(
        signature_result,
        heuristic_results,
        entropy_result,
    );
    ScanResult { file_path: path, is_malicious, threat_name, confidence, scan_time_ms: 0 }
}

/// The explicit non-malicious outcome for a path that does not exist:
/// the sentinel threat name at zero confidence.
pub fn file_not_found_result(path: String) -> (r: ScanResult)
    ensures
        r.file_path@ == path@,
        !r.is_malicious,
        name_view(r.threat_name) == Some("FILE_NOT_FOUND"@),
        r.confidence == 0,
        r.scan_time_ms == 0,
{
    ScanResult {
        file_path: path,
        is_malicious: false,
        threat_name: Some("FILE_NOT_FOUND".to_owned()),
        confidence: 0,
        scan_time_ms: 0,
    }
}

/// The file extensions the directory scanner submits for scanning,
/// compared case-insensitively.
pub open spec fn spec_scannable_extension(ext: Seq<u8>) -> bool {
    let l = lower_bytes(ext);
    l == bytes_of_chars("exe"@) || l == bytes_of_chars("dll"@) || l == bytes_of_chars("bat"@) || l
        == bytes_of_chars("cmd"@) || l == bytes_of_chars("ps1"@) || l == bytes_of_chars("vbs"@) || l
        == bytes_of_chars("js"@) || l == bytes_of_chars("jar"@)
}

/// Whether a file extension (as bytes, without the dot) is on the
/// directory scanner's allowlist, case-insensitively.
pub fn is_scannable_extension(ext: &[u8]) -> (r: bool)
    ensures
        r == spec_scannable_extension(ext@),
{
    let lower = to_lower_bytes(ext);
    let mut found = false;
    let allow0 = str_to_bytes("exe");
    let allow1 = str_to_bytes("dll");
    let allow2 = str_to_bytes("bat");
    let allow3 = str_to_bytes("cmd");
    let allow4 = str_to_bytes("ps1");
    let allow5 = str_to_bytes("vbs");
    let allow6 = str_to_bytes("js");
    let allow7 = str_to_bytes("jar");
    if bytes_eq(lower.as_slice(), allow0.as_slice()) {
        found = true;
    }
    if bytes_eq(lower.as_slice(), allow1.as_slice()) {
        found = true;
    }
    if bytes_eq(lower.as_slice(), allow2.as_slice()) {
        found = true;
    }
    if bytes_eq(lower.as_slice(), allow3.as_slice()) {
        found = true;
    }
    if bytes_eq(lower.as_slice(), allow4.as_slice()) {
        found = true;
    }
    if bytes_eq(lower.as_slice(), allow5.as_slice()) {
        found = true;
    }
    if bytes_eq(lower.as_slice(), allow6.as_slice()) {
        found = true;
    }
    if bytes_eq(lower.as_slice(), allow7.as_slice()) {
        found = true;
    }
    found
}

/// Fusion is monotonic: a finding whose confidence strictly exceeds a
/// scan's reported confidence raises the reported confidence to exactly
/// that value.
pub proof fn lemma_fusion_monotonic(
    sig: Option<(Seq<char>, u32)>,
    fs: Seq<(Seq<char>, u32)>,
    ent: u32,
    label: Seq<char>,
    c: u32,
)
    requires
        c > spec_fuse(sig, fs, ent).2,
    ensures
        spec_fuse(sig, fs.push((label, c)), ent).2 == c,
{
    let st0 = match sig {
        None => (0u32, None::<Seq<char>>, false),
        Some(s) => (s.1, Some(s.0), true),
    };
    let fs2 = fs.push((label, c));
    assert(fs2.drop_last() =~= fs);
    assert(fs2.last() == (label, c));
    assert(fuse_findings(st0, fs2) == fuse_step(fuse_findings(st0, fs), (label, c)));
}

/// The verdict is gated purely on the threshold: a scan is malicious
/// exactly when its fused confidence reaches 0.5.
pub proof fn lemma_threshold_boundary(
    sig: Option<(Seq<char>, u32)>,
    fs: Seq<(Seq<char>, u32)>,
    ent: u32,
)
    ensures
        spec_fuse(sig, fs, ent).0 == (spec_fuse(sig, fs, ent).2 >= MALICIOUS_THRESHOLD),
{
}

/// Scanning the same content twice against the same store yields the
/// same result in every field but the elapsed time.
pub proof fn lemma_scan_idempotent(
    a: ScanResult,
    b: ScanResult,
    path: Seq<char>,
    content: Seq<u8>,
    entries: Seq<(String, Vec<u8>)>,
)
    requires
        result_matches(a, path, content, entries),
        result_matches(b, path, content, entries),
    ensures
        a.file_path@ == b.file_path@,
        a.is_malicious == b.is_malicious,
        name_view(a.threat_name) == name_view(b.threat_name),
        a.confidence == b.confidence,
{
}

} // verus!
