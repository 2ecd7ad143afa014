use vstd::prelude::*;
use vstd::slice::slice_subrange;
use crate::codec::{parse_event_payload, spec_parse_event};
use crate::events::{CampaignEvent, CampaignEventView};

verus! {

/// Bytes of the kind tag that precedes every payload. The decoder skips it
/// without matching it against expected values.
pub const KIND_TAG_LEN: usize = 8;

/// The textual marker before program-emitted data in a log line.
pub open spec fn spec_program_data_prefix() -> Seq<char> {
    "Program data: "@
}

/// What base64 decoding under the standard alphabet with required padding
/// returns for a given input: the decoded bytes, or nothing when the input is
/// not canonical base64. The result depends on the characters alone.
pub uninterp spec fn base64_decoding_of(s: Seq<char>) -> Option<Seq<u8>>;

/// What trimming leading and trailing whitespace returns for a given input.
/// The result depends on the characters alone.
pub uninterp spec fn trim_of(s: Seq<char>) -> Seq<char>;

/// Relies on `str::strip_prefix`: removes the prefix when the string starts
/// with it, and reports when it does not.
#[verifier::external_body]
fn strip_prefix_str<'a>(s: &'a str, prefix: &str) -> (r: Option<&'a str>)
    ensures
        match r {
            Some(rest) => prefix@.is_prefix_of(s@) && rest@ == s@.skip(prefix@.len() as int),
            None => !prefix@.is_prefix_of(s@),
        },
{
    s.strip_prefix(prefix)
}

/// Relies on `str::trim`.
#[verifier::external_body]
fn trim_str(s: &str) -> (r: &str)
    ensures
        r@ == trim_of(s@),
{
    s.trim()
}

/// Relies on base64's `Engine::decode` with the `STANDARD` engine.
#[verifier::external_body]
fn base64_decode(s: &str) -> (r: Option<Vec<u8>>)
    ensures
        match r {
            Some(bytes) => base64_decoding_of(s@) == Some(bytes@),
            None => base64_decoding_of(s@) is None,
        },
{
    base64::Engine::decode(&base64::engine::general_purpose::STANDARD, s).ok()
}

/// The payload bytes a log line carries: present when the line bears the
/// program-data marker, the trimmed remainder decodes as base64, and the
/// decoded data is at least as long as the kind tag, which is then skipped.
pub open spec fn spec_line_payload(line: Seq<char>) -> Option<Seq<u8>> {
    if spec_program_data_prefix().is_prefix_of(line) {
        match base64_decoding_of(
            trim_of(line.skip(spec_program_data_prefix().len() as int)),
        ) {
            Some(data) => if data.len() >= KIND_TAG_LEN {
                Some(data.skip(KIND_TAG_LEN as int))
            } else {
                None
            },
            None => None,
        }
    } else {
        None
    }
}

/// The event a single log line yields.
pub open spec fn spec_line_event(line: Seq<char>) -> Option<CampaignEventView> {
    match spec_line_payload(line) {
        Some(payload) => spec_parse_event(payload),
        None => None,
    }
}

/// The event an ordered run of log lines yields: lines are scanned in order,
/// the first that yields an event wins, and later lines are not consulted.
pub open spec fn spec_scan_logs(lines: Seq<Seq<char>>) -> Option<CampaignEventView>
    decreases lines.len(),
{
    if lines.len() == 0 {
        None
    } else {
        match spec_line_event(lines[0]) {
            Some(e) => Some(e),
            None => spec_scan_logs(lines.skip(1)),
        }
    }
}

/// A run of lines none of which yields an event yields no event.
proof fn lemma_scan_logs_all_none(lines: Seq<Seq<char>>)
    requires
        forall|j: int| 0 <= j < lines.len() ==> spec_line_event(lines[j]) is None,
    ensures
        spec_scan_logs(lines) is None,
    decreases lines.len(),
{
    if lines.len() > 0 {
        assert(forall|j: int|
            0 <= j < lines.skip(1).len() ==> lines.skip(1)[j] == lines[j + 1]);
        lemma_scan_logs_all_none(lines.skip(1));
    }
}

/// When every line before position `i` yields nothing, the run's event is the
/// event of line `i`.
proof fn lemma_scan_logs_first_hit(lines: Seq<Seq<char>>, i: int)
    requires
        0 <= i < lines.len(),
        forall|j: int| 0 <= j < i ==> spec_line_event(lines[j]) is None,
        spec_line_event(lines[i]) is Some,
    ensures
        spec_scan_logs(lines) == spec_line_event(lines[i]),
    decreases i,
{
    if i > 0 {
        assert(forall|j: int|
            0 <= j < lines.skip(1).len() ==> lines.skip(1)[j] == lines[j + 1]);
        lemma_scan_logs_first_hit(lines.skip(1), i - 1);
    }
}

/// Scan a transaction's log lines in order for the first decodable
/// program-data payload, exactly as the worker does after each fetch.
pub fn parse_anchor_event(logs: &Vec<String>) -> (r: Option<CampaignEvent>)
    ensures
        match r {
            Some(e) => spec_scan_logs(logs.deep_view()) == Some(e@),
            None => spec_scan_logs(logs.deep_view()) is None,
        },
{
    let ghost lines = logs.deep_view();
    let mut i: usize = 0;
    while i < logs.len()
        invariant
            0 <= i <= logs.len(),
            lines == logs.deep_view(),
            lines.len() == logs@.len(),
            forall|j: int| 0 <= j < i ==> spec_line_event(lines[j]) is None,
        decreases logs.len() - i,
    {
        let line: &String = &logs[i];
        proof {
            assert(lines[i as int] == logs@[i as int]@);
        }
        if let Some(rest) = strip_prefix_str(line.as_str(), "Program data: ") {
            let trimmed = trim_str(rest);
            if let Some(data) = base64_decode(trimmed) {
                if data.len() >= KIND_TAG_LEN {
                    let payload = slice_subrange(data.as_slice(), KIND_TAG_LEN, data.len());
                    proof {
                        assert(payload@ =~= data@.skip(KIND_TAG_LEN as int));
                        assert(spec_line_payload(lines[i as int]) == Some(payload@));
                    }
                    if let Some(e) = parse_event_payload(payload) {
                        proof {
                            lemma_scan_logs_first_hit(lines, i as int);
                        }
                        return Some(e);
                    }
                }
            }
        }
        proof {
            assert(spec_line_event(lines[i as int]) is None);
        }
        i = i + 1;
    }
    proof {
        lemma_scan_logs_all_none(lines);
    }
    None
}

} // verus!
