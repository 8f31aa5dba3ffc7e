//! Classification of downloader output lines into pipeline phases, and
//! extraction of the structured progress marker.
//!
//! Classification is an ordered list of substring rules; the first matching
//! rule wins, and a line matching no rule leaves the phase unchanged.
//! Progress is carried as whole tenths of a percent, so `42.5%` is `425`;
//! the external tool reports percentages with at most one decimal place.

use vstd::prelude::*;

use crate::status::Phase;
use crate::text::{
    contains_str, contains_sub, ends_with_spec, ends_with_str, is_digit, starts_with_spec,
    starts_with_str, trim, trim_spec,
};

verus! {

/// The ordered substring rules: phase of a raw output line.
pub open spec fn spec_classify(line: Seq<char>) -> Option<Phase> {
    if contains_sub(line, "Downloading webpage"@) {
        Some(Phase::FetchingInfo)
    } else if contains_sub(line, "Downloading android vr player API JSON"@) || contains_sub(
        line,
        "Downloading web safari player API JSON"@,
    ) || contains_sub(line, "Downloading player"@) || contains_sub(line, "Solving JS challenges"@)
        || contains_sub(line, "Downloading m3u8 information"@) {
        Some(Phase::PreparingDownload)
    } else if contains_sub(line, "Destination:"@) || contains_sub(line, "download-progress:"@) {
        Some(Phase::Downloading)
    } else if contains_sub(line, "[ExtractAudio]"@) || contains_sub(line, "Extracting audio"@) {
        Some(Phase::ExtractingAudio)
    } else if contains_sub(line, "[Metadata]"@) || contains_sub(line, "Adding metadata"@) {
        Some(Phase::AddingMetadata)
    } else if contains_sub(line, "[ThumbnailsConvertor]"@) || contains_sub(
        line,
        "Converting thumbnail"@,
    ) {
        Some(Phase::ConvertingThumbnail)
    } else if contains_sub(line, "[EmbedThumbnail]"@) || contains_sub(line, "Adding thumbnail"@) {
        Some(Phase::EmbeddingThumbnail)
    } else {
        None
    }
}

/// Classify one output line by the ordered substring rules; the first
/// matching rule wins, and an unmatched line yields `None` (phase unchanged).
pub fn parse_log_status(line: &str) -> (r: Option<Phase>)
    ensures
        r == spec_classify(line@),
{
    if contains_str(line, "Downloading webpage") {
        Some(Phase::FetchingInfo)
    } else if contains_str(line, "Downloading android vr player API JSON") || contains_str(
        line,
        "Downloading web safari player API JSON",
    ) || contains_str(line, "Downloading player") || contains_str(line, "Solving JS challenges")
        || contains_str(line, "Downloading m3u8 information") {
        Some(Phase::PreparingDownload)
    } else if contains_str(line, "Destination:") || contains_str(line, "download-progress:") {
        Some(Phase::Downloading)
    } else if contains_str(line, "[ExtractAudio]") || contains_str(line, "Extracting audio") {
        Some(Phase::ExtractingAudio)
    } else if contains_str(line, "[Metadata]") || contains_str(line, "Adding metadata") {
        Some(Phase::AddingMetadata)
    } else if contains_str(line, "[ThumbnailsConvertor]") || contains_str(
        line,
        "Converting thumbnail",
    ) {
        Some(Phase::ConvertingThumbnail)
    } else if contains_str(line, "[EmbedThumbnail]") || contains_str(line, "Adding thumbnail") {
        Some(Phase::EmbeddingThumbnail)
    } else {
        None
    }
}

/// Numeric value of a sequence of decimal digit characters, most
/// significant first; `0` when empty.
pub open spec fn digits_val(s: Seq<char>) -> int
    decreases s.len(),
{
    if s.len() == 0 {
        0
    } else {
        digits_val(s.drop_last()) * 10 + (s.last() as int - 48)
    }
}

/// Every character of `s` is a decimal digit.
pub open spec fn all_digits(s: Seq<char>) -> bool {
    forall|i: int| 0 <= i < s.len() ==> is_digit(s[i])
}

/// Tenths of a percent denoted by an already-trimmed numeric token:
/// either all digits (`42` -> 420), or digits, a point and exactly one
/// fractional digit (`42.5` -> 425). Anything else is malformed.
pub open spec fn percent_tenths(t: Seq<char>) -> Option<int> {
    if t.len() > 0 && all_digits(t) {
        Some(digits_val(t) * 10)
    } else if t.len() >= 3 && t[t.len() - 2] == '.' && all_digits(t.subrange(0, t.len() - 2))
        && is_digit(t.last()) {
        Some(digits_val(t.subrange(0, t.len() - 2)) * 10 + (t.last() as int - 48))
    } else {
        None
    }
}

/// The progress carried by an already-trimmed output line: the line must
/// start with the progress marker and end with a percent sign, and the
/// token between them, once trimmed, must be a well-formed percentage that
/// fits the `u32` tenths scale. Malformed numbers yield `None` and are
/// dropped silently.
pub open spec fn spec_progress(line: Seq<char>) -> Option<u32> {
    let pre = "download-progress:"@;
    if starts_with_spec(line, pre) && ends_with_spec(line, "%"@) && line.len() > pre.len() {
        match percent_tenths(trim_spec(line.subrange(pre.len() as int, line.len() - 1))) {
            Some(v) => if v <= u32::MAX as int {
                Some(v as u32)
            } else {
                None
            },
            None => None,
        }
    } else {
        None
    }
}

proof fn lemma_digits_val_nonneg(s: Seq<char>)
    requires
        all_digits(s),
    ensures
        digits_val(s) >= 0,
    decreases s.len(),
{
    if s.len() > 0 {
        assert(all_digits(s.drop_last()));
        lemma_digits_val_nonneg(s.drop_last());
    }
}

proof fn lemma_digits_val_prefix_le(s: Seq<char>, i: int)
    requires
        all_digits(s),
        0 <= i <= s.len(),
    ensures
        digits_val(s.subrange(0, i)) <= digits_val(s),
    decreases s.len() - i,
{
    if i == s.len() {
        assert(s.subrange(0, i) =~= s);
    } else {
        lemma_digits_val_prefix_le(s, i + 1);
        let a = s.subrange(0, i);
        let b = s.subrange(0, i + 1);
        assert(b.drop_last() =~= a);
        assert(all_digits(a));
        lemma_digits_val_nonneg(a);
        assert(b.last() == s[i]);
        assert(is_digit(s[i]));
        assert(digits_val(b) == digits_val(a) * 10 + (b.last() as int - 48));
        assert(digits_val(a) <= digits_val(a) * 10 + (b.last() as int - 48));
    }
}

/// Value of the digit run `t[from..to]`, or `None` when it exceeds the
/// `u32` range.
fn digits_value_checked(t: &str, from: usize, to: usize) -> (r: Option<u32>)
    requires
        from <= to <= t@.len(),
        t@.len() <= usize::MAX,
        all_digits(t@.subrange(from as int, to as int)),
    ensures
        match r {
            Some(v) => v as int == digits_val(t@.subrange(from as int, to as int)),
            None => digits_val(t@.subrange(from as int, to as int)) > u32::MAX as int,
        },
{
    let ghost whole = t@.subrange(from as int, to as int);
    let mut acc: u64 = 0;
    let mut i: usize = from;
    while i < to
        invariant
            from <= i <= to <= t@.len(),
            t@.len() <= usize::MAX,
            all_digits(whole),
            whole == t@.subrange(from as int, to as int),
            acc <= u32::MAX as u64,
            acc as int == digits_val(t@.subrange(from as int, i as int)),
        decreases to - i,
    {
        let c = t.get_char(i);
        assert(whole[i - from] == t@[i as int]);
        assert(is_digit(c));
        let d: u64 = (c as u32) as u64 - 48;
        let next: u64 = acc * 10 + d;
        proof {
            let a = t@.subrange(from as int, i as int);
            let b = t@.subrange(from as int, i + 1);
            assert(b.drop_last() =~= a);
            assert(digits_val(b) == digits_val(a) * 10 + (b.last() as int - 48));
        }
        if next > u32::MAX as u64 {
            proof {
                assert(forall|k: int|
                    0 <= k < whole.len() ==> whole[k] == t@.subrange(from as int, to as int)[k]);
                lemma_digits_val_prefix_le(whole, i + 1 - from);
                assert(whole.subrange(0, i + 1 - from) =~= t@.subrange(from as int, i + 1));
            }
            return None;
        }
        acc = next;
        i += 1;
    }
    assert(t@.subrange(from as int, to as int) =~= t@.subrange(from as int, i as int));
    Some(acc as u32)
}

/// Is every character of `t[from..to]` a decimal digit?
fn all_digits_range(t: &str, from: usize, to: usize) -> (r: bool)
    requires
        from <= to <= t@.len(),
        t@.len() <= usize::MAX,
    ensures
        r == all_digits(t@.subrange(from as int, to as int)),
{
    let ghost part = t@.subrange(from as int, to as int);
    let mut i: usize = from;
    while i < to
        invariant
            from <= i <= to <= t@.len(),
            t@.len() <= usize::MAX,
            part == t@.subrange(from as int, to as int),
            forall|k: int| from <= k < i ==> is_digit(t@[k]),
        decreases to - i,
    {
        let c = t.get_char(i);
        if !((c as u32) >= 48 && (c as u32) <= 57) {
            assert(part[i - from] == t@[i as int]);
            assert(!is_digit(part[i - from]));
            return false;
        }
        i += 1;
    }
    assert forall|k: int| 0 <= k < part.len() implies is_digit(part[k]) by {
        assert(part[k] == t@[from + k]);
    }
    true
}

/// Parse an already-trimmed numeric token as tenths of a percent.
fn parse_percent_tenths(t: &str) -> (r: Option<u32>)
    ensures
        match percent_tenths(t@) {
            Some(v) => r == if v <= u32::MAX as int {
                Some(v as u32)
            } else {
                None::<u32>
            },
            None => r is None,
        },
{
    let len = t.unicode_len();
    if len == 0 {
        return None;
    }
    if all_digits_range(t, 0, len) {
        assert(t@.subrange(0, len as int) =~= t@);
        match digits_value_checked(t, 0, len) {
            Some(v) => {
                if v <= u32::MAX / 10 {
                    Some(v * 10)
                } else {
                    None
                }
            },
            None => None,
        }
    } else if len >= 3 && t.get_char(len - 2) == '.' && all_digits_range(t, 0, len - 2) && {
        let c = t.get_char(len - 1);
        (c as u32) >= 48 && (c as u32) <= 57
    } {
        assert(t@.subrange(0, len as int) =~= t@);
        match digits_value_checked(t, 0, len - 2) {
            Some(v) => {
                let c = t.get_char(len - 1);
                let d: u32 = (c as u32) - 48;
                if v <= (u32::MAX - d) / 10 {
                    Some(v * 10 + d)
                } else {
                    None
                }
            },
            None => None,
        }
    } else {
        None
    }
}

/// Extract the progress value from an already-trimmed output line, in
/// tenths of a percent. `None` when the line carries no marker or the
/// number is malformed; such lines never fail a job.
pub fn extract_progress(line: &str) -> (r: Option<u32>)
    ensures
        r == spec_progress(line@),
{
    proof {
        reveal_strlit("download-progress:");
        reveal_strlit("%");
    }
    let pre = "download-progress:";
    let pre_len = pre.unicode_len();
    let len = line.unicode_len();
    if starts_with_str(line, pre) && ends_with_str(line, "%") && len > pre_len {
        let body = line.substring_char(pre_len, len - 1);
        let token = trim(body);
        parse_percent_tenths(token)
    } else {
        None
    }
}

} // verus!
