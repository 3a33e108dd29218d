use crate::policy;
use vstd::prelude::*;
use vstd::string::StrSliceExecFns;
use vstd::string::StringExecFns;

verus! {

/// Whether a character is a decimal digit.
pub open spec fn is_digit(c: char) -> bool {
    48 <= c as u32 && c as u32 <= 57
}

/// The numeric value of a decimal digit character.
pub open spec fn digit_val(c: char) -> int {
    c as u32 - 48
}

/// Whether every character of `s` is a decimal digit.
pub open spec fn all_digits(s: Seq<char>) -> bool {
    forall|i: int| 0 <= i < s.len() ==> is_digit(s[i])
}

/// The numeric value of a string of decimal digit characters.
pub open spec fn digits_value(s: Seq<char>) -> int
    decreases s.len(),
{
    if s.len() == 0 {
        0
    } else {
        digits_value(s.drop_last()) * 10 + digit_val(s[s.len() - 1])
    }
}

/// What a content-length header value parses to: its numeric value when it
/// is a nonempty all-digit string that fits in a u64, nothing otherwise.
pub open spec fn spec_parse_content_length(s: Seq<char>) -> Option<u64> {
    if s.len() > 0 && all_digits(s) && digits_value(s) <= u64::MAX {
        Some(digits_value(s) as u64)
    } else {
        None
    }
}

proof fn lemma_digits_value_nonneg(s: Seq<char>)
    requires
        all_digits(s),
    ensures
        digits_value(s) >= 0,
    decreases s.len(),
{
    if s.len() > 0 {
        assert(forall|i: int| 0 <= i < s.drop_last().len() ==> is_digit(s.drop_last()[i]));
        lemma_digits_value_nonneg(s.drop_last());
    }
}

proof fn lemma_digits_value_prefix(s: Seq<char>, i: int)
    requires
        all_digits(s),
        0 <= i <= s.len(),
    ensures
        digits_value(s.subrange(0, i)) <= digits_value(s),
    decreases s.len() - i,
{
    if i == s.len() {
        assert(s.subrange(0, i) =~= s);
    } else {
        let t = s.subrange(0, s.len() - 1);
        assert(t =~= s.drop_last());
        assert(forall|k: int| 0 <= k < t.len() ==> is_digit(t[k]));
        lemma_digits_value_nonneg(t);
        lemma_digits_value_prefix(t, i);
        assert(t.subrange(0, i) =~= s.subrange(0, i));
        assert(digits_value(t) * 10 >= digits_value(t));
        assert(digits_value(s) >= digits_value(t));
    }
}

/// Parses the declared content length: a nonempty string of decimal digits
/// whose value fits in a u64; anything else is treated as absent.
pub fn parse_content_length(raw: &str) -> (r: Option<u64>)
    ensures
        r == spec_parse_content_length(raw@),
{
    let n = raw.unicode_len();
    if n == 0 {
        return None;
    }
    let mut acc: u64 = 0;
    let mut i: usize = 0;
    while i < n
        invariant
            0 < n == raw@.len(),
            i <= n,
            all_digits(raw@.subrange(0, i as int)),
            acc == digits_value(raw@.subrange(0, i as int)),
        decreases n - i,
    {
        let c = raw.get_char(i);
        let cv = c as u32;
        if cv < 48 || cv > 57 {
            proof {
                assert(!is_digit(raw@[i as int]));
            }
            return None;
        }
        let d: u64 = (cv - 48) as u64;
        proof {
            assert(raw@.subrange(0, i + 1).drop_last() =~= raw@.subrange(0, i as int));
            assert(raw@.subrange(0, i + 1)[i as int] == raw@[i as int]);
            assert(digits_value(raw@.subrange(0, i + 1)) == acc * 10 + d);
        }
        if acc > (u64::MAX - d) / 10 {
            proof {
                assert(acc * 10 + d > u64::MAX) by {
                    assert(acc >= (u64::MAX - d) / 10 + 1);
                    assert(10 * ((u64::MAX - d) / 10) + 10 > u64::MAX - d);
                };
                if all_digits(raw@) {
                    lemma_digits_value_prefix(raw@, i + 1);
                }
            }
            return None;
        }
        acc = acc * 10 + d;
        i += 1;
    }
    proof {
        assert(raw@.subrange(0, n as int) =~= raw@);
    }
    Some(acc)
}

/// Whether an HTTP status code indicates success: the 2xx range.
pub open spec fn spec_is_success(status: u16) -> bool {
    200 <= status && status < 300
}

/// Decides from the status code whether the body will be downloaded.
pub fn is_success(status: u16) -> (r: bool)
    ensures
        r == spec_is_success(status),
{
    200 <= status && status < 300
}

/// What one response's headers say about the body: the status code, the
/// declared content length when the header held one, and the content type
/// with a fixed fallback.
pub struct ResponseMetadata {
    pub status: u16,
    pub content_length: Option<u64>,
    pub content_type: String,
}

/// Builds the response metadata from the status code and the raw header
/// values; a missing or non-numeric length is treated as unknown, and a
/// missing content type falls back to a fixed word.
pub fn response_metadata(
    status: u16,
    length_header: Option<&str>,
    type_header: Option<&str>,
) -> (r: ResponseMetadata)
    ensures
        r.status == status,
        r.content_length == (match length_header {
            Some(s) => spec_parse_content_length(s@),
            None => None::<u64>,
        }),
        r.content_type@ == (match type_header {
            Some(t) => t@,
            None => "unknown"@,
        }),
{
    let content_length = match length_header {
        Some(s) => parse_content_length(s),
        None => None,
    };
    let content_type = match type_header {
        Some(t) => String::from_str(t),
        None => String::from_str("unknown"),
    };
    ResponseMetadata { status, content_length, content_type }
}

/// What a successful fetch decides before the body is streamed: the output
/// filename and the read chunk size.
pub struct DownloadPlan {
    pub filename: String,
    pub chunk_size: u64,
}

/// The decision taken once the response header has arrived: on a success
/// status, the derived filename and the chunk size; on any other status
/// the body is never read and nothing is planned.
pub fn plan_download(url: &str, meta: &ResponseMetadata) -> (r: Option<DownloadPlan>)
    ensures
        r is Some <==> spec_is_success(meta.status),
        (r matches Some(p) ==> p.filename@ == policy::spec_filename(url@) && p.chunk_size
            == policy::spec_chunk_size(meta.content_length)),
{
    if is_success(meta.status) {
        Some(
            DownloadPlan {
                filename: policy::derive_filename(url),
                chunk_size: policy::chunk_size(meta.content_length),
            },
        )
    } else {
        None
    }
}

} // verus!
