use vstd::prelude::*;
use vstd::string::StrSliceExecFns;
use vstd::string::StringExecFns;

verus! {

/// The fallback output name used when the URL yields no usable segment.
pub open spec fn spec_default_filename() -> Seq<char> {
    "downloaded.file"@
}

/// The suffix of `s` after its last slash; all of `s` when it has none.
pub open spec fn last_segment(s: Seq<char>) -> Seq<char>
    decreases s.len(),
{
    if s.len() == 0 {
        Seq::empty()
    } else if s[s.len() - 1] == '/' {
        Seq::empty()
    } else {
        last_segment(s.drop_last()).push(s[s.len() - 1])
    }
}

/// The output filename derived from a URL: the segment after the last
/// slash, or the fallback name when the URL contains no slash or its last
/// segment is empty (the URL ends in a slash).
pub open spec fn spec_filename(url: Seq<char>) -> Seq<char> {
    if !url.contains('/') {
        spec_default_filename()
    } else if last_segment(url).len() == 0 {
        spec_default_filename()
    } else {
        last_segment(url)
    }
}

proof fn lemma_last_segment_after_slash(s: Seq<char>, j: int)
    requires
        0 <= j < s.len(),
        s[j] == '/',
        forall|k: int| j < k < s.len() ==> s[k] != '/',
    ensures
        last_segment(s) =~= s.subrange(j + 1, s.len() as int),
    decreases s.len(),
{
    if j == s.len() - 1 {
        assert(last_segment(s) =~= s.subrange(j + 1, s.len() as int));
    } else {
        let t = s.drop_last();
        assert(forall|k: int| j < k < t.len() ==> t[k] == s[k]);
        lemma_last_segment_after_slash(t, j);
        assert(t.subrange(j + 1, t.len() as int) =~= s.subrange(j + 1, s.len() - 1));
        assert(last_segment(s) =~= s.subrange(j + 1, s.len() as int));
    }
}

/// Derives the output filename from the URL: everything after the last
/// slash, falling back to a default name when there is no slash or the
/// URL ends in one.
pub fn derive_filename(url: &str) -> (r: String)
    ensures
        r@ == spec_filename(url@),
{
    let n = url.unicode_len();
    let mut pos: usize = n;
    loop
        invariant_except_break
            pos <= n,
            n == url@.len(),
            forall|k: int| pos <= k < n ==> url@[k] != '/',
        ensures
            pos <= n,
            n == url@.len(),
            forall|k: int| pos <= k < n ==> url@[k] != '/',
            pos == 0 || url@[pos - 1] == '/',
        decreases pos,
    {
        if pos == 0 {
            break ;
        }
        if url.get_char(pos - 1) == '/' {
            break ;
        }
        pos -= 1;
    }
    if pos == 0 {
        proof {
            assert(!url@.contains('/'));
        }
        String::from_str("downloaded.file")
    } else {
        proof {
            assert(url@.contains('/')) by {
                assert(url@[pos as int - 1] == '/');
            }
            lemma_last_segment_after_slash(url@, pos as int - 1);
        }
        if pos == n {
            String::from_str("downloaded.file")
        } else {
            let tail = url.substring_char(pos, n);
            String::from_str(tail)
        }
    }
}

/// Chunk-size rule for one read against the response body: a declared total
/// length is split into roughly ninety-nine read steps, never less than one
/// byte; an unknown length falls back to a fixed 1024-byte chunk.
pub open spec fn spec_chunk_size(declared: Option<u64>) -> u64 {
    match declared {
        Some(len) => if len < 99 {
            1u64
        } else {
            (len / 99) as u64
        },
        None => 1024u64,
    }
}

/// Picks the size of each read from the response body, from the declared
/// content length if there is one.
pub fn chunk_size(declared: Option<u64>) -> (r: u64)
    ensures
        r == spec_chunk_size(declared),
        r >= 1,
{
    match declared {
        Some(len) => {
            let c = len / 99;
            if c == 0 {
                1
            } else {
                c
            }
        },
        None => 1024,
    }
}

} // verus!
