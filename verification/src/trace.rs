//! Cutting an error's backtrace down to the frames above the web framework's
//! handler machinery.

use vstd::prelude::*;
use vstd::string::StringSliceAdditionalSpecFns;
use vstd::utf8::*;

verus! {

broadcast use {encode_utf8_valid_utf8, encode_utf8_decode_utf8};

/// `pat` occurs in `hay` starting at byte `i`.
pub open spec fn matches_at(hay: Seq<u8>, pat: Seq<u8>, i: int) -> bool {
    &&& 0 <= i
    &&& i + pat.len() <= hay.len()
    &&& hay.subrange(i, i + pat.len()) == pat
}

/// `i` is the leftmost occurrence of `pat` in `hay`.
pub open spec fn is_first_match(hay: Seq<u8>, pat: Seq<u8>, i: int) -> bool {
    &&& matches_at(hay, pat, i)
    &&& forall|k: int| 0 <= k < i ==> !#[trigger] matches_at(hay, pat, k)
}

/// The leftmost occurrence of `pat` in `hay`, if any.
pub open spec fn first_match(hay: Seq<u8>, pat: Seq<u8>) -> Option<int> {
    if exists|i: int| is_first_match(hay, pat, i) {
        Some(choose|i: int| is_first_match(hay, pat, i))
    } else {
        None
    }
}

/// `j` is the rightmost position before `end` that holds `byte`.
pub open spec fn is_last_before(hay: Seq<u8>, byte: u8, end: int, j: int) -> bool {
    &&& 0 <= j < end
    &&& j < hay.len()
    &&& hay[j] == byte
    &&& forall|k: int| j < k < end ==> #[trigger] hay[k] != byte
}

/// The rightmost position before `end` that holds `byte`, if any.
pub open spec fn last_before(hay: Seq<u8>, byte: u8, end: int) -> Option<int> {
    if exists|j: int| is_last_before(hay, byte, end, j) {
        Some(choose|j: int| is_last_before(hay, byte, end, j))
    } else {
        None
    }
}

/// The bytes of the frame name that marks where the framework's own frames begin.
pub open spec fn handler_marker() -> Seq<u8> {
    encode_utf8("axum::handler::Handler"@)
}

/// The byte of a line break.
pub open spec fn newline() -> u8 {
    10u8
}

/// Where a backtrace (given as UTF-8 bytes) is cut: at the last line break
/// before the first occurrence of the handler marker.
pub open spec fn trace_cut_point(bytes: Seq<u8>) -> Option<int> {
    match first_match(bytes, handler_marker()) {
        Some(i) => last_before(bytes, newline(), i),
        None => None,
    }
}

/// The text put in place of a backtrace that cannot be cut.
pub open spec fn unavailable_trace() -> Seq<char> {
    "[backtrace unavailable]"@
}

/// What `cut_trace` makes of a backtrace text.
pub open spec fn cut_trace_view(trace: Seq<char>) -> Seq<char> {
    match trace_cut_point(encode_utf8(trace)) {
        Some(j) => decode_utf8(encode_utf8(trace).take(j)),
        None => unavailable_trace(),
    }
}

/// There is at most one leftmost occurrence.
pub proof fn lemma_first_match_unique(hay: Seq<u8>, pat: Seq<u8>, i: int)
    requires
        is_first_match(hay, pat, i),
    ensures
        first_match(hay, pat) == Some(i),
{
    let c = choose|c: int| is_first_match(hay, pat, c);
    assert(is_first_match(hay, pat, c));
    if c < i {
        assert(!matches_at(hay, pat, c));
    } else if i < c {
        assert(!matches_at(hay, pat, i));
    }
}

/// There is at most one rightmost position.
pub proof fn lemma_last_before_unique(hay: Seq<u8>, byte: u8, end: int, j: int)
    requires
        is_last_before(hay, byte, end, j),
    ensures
        last_before(hay, byte, end) == Some(j),
{
    let c = choose|c: int| is_last_before(hay, byte, end, c);
    assert(is_last_before(hay, byte, end, c));
    if c < j {
        assert(hay[j] != byte);
    } else if j < c {
        assert(hay[c] != byte);
    }
}

/// Whether `pat` occurs in `hay` at byte `i`.
fn bytes_match_at(hay: &[u8], pat: &[u8], i: usize) -> (b: bool)
    requires
        i + pat@.len() <= hay@.len(),
    ensures
        b == matches_at(hay@, pat@, i as int),
{
    let n: usize = pat.len();
    let mut k: usize = 0;
    while k < n
        invariant
            n == pat@.len(),
            i + n <= hay@.len(),
            hay@.len() == hay.len(),
            k <= n,
            forall|m: int| 0 <= m < k ==> hay@[i + m] == pat@[m],
        decreases n - k,
    {
        if hay[i + k] != pat[k] {
            assert(hay@.subrange(i as int, i + n)[k as int] != pat@[k as int]);
            return false;
        }
        k = k + 1;
    }
    assert(hay@.subrange(i as int, i + n) =~= pat@);
    true
}

/// The leftmost occurrence of `pat` in `hay`.
pub fn find_bytes(hay: &[u8], pat: &[u8]) -> (r: Option<usize>)
    ensures
        match r {
            Some(i) => first_match(hay@, pat@) == Some(i as int),
            None => first_match(hay@, pat@) is None,
        },
{
    if pat.len() > hay.len() {
        assert(forall|i: int| !#[trigger] is_first_match(hay@, pat@, i));
        return None;
    }
    let last: usize = hay.len() - pat.len();
    let mut i: usize = 0;
    while i < last
        invariant
            last == hay@.len() - pat@.len(),
            i <= last,
            forall|k: int| 0 <= k < i ==> !#[trigger] matches_at(hay@, pat@, k),
        decreases last - i,
    {
        if bytes_match_at(hay, pat, i) {
            proof {
                lemma_first_match_unique(hay@, pat@, i as int);
            }
            return Some(i);
        }
        i = i + 1;
    }
    if bytes_match_at(hay, pat, last) {
        proof {
            lemma_first_match_unique(hay@, pat@, last as int);
        }
        return Some(last);
    }
    assert forall|j: int| !#[trigger] is_first_match(hay@, pat@, j) by {
        if 0 <= j <= last {
            assert(!matches_at(hay@, pat@, j));
        }
    }
    None
}

/// The rightmost position before `end` that holds `byte`.
pub fn last_byte_before(hay: &[u8], byte: u8, end: usize) -> (r: Option<usize>)
    requires
        end <= hay@.len(),
    ensures
        match r {
            Some(j) => last_before(hay@, byte, end as int) == Some(j as int),
            None => last_before(hay@, byte, end as int) is None,
        },
{
    let mut j: usize = end;
    while j > 0
        invariant
            j <= end <= hay@.len(),
            forall|k: int| j <= k < end ==> #[trigger] hay@[k] != byte,
        decreases j,
    {
        j = j - 1;
        if hay[j] == byte {
            proof {
                lemma_last_before_unique(hay@, byte, end as int, j as int);
            }
            return Some(j);
        }
    }
    assert forall|c: int| !#[trigger] is_last_before(hay@, byte, end as int, c) by {
        if 0 <= c < end {
            assert(hay@[c] != byte);
        }
    }
    None
}

/// Keeps the part of a backtrace above the framework's handler frames: the
/// text before the last line break that precedes the first mention of
/// `axum::handler::Handler`. Where there is no such mention, or no line break
/// before it, the backtrace is reported as unavailable.
pub fn cut_trace(trace: &str) -> (r: &str)
    ensures
        r@ == cut_trace_view(trace@),
        match trace_cut_point(trace.spec_bytes()) {
            Some(j) => r.spec_bytes() == trace.spec_bytes().take(j) && r@.is_prefix_of(trace@),
            None => r@ == unavailable_trace(),
        },
{
    let bytes = trace.as_bytes();
    let marker = "axum::handler::Handler".as_bytes();
    let unavailable = "[backtrace unavailable]";
    match find_bytes(bytes, marker) {
        Some(i) => match last_byte_before(bytes, 10u8, i) {
            Some(j) => {
                let ghost b = trace.spec_bytes();
                proof {
                    assert(is_last_before(b, newline(), i as int, j as int));
                    is_char_boundary_iff_is_leading_byte(b, j as int);
                    decode_utf8_split(b, j as int);
                    assert(b.take(j as int) =~= b.subrange(0, j as int));
                }
                let (head, _tail) = trace.split_at(j);
                proof {
                    assert(head@ == decode_utf8(head.spec_bytes()));
                    assert(trace@ == decode_utf8(b));
                    assert(trace@ =~= head@ + decode_utf8(b.subrange(j as int, b.len() as int)));
                }
                head
            },
            None => unavailable,
        },
        None => unavailable,
    }
}

} // verus!
