//! Lines of ASCII text as the line-based services read them.

use vstd::prelude::*;

verus! {

/// Whether `b` is ASCII white space: tab, line feed, vertical tab, form
/// feed, carriage return or space.
pub open spec fn is_space(b: u8) -> bool {
    (9 <= b && b <= 13) || b == 32
}

/// `s` without the white space at its end.
pub open spec fn trim_end(s: Seq<u8>) -> Seq<u8>
    decreases s.len(),
{
    if s.len() > 0 && is_space(s.last()) {
        trim_end(s.drop_last())
    } else {
        s
    }
}

/// `s` without the white space at its start.
pub open spec fn trim_start(s: Seq<u8>) -> Seq<u8>
    decreases s.len(),
{
    if s.len() > 0 && is_space(s[0]) {
        trim_start(s.skip(1))
    } else {
        s
    }
}

/// `s` without the white space at both ends.
pub open spec fn trimmed(s: Seq<u8>) -> Seq<u8> {
    trim_end(trim_start(s))
}

/// Whether `s` begins with `prefix`.
pub open spec fn starts_with(s: Seq<u8>, prefix: Seq<u8>) -> bool {
    prefix.len() <= s.len() && s.take(prefix.len() as int) == prefix
}

/// Whether `b` is ASCII white space.
pub fn is_ascii_space(b: u8) -> (r: bool)
    ensures
        r == is_space(b),
{
    (9 <= b && b <= 13) || b == 32
}

/// Where `line` begins and ends once the white space at both ends is cut.
pub fn trim(line: &[u8]) -> (r: (usize, usize))
    ensures
        r.0 <= r.1 <= line@.len(),
        line@.subrange(r.0 as int, r.1 as int) == trimmed(line@),
{
    let n = line.len();
    let mut start: usize = 0;
    assert(line@.skip(0) =~= line@);
    while start < n && is_ascii_space(line[start])
        invariant
            start <= n,
            n == line@.len(),
            trim_start(line@) == trim_start(line@.skip(start as int)),
        decreases n - start,
    {
        proof {
            let rest = line@.skip(start as int);
            assert(rest[0] == line@[start as int]);
            assert(rest.skip(1) =~= line@.skip(start + 1));
        }
        start = start + 1;
    }
    let ghost body = line@.skip(start as int);
    proof {
        if start < n {
            assert(body[0] == line@[start as int]);
        }
        assert(trim_start(line@) == body);
    }
    let mut end: usize = n;
    while end > start && is_ascii_space(line[end - 1])
        invariant
            start <= end <= n,
            n == line@.len(),
            body == line@.skip(start as int),
            trim_end(body) == trim_end(line@.subrange(start as int, end as int)),
        decreases end - start,
    {
        proof {
            let part = line@.subrange(start as int, end as int);
            assert(part.last() == line@[end - 1]);
            assert(part.drop_last() =~= line@.subrange(start as int, end - 1));
        }
        end = end - 1;
    }
    proof {
        let part = line@.subrange(start as int, end as int);
        if end > start {
            assert(part.last() == line@[end - 1]);
        }
        assert(trim_end(part) == part);
        if start == 0 && end == n {
            assert(body =~= line@.subrange(0, n as int));
        } else {
            assert(line@.skip(start as int) =~= line@.subrange(start as int, n as int));
        }
    }
    (start, end)
}

/// Whether `s` begins with `prefix`.
pub fn has_prefix(s: &[u8], prefix: &[u8]) -> (r: bool)
    ensures
        r == starts_with(s@, prefix@),
{
    if prefix.len() > s.len() {
        return false;
    }
    let mut i: usize = 0;
    while i < prefix.len()
        invariant
            i <= prefix.len() <= s.len(),
            forall|k: int| 0 <= k < i ==> s@[k] == prefix@[k],
        decreases prefix.len() - i,
    {
        if s[i] != prefix[i] {
            assert(s@.take(prefix@.len() as int)[i as int] != prefix@[i as int]);
            return false;
        }
        i = i + 1;
    }
    assert(s@.take(prefix@.len() as int) =~= prefix@);
    true
}

/// Whether `a` and `b` hold the same bytes.
pub fn same_bytes(a: &[u8], b: &[u8]) -> (r: bool)
    ensures
        r == (a@ == b@),
{
    if a.len() != b.len() {
        return false;
    }
    let r = has_prefix(a, b);
    proof {
        assert(a@.take(b@.len() as int) =~= a@);
    }
    r
}


/// Text that ends with a byte that is no white space loses nothing when
/// the white space at its end is cut.
pub proof fn lemma_trim_end_stops(s: Seq<u8>)
    requires
        s.len() > 0,
        !is_space(s.last()),
    ensures
        trim_end(s) == s,
{
}

/// A line feed at the end is cut with the white space.
pub proof fn lemma_trim_end_line_feed(s: Seq<u8>)
    ensures
        trim_end(s.push(10u8)) == trim_end(s),
{
    assert(s.push(10u8).drop_last() =~= s);
}

/// Text that begins with a byte that is no white space loses nothing when
/// the white space at its start is cut.
pub proof fn lemma_trim_start_stops(s: Seq<u8>)
    requires
        s.len() > 0,
        !is_space(s[0]),
    ensures
        trim_start(s) == s,
{
}

} // verus!
