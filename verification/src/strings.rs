//! Byte-level string helpers shared by the file manager and the search box:
//! UTF-8 checking, trailing-slash trimming, last-slash search, line splitting
//! and path joining.
use vstd::prelude::*;
use vstd::utf8::valid_utf8;
use vstd::string::StringSliceAdditionalSpecFns;

verus! {

/// The byte value of `/`.
pub const SLASH: u8 = 47;

/// The byte value of a line feed.
pub const LF: u8 = 10;

/// The byte value of a carriage return.
pub const CR: u8 = 13;

/// The path of the root directory, `/`.
pub open spec fn root_path() -> Seq<u8> {
    seq![SLASH]
}

/// Interprets `v` as a string slice: `Some` exactly when the bytes are valid UTF-8,
/// and then a slice over the same bytes.
///
/// Calls `core::str::from_utf8`. What is assumed of it: it accepts exactly the
/// byte sequences that are valid UTF-8 (vstd's `valid_utf8`), and the slice it
/// returns views the same bytes.
#[verifier::external_body]
pub(crate) fn str_from_utf8<'a>(v: &'a [u8]) -> (r: Option<&'a str>)
    ensures
        r.is_some() == valid_utf8(v@),
        r matches Some(s) ==> s.spec_bytes() == v@,
{
    core::str::from_utf8(v).ok()
}

/// `s` with every trailing `/` removed.
pub open spec fn trim_trailing_slashes(s: Seq<u8>) -> Seq<u8>
    decreases s.len(),
{
    if s.len() > 0 && s.last() == SLASH {
        trim_trailing_slashes(s.drop_last())
    } else {
        s
    }
}

/// Index of the last `/` in `s`, if any.
pub open spec fn last_slash(s: Seq<u8>) -> Option<int>
    decreases s.len(),
{
    if s.len() == 0 {
        None
    } else if s.last() == SLASH {
        Some(s.len() - 1)
    } else {
        last_slash(s.drop_last())
    }
}

/// `child` appended to the directory `dir`: `/child` below the root, `dir/child` elsewhere.
pub open spec fn join_path(dir: Seq<u8>, child: Seq<u8>) -> Seq<u8> {
    if dir == root_path() {
        root_path() + child
    } else {
        dir + root_path() + child
    }
}

/// Strips one trailing carriage return.
pub open spec fn strip_cr(s: Seq<u8>) -> Seq<u8> {
    if s.len() > 0 && s.last() == CR {
        s.drop_last()
    } else {
        s
    }
}

/// Index of the first line feed in `s` at or after `from`, if any.
pub open spec fn next_lf(s: Seq<u8>, from: int) -> Option<int>
    decreases s.len() - from,
{
    if from < 0 || from >= s.len() {
        None
    } else if s[from] == LF {
        Some(from)
    } else {
        next_lf(s, from + 1)
    }
}

/// The lines of `s[from..]`: split at line feeds, a carriage return before a
/// line feed removed, and no empty line after a final line feed.
pub open spec fn lines_from(s: Seq<u8>, from: int) -> Seq<Seq<u8>>
    decreases s.len() - from,
{
    if from < 0 || from >= s.len() {
        seq![]
    } else {
        match next_lf(s, from) {
            Some(e) => {
                if e < from || e >= s.len() {
                    seq![]
                } else {
                    seq![strip_cr(s.subrange(from, e))] + lines_from(s, e + 1)
                }
            },
            None => seq![s.subrange(from, s.len() as int)],
        }
    }
}

/// The lines of `s`, as `str::lines` yields them.
pub open spec fn lines(s: Seq<u8>) -> Seq<Seq<u8>> {
    lines_from(s, 0)
}

proof fn lemma_next_lf_range(s: Seq<u8>, from: int)
    requires
        0 <= from,
    ensures
        next_lf(s, from) matches Some(e) ==> from <= e < s.len() && s[e] == LF,
        next_lf(s, from) is None ==> forall|k: int| from <= k < s.len() ==> s[k] != LF,
    decreases s.len() - from,
{
    if from < 0 || from >= s.len() {
    } else if s[from] != LF {
        lemma_next_lf_range(s, from + 1);
    }
}

/// Length of `s` once trailing slashes are removed.
pub fn trimmed_len(s: &[u8]) -> (n: usize)
    ensures
        n <= s@.len(),
        s@.subrange(0, n as int) == trim_trailing_slashes(s@),
{
    let mut n = s.len();
    proof {
        assert(s@.subrange(0, n as int) == s@);
    }
    while n > 0 && s[n - 1] == SLASH
        invariant
            n <= s@.len(),
            trim_trailing_slashes(s@.subrange(0, n as int)) == trim_trailing_slashes(s@),
        decreases n,
    {
        proof {
            assert(s@.subrange(0, n as int).drop_last() == s@.subrange(0, n - 1));
        }
        n = n - 1;
    }
    n
}

/// Position of the last `/` in `s`, if any.
pub fn rfind_slash(s: &[u8]) -> (r: Option<usize>)
    ensures
        r matches Some(i) ==> last_slash(s@) == Some(i as int) && i < s@.len() && s@[i as int] == SLASH,
        r is None ==> last_slash(s@) is None,
{
    let mut n = s.len();
    proof {
        assert(s@.subrange(0, n as int) == s@);
    }
    while n > 0
        invariant
            n <= s@.len(),
            last_slash(s@) == last_slash(s@.subrange(0, n as int)),
        decreases n,
    {
        proof {
            assert(s@.subrange(0, n as int).drop_last() == s@.subrange(0, n - 1));
        }
        if s[n - 1] == SLASH {
            return Some(n - 1);
        }
        n = n - 1;
    }
    None
}

/// Copy of the bytes of `s` into a new vector.
pub fn bytes_to_vec(s: &[u8]) -> (v: Vec<u8>)
    ensures
        v@ == s@,
{
    let mut v: Vec<u8> = Vec::new();
    let mut i: usize = 0;
    while i < s.len()
        invariant
            i <= s@.len(),
            v@ == s@.subrange(0, i as int),
        decreases s@.len() - i,
    {
        v.push(s[i]);
        i = i + 1;
    }
    v
}

/// Appends the bytes of `s` to `v`.
pub fn extend_bytes(v: &mut Vec<u8>, s: &[u8])
    ensures
        final(v)@ == old(v)@ + s@,
{
    let ghost start = v@;
    let mut i: usize = 0;
    while i < s.len()
        invariant
            i <= s@.len(),
            v@ == start + s@.subrange(0, i as int),
        decreases s@.len() - i,
    {
        v.push(s[i]);
        i = i + 1;
    }
}

/// Whether `s` is exactly the root path `/`.
pub fn is_root(s: &[u8]) -> (b: bool)
    ensures
        b == (s@ == root_path()),
{
    if s.len() == 1 && s[0] == SLASH {
        assert(s@ =~= root_path());
        true
    } else {
        false
    }
}

/// `child` appended to the directory `dir` (see `join_path`).
pub fn join(dir: &[u8], child: &[u8]) -> (p: Vec<u8>)
    ensures
        p@ == join_path(dir@, child@),
{
    if is_root(dir) {
        let mut p: Vec<u8> = Vec::new();
        p.push(SLASH);
        extend_bytes(&mut p, child);
        p
    } else {
        let mut p = bytes_to_vec(dir);
        p.push(SLASH);
        extend_bytes(&mut p, child);
        p
    }
}

/// The start and end of line `n` of `s` (see `lines`), if `s` has that many lines.
pub fn nth_line(s: &[u8], n: usize) -> (r: Option<(usize, usize)>)
    ensures
        r is Some <==> n < lines(s@).len(),
        r matches Some(se) ==> se.0 <= se.1 <= s@.len() && s@.subrange(se.0 as int, se.1 as int)
            == lines(s@)[n as int],
{
    let mut from: usize = 0;
    let mut k: usize = 0;
    while from < s.len()
        invariant
            from <= s@.len(),
            k <= n,
            lines(s@).len() == k + lines_from(s@, from as int).len(),
            forall|j: int| 0 <= j < lines_from(s@, from as int).len() ==> lines(s@)[k + j]
                == lines_from(s@, from as int)[j],
        decreases s@.len() - from,
    {
        let mut e = from;
        while e < s.len() && s[e] != LF
            invariant
                from <= e <= s@.len(),
                next_lf(s@, from as int) == next_lf(s@, e as int),
            decreases s@.len() - e,
        {
            e = e + 1;
        }
        proof {
            lemma_next_lf_range(s@, e as int);
        }
        let line_end: usize = if e < s.len() && e > from && s[e - 1] == CR {
            e - 1
        } else {
            e
        };
        proof {
            let piece = s@.subrange(from as int, e as int);
            if e < s.len() {
                assert(strip_cr(piece) == s@.subrange(from as int, line_end as int));
            }
            assert(lines_from(s@, from as int)[0] == s@.subrange(from as int, line_end as int));
        }
        if k == n {
            return Some((from, line_end));
        }
        proof {
            if e < s.len() {
                let rest = lines_from(s@, e + 1);
                assert(lines_from(s@, from as int) == seq![
                    strip_cr(s@.subrange(from as int, e as int)),
                ] + rest);
                assert forall|j: int| 0 <= j < rest.len() implies lines(s@)[k + 1 + j]
                    == rest[j] by {
                    assert(lines_from(s@, from as int)[j + 1] == rest[j]);
                }
            } else {
                assert(lines_from(s@, from as int).len() == 1);
            }
        }
        if e >= s.len() {
            return None;
        }
        k = k + 1;
        from = e + 1;
    }
    None
}


/// The start and end of every line of `s` (see `lines`), in order.
pub fn line_spans(s: &[u8]) -> (v: Vec<(usize, usize)>)
    ensures
        v@.len() == lines(s@).len(),
        forall|i: int|
            0 <= i < v@.len() ==> (#[trigger] v@[i]).0 <= v@[i].1 <= s@.len() && s@.subrange(
                v@[i].0 as int,
                v@[i].1 as int,
            ) == lines(s@)[i],
{
    let mut v: Vec<(usize, usize)> = Vec::new();
    let mut from: usize = 0;
    while from < s.len()
        invariant
            from <= s@.len(),
            lines(s@).len() == v@.len() + lines_from(s@, from as int).len(),
            forall|j: int| 0 <= j < lines_from(s@, from as int).len() ==> lines(s@)[v@.len() + j]
                == lines_from(s@, from as int)[j],
            forall|i: int|
                0 <= i < v@.len() ==> (#[trigger] v@[i]).0 <= v@[i].1 <= s@.len() && s@.subrange(
                    v@[i].0 as int,
                    v@[i].1 as int,
                ) == lines(s@)[i],
        decreases s@.len() - from,
    {
        let mut e = from;
        while e < s.len() && s[e] != LF
            invariant
                from <= e <= s@.len(),
                next_lf(s@, from as int) == next_lf(s@, e as int),
            decreases s@.len() - e,
        {
            e = e + 1;
        }
        proof {
            lemma_next_lf_range(s@, e as int);
        }
        let line_end: usize = if e < s.len() && e > from && s[e - 1] == CR {
            e - 1
        } else {
            e
        };
        proof {
            let piece = s@.subrange(from as int, e as int);
            if e < s.len() {
                assert(strip_cr(piece) == s@.subrange(from as int, line_end as int));
            }
            assert(lines_from(s@, from as int)[0] == s@.subrange(from as int, line_end as int));
            assert(lines(s@)[v@.len() as int] == lines_from(s@, from as int)[0]);
        }
        v.push((from, line_end));
        proof {
            if e < s.len() {
                let rest = lines_from(s@, e + 1);
                assert(lines_from(s@, from as int) == seq![
                    strip_cr(s@.subrange(from as int, e as int)),
                ] + rest);
                assert forall|j: int| 0 <= j < rest.len() implies lines(s@)[v@.len() + j]
                    == rest[j] by {
                    assert(lines_from(s@, from as int)[j + 1] == rest[j]);
                }
            } else {
                assert(lines_from(s@, from as int).len() == 1);
            }
        }
        if e >= s.len() {
            assert(lines_from(s@, s@.len() as int).len() == 0);
            return v;
        }
        from = e + 1;
    }
    v
}


/// Every line uses up at least one byte of `s[from..]`.
proof fn lemma_lines_from_len(s: Seq<u8>, from: int)
    requires
        0 <= from,
    ensures
        lines_from(s, from).len() <= if from <= s.len() { s.len() - from } else { 0 },
    decreases s.len() - from,
{
    if from < s.len() {
        lemma_next_lf_range(s, from);
        match next_lf(s, from) {
            Some(e) => {
                lemma_lines_from_len(s, e + 1);
            },
            None => {},
        }
    }
}

/// A byte string has at most as many lines as bytes.
pub proof fn lemma_lines_len_bound(s: Seq<u8>)
    ensures
        lines(s).len() <= s.len(),
{
    lemma_lines_from_len(s, 0);
}

} // verus!
