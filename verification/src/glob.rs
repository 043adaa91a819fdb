//! Exclusion patterns: `*` stands for any run of bytes, `?` for one byte,
//! every other byte for itself.

use vstd::prelude::*;
use vstd::string::StringSliceAdditionalSpecFns;
use vstd::utf8::encode_utf8;

verus! {

pub const STAR: u8 = 42;

pub const QUESTION: u8 = 63;

pub const SLASH: u8 = 47;

pub const BACKSLASH: u8 = 92;

/// Whether the pattern from position `i` on matches the text from
/// position `j` on.
pub open spec fn glob_from(p: Seq<u8>, t: Seq<u8>, i: int, j: int) -> bool
    decreases p.len() - i + t.len() - j,
{
    if i < 0 || j < 0 || i > p.len() || j > t.len() {
        false
    } else if i == p.len() {
        j == t.len()
    } else if p[i] == STAR {
        glob_from(p, t, i + 1, j) || (j < t.len() && glob_from(p, t, i, j + 1))
    } else {
        j < t.len() && (p[i] == QUESTION || p[i] == t[j]) && glob_from(p, t, i + 1, j + 1)
    }
}

/// Whether the whole pattern matches the whole text.
pub open spec fn glob_matches(p: Seq<u8>, t: Seq<u8>) -> bool {
    glob_from(p, t, 0, 0)
}

/// The pattern positions `from..to` hold no star.
pub open spec fn star_free(p: Seq<u8>, from: int, to: int) -> bool {
    forall|k: int| from <= k < to ==> p[k] != STAR
}

/// The star-free pattern positions `sp..p_end` match the text bytes from
/// `st` on, position by position.
pub open spec fn aligned(p: Seq<u8>, t: Seq<u8>, sp: int, p_end: int, st: int) -> bool {
    &&& 0 <= sp <= p_end <= p.len()
    &&& 0 <= st
    &&& st + (p_end - sp) <= t.len()
    &&& star_free(p, sp, p_end)
    &&& forall|k: int|
        0 <= k < p_end - sp ==> (#[trigger] p[sp + k] == QUESTION || p[sp + k] == t[st + k])
}

proof fn lemma_aligned_run(p: Seq<u8>, t: Seq<u8>, sp: int, p_end: int, st: int)
    requires
        aligned(p, t, sp, p_end, st),
    ensures
        glob_from(p, t, sp, st) == glob_from(p, t, p_end, st + (p_end - sp)),
    decreases p_end - sp,
{
    if sp < p_end {
        assert(p[sp + 0] == QUESTION || p[sp + 0] == t[st + 0]);
        assert(aligned(p, t, sp + 1, p_end, st + 1)) by {
            assert forall|k: int| 0 <= k < p_end - (sp + 1) implies (#[trigger] p[sp + 1 + k]
                == QUESTION || p[sp + 1 + k] == t[st + 1 + k]) by {
                assert(p[sp + (k + 1)] == QUESTION || p[sp + (k + 1)] == t[st + (k + 1)]);
            }
        }
        lemma_aligned_run(p, t, sp + 1, p_end, st + 1);
    }
}

proof fn lemma_star_free_run(p: Seq<u8>, t: Seq<u8>, sp: int, p_end: int, j: int)
    requires
        0 <= sp <= p_end <= p.len(),
        star_free(p, sp, p_end),
        glob_from(p, t, sp, j),
    ensures
        j + (p_end - sp) <= t.len(),
        glob_from(p, t, p_end, j + (p_end - sp)),
    decreases p_end - sp,
{
    if sp < p_end {
        lemma_star_free_run(p, t, sp + 1, p_end, j + 1);
    }
}

proof fn lemma_star_witness(p: Seq<u8>, t: Seq<u8>, s: int, st: int) -> (j: int)
    requires
        0 <= s < p.len(),
        p[s] == STAR,
        glob_from(p, t, s, st),
    ensures
        st <= j <= t.len(),
        glob_from(p, t, s + 1, j),
    decreases t.len() - st,
{
    if glob_from(p, t, s + 1, st) {
        st
    } else {
        lemma_star_witness(p, t, s, st + 1)
    }
}

proof fn lemma_star_absorbs(p: Seq<u8>, t: Seq<u8>, s: int, st: int, j: int)
    requires
        0 <= s < p.len(),
        p[s] == STAR,
        0 <= st <= j <= t.len(),
        glob_from(p, t, s, j),
    ensures
        glob_from(p, t, s, st),
    decreases j - st,
{
    if st < j {
        lemma_star_absorbs(p, t, s, st + 1, j);
    }
}

/// A star at `s` followed by a run that is aligned with the text up to a
/// second star at `p_end`: the first star can be forgotten.
proof fn lemma_next_star(p: Seq<u8>, t: Seq<u8>, s: int, p_end: int, st: int)
    requires
        0 <= s < p_end < p.len(),
        p[s] == STAR,
        p[p_end] == STAR,
        aligned(p, t, s + 1, p_end, st),
    ensures
        glob_from(p, t, s, st) == glob_from(p, t, p_end, st + (p_end - (s + 1))),
{
    let n = p_end - (s + 1);
    lemma_aligned_run(p, t, s + 1, p_end, st);
    if glob_from(p, t, s, st) {
        let j = lemma_star_witness(p, t, s, st);
        lemma_star_free_run(p, t, s + 1, p_end, j);
        lemma_star_absorbs(p, t, p_end, st + n, j + n);
    }
}

/// A star at `s` followed by a run that is aligned with the text up to its
/// end: what is left of the pattern has to match the empty text.
proof fn lemma_text_consumed(p: Seq<u8>, t: Seq<u8>, s: int, p_end: int, st: int)
    requires
        0 <= s < p_end <= p.len(),
        p[s] == STAR,
        aligned(p, t, s + 1, p_end, st),
        st + (p_end - (s + 1)) == t.len(),
    ensures
        glob_from(p, t, s, st) == glob_from(p, t, p_end, t.len() as int),
{
    lemma_aligned_run(p, t, s + 1, p_end, st);
    if glob_from(p, t, s, st) {
        let j = lemma_star_witness(p, t, s, st);
        lemma_star_free_run(p, t, s + 1, p_end, j);
    }
}

/// Whether `pat` matches `txt`, byte by byte.
pub fn wildcard_matches_bytes(pat: &[u8], txt: &[u8]) -> (r: bool)
    ensures
        r == glob_matches(pat@, txt@),
{
    let mut p: usize = 0;
    let mut t: usize = 0;
    let mut star: Option<usize> = None;
    let mut star_text: usize = 0;
    while t < txt.len()
        invariant
            p <= pat.len(),
            t <= txt.len(),
            star_text <= t,
            match star {
                None => glob_matches(pat@, txt@) == glob_from(pat@, txt@, p as int, t as int),
                Some(sp) => {
                    &&& 1 <= sp <= p
                    &&& pat@[sp - 1] == STAR
                    &&& p - sp == t - star_text
                    &&& aligned(pat@, txt@, sp as int, p as int, star_text as int)
                    &&& glob_matches(pat@, txt@) == glob_from(
                        pat@,
                        txt@,
                        sp - 1,
                        star_text as int,
                    )
                },
            },
        decreases
                (if star is Some {
                    txt.len() - star_text
                } else {
                    txt.len() + 1
                }),
                pat.len() - p + txt.len() - t,
    {
        if p < pat.len() && pat[p] == STAR {
            proof {
                if let Some(sp) = star {
                    lemma_next_star(pat@, txt@, sp - 1, p as int, star_text as int);
                }
            }
            star = Some(p + 1);
            star_text = t;
            p += 1;
        } else if p < pat.len() && (pat[p] == QUESTION || pat[p] == txt[t]) {
            proof {
                if let Some(sp) = star {
                    assert forall|k: int| 0 <= k < p + 1 - sp implies (#[trigger] pat@[sp + k]
                        == QUESTION || pat@[sp + k] == txt@[star_text + k]) by {
                        if k < p - sp {
                        } else {
                            assert(sp + k == p && star_text + k == t);
                        }
                    }
                }
            }
            p += 1;
            t += 1;
        } else if let Some(sp) = star {
            proof {
                lemma_aligned_run(pat@, txt@, sp as int, p as int, star_text as int);
                assert(!glob_from(pat@, txt@, p as int, t as int));
                assert(glob_from(pat@, txt@, sp - 1, star_text as int) == glob_from(
                    pat@,
                    txt@,
                    sp - 1,
                    star_text + 1,
                ));
            }
            star_text += 1;
            t = star_text;
            p = sp;
        } else {
            return false;
        }
    }
    let ghost p_end = p;
    proof {
        if let Some(sp) = star {
            lemma_text_consumed(pat@, txt@, sp - 1, p as int, star_text as int);
        }
    }
    while p < pat.len() && pat[p] == STAR
        invariant
            p_end <= p <= pat.len(),
            t == txt.len(),
            glob_from(pat@, txt@, p_end as int, t as int) == glob_from(
                pat@,
                txt@,
                p as int,
                t as int,
            ),
        decreases pat.len() - p,
    {
        p += 1;
    }
    p == pat.len()
}

/// Whether `pattern` matches `text`. A `?` stands for one byte of the
/// text's UTF-8 encoding.
pub fn wildcard_matches(pattern: &str, text: &str) -> (r: bool)
    ensures
        r == glob_matches(pattern.spec_bytes(), text.spec_bytes()),
{
    wildcard_matches_bytes(pattern.as_bytes(), text.as_bytes())
}

/// `path` with every backslash turned into a slash.
pub open spec fn with_slashes(path: Seq<u8>) -> Seq<u8> {
    Seq::new(
        path.len(),
        |i: int|
            if path[i] == BACKSLASH {
                SLASH
            } else {
                path[i]
            },
    )
}

/// Where the last part of `path` begins: behind its last slash, or at 0.
pub open spec fn basename_start(path: Seq<u8>) -> int
    decreases path.len(),
{
    if path.len() == 0 {
        0
    } else if path.last() == SLASH {
        path.len() as int
    } else {
        basename_start(path.drop_last())
    }
}

/// The last part of `path`: what stands behind its last slash.
pub open spec fn basename(path: Seq<u8>) -> Seq<u8> {
    path.skip(basename_start(path))
}

/// Whether one pattern excludes `path`: it matches the whole path or its
/// last part, both written with slashes.
pub open spec fn excluded_by(pattern: Seq<u8>, path: Seq<u8>) -> bool {
    let pat = with_slashes(pattern);
    let normalized = with_slashes(path);
    glob_matches(pat, normalized) || glob_matches(pat, basename(normalized))
}

/// Whether some pattern of `patterns` excludes the path `path`.
pub open spec fn is_excluded(path: Seq<char>, patterns: Seq<String>) -> bool {
    exists|i: int|
        0 <= i < patterns.len() && excluded_by(
            encode_utf8(#[trigger] patterns[i]@),
            encode_utf8(path),
        )
}

fn slashed(s: &str) -> (out: Vec<u8>)
    ensures
        out@ == with_slashes(s.spec_bytes()),
{
    let bytes = s.as_bytes();
    let mut out: Vec<u8> = Vec::new();
    let mut i: usize = 0;
    while i < bytes.len()
        invariant
            0 <= i <= bytes.len(),
            bytes@ == s.spec_bytes(),
            out@ == with_slashes(bytes@).take(i as int),
        decreases bytes.len() - i,
    {
        let b = bytes[i];
        out.push(
            if b == BACKSLASH {
                SLASH
            } else {
                b
            },
        );
        i += 1;
        assert(out@ =~= with_slashes(bytes@).take(i as int));
    }
    assert(out@ =~= with_slashes(bytes@));
    out
}

fn basename_of(path: &Vec<u8>) -> (out: Vec<u8>)
    ensures
        out@ == basename(path@),
{
    let mut k: usize = path.len();
    assert(path@.take(k as int) =~= path@);
    while k > 0 && path[k - 1] != SLASH
        invariant
            0 <= k <= path.len(),
            basename_start(path@) == basename_start(path@.take(k as int)),
        decreases k,
    {
        assert(path@.take(k as int).drop_last() =~= path@.take(k - 1));
        k -= 1;
    }
    let mut out: Vec<u8> = Vec::new();
    let mut i: usize = k;
    while i < path.len()
        invariant
            k <= i <= path.len(),
            out@ == path@.subrange(k as int, i as int),
        decreases path.len() - i,
    {
        out.push(path[i]);
        i += 1;
        assert(out@ =~= path@.subrange(k as int, i as int));
    }
    assert(out@ =~= path@.skip(k as int));
    out
}

/// Whether the relative path is excluded by one of the patterns. Each
/// pattern is tried on the whole path and on its last part; backslashes in
/// the path and in the patterns count as slashes.
pub fn is_excluded_path(relative_path: &str, patterns: &Vec<String>) -> (r: bool)
    ensures
        r == is_excluded(relative_path@, patterns@),
{
    let normalized = slashed(relative_path);
    let base = basename_of(&normalized);
    let mut i: usize = 0;
    while i < patterns.len()
        invariant
            0 <= i <= patterns.len(),
            normalized@ == with_slashes(encode_utf8(relative_path@)),
            base@ == basename(normalized@),
            forall|k: int|
                0 <= k < i ==> !excluded_by(
                    encode_utf8(#[trigger] patterns@[k]@),
                    encode_utf8(relative_path@),
                ),
        decreases patterns.len() - i,
    {
        let pat = slashed(patterns[i].as_str());
        if wildcard_matches_bytes(pat.as_slice(), normalized.as_slice())
            || wildcard_matches_bytes(pat.as_slice(), base.as_slice()) {
            return true;
        }
        i += 1;
    }
    false
}

} // verus!
