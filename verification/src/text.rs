//! Verified building blocks for working with text as a sequence of
//! characters: searching for a character or a substring, replacing the first
//! occurrence of a substring, and trimming whitespace.

use vstd::prelude::*;

verus! {

use vstd::string::StrSliceExecFns;
use vstd::string::StringExecFns;

/// The whitespace characters recognized when trimming: the Unicode
/// `White_Space` set.
pub open spec fn is_space(c: char) -> bool {
    ||| 0x09 <= c as u32 <= 0x0d
    ||| c as u32 == 0x20
    ||| c as u32 == 0x85
    ||| c as u32 == 0xa0
    ||| c as u32 == 0x1680
    ||| 0x2000 <= c as u32 <= 0x200a
    ||| c as u32 == 0x2028
    ||| c as u32 == 0x2029
    ||| c as u32 == 0x202f
    ||| c as u32 == 0x205f
    ||| c as u32 == 0x3000
}

pub fn char_is_space(c: char) -> (r: bool)
    ensures
        r == is_space(c),
{
    let u = c as u32;
    (0x09 <= u && u <= 0x0d) || u == 0x20 || u == 0x85 || u == 0xa0 || u == 0x1680 || (0x2000 <= u
        && u <= 0x200a) || u == 0x2028 || u == 0x2029 || u == 0x202f || u == 0x205f || u == 0x3000
}

/// The position of the first occurrence of `c` in `s` at or after `i`, or
/// `s.len()` if there is none.
pub open spec fn find_char_from(s: Seq<char>, c: char, i: int) -> int
    decreases s.len() - i,
{
    if 0 <= i < s.len() {
        if s[i] == c {
            i
        } else {
            find_char_from(s, c, i + 1)
        }
    } else {
        s.len() as int
    }
}

pub proof fn lemma_find_char_from(s: Seq<char>, c: char, i: int)
    requires
        0 <= i <= s.len(),
    ensures
        i <= find_char_from(s, c, i) <= s.len(),
        find_char_from(s, c, i) < s.len() ==> s[find_char_from(s, c, i)] == c,
        forall|k: int| i <= k < find_char_from(s, c, i) ==> s[k] != c,
    decreases s.len() - i,
{
    if i < s.len() && s[i] != c {
        lemma_find_char_from(s, c, i + 1);
    }
}

/// The position of the last occurrence of `c` in `s` strictly before `j`, or
/// `-1` if there is none.
pub open spec fn rfind_char_before(s: Seq<char>, c: char, j: int) -> int
    decreases j,
{
    if 0 < j <= s.len() {
        if s[j - 1] == c {
            j - 1
        } else {
            rfind_char_before(s, c, j - 1)
        }
    } else {
        -1
    }
}

pub proof fn lemma_rfind_char_before(s: Seq<char>, c: char, j: int)
    requires
        0 <= j <= s.len(),
    ensures
        -1 <= rfind_char_before(s, c, j) < j,
        rfind_char_before(s, c, j) >= 0 ==> s[rfind_char_before(s, c, j)] == c,
        forall|k: int| rfind_char_before(s, c, j) < k < j ==> s[k] != c,
    decreases j,
{
    if 0 < j && s[j - 1] != c {
        lemma_rfind_char_before(s, c, j - 1);
    }
}

pub fn find_char(s: &str, c: char, from: usize) -> (r: usize)
    requires
        from as int <= s@.len(),
    ensures
        r as int == find_char_from(s@, c, from as int),
        from <= r <= s@.len(),
{
    let n = s.unicode_len();
    let mut i: usize = from;
    while i < n
        invariant
            n == s@.len(),
            from <= i <= n,
            find_char_from(s@, c, from as int) == find_char_from(s@, c, i as int),
        decreases n - i,
    {
        if s.get_char(i) == c {
            return i;
        }
        i += 1;
    }
    proof {
        lemma_find_char_from(s@, c, from as int);
    }
    n
}

pub fn rfind_char(s: &str, c: char) -> (r: Option<usize>)
    ensures
        match r {
            Some(k) => k as int == rfind_char_before(s@, c, s@.len() as int),
            None => rfind_char_before(s@, c, s@.len() as int) == -1,
        },
{
    let n = s.unicode_len();
    let mut j: usize = n;
    while j > 0
        invariant
            n == s@.len(),
            0 <= j <= n,
            rfind_char_before(s@, c, n as int) == rfind_char_before(s@, c, j as int),
        decreases j,
    {
        if s.get_char(j - 1) == c {
            return Some(j - 1);
        }
        j -= 1;
    }
    None
}

/// Whether `pat` occurs in `s` starting at position `k`.
pub open spec fn match_at(s: Seq<char>, pat: Seq<char>, k: int) -> bool {
    &&& 0 <= k
    &&& k + pat.len() <= s.len()
    &&& s.subrange(k, k + pat.len() as int) == pat
}

/// The position of the first occurrence of `pat` in `s` at or after `k`, or
/// `-1` if there is none.
pub open spec fn find_sub_from(s: Seq<char>, pat: Seq<char>, k: int) -> int
    decreases s.len() - k,
{
    if 0 <= k && k + pat.len() <= s.len() {
        if match_at(s, pat, k) {
            k
        } else if k + pat.len() == s.len() {
            -1
        } else {
            find_sub_from(s, pat, k + 1)
        }
    } else {
        -1
    }
}

pub proof fn lemma_find_sub_from(s: Seq<char>, pat: Seq<char>, k0: int)
    requires
        0 <= k0,
    ensures
        find_sub_from(s, pat, k0) == -1 ==> forall|k: int| k0 <= k ==> !match_at(s, pat, k),
        find_sub_from(s, pat, k0) >= 0 ==> {
            &&& k0 <= find_sub_from(s, pat, k0)
            &&& match_at(s, pat, find_sub_from(s, pat, k0))
            &&& forall|k: int| k0 <= k < find_sub_from(s, pat, k0) ==> !match_at(s, pat, k)
        },
    decreases s.len() - k0,
{
    if k0 + pat.len() <= s.len() && !match_at(s, pat, k0) && k0 + pat.len() < s.len() {
        lemma_find_sub_from(s, pat, k0 + 1);
    }
}

fn match_at_exec(s: &str, pat: &str, k: usize, s_len: usize, pat_len: usize) -> (r: bool)
    requires
        s_len == s@.len(),
        pat_len == pat@.len(),
        k + pat_len <= s_len,
    ensures
        r == match_at(s@, pat@, k as int),
{
    let mut j: usize = 0;
    while j < pat_len
        invariant
            s_len == s@.len(),
            pat_len == pat@.len(),
            k + pat_len <= s_len,
            0 <= j <= pat_len,
            forall|t: int| 0 <= t < j ==> #[trigger] pat@[t] == s@[t + k],
        decreases pat_len - j,
    {
        if s.get_char(k + j) != pat.get_char(j) {
            assert(s@.subrange(k as int, k + pat@.len() as int) != pat@) by {
                assert(s@.subrange(k as int, k + pat@.len() as int)[j as int] == s@[k + j]);
            }
            return false;
        }
        j += 1;
    }
    assert(s@.subrange(k as int, k + pat@.len() as int) =~= pat@);
    true
}

pub fn find_sub(s: &str, pat: &str) -> (r: Option<usize>)
    ensures
        match r {
            Some(k) => k as int == find_sub_from(s@, pat@, 0),
            None => find_sub_from(s@, pat@, 0) == -1,
        },
{
    let n = s.unicode_len();
    let plen = pat.unicode_len();
    if plen > n {
        return None;
    }
    let mut k: usize = 0;
    loop
        invariant
            n == s@.len(),
            plen == pat@.len(),
            plen <= n,
            0 <= k <= n - plen,
            find_sub_from(s@, pat@, 0) == find_sub_from(s@, pat@, k as int),
        decreases n - plen - k,
    {
        if match_at_exec(s, pat, k, n, plen) {
            return Some(k);
        }
        if k == n - plen {
            return None;
        }
        k += 1;
    }
}

/// `s` with the first occurrence of `pat` (if any) replaced by `rep`.
pub open spec fn replace_first_spec(s: Seq<char>, pat: Seq<char>, rep: Seq<char>) -> Seq<char> {
    let k = find_sub_from(s, pat, 0);
    if k == -1 {
        s
    } else {
        s.subrange(0, k) + rep + s.subrange(k + pat.len() as int, s.len() as int)
    }
}

pub fn replace_first(s: &str, pat: &str, rep: &str) -> (r: String)
    ensures
        r@ == replace_first_spec(s@, pat@, rep@),
{
    let n = s.unicode_len();
    match find_sub(s, pat) {
        None => s.to_owned(),
        Some(k) => {
            proof {
                lemma_find_sub_from(s@, pat@, 0);
            }
            let plen = pat.unicode_len();
            let mut out = s.substring_char(0, k).to_owned();
            out.append(rep);
            out.append(s.substring_char(k + plen, n));
            out
        },
    }
}

/// The position of the first character of `s` at or after `i` that is not
/// whitespace, or `s.len()` if there is none.
pub open spec fn skip_spaces(s: Seq<char>, i: int) -> int
    decreases s.len() - i,
{
    if 0 <= i < s.len() && is_space(s[i]) {
        skip_spaces(s, i + 1)
    } else {
        i
    }
}

/// The end of `s` once trailing whitespace before position `j` is dropped.
pub open spec fn rskip_spaces(s: Seq<char>, j: int) -> int
    decreases j,
{
    if 0 < j <= s.len() && is_space(s[j - 1]) {
        rskip_spaces(s, j - 1)
    } else {
        j
    }
}

/// `s` without its trailing whitespace.
pub open spec fn trim_end_spec(s: Seq<char>) -> Seq<char> {
    s.subrange(0, rskip_spaces(s, s.len() as int))
}

/// `s` without leading and trailing whitespace.
pub open spec fn trim_spec(s: Seq<char>) -> Seq<char> {
    let t = trim_end_spec(s);
    t.subrange(skip_spaces(t, 0), t.len() as int)
}

pub fn trim_end(s: &str) -> (r: &str)
    ensures
        r@ == trim_end_spec(s@),
{
    let n = s.unicode_len();
    let mut j: usize = n;
    while j > 0 && char_is_space(s.get_char(j - 1))
        invariant
            n == s@.len(),
            0 <= j <= n,
            rskip_spaces(s@, n as int) == rskip_spaces(s@, j as int),
        decreases j,
    {
        j -= 1;
    }
    s.substring_char(0, j)
}

pub fn trim(s: &str) -> (r: &str)
    ensures
        r@ == trim_spec(s@),
{
    let n = s.unicode_len();
    let mut b: usize = n;
    while b > 0 && char_is_space(s.get_char(b - 1))
        invariant
            n == s@.len(),
            0 <= b <= n,
            rskip_spaces(s@, n as int) == rskip_spaces(s@, b as int),
        decreases b,
    {
        b -= 1;
    }
    let ghost t = trim_end_spec(s@);
    proof {
        assert(b as int == rskip_spaces(s@, s@.len() as int));
        assert(t =~= s@.subrange(0, b as int));
    }
    let mut a: usize = 0;
    while a < b && char_is_space(s.get_char(a))
        invariant
            n == s@.len(),
            0 <= a <= b <= n,
            t == s@.subrange(0, b as int),
            skip_spaces(t, 0) == skip_spaces(t, a as int),
        decreases b - a,
    {
        proof {
            assert(t[a as int] == s@[a as int]);
        }
        a += 1;
    }
    proof {
        if a < b {
            assert(t[a as int] == s@[a as int]);
        }
        assert(skip_spaces(t, a as int) == a as int);
        assert(s@.subrange(a as int, b as int) =~= t.subrange(a as int, t.len() as int));
    }
    s.substring_char(a, b)
}

} // verus!
