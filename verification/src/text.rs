//! Character classes and substring predicates that the classifier and the
//! embedded-image pattern are stated over.

use vstd::prelude::*;

verus! {

/// An ASCII letter: the one character class admitted in the MIME name of an
/// embedded data URI.
pub open spec fn is_ascii_alpha(c: char) -> bool {
    (65 <= c as u32 && c as u32 <= 90) || (97 <= c as u32 && c as u32 <= 122)
}

/// A character of the standard base64 alphabet, including the padding sign.
pub open spec fn is_base64_char(c: char) -> bool {
    ||| is_ascii_alpha(c)
    ||| (48 <= c as u32 && c as u32 <= 57)
    ||| c == '+'
    ||| c == '/'
    ||| c == '='
}

/// The sequence `lit` stands in `s` at position `i`.
pub open spec fn lit_at(s: Seq<char>, i: int, lit: Seq<char>) -> bool {
    &&& 0 <= i
    &&& i + lit.len() <= s.len()
    &&& s.subrange(i, i + lit.len() as int) == lit
}

/// The sequence `t` occurs somewhere in `s`.
pub open spec fn spec_contains(s: Seq<char>, t: Seq<char>) -> bool {
    exists|i: int| lit_at(s, i, t)
}

/// `s` begins with the prefix `p`.
pub open spec fn spec_starts_with(s: Seq<char>, p: Seq<char>) -> bool {
    lit_at(s, 0, p)
}

/// Whether `c` is an ASCII letter.
pub fn is_alpha_char(c: char) -> (b: bool)
    ensures
        b == is_ascii_alpha(c),
{
    let u = c as u32;
    (65 <= u && u <= 90) || (97 <= u && u <= 122)
}

/// Whether `c` belongs to the standard base64 alphabet (padding included).
pub fn is_base64_char_exec(c: char) -> (b: bool)
    ensures
        b == is_base64_char(c),
{
    let u = c as u32;
    (65 <= u && u <= 90) || (97 <= u && u <= 122) || (48 <= u && u <= 57) || c == '+' || c == '/'
        || c == '='
}

/// Whether the literal `lit` stands at character position `i` of `s`.
pub fn lit_at_exec(s: &str, i: usize, lit: &str) -> (b: bool)
    ensures
        b == lit_at(s@, i as int, lit@),
{
    let n = s.unicode_len();
    let m = lit.unicode_len();
    if i > n || m > n - i {
        return false;
    }
    let mut k: usize = 0;
    while k < m
        invariant
            n == s@.len(),
            m == lit@.len(),
            i + m <= n,
            k <= m,
            forall|t: int| 0 <= t < k ==> s@[i + t] == lit@[t],
        decreases m - k,
    {
        if s.get_char(i + k) != lit.get_char(k) {
            proof {
                if lit_at(s@, i as int, lit@) {
                    assert(s@.subrange(i as int, i + lit@.len() as int)[k as int] == lit@[k as int]);
                }
            }
            return false;
        }
        k += 1;
    }
    proof {
        assert(s@.subrange(i as int, i + lit@.len() as int) =~= lit@);
    }
    true
}

/// Whether `t` occurs anywhere in `s`: the substring-containment test that
/// the MIME classifier is built on.
pub fn contains_str(s: &str, t: &str) -> (b: bool)
    ensures
        b == spec_contains(s@, t@),
{
    let n = s.unicode_len();
    let m = t.unicode_len();
    if m > n {
        return false;
    }
    if m == 0 {
        proof {
            assert(s@.subrange(0, 0) =~= t@);
            assert(lit_at(s@, 0, t@));
        }
        return true;
    }
    let mut i: usize = 0;
    while i <= n - m
        invariant
            n == s@.len(),
            m == t@.len(),
            1 <= m <= n,
            i <= n - m + 1,
            forall|i2: int| 0 <= i2 < i ==> !lit_at(s@, i2, t@),
        decreases n - i,
    {
        if lit_at_exec(s, i, t) {
            return true;
        }
        i += 1;
    }
    proof {
        assert forall|i2: int| !#[trigger] lit_at(s@, i2, t@) by {
            if 0 <= i2 && i2 + t@.len() <= s@.len() {
                assert(i2 < i as int);
            }
        }
    }
    false
}

/// First index at or after `k` whose character fails `f`, or the length of
/// `s` when the run reaches the end.
pub open spec fn run_end(s: Seq<char>, k: int, f: spec_fn(char) -> bool) -> int
    decreases s.len() - k,
{
    if !(0 <= k < s.len()) {
        s.len() as int
    } else if f(s[k]) {
        run_end(s, k + 1, f)
    } else {
        k
    }
}

/// The ASCII-letter class as a first-class predicate.
pub open spec fn alpha_pred() -> spec_fn(char) -> bool {
    |c: char| is_ascii_alpha(c)
}

/// The base64-alphabet class as a first-class predicate.
pub open spec fn b64_pred() -> spec_fn(char) -> bool {
    |c: char| is_base64_char(c)
}

/// Everything but the one character `c0`.
pub open spec fn not_char_pred(c0: char) -> spec_fn(char) -> bool {
    |c: char| c != c0
}

/// Where the run of ASCII letters beginning at `k` ends.
pub open spec fn alpha_end(s: Seq<char>, k: int) -> int {
    run_end(s, k, alpha_pred())
}

/// Where the run of base64-alphabet characters beginning at `k` ends.
pub open spec fn b64_end(s: Seq<char>, k: int) -> int {
    run_end(s, k, b64_pred())
}

/// Position of the first `c0` at or after `k`, or the length of `s` when
/// there is none.
pub open spec fn find_char(s: Seq<char>, k: int, c0: char) -> int {
    run_end(s, k, not_char_pred(c0))
}

/// Scans to the end of the ASCII-letter run that begins at `k`.
pub fn scan_alpha_end(s: &str, k: usize) -> (m: usize)
    requires
        k <= s@.len(),
    ensures
        m == alpha_end(s@, k as int),
        k <= m <= s@.len(),
{
    let n = s.unicode_len();
    let mut m = k;
    loop
        invariant
            k <= m <= n,
            n == s@.len(),
            run_end(s@, k as int, alpha_pred()) == run_end(s@, m as int, alpha_pred()),
        ensures
            k <= m <= n,
            m == run_end(s@, k as int, alpha_pred()),
        decreases n - m,
    {
        if m == n {
            proof {
                assert(run_end(s@, m as int, alpha_pred()) == n as int);
            }
            break;
        }
        let c = s.get_char(m);
        if !is_alpha_char(c) {
            proof {
                assert(!alpha_pred()(c));
                assert(run_end(s@, m as int, alpha_pred()) == m as int);
            }
            break;
        }
        proof {
            assert(alpha_pred()(c));
            assert(run_end(s@, m as int, alpha_pred()) == run_end(s@, m + 1, alpha_pred()));
        }
        m += 1;
    }
    m
}

/// Scans to the end of the base64-alphabet run that begins at `k`.
pub fn scan_b64_end(s: &str, k: usize) -> (m: usize)
    requires
        k <= s@.len(),
    ensures
        m == b64_end(s@, k as int),
        k <= m <= s@.len(),
{
    let n = s.unicode_len();
    let mut m = k;
    loop
        invariant
            k <= m <= n,
            n == s@.len(),
            run_end(s@, k as int, b64_pred()) == run_end(s@, m as int, b64_pred()),
        ensures
            k <= m <= n,
            m == run_end(s@, k as int, b64_pred()),
        decreases n - m,
    {
        if m == n {
            proof {
                assert(run_end(s@, m as int, b64_pred()) == n as int);
            }
            break;
        }
        let c = s.get_char(m);
        if !is_base64_char_exec(c) {
            proof {
                assert(!b64_pred()(c));
                assert(run_end(s@, m as int, b64_pred()) == m as int);
            }
            break;
        }
        proof {
            assert(b64_pred()(c));
            assert(run_end(s@, m as int, b64_pred()) == run_end(s@, m + 1, b64_pred()));
        }
        m += 1;
    }
    m
}

/// Scans for the first occurrence of `c0` at or after `k`.
pub fn scan_find_char(s: &str, k: usize, c0: char) -> (m: usize)
    requires
        k <= s@.len(),
    ensures
        m == find_char(s@, k as int, c0),
        k <= m <= s@.len(),
        m < s@.len() ==> s@[m as int] == c0,
        forall|t: int| k <= t < m ==> s@[t] != c0,
{
    let n = s.unicode_len();
    let mut m = k;
    loop
        invariant
            k <= m <= n,
            n == s@.len(),
            run_end(s@, k as int, not_char_pred(c0)) == run_end(s@, m as int, not_char_pred(c0)),
            forall|t: int| k <= t < m ==> s@[t] != c0,
        ensures
            k <= m <= n,
            m == run_end(s@, k as int, not_char_pred(c0)),
            m < n ==> s@[m as int] == c0,
            forall|t: int| k <= t < m ==> s@[t] != c0,
        decreases n - m,
    {
        if m == n {
            proof {
                assert(run_end(s@, m as int, not_char_pred(c0)) == n as int);
            }
            break;
        }
        let c = s.get_char(m);
        if c == c0 {
            proof {
                assert(!not_char_pred(c0)(c));
                assert(run_end(s@, m as int, not_char_pred(c0)) == m as int);
            }
            break;
        }
        proof {
            assert(not_char_pred(c0)(c));
            assert(run_end(s@, m as int, not_char_pred(c0)) == run_end(
                s@,
                m + 1,
                not_char_pred(c0),
            ));
        }
        m += 1;
    }
    m
}

} // verus!
