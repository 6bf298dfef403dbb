//! The embedded-image extractor: finds the first markdown-embedded data URI
//! `![`...`](data:image/`<name>`;base64,`<payload>`)` in free-form text and
//! hands back its MIME type and decoded payload.
//!
//! The pattern is stated positionally: a marker `![`, a bracket body free of
//! newlines up to the first completing `]`, the literal `(data:image/`, a
//! non-empty run of ASCII letters, the literal `;base64,`, a non-empty run of
//! base64-alphabet characters, and a closing parenthesis. The match taken is
//! the leftmost by start position and, for that start, the one with the
//! earliest completing bracket.

use vstd::prelude::*;

use crate::codec::b64_decodable;
use crate::codec::b64_of;
use crate::codec::decode_base64;
use crate::text::alpha_end;
use crate::text::b64_end;
use crate::text::lit_at;
use crate::text::lit_at_exec;
use crate::text::scan_alpha_end;
use crate::text::scan_b64_end;

verus! {

/// A marker `![` at `i` whose bracket body reaches a `]` at `j` without
/// crossing a newline.
pub open spec fn marker_at(s: Seq<char>, i: int, j: int) -> bool {
    &&& 0 <= i
    &&& i + 2 <= j < s.len()
    &&& s[i] == '!'
    &&& s[i + 1] == '['
    &&& s[j] == ']'
    &&& forall|t: int| i + 2 <= t < j ==> s[t] != '\n'
}

/// End of the MIME-name letter run of a data URI whose `]` stands at `j`:
/// the run starts right after the 12 characters of `(data:image/`.
pub open spec fn mime_end(s: Seq<char>, j: int) -> int {
    alpha_end(s, j + 13)
}

/// Start of the base64 payload: past the 8 characters of `;base64,`.
pub open spec fn payload_start(s: Seq<char>, j: int) -> int {
    mime_end(s, j) + 8
}

/// End of the base64 payload run.
pub open spec fn payload_end(s: Seq<char>, j: int) -> int {
    b64_end(s, payload_start(s, j))
}

/// A parenthesized data URI standing right after a `]` at `j`: the literal
/// `(data:image/`, a non-empty letter run, `;base64,`, a non-empty payload
/// run, and a closing parenthesis.
pub open spec fn uri_at(s: Seq<char>, j: int) -> bool {
    &&& lit_at(s, j + 1, "(data:image/"@)
    &&& mime_end(s, j) > j + 13
    &&& lit_at(s, mime_end(s, j), ";base64,"@)
    &&& payload_end(s, j) > payload_start(s, j)
    &&& payload_end(s, j) < s.len()
    &&& s[payload_end(s, j)] == ')'
}

/// The whole embedded-image pattern at marker position `i` with its `]` at `j`.
pub open spec fn match_at(s: Seq<char>, i: int, j: int) -> bool {
    marker_at(s, i, j) && uri_at(s, j)
}

/// Some embedded image stands somewhere in `s`.
pub open spec fn has_image_match(s: Seq<char>) -> bool {
    exists|i: int, j: int| match_at(s, i, j)
}

/// `(i, j)` is the match the extractor takes: leftmost start, then earliest
/// completing bracket.
pub open spec fn is_first_match(s: Seq<char>, i: int, j: int) -> bool {
    &&& match_at(s, i, j)
    &&& forall|i2: int, j2: int| match_at(s, i2, j2) ==> i <= i2
    &&& forall|j2: int| match_at(s, i, j2) ==> j <= j2
}

/// The captured MIME type: `image/` and the letter run after it.
pub open spec fn match_mime(s: Seq<char>, j: int) -> Seq<char> {
    s.subrange(j + 7, mime_end(s, j))
}

/// The captured base64 payload.
pub open spec fn match_payload(s: Seq<char>, j: int) -> Seq<char> {
    s.subrange(payload_start(s, j), payload_end(s, j))
}

/// Checks for a parenthesized data URI right after a `]` at `j`, and hands
/// back the captured MIME type and payload.
fn check_uri(s: &str, j: usize) -> (r: Option<(String, String)>)
    requires
        j < s@.len(),
    ensures
        r is Some <==> uri_at(s@, j as int),
        r matches Some(mp) ==> mp.0@ == match_mime(s@, j as int) && mp.1@ == match_payload(
            s@,
            j as int,
        ),
{
    let n = s.unicode_len();
    if !lit_at_exec(s, j + 1, "(data:image/") {
        return None;
    }
    proof {
        reveal_strlit("(data:image/");
    }
    let m = scan_alpha_end(s, j + 13);
    if m == j + 13 {
        return None;
    }
    if !lit_at_exec(s, m, ";base64,") {
        return None;
    }
    proof {
        reveal_strlit(";base64,");
    }
    let q0 = m + 8;
    let p = scan_b64_end(s, q0);
    if p == q0 {
        return None;
    }
    if p == n {
        return None;
    }
    if s.get_char(p) != ')' {
        return None;
    }
    let mime = String::from_str(s.substring_char(j + 7, m));
    let payload = String::from_str(s.substring_char(q0, p));
    Some((mime, payload))
}

/// Extracts the first markdown-embedded image of `text`: its MIME type and
/// its decoded payload bytes. Returns nothing when no substring matches the
/// embedded-image pattern, and also when the first matching payload is not
/// decodable base64 — a decode failure is swallowed at this layer.
pub fn extract_image_from_markdown(text: &str) -> (r: Option<(String, Vec<u8>)>)
    ensures
        r matches Some(mb) ==> exists|i: int, j: int|
            {
                &&& #[trigger] is_first_match(text@, i, j)
                &&& mb.0@ == match_mime(text@, j)
                &&& b64_of(mb.1@) == match_payload(text@, j)
            },
        r is None ==> forall|i: int, j: int|
            is_first_match(text@, i, j) ==> !b64_decodable(match_payload(text@, j)),
        !has_image_match(text@) ==> r is None,
{
    let n = text.unicode_len();
    let mut i: usize = 0;
    while i < n
        invariant
            n == text@.len(),
            i <= n,
            forall|i2: int, j2: int| 0 <= i2 < i ==> !match_at(text@, i2, j2),
        decreases n - i,
    {
        let c0 = text.get_char(i);
        let marker_head = if c0 == '!' && i + 1 < n {
            text.get_char(i + 1) == '['
        } else {
            false
        };
        if marker_head {
            let mut j = i + 2;
            loop
                invariant
                    n == text@.len(),
                    i + 2 <= j <= n,
                    i < n,
                    text@[i as int] == '!',
                    text@[i as int + 1] == '[',
                    forall|i2: int, j2: int| 0 <= i2 < i ==> !match_at(text@, i2, j2),
                    forall|j2: int| i + 2 <= j2 < j ==> !match_at(text@, i as int, j2),
                    forall|t: int| i + 2 <= t < j ==> text@[t] != '\n',
                ensures
                    forall|j2: int| !match_at(text@, i as int, j2),
                decreases n - j,
            {
                if j == n {
                    proof {
                        assert forall|j2: int| !#[trigger] match_at(text@, i as int, j2) by {
                            if match_at(text@, i as int, j2) {
                                assert(i as int + 2 <= j2 < n);
                            }
                        }
                    }
                    break;
                }
                let c = text.get_char(j);
                if c == '\n' {
                    proof {
                        assert forall|j2: int| !#[trigger] match_at(text@, i as int, j2) by {
                            if match_at(text@, i as int, j2) {
                                assert(i as int + 2 <= j2 < n);
                                if j2 == j as int {
                                    assert(text@[j2] == ']');
                                } else if j2 > j as int {
                                    assert(text@[j as int] != '\n');
                                }
                            }
                        }
                    }
                    break;
                }
                if c == ']' {
                    if let Some((mime, payload)) = check_uri(text, j) {
                        proof {
                            assert(match_at(text@, i as int, j as int));
                            assert forall|i2: int, j2: int|
                                match_at(text@, i2, j2) implies i as int <= i2 by {
                                if i2 < i as int {
                                    assert(!match_at(text@, i2, j2));
                                }
                            }
                            assert forall|j2: int|
                                match_at(text@, i as int, j2) implies j as int <= j2 by {
                                if j2 < j as int {
                                    assert(!match_at(text@, i as int, j2));
                                }
                            }
                            assert(is_first_match(text@, i as int, j as int));
                        }
                        match decode_base64(payload.as_str()) {
                            Ok(bytes) => {
                                return Some((mime, bytes));
                            },
                            Err(_) => {
                                proof {
                                    assert forall|i2: int, j2: int|
                                        is_first_match(text@, i2, j2) implies !b64_decodable(
                                        match_payload(text@, j2),
                                    ) by {
                                        assert(i2 == i as int && j2 == j as int);
                                    }
                                }
                                return None;
                            },
                        }
                    }
                }
                j += 1;
            }
        } else {
            proof {
                assert forall|j2: int| !#[trigger] match_at(text@, i as int, j2) by {
                    if match_at(text@, i as int, j2) {
                        assert(text@[i as int] == '!' && text@[i as int + 1] == '[' && i as int + 2
                            <= j2 < n);
                    }
                }
            }
        }
        i += 1;
    }
    proof {
        assert forall|i2: int, j2: int| !#[trigger] match_at(text@, i2, j2) by {
            if match_at(text@, i2, j2) {
                assert(0 <= i2 && i2 + 2 <= j2 < n);
            }
        }
    }
    None
}

} // verus!
