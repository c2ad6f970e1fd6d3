//! Record-key validation. A legal repository key is
//! `"<collection>/<record-id>"`: exactly two non-empty segments separated by a
//! single `/`, at most 256 characters in all, every segment character drawn
//! from `[A-Za-z0-9_\-:.]`, and neither segment literally `.` or `..`.
//! Every key reconstructed from untrusted stored bytes is re-validated here.

use crate::error::MstError;
use vstd::prelude::*;
use vstd::string::StrSliceExecFns;

verus! {

/// The legal alphabet of a key segment. `/` is deliberately absent, so a
/// valid key contains its separator exactly once.
pub open spec fn is_allowed_char(c: char) -> bool {
    ||| ('a' <= c && c <= 'z')
    ||| ('A' <= c && c <= 'Z')
    ||| ('0' <= c && c <= '9')
    ||| c == '_'
    ||| c == '-'
    ||| c == ':'
    ||| c == '.'
}

/// A legal key segment: non-empty, drawn from the allowed alphabet, and not
/// the literal values `.` or `..`.
pub open spec fn valid_segment(s: Seq<char>) -> bool {
    &&& s.len() > 0
    &&& (forall|i: int| 0 <= i < s.len() ==> is_allowed_char(#[trigger] s[i]))
    &&& !(s.len() == 1 && s[0] == '.')
    &&& !(s.len() == 2 && s[0] == '.' && s[1] == '.')
}

/// The character at position `i` splits `s` into two legal segments.
pub open spec fn key_split_at(s: Seq<char>, i: int) -> bool {
    &&& 0 <= i < s.len()
    &&& s[i] == '/'
    &&& valid_segment(s.subrange(0, i))
    &&& valid_segment(s.subrange(i + 1, s.len() as int))
}

/// A well-formed repository key: at most 256 characters, split by a single
/// `/` into two legal segments.
pub open spec fn valid_mst_key(s: Seq<char>) -> bool {
    &&& s.len() <= 256
    &&& exists|i: int| key_split_at(s, i)
}

/// Every allowed character, and `/` itself, is ASCII.
pub proof fn lemma_allowed_chars_ascii(c: char)
    ensures
        is_allowed_char(c) ==> '\0' <= c <= '\u{7f}',
        c == '/' ==> '\0' <= c <= '\u{7f}',
{
}

/// A valid key consists of ASCII characters only.
pub proof fn lemma_valid_key_is_ascii(s: Seq<char>)
    requires
        valid_mst_key(s),
    ensures
        vstd::utf8::is_ascii_chars(s),
{
    let sep = choose|sep: int| key_split_at(s, sep);
    assert forall|i: int| 0 <= i < s.len() implies '\0' <= #[trigger] s[i] <= '\u{7f}' by {
        if i < sep {
            assert(s.subrange(0, sep)[i] == s[i]);
            assert(is_allowed_char(s[i]));
        } else if i > sep {
            assert(s.subrange(sep + 1, s.len() as int)[i - sep - 1] == s[i]);
            assert(is_allowed_char(s[i]));
        }
        lemma_allowed_chars_ascii(s[i]);
    }
}

/// Decides membership in the allowed segment alphabet.
pub fn is_allowed_char_exec(c: char) -> (r: bool)
    ensures
        r == is_allowed_char(c),
{
    ('a' <= c && c <= 'z') || ('A' <= c && c <= 'Z') || ('0' <= c && c <= '9') || c == '_' || c
        == '-' || c == ':' || c == '.'
}

/// Decides whether `key` is a well-formed repository path
/// (`"<collection>/<record-id>"` as described at module level).
pub fn is_valid_repo_mst_path(key: &String) -> (r: bool)
    ensures
        r == valid_mst_key(key@),
{
    let s = key.as_str();
    if !s.is_ascii() {
        proof {
            if valid_mst_key(s@) {
                lemma_valid_key_is_ascii(s@);
            }
        }
        return false;
    }
    let n = s.unicode_len();
    if n > 256 {
        return false;
    }
    // Locate the separator and make sure it occurs exactly once.
    let mut slash: usize = 0;
    let mut slash_count: usize = 0;
    let mut i: usize = 0;
    while i < n
        invariant
            n == s@.len() <= 256,
            i <= n,
            slash_count <= i,
            slash_count == 0 ==> forall|j: int| 0 <= j < i ==> s@[j] != '/',
            slash_count >= 1 ==> slash < i && s@[slash as int] == '/' && forall|j: int|
                0 <= j < slash ==> s@[j] != '/',
            slash_count >= 2 ==> exists|j: int| slash < j < i && s@[j] == '/',
            slash_count == 1 ==> forall|j: int| slash < j < i ==> s@[j] != '/',
        decreases n - i,
    {
        let c = s.get_char(i);
        if c == '/' {
            if slash_count == 0 {
                slash = i;
            }
            slash_count = slash_count + 1;
        }
        i = i + 1;
    }
    if slash_count != 1 {
        proof {
            assert forall|k: int| !key_split_at(s@, k) by {
                if key_split_at(s@, k) {
                    if slash_count == 0 {
                        assert(s@[k] == '/');
                    } else {
                        // At least two separators: one of them differs from k
                        // and therefore sits inside a segment, where `/` is
                        // not allowed.
                        let j = choose|j: int| slash < j < n && s@[j] == '/';
                        let w: int = if k != slash {
                            slash as int
                        } else {
                            j
                        };
                        assert(s@[w] == '/' && w != k && 0 <= w < s@.len());
                        if w < k {
                            assert(s@.subrange(0, k)[w] == s@[w]);
                            assert(is_allowed_char(s@[w]));
                        } else {
                            assert(s@.subrange(k + 1, s@.len() as int)[w - k - 1] == s@[w]);
                            assert(is_allowed_char(s@[w]));
                        }
                    }
                }
            }
        }
        return false;
    }
    // Exactly one separator, at index `slash`.
    if slash == 0 || slash + 1 >= n {
        proof {
            assert forall|k: int| !key_split_at(s@, k) by {
                if key_split_at(s@, k) {
                    assert(k == slash) by {
                        if k < slash {
                            assert(s@[k] == '/');
                        } else if k > slash {
                            assert(s@[k] == '/');
                        }
                    }
                    if slash == 0 {
                        assert(s@.subrange(0, k).len() == 0);
                    } else {
                        assert(s@.subrange(k + 1, s@.len() as int).len() == 0);
                    }
                }
            }
        }
        return false;
    }
    proof {
        assert(forall|t: int| 0 <= t < n && t != slash ==> s@[t] != '/');
    }
    // Both segments are non-empty; check their alphabet.
    let mut j: usize = 0;
    while j < n
        invariant
            s@ == key@,
            n == s@.len() <= 256,
            j <= n,
            0 < slash && slash + 1 < n,
            s@[slash as int] == '/',
            forall|t: int| 0 <= t < n && t != slash ==> s@[t] != '/',
            forall|t: int| 0 <= t < j && t != slash ==> is_allowed_char(#[trigger] s@[t]),
        decreases n - j,
    {
        if j != slash {
            let c = s.get_char(j);
            if !is_allowed_char_exec(c) {
                proof {
                    assert forall|k: int| !key_split_at(s@, k) by {
                        if key_split_at(s@, k) {
                            assert(k == slash) by {
                                if k != slash {
                                    lemma_slash_in_segment(s@, k, slash as int);
                                }
                            }
                            lemma_segment_char_allowed(s@, k, j as int);
                        }
                    }
                }
                return false;
            }
        }
        j = j + 1;
    }
    // Reject the literal segment values `.` and `..`.
    let dot_first = (slash == 1 && s.get_char(0) == '.') || (slash == 2 && s.get_char(0) == '.'
        && s.get_char(1) == '.');
    let rest = n - slash - 1;
    let dot_second = (rest == 1 && s.get_char(slash + 1) == '.') || (rest == 2 && s.get_char(
        slash + 1,
    ) == '.' && s.get_char(slash + 2) == '.');
    if dot_first || dot_second {
        proof {
            assert forall|k: int| !key_split_at(s@, k) by {
                if key_split_at(s@, k) {
                    assert(k == slash) by {
                        if k != slash {
                            lemma_slash_in_segment(s@, k, slash as int);
                        }
                    }
                    let left = s@.subrange(0, k);
                    let right = s@.subrange(k + 1, s@.len() as int);
                    assert(left.len() == k);
                    assert(right.len() == s@.len() - k - 1);
                    assert forall|t: int| 0 <= t < left.len() implies left[t] == s@[t] by {}
                    assert forall|t: int| 0 <= t < right.len() implies right[t] == s@[k + 1 + t] by {}
                }
            }
        }
        return false;
    }
    // Everything checked: `slash` witnesses a legal split.
    proof {
        let k = slash as int;
        let left = s@.subrange(0, k);
        let right = s@.subrange(k + 1, s@.len() as int);
        assert forall|t: int| 0 <= t < left.len() implies is_allowed_char(#[trigger] left[t]) by {
            assert(left[t] == s@[t]);
        }
        assert forall|t: int| 0 <= t < right.len() implies is_allowed_char(
            #[trigger] right[t],
        ) by {
            assert(right[t] == s@[k + 1 + t]);
        }
        assert(!(left.len() == 1 && left[0] == '.')) by {
            if left.len() == 1 {
                assert(left[0] == s@[0]);
            }
        }
        assert(!(left.len() == 2 && left[0] == '.' && left[1] == '.')) by {
            if left.len() == 2 {
                assert(left[0] == s@[0] && left[1] == s@[1]);
            }
        }
        assert(!(right.len() == 1 && right[0] == '.')) by {
            if right.len() == 1 {
                assert(right[0] == s@[k + 1]);
            }
        }
        assert(!(right.len() == 2 && right[0] == '.' && right[1] == '.')) by {
            if right.len() == 2 {
                assert(right[0] == s@[k + 1] && right[1] == s@[k + 2]);
            }
        }
        assert(key_split_at(s@, k));
    }
    true
}

/// A `/` at any position other than `k` rules out a split at `k`: it would
/// sit inside one of the two segments, whose alphabet excludes `/`.
proof fn lemma_slash_in_segment(s: Seq<char>, k: int, w: int)
    requires
        0 <= w < s.len(),
        w != k,
        s[w] == '/',
    ensures
        !key_split_at(s, k),
{
    if key_split_at(s, k) {
        if w < k {
            assert(s.subrange(0, k)[w] == s[w]);
            assert(is_allowed_char(s[w]));
        } else {
            assert(s.subrange(k + 1, s.len() as int)[w - k - 1] == s[w]);
            assert(is_allowed_char(s[w]));
        }
    }
}

/// Under `key_split_at(s, k)`, every character other than the separator is
/// drawn from the allowed alphabet.
proof fn lemma_segment_char_allowed(s: Seq<char>, k: int, t: int)
    requires
        key_split_at(s, k),
        0 <= t < s.len(),
        t != k,
    ensures
        is_allowed_char(s[t]),
{
    if t < k {
        assert(s.subrange(0, k)[t] == s[t]);
    } else {
        assert(s.subrange(k + 1, s.len() as int)[t - k - 1] == s[t]);
    }
}

/// Checks a key before it is compressed into, or after it is reconstructed
/// from, a node's canonical form: `Ok` exactly on well-formed keys, and the
/// error identifies the offending key.
pub fn ensure_valid_mst_key(key: &String) -> (r: Result<(), MstError>)
    ensures
        r is Ok <==> valid_mst_key(key@),
        r matches Err(e) ==> e@ matches crate::error::MstErrorV::InvalidKey(k) && k == key@,
{
    if is_valid_repo_mst_path(key) {
        Ok(())
    } else {
        Err(MstError::InvalidKey(key.clone()))
    }
}

} // verus!
