//! Legacy path rewriting for the real-filesystem channel backend: backslash
//! separators become slashes, and a path on the legacy system drive is
//! re-rooted under a host directory.

use vstd::prelude::*;
use vstd::string::StrSliceExecFns;
use vstd::string::StringExecFns;
use substring::Substring;

verus! {

/// The characters of the range `start..end` of a text, with both bounds
/// clamped to the text and an empty result when the range is reversed.
pub open spec fn spec_substring(s: Seq<char>, start: int, end: int) -> Seq<char> {
    if end <= start {
        Seq::empty()
    } else {
        let lo = if start <= s.len() {
            start
        } else {
            s.len() as int
        };
        let hi = if end <= s.len() {
            end
        } else {
            s.len() as int
        };
        s.subrange(lo, hi)
    }
}

/// Relies on `substring::Substring::substring` for `str`: the characters
/// within the character range `start_index..end_index`, where a reversed
/// range gives the empty string and both bounds clamp to the text's end.
#[verifier::external_body]
fn substring_of(s: &str, start_index: usize, end_index: usize) -> (r: String)
    ensures
        r@ == spec_substring(s@, start_index as int, end_index as int),
{
    s.substring(start_index, end_index).to_string()
}

/// The text with every backslash turned into a slash.
pub open spec fn replaced_seps(s: Seq<char>) -> Seq<char> {
    Seq::new(
        s.len(),
        |i: int|
            if s[i] == '\\' {
                '/'
            } else {
                s[i]
            },
    )
}

/// Turns every backslash of a path into a slash.
pub fn replace_seps(s: &str) -> (r: String)
    ensures
        r@ == replaced_seps(s@),
{
    let n = s.unicode_len();
    let mut r = String::new();
    let mut start: usize = 0;
    let mut i: usize = 0;
    proof {
        reveal_strlit("/");
    }
    while i < n
        invariant
            n == s@.len(),
            start <= i <= n,
            forall|k: int| start <= k < i ==> s@[k] != '\\',
            r@ =~= replaced_seps(s@).subrange(0, start as int),
        decreases n - i,
    {
        let c = s.get_char(i);
        if c == '\\' {
            r.append(s.substring_char(start, i));
            r.append("/");
            proof {
                reveal_strlit("/");
                assert(r@ =~= replaced_seps(s@).subrange(0, i as int + 1));
            }
            start = i + 1;
        }
        i = i + 1;
    }
    r.append(s.substring_char(start, n));
    proof {
        assert(r@ =~= replaced_seps(s@));
    }
    r
}

/// Where a file name lands on the host: a path on the legacy system drive
/// (a `C:` prefix with a backslash) is re-rooted under the host root as the
/// root, a slash, and the whole slash-converted remainder after the
/// three-character drive prefix; any other path only has its separators
/// turned into slashes.
pub open spec fn resolved_path(root: Seq<char>, file: Seq<char>) -> Seq<char> {
    if file.len() >= 3 && file[0] == 'C' && file[1] == ':' && file[2] == '\\' {
        root + seq!['/'] + replaced_seps(file).skip(3)
    } else {
        replaced_seps(file)
    }
}

/// Rewrites a legacy file name into a host path; see [`resolved_path`].
pub fn resolve_file_name(root: &str, file: &str) -> (r: String)
    ensures
        r@ == resolved_path(root@, file@),
{
    let s = replace_seps(file);
    let n = file.unicode_len();
    let on_drive = n >= 3 && file.get_char(0) == 'C' && file.get_char(1) == ':' && file.get_char(2)
        == '\\';
    if on_drive {
        proof {
            reveal_strlit("/");
        }
        let mut result = root.to_owned();
        result.append("/");
        let tail = substring_of(s.as_str(), 3, n);
        result.append(tail.as_str());
        proof {
            assert(result@ =~= resolved_path(root@, file@));
        }
        result
    } else {
        s
    }
}

} // verus!
