//! Mapping a request path onto a script: the split into script name and
//! path info, and the sanitized file path under the document root.

use crate::env::join_path;
use crate::text::{chars_of, lowercase, lower_of, str_equals, string_of};
use vstd::prelude::*;

verus! {

/// `s` holds `p` somewhere.
pub open spec fn contains_seq(s: Seq<char>, p: Seq<char>) -> bool {
    exists|i: int| 0 <= i && i + p.len() <= s.len() && #[trigger] s.subrange(i, i + p.len()) == p
}

/// The path built from the non-empty segments of `p`, each after a `/`.
pub open spec fn squeeze(p: Seq<char>) -> Seq<char>
    decreases p.len(),
{
    if p.len() == 0 {
        Seq::empty()
    } else {
        let q = p.subrange(0, p.len() - 1);
        let c = p[p.len() - 1];
        if c == '/' {
            squeeze(q)
        } else if q.len() == 0 || q[q.len() - 1] == '/' {
            squeeze(q) + seq!['/', c]
        } else {
            squeeze(q).push(c)
        }
    }
}

/// The end of the segment of `u` that starts at `s`.
pub open spec fn segment_end(u: Seq<char>, s: int, e: int) -> bool {
    &&& s <= e <= u.len()
    &&& forall|j: int| s <= j < e ==> #[trigger] u[j] != '/'
    &&& (e == u.len() || u[e] == '/')
}

/// Script name and path info for each segment from `s` on that names a
/// `.php` file, in order: the segments up to it, and the rest of the path.
pub open spec fn candidates_from(u: Seq<char>, s: int) -> Seq<(Seq<char>, Seq<char>)>
    decreases u.len() - s,
{
    if s < 0 || s > u.len() {
        Seq::empty()
    } else {
        let e = choose|e: int| segment_end(u, s, e);
        let here = if contains_seq(u.subrange(s, e), ".php"@) {
            seq![(squeeze(u.subrange(0, e)), u.subrange(e, u.len() as int))]
        } else {
            Seq::empty()
        };
        if s <= e < u.len() {
            here + candidates_from(u, e + 1)
        } else {
            here
        }
    }
}

/// The script names and path infos that a request path may stand for.
pub open spec fn path_candidates(u: Seq<char>) -> Seq<(Seq<char>, Seq<char>)> {
    candidates_from(u, 0)
}

/// A request path split at a script.
pub struct PhpPathInfo {
    /// The script's file.
    pub script_filename: String,
    /// The request path up to and including the script.
    pub script_name: String,
    /// The rest of the request path.
    pub path_info: String,
}

/// Whether `s[i..]` begins with `.php`.
fn php_at(v: &Vec<char>, i: usize, e: usize) -> (r: bool)
    requires
        i <= e <= v@.len(),
    ensures
        r == (i + 4 <= e && v@.subrange(i as int, i + 4) == ".php"@),
{
    proof {
        reveal_strlit(".php");
    }
    if e - i < 4 {
        return false;
    }
    let r = v[i] == '.' && v[i + 1] == 'p' && v[i + 2] == 'h' && v[i + 3] == 'p';
    proof {
        if r {
            assert(v@.subrange(i as int, i + 4) =~= ".php"@);
        } else {
            if v@.subrange(i as int, i + 4) == ".php"@ {
                assert(v@.subrange(i as int, i + 4)[0] == '.');
                assert(v@.subrange(i as int, i + 4)[1] == 'p');
                assert(v@.subrange(i as int, i + 4)[2] == 'h');
                assert(v@.subrange(i as int, i + 4)[3] == 'p');
            }
        }
    }
    r
}

/// Whether `v[s..e]` holds `.php`.
fn names_php(v: &Vec<char>, s: usize, e: usize) -> (r: bool)
    requires
        s <= e <= v@.len(),
    ensures
        r == contains_seq(v@.subrange(s as int, e as int), ".php"@),
{
    proof {
        reveal_strlit(".php");
    }
    let ghost seg = v@.subrange(s as int, e as int);
    let mut i: usize = s;
    while i < e
        invariant
            s <= i <= e <= v@.len(),
            seg == v@.subrange(s as int, e as int),
            forall|j: int| s <= j < i ==> !(j + 4 <= e && #[trigger] v@.subrange(j, j + 4) == ".php"@),
        decreases e - i,
    {
        if php_at(v, i, e) {
            assert(seg.subrange(i - s, i - s + 4) =~= v@.subrange(i as int, i + 4));
            return true;
        }
        i = i + 1;
    }
    proof {
        assert forall|k: int| !(0 <= k && k + 4 <= seg.len() && #[trigger] seg.subrange(k, k + 4)
            == ".php"@) by {
            if 0 <= k && k + 4 <= seg.len() {
                assert(seg.subrange(k, k + 4) =~= v@.subrange(s + k, s + k + 4));
            }
        }
    }
    false
}

/// Script name and path info of a candidate, as sequences.
pub open spec fn info_view(i: PhpPathInfo) -> (Seq<char>, Seq<char>) {
    (i.script_name@, i.path_info@)
}

proof fn lemma_segment_end_unique(u: Seq<char>, s: int, e: int)
    requires
        segment_end(u, s, e),
    ensures
        (choose|c: int| segment_end(u, s, c)) == e,
{
    let c = choose|c: int| segment_end(u, s, c);
    assert(segment_end(u, s, c));
    if c < e {
        assert(u[c] != '/');
    } else if e < c {
        assert(u[e] != '/');
    }
}

/// Each way of reading `uri_path` as a script under `doc_root` followed by
/// path info, in the order of the segments: a segment that holds `.php`
/// ends the script name, the rest of the path is the path info, and the
/// script's file is the script name resolved under the root.
pub fn php_path_candidates(doc_root: &str, uri_path: &str) -> (r: Vec<PhpPathInfo>)
    ensures
        r@.map_values(|i: PhpPathInfo| info_view(i)) == path_candidates(uri_path@),
        forall|i: int|
            0 <= i < r@.len() ==> (#[trigger] r@[i]).script_filename@ == resolved_path(
                doc_root@,
                r@[i].script_name@,
            ),
{
    let v = chars_of(uri_path);
    let n = v.len();
    let mut acc: Vec<char> = Vec::new();
    let mut out: Vec<PhpPathInfo> = Vec::new();
    let mut s: usize = 0;
    let mut i: usize = 0;
    assert(v@.subrange(0, 0) =~= Seq::<char>::empty());
    assert(out@.map_values(|i: PhpPathInfo| info_view(i)) =~= Seq::<(Seq<char>, Seq<char>)>::empty());
    while i < n
        invariant
            n == v@.len(),
            v@ == uri_path@,
            s <= i <= n,
            forall|j: int| s <= j < i ==> #[trigger] v@[j] != '/',
            s == 0 || v@[s - 1] == '/',
            acc@ == squeeze(v@.subrange(0, i as int)),
            path_candidates(v@) == out@.map_values(|i: PhpPathInfo| info_view(i)) + candidates_from(
                v@,
                s as int,
            ),
            forall|k: int|
                0 <= k < out@.len() ==> (#[trigger] out@[k]).script_filename@ == resolved_path(
                    doc_root@,
                    out@[k].script_name@,
                ),
        decreases n - i,
    {
        let c = v[i];
        let ghost p = v@.subrange(0, i + 1);
        assert(p.subrange(0, p.len() - 1) =~= v@.subrange(0, i as int));
        if c == '/' {
            proof {
                assert(segment_end(v@, s as int, i as int));
                lemma_segment_end_unique(v@, s as int, i as int);
            }
            let ghost before = out@.map_values(|i: PhpPathInfo| info_view(i));
            if names_php(&v, s, i) {
                let script_name = string_of(acc.as_slice());
                let path_info = crate::text::string_of_range(&v, i, n);
                let script_filename = resolve_path(doc_root, script_name.as_str());
                out.push(PhpPathInfo { script_filename, script_name, path_info });
                assert(out@.map_values(|i: PhpPathInfo| info_view(i)) =~= before.push(
                    (squeeze(v@.subrange(0, i as int)), v@.subrange(i as int, n as int)),
                ));
            }
            s = i + 1;
        } else {
            if i == 0 || v[i - 1] == '/' {
                acc.push('/');
            }
            acc.push(c);
        }
        assert(acc@ =~= squeeze(p));
        i = i + 1;
    }
    proof {
        assert(segment_end(v@, s as int, n as int));
        lemma_segment_end_unique(v@, s as int, n as int);
    }
    let ghost before = out@.map_values(|i: PhpPathInfo| info_view(i));
    assert(v@.subrange(0, n as int) =~= v@);
    if names_php(&v, s, n) {
        let script_name = string_of(acc.as_slice());
        let path_info = String::new();
        let script_filename = resolve_path(doc_root, script_name.as_str());
        out.push(PhpPathInfo { script_filename, script_name, path_info });
        assert(v@.subrange(n as int, n as int) =~= Seq::<char>::empty());
        assert(out@.map_values(|i: PhpPathInfo| info_view(i)) =~= before.push(
            (squeeze(v@), Seq::<char>::empty()),
        ));
    }
    assert(out@.map_values(|i: PhpPathInfo| info_view(i)) =~= path_candidates(uri_path@));
    out
}

/// The first candidate whose file is there and is a PHP file; `is_file[i]`
/// tells whether the file of `candidates[i]` exists.
pub fn resolve_php_path_info(candidates: Vec<PhpPathInfo>, is_file: &Vec<bool>) -> (r: Option<
    PhpPathInfo,
>)
    requires
        is_file@.len() == candidates@.len(),
    ensures
        match r {
            Some(info) => exists|i: int|
                0 <= i < candidates@.len() && info == candidates@[i] && is_file@[i] && is_php_path(
                    info.script_filename@,
                ) && forall|j: int|
                    0 <= j < i ==> !(#[trigger] is_file@[j] && is_php_path(
                        candidates@[j].script_filename@,
                    )),
            None => forall|j: int|
                0 <= j < candidates@.len() ==> !(#[trigger] is_file@[j] && is_php_path(
                    candidates@[j].script_filename@,
                )),
        },
{
    let ghost all = candidates@;
    let mut rest = candidates;
    let mut i: usize = 0;
    let mut found: Option<PhpPathInfo> = None;
    while i < rest.len()
        invariant
            rest@ == all,
            all == candidates@,
            is_file@.len() == all.len(),
            i <= all.len(),
            forall|j: int| 0 <= j < i ==> !(#[trigger] is_file@[j] && is_php_path(all[j].script_filename@)),
        decreases all.len() - i,
    {
        if is_file[i] && is_php_file(rest[i].script_filename.as_str()) {
            let info = rest.remove(i);
            assert(info == all[i as int]);
            assert(0 <= i < all.len() && info == all[i as int] && is_file@[i as int] && is_php_path(
                info.script_filename@,
            ) && forall|j: int|
                0 <= j < i ==> !(#[trigger] is_file@[j] && is_php_path(all[j].script_filename@)));
            return Some(info);
        }
        i = i + 1;
    }
    None
}

/// The name that `percent_encoding::percent_decode_str` followed by
/// `decode_utf8_lossy` gives to its result.
pub uninterp spec fn percent_decoded(s: Seq<char>) -> Seq<char>;

/// Relies on `percent_encoding::percent_decode_str` and `decode_utf8_lossy`:
/// each `%` with two hex digits becomes that byte; text without `%` is
/// returned as it is.
#[verifier::external_body]
fn percent_decode(s: &str) -> (r: String)
    ensures
        r@ == percent_decoded(s@),
        (forall|i: int| 0 <= i < s@.len() ==> s@[i] != '%') ==> r@ == s@,
{
    percent_encoding::percent_decode_str(s).decode_utf8_lossy().into_owned()
}

/// `p` with only the segments that name something below it: no empty
/// segment, no `.`, no `..`.
pub open spec fn clean_segments(p: Seq<char>) -> Seq<char> {
    clean_from(p, 0)
}

/// The cleaned segments of `p` from `s` on, each after a `/` but the first.
pub open spec fn clean_from(p: Seq<char>, s: int) -> Seq<char>
    decreases p.len() - s,
{
    if s < 0 || s > p.len() {
        Seq::empty()
    } else {
        let e = choose|e: int| segment_end(p, s, e);
        let seg = p.subrange(s, e);
        let keep = seg.len() > 0 && seg != "."@ && seg != ".."@;
        let rest = if s <= e < p.len() {
            clean_from(p, e + 1)
        } else {
            Seq::empty()
        };
        if keep && rest.len() > 0 {
            seg + "/"@ + rest
        } else if keep {
            seg
        } else {
            rest
        }
    }
}

/// The file that a request path names under `doc_root`: the path without
/// its leading slashes, percent-decoded, with empty, `.` and `..` segments
/// removed, joined onto the root.
pub open spec fn resolved_path(doc_root: Seq<char>, path: Seq<char>) -> Seq<char> {
    join_path(doc_root, clean_segments(percent_decoded(crate::env::strip_leading_slashes(path))))
}

/// The file that `path` names under `doc_root`; it cannot leave the root.
pub fn resolve_path(doc_root: &str, path: &str) -> (r: String)
    ensures
        r@ == resolved_path(doc_root@, path@),
{
    let v = chars_of(path);
    let mut a: usize = 0;
    assert(v@.subrange(0, v@.len() as int) =~= v@);
    while a < v.len() && v[a] == '/'
        invariant
            a <= v@.len(),
            v@ == path@,
            crate::env::strip_leading_slashes(path@) == crate::env::strip_leading_slashes(
                v@.subrange(a as int, v@.len() as int),
            ),
        decreases v@.len() - a,
    {
        let ghost t = v@.subrange(a as int, v@.len() as int);
        assert(t.subrange(1, t.len() as int) =~= v@.subrange(a + 1, v@.len() as int));
        a = a + 1;
    }
    assert(crate::env::strip_leading_slashes(v@.subrange(a as int, v@.len() as int)) == v@.subrange(
        a as int,
        v@.len() as int,
    ));
    let tail = crate::text::string_of_range(&v, a, v.len());
    let decoded = percent_decode(tail.as_str());
    let cleaned = clean(decoded.as_str());
    let b = chars_of(doc_root);
    let mut r = String::from_str(doc_root);
    if b.len() > 0 && b[b.len() - 1] != '/' {
        r.append("/");
    }
    r.append(cleaned.as_str());
    r
}

/// `p` with empty, `.` and `..` segments removed.
fn clean(p: &str) -> (r: String)
    ensures
        r@ == clean_segments(p@),
{
    let v = chars_of(p);
    clean_tail(&v, 0)
}

/// The cleaned segments of `v` from `s` on.
fn clean_tail(v: &Vec<char>, s: usize) -> (r: String)
    requires
        s <= v@.len(),
    ensures
        r@ == clean_from(v@, s as int),
    decreases v@.len() - s,
{
    proof {
        reveal_strlit(".");
        reveal_strlit("..");
        reveal_strlit("/");
    }
    let e = crate::text::index_in(v, s, v.len(), '/');
    proof {
        let k = e as int;
        assert(segment_end(v@, s as int, k)) by {
            assert(crate::text::first_at(v@.subrange(s as int, v@.len() as int), '/', k - s));
            assert forall|j: int| s <= j < k implies #[trigger] v@[j] != '/' by {
                assert(v@.subrange(s as int, v@.len() as int)[j - s] == v@[j]);
            }
        }
        let c = choose|c: int| segment_end(v@, s as int, c);
        if c < k {
            assert(v@[c] != '/');
        } else if k < c {
            assert(v@[k] != '/');
        }
    }
    let len = e - s;
    let dot = len == 1 && v[s] == '.';
    let dotdot = len == 2 && v[s] == '.' && v[s + 1] == '.';
    let ghost seg = v@.subrange(s as int, e as int);
    proof {
        if len == 1 && seg == "."@ {
            assert(seg[0] == '.');
        }
        if len == 2 && seg == ".."@ {
            assert(seg[0] == '.' && seg[1] == '.');
        }
        if dot {
            assert(seg =~= "."@);
        }
        if dotdot {
            assert(seg =~= ".."@);
        }
    }
    let keep = len > 0 && !dot && !dotdot;
    let rest = if e < v.len() {
        clean_tail(v, e + 1)
    } else {
        String::new()
    };
    let seg_s = crate::text::string_of_range(v, s, e);
    if keep && rest.as_str().unicode_len() > 0 {
        let mut r = seg_s;
        r.append("/");
        r.append(rest.as_str());
        r
    } else if keep {
        seg_s
    } else {
        rest
    }
}

/// The name that `Path::extension` gives to its result.
pub uninterp spec fn extension_of(p: Seq<char>) -> Option<Seq<char>>;

/// Relies on `std::path::Path::extension`: the text after the last `.` of
/// the file name, where there is one.
#[verifier::external_body]
pub(crate) fn path_extension(path: &str) -> (r: Option<String>)
    ensures
        match r {
            Some(e) => extension_of(path@) == Some(e@),
            None => extension_of(path@) is None,
        },
{
    std::path::Path::new(path).extension().map(|e| e.to_string_lossy().into_owned())
}

/// The path names a PHP file: its extension is `php` in any case.
pub open spec fn is_php_path(p: Seq<char>) -> bool {
    extension_of(p) matches Some(e) && lower_of(e) == "php"@
}

/// Whether `path` names a PHP file.
pub fn is_php_file(path: &str) -> (r: bool)
    ensures
        r == is_php_path(path@),
{
    match path_extension(path) {
        Some(e) => {
            let l = lowercase(e.as_str());
            str_equals(l.as_str(), "php")
        },
        None => false,
    }
}

} // verus!
