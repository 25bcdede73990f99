//! The two-phase parser of a spawned interpreter's output: a header block
//! only where the output plainly starts with one, otherwise all body, so
//! that pages without headers are never misread.

use crate::sapi::{PhpResponse, field_name, field_value, has_colon, pairs_view, strip_cr};
use crate::text::{
    chars_of, index_in, index_of, leading_word, lower_of, lowercase, parse_u16_seq, parse_u16_range,
    str_equals, string_of_range, trim_range, trim_seq, word_end_in,
};
use vstd::prelude::*;
use vstd::utf8::encode_utf8;

verus! {

/// A response read from interpreter output.
pub struct CgiResponse {
    /// HTTP status code.
    pub status: u16,
    /// The content type.
    pub content_type: String,
    /// The headers passed on, in order.
    pub headers: Vec<(String, String)>,
    /// The body, byte for byte.
    pub body: Vec<u8>,
}

/// A character of a header name: ASCII letter or digit, `-` or `_`.
pub open spec fn is_token_char(c: char) -> bool {
    ('a' <= c && c <= 'z') || ('A' <= c && c <= 'Z') || ('0' <= c && c <= '9') || c == '-' || c
        == '_'
}

pub open spec fn is_token(s: Seq<char>) -> bool {
    forall|i: int| 0 <= i < s.len() ==> is_token_char(#[trigger] s[i])
}

/// `p` occurs in `s` at `i`.
pub open spec fn occurs_at(s: Seq<char>, p: Seq<char>, i: int) -> bool {
    0 <= i && i + p.len() <= s.len() && s.subrange(i, i + p.len()) == p
}

/// `p` first occurs in `s` at `k`.
pub open spec fn first_occurrence(s: Seq<char>, p: Seq<char>, k: int) -> bool {
    occurs_at(s, p, k) && forall|j: int| 0 <= j < k ==> !occurs_at(s, p, j)
}

/// Where the header block ends and how long the separator is: the first
/// blank line written `\r\n\r\n`, else the first `\n\n` if it comes within
/// the first 500 characters.
pub open spec fn header_end(s: Seq<char>, pos: int, skip: int) -> bool {
    ||| skip == 4 && first_occurrence(s, "\r\n\r\n"@, pos)
    ||| skip == 2 && (forall|j: int| !occurs_at(s, "\r\n\r\n"@, j)) && first_occurrence(
        s,
        "\n\n"@,
        pos,
    ) && pos < 500
}

/// The output has no header block that ends where `header_end` says.
pub open spec fn no_header_end(s: Seq<char>) -> bool {
    (forall|j: int| !occurs_at(s, "\r\n\r\n"@, j)) && forall|j: int|
        occurs_at(s, "\n\n"@, j) ==> (j >= 500 || exists|i: int|
            0 <= i < j && occurs_at(s, "\n\n"@, i))
}

/// The first line of `h`, as `str::lines` gives it.
pub open spec fn first_line(h: Seq<char>) -> Seq<char> {
    let k = index_of(h, '\n');
    if k < h.len() {
        strip_cr(h.subrange(0, k))
    } else {
        h
    }
}

/// The first line makes the block a header block: it has a colon, does not
/// start with `<` nor hold `{`, and the text before its first colon is a
/// header name.
pub open spec fn valid_first_line(l: Seq<char>) -> bool {
    &&& has_colon(l)
    &&& !(l.len() > 0 && l[0] == '<')
    &&& forall|i: int| 0 <= i < l.len() ==> #[trigger] l[i] != '{'
    &&& is_token(l.subrange(0, index_of(l, ':')))
}

/// Status, content type and headers as the header lines leave them.
pub type CgiState = (u16, Seq<char>, Seq<(Seq<char>, Seq<char>)>);

/// One header line applied: `Status` sets a status between 100 and 999
/// (others give 200), `Content-Type` the content type, `Location` adds
/// the header and turns a 200 into 302, and any other header is kept, in
/// order.
pub open spec fn cgi_line(l: Seq<char>, st: CgiState) -> CgiState {
    if !has_colon(l) || !is_token(field_name(l)) {
        st
    } else {
        let name = field_name(l);
        let value = field_value(l);
        let lower = lower_of(name);
        if lower == "status"@ {
            if value.len() == 0 {
                st
            } else {
                match parse_u16_seq(leading_word(value)) {
                    Some(c) => (if 100 <= c && c < 1000 {
                        c
                    } else {
                        200
                    }, st.1, st.2),
                    None => st,
                }
            }
        } else if lower == "content-type"@ {
            (st.0, value, st.2)
        } else if lower == "location"@ {
            (if st.0 == 200 {
                302
            } else {
                st.0
            }, st.1, st.2.push(("Location"@, value)))
        } else {
            (st.0, st.1, st.2.push((name, value)))
        }
    }
}

/// The lines of `s`, as `str::lines` splits them, applied in order.
pub open spec fn cgi_lines(s: Seq<char>, st: CgiState) -> CgiState
    decreases s.len(),
{
    if s.len() == 0 {
        st
    } else {
        let k = index_of(s, '\n');
        if 0 <= k < s.len() {
            cgi_lines(s.subrange(k + 1, s.len() as int), cgi_line(strip_cr(s.subrange(0, k)), st))
        } else {
            cgi_line(s, st)
        }
    }
}

/// The content type where the output names none.
pub open spec fn default_content_type() -> Seq<char> {
    "text/html; charset=utf-8"@
}

/// Whether `p` occurs in `v` at `i`.
fn occurs_in(v: &Vec<char>, p: &Vec<char>, i: usize) -> (r: bool)
    requires
        i <= v@.len(),
    ensures
        r == occurs_at(v@, p@, i as int),
{
    if p.len() > v.len() - i {
        return false;
    }
    let mut j: usize = 0;
    while j < p.len()
        invariant
            i + p@.len() <= v@.len() <= usize::MAX,
            j <= p@.len(),
            forall|t: int| 0 <= t < j ==> v@[i + t] == p@[t],
        decreases p@.len() - j,
    {
        if v[i + j] != p[j] {
            assert(v@.subrange(i as int, i + p@.len())[j as int] != p@[j as int]);
            return false;
        }
        j = j + 1;
    }
    assert(v@.subrange(i as int, i + p@.len()) =~= p@);
    true
}

/// The first occurrence of `p` in `v`.
fn find_seq(v: &Vec<char>, p: &Vec<char>) -> (r: Option<usize>)
    ensures
        match r {
            Some(k) => first_occurrence(v@, p@, k as int),
            None => forall|j: int| !occurs_at(v@, p@, j),
        },
{
    let mut i: usize = 0;
    while i < v.len()
        invariant
            i <= v@.len(),
            forall|j: int| 0 <= j < i ==> !occurs_at(v@, p@, j),
        decreases v@.len() - i,
    {
        if occurs_in(v, p, i) {
            return Some(i);
        }
        i = i + 1;
    }
    if occurs_in(v, p, i) {
        return Some(i);
    }
    proof {
        assert forall|j: int| !occurs_at(v@, p@, j) by {
            if 0 <= j < i {
            } else if j > i {
                assert(j + p@.len() > v@.len());
            }
        }
    }
    None
}

/// Whether every character of `v[a..b]` is a header-name character.
fn token_range(v: &Vec<char>, a: usize, b: usize) -> (r: bool)
    requires
        a <= b <= v@.len(),
    ensures
        r == is_token(v@.subrange(a as int, b as int)),
{
    let mut i: usize = a;
    while i < b
        invariant
            a <= i <= b <= v@.len(),
            forall|j: int| a <= j < i ==> is_token_char(#[trigger] v@[j]),
        decreases b - i,
    {
        let c = v[i];
        if !(('a' <= c && c <= 'z') || ('A' <= c && c <= 'Z') || ('0' <= c && c <= '9') || c == '-'
            || c == '_') {
            assert(!is_token_char(v@.subrange(a as int, b as int)[i - a]));
            return false;
        }
        i = i + 1;
    }
    assert forall|j: int| 0 <= j < b - a implies is_token_char(
        #[trigger] v@.subrange(a as int, b as int)[j],
    ) by {
        assert(v@.subrange(a as int, b as int)[j] == v@[a + j]);
    }
    true
}

fn lit(s: &str) -> (r: String)
    ensures
        r@ == s@,
{
    String::from_str(s)
}

/// Applies one header line `v[a..b]` to the state.
fn apply_cgi_line(
    v: &Vec<char>,
    a: usize,
    b: usize,
    status: &mut u16,
    content_type: &mut String,
    headers: &mut Vec<(String, String)>,
)
    requires
        a <= b <= v@.len(),
    ensures
        (*final(status), final(content_type)@, pairs_view(final(headers)@)) == cgi_line(
            v@.subrange(a as int, b as int),
            (*old(status), old(content_type)@, pairs_view(old(headers)@)),
        ),
{
    let ghost l = v@.subrange(a as int, b as int);
    let k = index_in(v, a, b, ':');
    if k == b {
        return ;
    }
    let (na, nb) = trim_range(v, a, k);
    assert(l.subrange(0, index_of(l, ':')) =~= v@.subrange(a as int, k as int));
    assert(l.subrange(index_of(l, ':') + 1, l.len() as int) =~= v@.subrange(k + 1, b as int));
    assert(v@.subrange(na as int, nb as int) == field_name(l));
    if !token_range(v, na, nb) {
        return ;
    }
    let (va, vb) = trim_range(v, k + 1, b);
    let name = string_of_range(v, na, nb);
    let value = string_of_range(v, va, vb);
    let lower = lowercase(name.as_str());
    let ghost hs = pairs_view(headers@);
    if str_equals(lower.as_str(), "status") {
        if va < vb {
            let e = word_end_in(v, va, vb);
            match parse_u16_range(v, va, e) {
                Some(c) => {
                    *status = if 100 <= c && c < 1000 {
                        c
                    } else {
                        200
                    };
                },
                None => {},
            }
        }
    } else if str_equals(lower.as_str(), "content-type") {
        *content_type = value;
    } else if str_equals(lower.as_str(), "location") {
        if *status == 200 {
            *status = 302;
        }
        headers.push((lit("Location"), value));
        assert(pairs_view(headers@) =~= hs.push(("Location"@, field_value(l))));
    } else {
        headers.push((name, value));
        assert(pairs_view(headers@) =~= hs.push((field_name(l), field_value(l))));
    }
}

/// Applies the header lines of `v[0..end]` in order.
fn apply_cgi_lines(v: &Vec<char>, end: usize) -> (r: (u16, String, Vec<(String, String)>))
    requires
        end <= v@.len(),
    ensures
        (r.0, r.1@, pairs_view(r.2@)) == cgi_lines(
            v@.subrange(0, end as int),
            (200u16, default_content_type(), Seq::empty()),
        ),
{
    let mut status: u16 = 200;
    let mut content_type = lit("text/html; charset=utf-8");
    let mut headers: Vec<(String, String)> = Vec::new();
    let ghost whole = v@.subrange(0, end as int);
    let mut start: usize = 0;
    assert(pairs_view(headers@) =~= Seq::<(Seq<char>, Seq<char>)>::empty());
    while start < end
        invariant
            start <= end <= v@.len(),
            whole == v@.subrange(0, end as int),
            cgi_lines(whole, (200u16, default_content_type(), Seq::empty())) == cgi_lines(
                v@.subrange(start as int, end as int),
                (status, content_type@, pairs_view(headers@)),
            ),
        decreases end - start,
    {
        let ghost s = v@.subrange(start as int, end as int);
        let k = index_in(v, start, end, '\n');
        let mut le = k;
        if k < end && k > start && v[k - 1] == '\r' {
            le = k - 1;
        }
        proof {
            if k < end {
                assert(strip_cr(s.subrange(0, k - start)) =~= v@.subrange(start as int, le as int));
            } else {
                assert(s =~= v@.subrange(start as int, le as int));
            }
        }
        apply_cgi_line(v, start, le, &mut status, &mut content_type, &mut headers);
        if k < end {
            assert(s.subrange(k - start + 1, s.len() as int) =~= v@.subrange(k + 1, end as int));
            start = k + 1;
        } else {
            start = end;
        }
    }
    (status, content_type, headers)
}

/// Reads interpreter output. A header block is taken only where the output
/// starts with an ASCII letter, a separator ends the block, and its first
/// line is a valid header line; otherwise the whole output is the body,
/// with status 200 and an HTML content type.
pub fn parse_cgi_output(output: &str) -> (r: CgiResponse)
    ensures
        ({
            let s = output@;
            let starts = s.len() > 0 && (('a' <= s[0] && s[0] <= 'z') || ('A' <= s[0] && s[0]
                <= 'Z'));
            &&& forall|pos: int, skip: int|
                starts && header_end(s, pos, skip) && valid_first_line(
                    first_line(s.subrange(0, pos)),
                ) ==> {
                    let st = cgi_lines(
                        s.subrange(0, pos),
                        (200u16, default_content_type(), Seq::empty()),
                    );
                    &&& r.body@ == encode_utf8(s.subrange(pos + skip, s.len() as int))
                    &&& r.status == st.0
                    &&& r.content_type@ == st.1
                    &&& pairs_view(r.headers@) == st.2
                }
            &&& (!starts || no_header_end(s) || forall|pos: int, skip: int|
                header_end(s, pos, skip) ==> !valid_first_line(first_line(s.subrange(0, pos))))
                ==> r.body@ == encode_utf8(s) && r.status == 200 && r.content_type@ == default_content_type()
                && r.headers@.len() == 0
        }),
{
    let v = chars_of(output);
    let plain = CgiResponse {
        status: 200,
        content_type: lit("text/html; charset=utf-8"),
        headers: Vec::new(),
        body: output.as_bytes_vec(),
    };
    if v.len() == 0 || !(('a' <= v[0] && v[0] <= 'z') || ('A' <= v[0] && v[0] <= 'Z')) {
        return plain;
    }
    let crlf2 = chars_of("\r\n\r\n");
    let lf2 = chars_of("\n\n");
    let (pos, skip) = match find_seq(&v, &crlf2) {
        Some(p) => (p, 4usize),
        None => match find_seq(&v, &lf2) {
            Some(p) => {
                if p < 500 {
                    (p, 2usize)
                } else {
                    proof {
                        assert forall|j: int| occurs_at(v@, lf2@, j) implies (j >= 500 || exists|
                            i: int,
                        | 0 <= i < j && occurs_at(v@, lf2@, i)) by {
                            if j < p {
                            } else if j > p {
                                assert(0 <= p < j && occurs_at(v@, lf2@, p as int));
                            }
                        }
                    }
                    return plain;
                }
            },
            None => {
                return plain;
            },
        },
    };
    proof {
        reveal_strlit("\r\n\r\n");
        reveal_strlit("\n\n");
    }
    assert(header_end(v@, pos as int, skip as int));
    assert(pos + skip <= v@.len());
    proof {
        assert forall|q_pos: int, q_skip: int| header_end(v@, q_pos, q_skip) implies q_pos == pos && q_skip == skip by {
            if q_skip == 4 {
                if q_pos < pos {
                    assert(!occurs_at(v@, crlf2@, q_pos));
                } else if pos < q_pos {
                    assert(!occurs_at(v@, crlf2@, pos as int));
                }
            } else {
                if skip == 4 {
                    assert(occurs_at(v@, crlf2@, pos as int));
                } else if q_pos < pos {
                    assert(!occurs_at(v@, lf2@, q_pos));
                } else if pos < q_pos {
                    assert(!occurs_at(v@, lf2@, pos as int));
                }
            }
        }
    }
    let k = index_in(&v, 0, pos, '\n');
    let mut le = k;
    if k < pos && k > 0 && v[k - 1] == '\r' {
        le = k - 1;
    }
    let ghost h = v@.subrange(0, pos as int);
    let ghost fl = v@.subrange(0, le as int);
    proof {
        if k < pos {
            assert(strip_cr(h.subrange(0, k as int)) =~= fl);
        } else {
            assert(h =~= fl);
        }
    }
    let c = index_in(&v, 0, le, ':');
    let no_brace = match crate::text::find_char(&v, 0, le, '{') {
        Some(_) => false,
        None => true,
    };
    assert(fl.subrange(0, index_of(fl, ':')) =~= v@.subrange(0, c as int));
    let valid = c < le && !(le > 0 && v[0] == '<') && no_brace && token_range(&v, 0, c);
    proof {
        if no_brace {
            assert forall|i: int| 0 <= i < fl.len() implies #[trigger] fl[i] != '{' by {
                assert(fl[i] == v@[i]);
            }
        } else {
            let i = choose|i: int| 0 <= i < le && v@[i] == '{';
            assert(fl[i] == '{');
        }
    }
    if !valid {
        return plain;
    }
    let (status, content_type, headers) = apply_cgi_lines(&v, pos);
    let text = string_of_range(&v, pos + skip, v.len());
    let body = text.as_str().as_bytes_vec();
    CgiResponse { status, content_type, headers, body }
}

/// `c` in ASCII lower case.
pub open spec fn ascii_lower(c: char) -> char {
    if 'A' <= c && c <= 'Z' {
        ((c as u8) + 32) as u8 as char
    } else {
        c
    }
}

/// The two strings are equal when ASCII letters are compared without case.
pub open spec fn same_ignoring_ascii_case(a: Seq<char>, b: Seq<char>) -> bool {
    a.len() == b.len() && forall|i: int| 0 <= i < a.len() ==> ascii_lower(#[trigger] a[i])
        == ascii_lower(b[i])
}

fn lower_ascii_char(c: char) -> (r: char)
    ensures
        r == ascii_lower(c),
{
    if 'A' <= c && c <= 'Z' {
        ((c as u8) + 32u8) as char
    } else {
        c
    }
}

/// Whether `a` and `b` are equal when ASCII letters are compared without case.
pub fn eq_ignoring_ascii_case(a: &str, b: &str) -> (r: bool)
    ensures
        r == same_ignoring_ascii_case(a@, b@),
{
    let v = chars_of(a);
    let w = chars_of(b);
    if v.len() != w.len() {
        return false;
    }
    let mut i: usize = 0;
    while i < v.len()
        invariant
            v@ == a@,
            w@ == b@,
            v@.len() == w@.len(),
            i <= v@.len(),
            forall|j: int| 0 <= j < i ==> ascii_lower(#[trigger] v@[j]) == ascii_lower(w@[j]),
        decreases v@.len() - i,
    {
        if lower_ascii_char(v[i]) != lower_ascii_char(w[i]) {
            return false;
        }
        i = i + 1;
    }
    true
}

/// `k` is the first header named `Content-Type` in any case, or the number
/// of headers where none is.
pub open spec fn first_content_type_at(hs: Seq<(Seq<char>, Seq<char>)>, k: int) -> bool {
    &&& 0 <= k <= hs.len()
    &&& forall|j: int| 0 <= j < k ==> !same_ignoring_ascii_case(#[trigger] hs[j].0, "content-type"@)
    &&& (k == hs.len() || same_ignoring_ascii_case(hs[k].0, "content-type"@))
}

/// The index of the first header named `Content-Type` in any case, or the
/// number of headers.
fn content_type_index(hs: &Vec<(String, String)>) -> (r: usize)
    ensures
        first_content_type_at(pairs_view(hs@), r as int),
{
    let ghost hv = pairs_view(hs@);
    let mut i: usize = 0;
    while i < hs.len()
        invariant
            i <= hs@.len(),
            hv == pairs_view(hs@),
            forall|j: int|
                0 <= j < i ==> !same_ignoring_ascii_case(#[trigger] hv[j].0, "content-type"@),
        decreases hs@.len() - i,
    {
        if eq_ignoring_ascii_case(hs[i].0.as_str(), "content-type") {
            return i;
        }
        i = i + 1;
    }
    i
}

impl CgiResponse {
    /// The response of the embedded runtime in the same form as that of a
    /// spawned interpreter: a status outside 100 to 999 becomes 200, the
    /// content type is that of the first `Content-Type` header (HTML where
    /// there is none), and the headers and the body pass through unchanged.
    pub fn from_embedded(resp: PhpResponse) -> (r: CgiResponse)
        ensures
            r.status == if 100 <= resp.status_code && resp.status_code < 1000 {
                resp.status_code
            } else {
                200
            },
            pairs_view(r.headers@) == resp.headers_view(),
            r.body@ == resp.body@,
            exists|k: int|
                first_content_type_at(resp.headers_view(), k) && r.content_type@ == if k
                    < resp.headers_view().len() {
                    resp.headers_view()[k].1
                } else {
                    default_content_type()
                },
    {
        let k = content_type_index(&resp.headers);
        let content_type = if k < resp.headers.len() {
            resp.headers[k].1.clone()
        } else {
            lit("text/html; charset=utf-8")
        };
        assert(first_content_type_at(resp.headers_view(), k as int) && content_type@ == if k
            < resp.headers_view().len() {
            resp.headers_view()[k as int].1
        } else {
            default_content_type()
        });
        let status = if 100 <= resp.status_code && resp.status_code < 1000 {
            resp.status_code
        } else {
            200
        };
        CgiResponse { status, content_type, headers: resp.headers, body: resp.body }
    }
}

} // verus!
