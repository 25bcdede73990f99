//! The embedded runtime's capture state: what the interpreter's output,
//! header, status and logging hooks record during one execution, and how
//! that record becomes a response.

use crate::vars::VarMap;
use crate::text::{
    lossy_of, utf8_lossy, chars_of, index_in, index_of, leading_word, lower_of, lowercase, parse_u16_range,
    parse_u16_seq, range_starts_with, str_equals, string_of_range, trim_line_ends_seq,
    trim_range, trim_range_by, trim_seq, word_end_in,
};
use vstd::prelude::*;

verus! {

/// Header name and value pairs, as sequences of characters.
pub open spec fn pairs_view(v: Seq<(String, String)>) -> Seq<(Seq<char>, Seq<char>)> {
    v.map_values(|p: (String, String)| (p.0@, p.1@))
}

/// Response from one script execution.
pub struct PhpResponse {
    /// Response body.
    pub body: Vec<u8>,
    /// Response headers, in order; a name may occur more than once.
    pub headers: Vec<(String, String)>,
    /// HTTP status code.
    pub status_code: u16,
}

impl PhpResponse {
    /// An empty response with status 200.
    pub fn new() -> (r: PhpResponse)
        ensures
            r.body@.len() == 0,
            r.headers@.len() == 0,
            r.status_code == 200,
    {
        PhpResponse { body: Vec::new(), headers: Vec::new(), status_code: 200 }
    }

    pub open spec fn headers_view(&self) -> Seq<(Seq<char>, Seq<char>)> {
        pairs_view(self.headers@)
    }

    /// Splits raw output into headers and body at the first blank line
    /// (`\r\n\r\n`). Without one, the whole output is the body.
    pub fn from_raw_output(output: &[u8]) -> (r: PhpResponse)
        ensures
            forall|k: int|
                first_blank_line(output@, k) ==> {
                    let parsed = raw_headers(lossy_of(output@.subrange(0, k)), 200, Seq::empty());
                    &&& r.body@ == output@.subrange(k + 4, output@.len() as int)
                    &&& r.status_code == parsed.0
                    &&& r.headers_view() == parsed.1
                },
            (forall|j: int| !blank_line_at(output@, j)) ==> r.body@ == output@ && r.headers@.len()
                == 0 && r.status_code == 200,
    {
        match find_blank_line(output) {
            Some(k) => {
                let n = output.len();
                assert(blank_line_at(output@, k as int));
                assert(k + 4 <= n);
                let head = copy_range(output, 0, k);
                let text = utf8_lossy(head.as_slice());
                let parsed = parse_raw_headers(text.as_str());
                let body = copy_range(output, k + 4, n);
                proof {
                    assert forall|k2: int| first_blank_line(output@, k2) implies k2 == k by {
                        if k2 < k {
                            assert(!blank_line_at(output@, k2));
                        } else if k < k2 {
                            assert(!blank_line_at(output@, k as int));
                        }
                    }
                    assert(blank_line_at(output@, k as int));
                }
                PhpResponse { body, headers: parsed.1, status_code: parsed.0 }
            },
            None => {
                let body = copy_range(output, 0, output.len());
                assert(output@.subrange(0, output@.len() as int) =~= output@);
                PhpResponse { body, headers: Vec::new(), status_code: 200 }
            },
        }
    }
}

/// The bytes `b[from..to]`.
fn copy_range(b: &[u8], from: usize, to: usize) -> (r: Vec<u8>)
    requires
        from <= to <= b@.len(),
    ensures
        r@ == b@.subrange(from as int, to as int),
{
    let mut r: Vec<u8> = Vec::new();
    let mut i: usize = from;
    while i < to
        invariant
            from <= i <= to <= b@.len(),
            r@ == b@.subrange(from as int, i as int),
        decreases to - i,
    {
        r.push(b[i]);
        i = i + 1;
        assert(r@ =~= b@.subrange(from as int, i as int));
    }
    r
}

/// `\r\n\r\n` starts at `i`.
pub open spec fn blank_line_at(b: Seq<u8>, i: int) -> bool {
    0 <= i && i + 4 <= b.len() && b[i] == 13 && b[i + 1] == 10 && b[i + 2] == 13 && b[i + 3] == 10
}

/// The first `\r\n\r\n` starts at `k`.
pub open spec fn first_blank_line(b: Seq<u8>, k: int) -> bool {
    blank_line_at(b, k) && forall|j: int| 0 <= j < k ==> !blank_line_at(b, j)
}

fn find_blank_line(b: &[u8]) -> (r: Option<usize>)
    ensures
        match r {
            Some(k) => first_blank_line(b@, k as int),
            None => forall|j: int| !blank_line_at(b@, j),
        },
{
    let mut i: usize = 0;
    while i < b.len() && b.len() - i >= 4
        invariant
            i <= b@.len(),
            forall|j: int| 0 <= j < i ==> !blank_line_at(b@, j),
        decreases b@.len() - i,
    {
        if b[i] == 13 && b[i + 1] == 10 && b[i + 2] == 13 && b[i + 3] == 10 {
            return Some(i);
        }
        i = i + 1;
    }
    proof {
        assert forall|j: int| !blank_line_at(b@, j) by {
            if 0 <= j < i {
            }
        }
    }
    None
}

/// `l` without one trailing `\r`.
pub open spec fn strip_cr(l: Seq<char>) -> Seq<char> {
    if l.len() > 0 && l[l.len() - 1] == '\r' {
        l.subrange(0, l.len() - 1)
    } else {
        l
    }
}

/// The line starts with `Status:`.
pub open spec fn starts_status(l: Seq<char>) -> bool {
    l.len() >= 7 && l.subrange(0, 7) == "Status:"@
}

/// One header line of raw output applied to the status and headers so far:
/// `Status:` sets the status from its first word (200 where that is not a
/// code), `Name: value` adds a header, anything else is ignored.
pub open spec fn raw_line(l: Seq<char>, status: u16, hs: Seq<(Seq<char>, Seq<char>)>) -> (
    u16,
    Seq<(Seq<char>, Seq<char>)>,
) {
    if starts_status(l) {
        let code = trim_seq(l.subrange(7, l.len() as int));
        if code.len() == 0 {
            (status, hs)
        } else {
            (
                match parse_u16_seq(leading_word(code)) {
                    Some(c) => c,
                    None => 200,
                },
                hs,
            )
        }
    } else if has_colon(l) {
        (status, hs.push((field_name(l), field_value(l))))
    } else {
        (status, hs)
    }
}

/// The header lines of `s`, as `str::lines` splits them, applied in order.
pub open spec fn raw_headers(s: Seq<char>, status: u16, hs: Seq<(Seq<char>, Seq<char>)>) -> (
    u16,
    Seq<(Seq<char>, Seq<char>)>,
)
    decreases s.len(),
{
    if s.len() == 0 {
        (status, hs)
    } else {
        let k = index_of(s, '\n');
        if 0 <= k < s.len() {
            let next = raw_line(strip_cr(s.subrange(0, k)), status, hs);
            raw_headers(s.subrange(k + 1, s.len() as int), next.0, next.1)
        } else {
            raw_line(s, status, hs)
        }
    }
}

/// The text of a field line in `v[a..b]`, split at its first colon.
fn split_field(v: &Vec<char>, a: usize, b: usize) -> (r: Option<(String, String)>)
    requires
        a <= b <= v@.len(),
    ensures
        ({
            let t = v@.subrange(a as int, b as int);
            match r {
                Some((n, x)) => has_colon(t) && n@ == field_name(t) && x@ == field_value(t),
                None => !has_colon(t),
            }
        }),
{
    let ghost t = v@.subrange(a as int, b as int);
    let k = index_in(v, a, b, ':');
    if k == b {
        return None;
    }
    let (na, nb) = trim_range(v, a, k);
    let (va, vb) = trim_range(v, k + 1, b);
    assert(t.subrange(0, index_of(t, ':')) =~= v@.subrange(a as int, k as int));
    assert(t.subrange(index_of(t, ':') + 1, t.len() as int) =~= v@.subrange(k + 1, b as int));
    Some((string_of_range(v, na, nb), string_of_range(v, va, vb)))
}

/// The first word of `v[a..b]` once trimmed, read as a 16-bit code; `None`
/// where the trimmed text is empty.
fn code_word(v: &Vec<char>, a: usize, b: usize) -> (r: Option<Option<u16>>)
    requires
        a <= b <= v@.len(),
    ensures
        ({
            let code = trim_seq(v@.subrange(a as int, b as int));
            match r {
                Some(x) => code.len() > 0 && x == parse_u16_seq(leading_word(code)),
                None => code.len() == 0,
            }
        }),
{
    let (c, d) = trim_range(v, a, b);
    if c < d {
        let e = word_end_in(v, c, d);
        Some(parse_u16_range(v, c, e))
    } else {
        None
    }
}

/// The status and headers of the header text of raw output.
fn parse_raw_headers(text: &str) -> (r: (u16, Vec<(String, String)>))
    ensures
        (r.0, pairs_view(r.1@)) == raw_headers(text@, 200, Seq::empty()),
{
    let v = chars_of(text);
    let n = v.len();
    let status_lit = chars_of("Status:");
    proof {
        reveal_strlit("Status:");
    }
    let mut status: u16 = 200;
    let mut headers: Vec<(String, String)> = Vec::new();
    let mut start: usize = 0;
    assert(v@.subrange(0, n as int) =~= text@);
    assert(pairs_view(headers@) =~= Seq::<(Seq<char>, Seq<char>)>::empty());
    while start < n
        invariant
            start <= n == v@.len(),
            status_lit@ == "Status:"@,
            raw_headers(text@, 200, Seq::empty()) == raw_headers(
                v@.subrange(start as int, n as int),
                status,
                pairs_view(headers@),
            ),
        decreases n - start,
    {
        proof {
            reveal_strlit("Status:");
        }
        let ghost s = v@.subrange(start as int, n as int);
        let k = index_in(&v, start, n, '\n');
        let mut le = k;
        if k < n && k > start && v[k - 1] == '\r' {
            le = k - 1;
        }
        let ghost line = v@.subrange(start as int, le as int);
        proof {
            if k < n {
                assert(strip_cr(s.subrange(0, k - start)) =~= line);
            } else {
                assert(s =~= line);
            }
        }
        let st = range_starts_with(&v, start, le, &status_lit);
        proof {
            if le - start >= 7 {
                assert(line.subrange(0, 7) =~= v@.subrange(start as int, start + 7));
            }
        }
        let ghost hs0 = pairs_view(headers@);
        if st {
            assert(starts_status(line));
            assert(line.subrange(7, line.len() as int) =~= v@.subrange(start + 7, le as int));
            match code_word(&v, start + 7, le) {
                Some(Some(c)) => {
                    status = c;
                },
                Some(None) => {
                    status = 200;
                },
                None => {},
            }
        } else {
            match split_field(&v, start, le) {
                Some((name, value)) => {
                    headers.push((name, value));
                    assert(pairs_view(headers@) =~= hs0.push((field_name(line), field_value(line))));
                },
                None => {},
            }
        }
        if k < n {
            assert(s.subrange(k - start + 1, s.len() as int) =~= v@.subrange(k + 1, n as int));
            start = k + 1;
        } else {
            start = n;
            assert(v@.subrange(start as int, n as int).len() == 0);
        }
    }
    (status, headers)
}

/// What the interpreter asks of a header line.
pub enum HeaderOp {
    /// Add the header.
    Add,
    /// Replace headers of the same name.
    Replace,
    /// Any other operation; the capture ignores it.
    Other,
}

/// A header line as the hook sees it: without `\r` and `\n` at either end.
pub open spec fn header_text(line: Seq<char>) -> Seq<char> {
    trim_line_ends_seq(line)
}

/// The line sets the status rather than a header.
pub open spec fn is_status_line(t: Seq<char>) -> bool {
    t.len() >= 7 && (t.subrange(0, 7) == "Status:"@ || t.subrange(0, 7) == "status:"@)
}

/// The code of a status line: its first word, read as a 16-bit decimal.
pub open spec fn status_line_code(t: Seq<char>) -> Option<u16> {
    let rest = trim_seq(t.subrange(7, t.len() as int));
    if rest.len() == 0 {
        None
    } else {
        parse_u16_seq(leading_word(rest))
    }
}

/// The line holds a colon.
pub open spec fn has_colon(t: Seq<char>) -> bool {
    index_of(t, ':') < t.len()
}

/// The trimmed text before the first colon.
pub open spec fn field_name(t: Seq<char>) -> Seq<char> {
    trim_seq(t.subrange(0, index_of(t, ':')))
}

/// The trimmed text after the first colon.
pub open spec fn field_value(t: Seq<char>) -> Seq<char> {
    trim_seq(t.subrange(index_of(t, ':') + 1, t.len() as int))
}

/// Keeps a header whose lower-case name is not `name_lower`.
pub open spec fn other_name(name_lower: Seq<char>) -> spec_fn((Seq<char>, Seq<char>)) -> bool {
    |h: (Seq<char>, Seq<char>)| lower_of(h.0) != name_lower
}

/// The headers that stay when a header called `name` arrives: on a replace,
/// those of another name (compared in lower case), unless `name` is
/// `Set-Cookie`, whose lines always accumulate.
pub open spec fn kept_headers(
    hs: Seq<(Seq<char>, Seq<char>)>,
    name: Seq<char>,
    replace: bool,
) -> Seq<(Seq<char>, Seq<char>)> {
    if replace && lower_of(name) != "set-cookie"@ {
        hs.filter(other_name(lower_of(name)))
    } else {
        hs
    }
}

/// The headers after a header line has been applied.
pub open spec fn headers_after(
    hs: Seq<(Seq<char>, Seq<char>)>,
    line: Seq<char>,
    op: HeaderOp,
) -> Seq<(Seq<char>, Seq<char>)> {
    let t = header_text(line);
    if op is Other || is_status_line(t) || !has_colon(t) {
        hs
    } else {
        kept_headers(hs, field_name(t), op is Replace).push((field_name(t), field_value(t)))
    }
}

/// The explicit status after a header line has been applied.
pub open spec fn status_after(status: Option<u16>, line: Seq<char>, op: HeaderOp) -> Option<u16> {
    let t = header_text(line);
    if !(op is Other) && is_status_line(t) && status_line_code(t) is Some {
        status_line_code(t)
    } else {
        status
    }
}

/// A native response code, where it is one.
pub open spec fn native_code(code: i32) -> Option<u16> {
    if 0 < code && code <= 0xffff {
        Some(code as u16)
    } else {
        None
    }
}

/// The final status: an explicit `Status:` line, else the native response
/// code (as it stands at the end, else as it was sent), else 200; a
/// `Location` header turns a 200 into 302.
pub open spec fn resolved_status(
    status_line: Option<u16>,
    native_end: Option<u16>,
    native_sent: Option<u16>,
    has_location: bool,
) -> u16 {
    match status_line {
        Some(c) => c,
        None => {
            let n = match native_end {
                Some(c) => c,
                None => match native_sent {
                    Some(c) => c,
                    None => 200,
                },
            };
            if n == 200 && has_location {
                302
            } else {
                n
            }
        },
    }
}

/// Some header is called `Location`, in any case.
pub open spec fn has_location(hs: Seq<(Seq<char>, Seq<char>)>) -> bool {
    exists|i: int| 0 <= i < hs.len() && lower_of(#[trigger] hs[i].0) == "location"@
}

/// An execution that the interpreter reports as failed still produced a
/// response when the status is not 200, or there is a body or a header.
pub open spec fn has_valid_response(
    status: u16,
    body: Seq<u8>,
    headers: Seq<(Seq<char>, Seq<char>)>,
) -> bool {
    status != 200 || body.len() > 0 || headers.len() > 0
}

/// The error text of a failed execution.
pub open spec fn failure_text(last_error: Option<Seq<char>>) -> Seq<char> {
    "PHP script execution failed: "@ + match last_error {
        Some(e) => e,
        None => "Unknown error"@,
    }
}

/// What the interpreter's hooks record during one execution.
pub struct Capture {
    /// Output written by the script.
    pub body: Vec<u8>,
    /// Headers set by the script, in order.
    pub headers: Vec<(String, String)>,
    /// The code of the last valid `Status:` line.
    pub status_line: Option<u16>,
    /// The native response code when headers were sent.
    pub native_status: Option<u16>,
    /// The last message that the interpreter logged.
    pub last_error: Option<String>,
}

impl Capture {
    pub open spec fn headers_view(&self) -> Seq<(Seq<char>, Seq<char>)> {
        pairs_view(self.headers@)
    }

    /// The status that `finish` gives, with `native_end` the native
    /// response code at the end of the execution.
    pub open spec fn final_status(&self, native_end: i32) -> u16 {
        resolved_status(
            self.status_line,
            native_code(native_end),
            self.native_status,
            has_location(self.headers_view()),
        )
    }

    /// The body that `finish` gives: the captured output, else what the
    /// interpreter buffered.
    pub open spec fn final_body(&self, buffered: Seq<u8>) -> Seq<u8> {
        if self.body@.len() > 0 {
            self.body@
        } else {
            buffered
        }
    }

    /// `finish` returns a response rather than an error.
    pub open spec fn succeeds(&self, executed: bool, native_end: i32, buffered: Seq<u8>) -> bool {
        executed || has_valid_response(
            self.final_status(native_end),
            self.final_body(buffered),
            self.headers_view(),
        )
    }

    pub open spec fn last_error_view(&self) -> Option<Seq<char>> {
        match self.last_error {
            Some(m) => Some(m@),
            None => None,
        }
    }

    pub open spec fn is_empty(&self) -> bool {
        &&& self.body@.len() == 0
        &&& self.headers@.len() == 0
        &&& self.status_line is None
        &&& self.native_status is None
        &&& self.last_error is None
    }

    /// A capture with nothing recorded.
    pub fn new() -> (r: Capture)
        ensures
            r.is_empty(),
    {
        Capture {
            body: Vec::new(),
            headers: Vec::new(),
            status_line: None,
            native_status: None,
            last_error: None,
        }
    }

    /// Forgets everything recorded.
    pub fn reset(&mut self)
        ensures
            final(self).is_empty(),
    {
        self.body = Vec::new();
        self.headers = Vec::new();
        self.status_line = None;
        self.native_status = None;
        self.last_error = None;
    }

    /// Appends script output; returns how many bytes were taken.
    pub fn write_output(&mut self, bytes: &[u8]) -> (n: usize)
        ensures
            final(self).body@ == old(self).body@ + bytes@,
            final(self).headers == old(self).headers,
            final(self).status_line == old(self).status_line,
            final(self).native_status == old(self).native_status,
            final(self).last_error == old(self).last_error,
            n == bytes@.len(),
    {
        let ghost b0 = self.body@;
        let mut i: usize = 0;
        while i < bytes.len()
            invariant
                i <= bytes@.len(),
                self.body@ == b0 + bytes@.subrange(0, i as int),
                self.headers == old(self).headers,
                self.status_line == old(self).status_line,
                self.native_status == old(self).native_status,
                self.last_error == old(self).last_error,
            decreases bytes@.len() - i,
        {
            self.body.push(bytes[i]);
            i = i + 1;
            assert(self.body@ =~= b0 + bytes@.subrange(0, i as int));
        }
        assert(bytes@.subrange(0, i as int) =~= bytes@);
        bytes.len()
    }

    /// Records the native response code as the headers are sent.
    pub fn send_headers(&mut self, code: i32)
        ensures
            final(self).native_status == (match native_code(code) {
                Some(c) => Some(c),
                None => old(self).native_status,
            }),
            final(self).body == old(self).body,
            final(self).headers == old(self).headers,
            final(self).status_line == old(self).status_line,
            final(self).last_error == old(self).last_error,
    {
        if 0 < code && code <= 0xffff {
            self.native_status = Some(code as u16);
        }
    }

    /// Records a message that the interpreter logged.
    pub fn record_error(&mut self, message: &str)
        ensures
            final(self).last_error matches Some(m) && m@ == message@,
            final(self).body == old(self).body,
            final(self).headers == old(self).headers,
            final(self).status_line == old(self).status_line,
            final(self).native_status == old(self).native_status,
    {
        self.last_error = Some(message.to_string());
    }

    /// Whether some header is called `Location`, in any case.
    fn location_present(&self) -> (r: bool)
        ensures
            r == has_location(self.headers_view()),
    {
        let mut i: usize = 0;
        while i < self.headers.len()
            invariant
                i <= self.headers@.len(),
                forall|j: int|
                    0 <= j < i ==> lower_of(#[trigger] self.headers_view()[j].0) != "location"@,
            decreases self.headers@.len() - i,
        {
            let l = lowercase(self.headers[i].0.as_str());
            if str_equals(l.as_str(), "location") {
                assert(lower_of(self.headers_view()[i as int].0) == "location"@);
                return true;
            }
            i = i + 1;
        }
        false
    }

    /// A copy of the captured headers.
    fn copy_headers(&self) -> (r: Vec<(String, String)>)
        ensures
            pairs_view(r@) == self.headers_view(),
    {
        let mut r: Vec<(String, String)> = Vec::new();
        let mut i: usize = 0;
        while i < self.headers.len()
            invariant
                i <= self.headers@.len(),
                pairs_view(r@) == self.headers_view().subrange(0, i as int),
            decreases self.headers@.len() - i,
        {
            let ghost before = r@;
            let n = self.headers[i].0.clone();
            let v = self.headers[i].1.clone();
            r.push((n, v));
            assert(pairs_view(r@) =~= pairs_view(before).push(self.headers_view()[i as int]));
            i = i + 1;
            assert(pairs_view(r@) =~= self.headers_view().subrange(0, i as int));
        }
        assert(self.headers_view().subrange(0, i as int) =~= self.headers_view());
        r
    }

    /// Turns the record of one execution into its result. `executed` is what
    /// the interpreter reported, `native_end` its response code at the end,
    /// `buffered` the output it buffered itself. A failed execution still
    /// yields a response where the status is not 200 or there is a body or
    /// a header: scripts that exit early after a redirect or an error page
    /// have produced a valid response.
    pub fn finish(&self, executed: bool, native_end: i32, buffered: Vec<u8>) -> (r: Result<
        PhpResponse,
        String,
    >)
        ensures
            r is Ok <==> self.succeeds(executed, native_end, buffered@),
            r matches Ok(resp) ==> resp.status_code == self.final_status(native_end)
                && resp.body@ == self.final_body(buffered@) && resp.headers_view()
                == self.headers_view(),
            r matches Err(e) ==> e@ == failure_text(self.last_error_view()),
    {
        let mut status: u16 = 200;
        match self.native_status {
            Some(c) => {
                status = c;
            },
            None => {},
        }
        if 0 < native_end && native_end <= 0xffff {
            status = native_end as u16;
        }
        if status == 200 && self.location_present() {
            status = 302;
        }
        match self.status_line {
            Some(c) => {
                status = c;
            },
            None => {},
        }
        let body = if self.body.len() > 0 {
            let mut b: Vec<u8> = Vec::new();
            let mut i: usize = 0;
            while i < self.body.len()
                invariant
                    i <= self.body@.len(),
                    b@ == self.body@.subrange(0, i as int),
                decreases self.body@.len() - i,
            {
                b.push(self.body[i]);
                i = i + 1;
                assert(b@ =~= self.body@.subrange(0, i as int));
            }
            assert(b@ =~= self.body@);
            b
        } else {
            buffered
        };
        let headers = self.copy_headers();
        if executed || status != 200 || body.len() > 0 || headers.len() > 0 {
            Ok(PhpResponse { body, headers, status_code: status })
        } else {
            let mut msg = String::from_str("PHP script execution failed: ");
            match &self.last_error {
                Some(e) => msg.append(e.as_str()),
                None => msg.append("Unknown error"),
            }
            Err(msg)
        }
    }

    /// Drops the headers whose lower-case name is `name_lower`.
    fn drop_named(&mut self, name_lower: &String)
        ensures
            final(self).headers_view() == old(self).headers_view().filter(
                other_name(name_lower@),
            ),
            final(self).body == old(self).body,
            final(self).status_line == old(self).status_line,
            final(self).native_status == old(self).native_status,
            final(self).last_error == old(self).last_error,
    {
        let ghost hv = self.headers_view();
        let mut kept: Vec<(String, String)> = Vec::new();
        let mut i: usize = 0;
        while i < self.headers.len()
            invariant
                i <= self.headers@.len(),
                hv == pairs_view(self.headers@),
                pairs_view(kept@) == hv.subrange(0, i as int).filter(other_name(name_lower@)),
            decreases self.headers@.len() - i,
        {
            let l = lowercase(self.headers[i].0.as_str());
            let ghost before = kept@;
            proof {
                let pred = other_name(name_lower@);
                let s = hv.subrange(0, i + 1);
                assert(s =~= hv.subrange(0, i as int).push(hv[i as int]));
                hv.subrange(0, i as int).lemma_filter_push(hv[i as int], pred);
                assert(hv[i as int].0 == self.headers@[i as int].0@);
                assert(pred(hv[i as int]) == (l@ != name_lower@));
                if pred(hv[i as int]) {
                    assert(s.filter(pred) == hv.subrange(0, i as int).filter(pred).push(
                        hv[i as int],
                    ));
                } else {
                    assert(s.filter(pred) == hv.subrange(0, i as int).filter(pred));
                }
            }
            if l != *name_lower {
                let n = self.headers[i].0.clone();
                let v = self.headers[i].1.clone();
                kept.push((n, v));
                assert(pairs_view(kept@) =~= pairs_view(before).push(hv[i as int]));
            } else {
                assert(pairs_view(kept@) =~= pairs_view(before));
            }
            i = i + 1;
        }
        assert(hv.subrange(0, i as int) =~= hv);
        self.headers = kept;
    }

    /// Applies one header line from the interpreter: a `Status:` line sets
    /// the status, a `Name: value` line is stored, anything else is ignored.
    pub fn apply_header(&mut self, line: &str, op: HeaderOp)
        ensures
            final(self).headers_view() == headers_after(old(self).headers_view(), line@, op),
            final(self).status_line == status_after(old(self).status_line, line@, op),
            final(self).body == old(self).body,
            final(self).native_status == old(self).native_status,
            final(self).last_error == old(self).last_error,
    {
        let replace = match op {
            HeaderOp::Add => false,
            HeaderOp::Replace => true,
            HeaderOp::Other => {
                return ;
            },
        };
        let v = chars_of(line);
        let (a, b) = trim_range_by(&v, 0, v.len(), true);
        let ghost t = v@.subrange(a as int, b as int);
        assert(v@.subrange(0, v@.len() as int) =~= line@);
        assert(t == header_text(line@));
        let upper = chars_of("Status:");
        let lower = chars_of("status:");
        proof {
            reveal_strlit("Status:");
            reveal_strlit("status:");
        }
        let up = range_starts_with(&v, a, b, &upper);
        let lo = range_starts_with(&v, a, b, &lower);
        proof {
            if b - a >= 7 {
                assert(t.subrange(0, 7) =~= v@.subrange(a as int, a + 7));
            }
        }
        if up || lo {
            assert(is_status_line(t));
            let (c, d) = trim_range(&v, a + 7, b);
            assert(t.subrange(7, t.len() as int) =~= v@.subrange(a + 7, b as int));
            if c < d {
                let e = word_end_in(&v, c, d);
                if let Some(code) = parse_u16_range(&v, c, e) {
                    self.status_line = Some(code);
                }
            }
            return ;
        }
        assert(!is_status_line(t));
        let k = index_in(&v, a, b, ':');
        if k == b {
            return ;
        }
        let (na, nb) = trim_range(&v, a, k);
        let (va, vb) = trim_range(&v, k + 1, b);
        assert(t.subrange(0, index_of(t, ':')) =~= v@.subrange(a as int, k as int));
        assert(t.subrange(index_of(t, ':') + 1, t.len() as int) =~= v@.subrange(
            k + 1,
            b as int,
        ));
        let name = string_of_range(&v, na, nb);
        let value = string_of_range(&v, va, vb);
        if replace {
            let name_lower = lowercase(name.as_str());
            if !str_equals(name_lower.as_str(), "set-cookie") {
                self.drop_named(&name_lower);
            }
        }
        let ghost hs = self.headers_view();
        self.headers.push((name, value));
        assert(self.headers_view() =~= hs.push((field_name(t), field_value(t))));
    }
}

/// Sets a header, then replaces it: only the replacement stays under that
/// name (compared in lower case), unless the name is `Set-Cookie`, where
/// both stay.
pub proof fn law_replace_header(
    hs: Seq<(Seq<char>, Seq<char>)>,
    first: Seq<char>,
    second: Seq<char>,
)
    requires
        !is_status_line(header_text(first)),
        has_colon(header_text(first)),
        !is_status_line(header_text(second)),
        has_colon(header_text(second)),
        lower_of(field_name(header_text(first))) == lower_of(field_name(header_text(second))),
    ensures
        ({
            let t1 = header_text(first);
            let t2 = header_text(second);
            let r = headers_after(headers_after(hs, first, HeaderOp::Add), second, HeaderOp::Replace);
            &&& r.last() == (field_name(t2), field_value(t2))
            &&& lower_of(field_name(t2)) != "set-cookie"@ ==> forall|i: int|
                0 <= i < r.len() - 1 ==> lower_of(#[trigger] r[i].0) != lower_of(field_name(t2))
            &&& lower_of(field_name(t2)) == "set-cookie"@ ==> r == hs.push(
                (field_name(t1), field_value(t1)),
            ).push((field_name(t2), field_value(t2)))
        }),
{
    let t1 = header_text(first);
    let t2 = header_text(second);
    let h1 = headers_after(hs, first, HeaderOp::Add);
    let pred = other_name(lower_of(field_name(t2)));
    if lower_of(field_name(t2)) != "set-cookie"@ {
        let kept = h1.filter(pred);
        assert forall|i: int| 0 <= i < kept.len() implies lower_of(#[trigger] kept[i].0)
            != lower_of(field_name(t2)) by {
            h1.lemma_filter_pred(pred, i);
        }
    }
}

/// The status of a response: an explicit `Status:` line wins over the
/// native response code, which wins over the default 200.
pub proof fn law_status_precedence(c: Capture, native_end: i32)
    ensures
        c.status_line matches Some(s) ==> c.final_status(native_end) == s,
        c.status_line is None && native_code(native_end) is Some && native_code(native_end)
            != Some(200u16) ==> Some(c.final_status(native_end)) == native_code(native_end),
        c.status_line is None && native_code(native_end) is None && c.native_status is None
            && !has_location(c.headers_view()) ==> c.final_status(native_end) == 200,
{
}

/// A script that set a header and then exited early still yields a
/// response, not an error; a `Location` header with no other status gives
/// 302.
pub proof fn law_early_exit_keeps_response(c: Capture, native_end: i32, buffered: Seq<u8>)
    requires
        c.headers_view().len() > 0,
    ensures
        c.succeeds(false, native_end, buffered),
        has_location(c.headers_view()) && c.status_line is None && (native_code(native_end) is None
            || native_code(native_end) == Some(200u16)) && (c.native_status is None
            || c.native_status == Some(200u16)) ==> c.final_status(native_end) == 302,
{
}

/// The request that one embedded execution serves: the body that the
/// interpreter reads, a read cursor into it, and the cookie header.
pub struct RequestContext {
    /// The request body.
    pub body: Vec<u8>,
    /// How much of the body has been read.
    pub cursor: usize,
    /// The `Cookie` header, if any.
    pub cookie: Option<String>,
    /// The variables handed to the interpreter.
    pub server_vars: VarMap,
}

impl RequestContext {
    pub open spec fn wf(&self) -> bool {
        self.cursor <= self.body@.len() && self.server_vars.wf()
    }

    pub open spec fn is_empty(&self) -> bool {
        &&& self.body@.len() == 0
        &&& self.cursor == 0
        &&& self.cookie is None
        &&& self.server_vars@ == Map::<Seq<char>, Seq<char>>::empty()
    }

    /// A context with no request in it.
    pub fn new() -> (r: RequestContext)
        ensures
            r.wf(),
            r.is_empty(),
    {
        RequestContext { body: Vec::new(), cursor: 0, cookie: None, server_vars: VarMap::new() }
    }

    /// Holds a request for one execution, with nothing read yet.
    pub fn populate(&mut self, body: Vec<u8>, cookie: Option<String>, server_vars: VarMap)
        requires
            server_vars.wf(),
        ensures
            final(self).wf(),
            final(self).body == body,
            final(self).cursor == 0,
            final(self).cookie == cookie,
            final(self).server_vars == server_vars,
    {
        self.body = body;
        self.cursor = 0;
        self.cookie = cookie;
        self.server_vars = server_vars;
    }

    /// Forgets the request.
    pub fn clear(&mut self)
        ensures
            final(self).wf(),
            final(self).is_empty(),
    {
        self.body = Vec::new();
        self.cursor = 0;
        self.cookie = None;
        self.server_vars = VarMap::new();
    }

    /// Serves up to `count` bytes of the body from the cursor on, and moves
    /// the cursor past them; nothing once the body is used up.
    pub fn read_post(&mut self, count: usize) -> (r: Vec<u8>)
        requires
            old(self).wf(),
        ensures
            final(self).wf(),
            r@ == old(self).body@.subrange(
                old(self).cursor as int,
                if old(self).cursor + count <= old(self).body@.len() {
                    old(self).cursor + count
                } else {
                    old(self).body@.len() as int
                },
            ),
            final(self).cursor == old(self).cursor + r@.len(),
            final(self).body == old(self).body,
            final(self).cookie == old(self).cookie,
            final(self).server_vars == old(self).server_vars,
    {
        let remaining = self.body.len() - self.cursor;
        let n = if remaining < count {
            remaining
        } else {
            count
        };
        let start = self.cursor;
        let mut r: Vec<u8> = Vec::new();
        let mut i: usize = 0;
        while i < n
            invariant
                start == self.cursor,
                start + n <= self.body@.len() <= usize::MAX,
                i <= n,
                r@ == self.body@.subrange(start as int, start + i),
            decreases n - i,
        {
            r.push(self.body[start + i]);
            i = i + 1;
            assert(r@ =~= self.body@.subrange(start as int, start + i));
        }
        self.cursor = start + n;
        r
    }
}

/// Settings of the embedded interpreter.
pub struct PhpEmbedConfig {
    /// Stack limit, such as `16M`.
    pub stack_limit: String,
    /// Error log file.
    pub error_log: Option<String>,
    /// Show errors in the output.
    pub display_errors: bool,
    /// Further settings, `name=value` each.
    pub ini_settings: Vec<String>,
}

impl Default for PhpEmbedConfig {
    fn default() -> (r: PhpEmbedConfig)
        ensures
            r.stack_limit@.len() == 0,
            r.error_log is None,
            !r.display_errors,
            r.ini_settings@.len() == 0,
    {
        PhpEmbedConfig {
            stack_limit: String::new(),
            error_log: None,
            display_errors: false,
            ini_settings: Vec::new(),
        }
    }
}

/// The settings of the embedded interpreter, one per line: the stack
/// limit, no opcode cache or JIT, no path cache, errors logged, errors
/// displayed as configured, the error log if any, then the operator's own.
pub open spec fn embed_ini(
    stack_limit: Seq<char>,
    error_log: Option<Seq<char>>,
    display_errors: bool,
    extra: Seq<Seq<char>>,
) -> Seq<Seq<char>> {
    seq![
        "zend.max_allowed_stack_size="@ + stack_limit,
        "opcache.enable=0"@,
        "opcache.enable_cli=0"@,
        "opcache.jit=0"@,
        "opcache.jit_buffer_size=0"@,
        "pcre.jit=0"@,
        "realpath_cache_size=0"@,
        "realpath_cache_ttl=0"@,
        "log_errors=On"@,
    ] + (if display_errors {
        seq!["display_errors=On"@, "display_startup_errors=On"@]
    } else {
        seq!["display_errors=Off"@, "display_startup_errors=Off"@]
    }) + (match error_log {
        Some(l) => seq!["error_log="@ + l],
        None => Seq::empty(),
    }) + extra
}

fn concat2(a: &str, b: &str) -> (r: String)
    ensures
        r@ == a@ + b@,
{
    let mut r = String::from_str(a);
    r.append(b);
    r
}

impl PhpEmbedConfig {
    /// The interpreter settings to start with.
    pub fn ini_entries(&self) -> (r: Vec<String>)
        ensures
            r@.map_values(|s: String| s@) == embed_ini(
                self.stack_limit@,
                match self.error_log {
                    Some(l) => Some(l@),
                    None => None,
                },
                self.display_errors,
                self.ini_settings@.map_values(|s: String| s@),
            ),
    {
        let mut r: Vec<String> = Vec::new();
        r.push(concat2("zend.max_allowed_stack_size=", self.stack_limit.as_str()));
        r.push(String::from_str("opcache.enable=0"));
        r.push(String::from_str("opcache.enable_cli=0"));
        r.push(String::from_str("opcache.jit=0"));
        r.push(String::from_str("opcache.jit_buffer_size=0"));
        r.push(String::from_str("pcre.jit=0"));
        r.push(String::from_str("realpath_cache_size=0"));
        r.push(String::from_str("realpath_cache_ttl=0"));
        r.push(String::from_str("log_errors=On"));
        if self.display_errors {
            r.push(String::from_str("display_errors=On"));
            r.push(String::from_str("display_startup_errors=On"));
        } else {
            r.push(String::from_str("display_errors=Off"));
            r.push(String::from_str("display_startup_errors=Off"));
        }
        match &self.error_log {
            Some(l) => r.push(concat2("error_log=", l.as_str())),
            None => {},
        }
        let ghost fixed = r@.map_values(|s: String| s@);
        let ghost extra = self.ini_settings@.map_values(|s: String| s@);
        let mut i: usize = 0;
        while i < self.ini_settings.len()
            invariant
                i <= self.ini_settings@.len(),
                extra == self.ini_settings@.map_values(|s: String| s@),
                r@.map_values(|s: String| s@) == fixed + extra.subrange(0, i as int),
            decreases self.ini_settings@.len() - i,
        {
            let ghost before = r@.map_values(|s: String| s@);
            r.push(self.ini_settings[i].clone());
            assert(r@.map_values(|s: String| s@) =~= before.push(extra[i as int]));
            i = i + 1;
            assert(r@.map_values(|s: String| s@) =~= fixed + extra.subrange(0, i as int));
        }
        assert(extra.subrange(0, i as int) =~= extra);
        assert(r@.map_values(|s: String| s@) =~= embed_ini(
            self.stack_limit@,
            match self.error_log {
                Some(l) => Some(l@),
                None => None,
            },
            self.display_errors,
            extra,
        ));
        r
    }

    /// The interpreter's command line: its name, then the stack limit.
    pub fn argv(&self) -> (r: Vec<String>)
        ensures
            r@.map_values(|s: String| s@) == seq![
                "veloserve-embed"@,
                "-d"@,
                "zend.max_allowed_stack_size="@ + self.stack_limit@,
            ],
    {
        let mut r: Vec<String> = Vec::new();
        r.push(String::from_str("veloserve-embed"));
        r.push(String::from_str("-d"));
        r.push(concat2("zend.max_allowed_stack_size=", self.stack_limit.as_str()));
        assert(r@.map_values(|s: String| s@) =~= seq![
            "veloserve-embed"@,
            "-d"@,
            "zend.max_allowed_stack_size="@ + self.stack_limit@,
        ]);
        r
    }
}

/// `v` if `m` sets `k`, else `d`.
pub open spec fn var_or(m: Map<Seq<char>, Seq<char>>, k: Seq<char>, d: Seq<char>) -> Seq<char> {
    if m.contains_key(k) {
        m[k]
    } else {
        d
    }
}

/// What the interpreter is told of a request before it starts.
pub struct EmbedRequestInfo {
    pub method: String,
    pub uri: String,
    pub query: String,
    /// The script file.
    pub path_translated: String,
    pub content_type: String,
    /// The `Cookie` header, if any.
    pub cookie: Option<String>,
}

fn var_or_default(m: &VarMap, k: &str, d: &str) -> (r: String)
    requires
        m.wf(),
    ensures
        r@ == var_or(m@, k@, d@),
{
    match m.get(k) {
        Some(v) => v.clone(),
        None => String::from_str(d),
    }
}

impl EmbedRequestInfo {
    /// Reads the request of one execution from its variables and headers:
    /// the method (GET by default), URI (`/`), query string (empty), script
    /// file (`script_path`), content type (form-encoded) and cookie, each
    /// header looked up as `content-type` then `Content-Type`.
    pub fn from_request(server_vars: &VarMap, headers: &VarMap, script_path: &str) -> (r:
        EmbedRequestInfo)
        requires
            server_vars.wf(),
            headers.wf(),
        ensures
            r.method@ == var_or(server_vars@, "REQUEST_METHOD"@, "GET"@),
            r.uri@ == var_or(server_vars@, "REQUEST_URI"@, "/"@),
            r.query@ == var_or(server_vars@, "QUERY_STRING"@, ""@),
            r.path_translated@ == var_or(server_vars@, "SCRIPT_FILENAME"@, script_path@),
            r.content_type@ == var_or(
                headers@,
                "content-type"@,
                var_or(headers@, "Content-Type"@, "application/x-www-form-urlencoded"@),
            ),
            match r.cookie {
                Some(c) => c@ == var_or(headers@, "cookie"@, headers@["Cookie"@]) && (
                headers@.contains_key("cookie"@) || headers@.contains_key("Cookie"@)),
                None => !headers@.contains_key("cookie"@) && !headers@.contains_key("Cookie"@),
            },
    {
        let content_type = match headers.get("content-type") {
            Some(v) => v.clone(),
            None => var_or_default(headers, "Content-Type", "application/x-www-form-urlencoded"),
        };
        let cookie = match headers.get("cookie") {
            Some(v) => Some(v.clone()),
            None => match headers.get("Cookie") {
                Some(v) => Some(v.clone()),
                None => None,
            },
        };
        EmbedRequestInfo {
            method: var_or_default(server_vars, "REQUEST_METHOD", "GET"),
            uri: var_or_default(server_vars, "REQUEST_URI", "/"),
            query: var_or_default(server_vars, "QUERY_STRING", ""),
            path_translated: var_or_default(server_vars, "SCRIPT_FILENAME", script_path),
            content_type,
            cookie,
        }
    }
}

} // verus!
