//! The environment contract: the variables that every execution strategy
//! hands to a script, built fresh for each request.

use crate::text::{upper_of, uppercase, chars_of, index_in, index_of, lower_of, lowercase, str_equals, string_of, string_of_range};
use crate::vars::VarMap;
use vstd::prelude::*;

verus! {

/// `s` with each `-` replaced by `_`.
pub open spec fn dashes_to_underscores(s: Seq<char>) -> Seq<char> {
    s.map_values(|c: char| if c == '-' { '_' } else { c })
}

/// The variable that carries a request header: `HTTP_` and the upper-case
/// name with `_` for `-`.
pub open spec fn header_var(name: Seq<char>) -> Seq<char> {
    "HTTP_"@ + dashes_to_underscores(upper_of(name))
}

/// `k` is the first header called `name` (in lower case), or the number of
/// headers where none is.
pub open spec fn first_header_at(hs: Seq<(Seq<char>, Seq<char>)>, name: Seq<char>, k: int) -> bool {
    &&& 0 <= k <= hs.len()
    &&& forall|j: int| 0 <= j < k ==> lower_of(#[trigger] hs[j].0) != name
    &&& (k == hs.len() || lower_of(hs[k].0) == name)
}

/// The value of the first header called `name`, in lower case.
pub open spec fn header_value(hs: Seq<(Seq<char>, Seq<char>)>, name: Seq<char>) -> Option<Seq<char>> {
    let k = choose|k: int| first_header_at(hs, name, k);
    if k < hs.len() {
        Some(hs[k].1)
    } else {
        None
    }
}

proof fn lemma_first_header(hs: Seq<(Seq<char>, Seq<char>)>, name: Seq<char>, k: int)
    requires
        first_header_at(hs, name, k),
    ensures
        header_value(hs, name) == if k < hs.len() {
            Some(hs[k].1)
        } else {
            None
        },
{
    let m = choose|k: int| first_header_at(hs, name, k);
    assert(first_header_at(hs, name, m));
    if m < k {
        assert(lower_of(hs[m].0) != name);
    } else if k < m {
        assert(lower_of(hs[k].0) != name);
    }
}

/// `rel` joined onto `base` as `PathBuf::push` joins a relative path.
pub open spec fn join_path(base: Seq<char>, rel: Seq<char>) -> Seq<char> {
    if base.len() == 0 || base[base.len() - 1] == '/' {
        base + rel
    } else {
        base + "/"@ + rel
    }
}

/// `s` without its leading `/` characters.
pub open spec fn strip_leading_slashes(s: Seq<char>) -> Seq<char>
    decreases s.len(),
{
    if s.len() > 0 && s[0] == '/' {
        strip_leading_slashes(s.subrange(1, s.len() as int))
    } else {
        s
    }
}

/// The server name of a `Host` value: the text before its first colon
/// (the whole value where it has none).
pub open spec fn host_name(host: Seq<char>) -> Seq<char> {
    host.subrange(0, index_of(host, ':'))
}

/// The port of a `Host` value: everything after its first colon, or `80`
/// where it has no colon.
pub open spec fn host_port(host: Seq<char>) -> Seq<char> {
    let k = index_of(host, ':');
    if k < host.len() {
        host.subrange(k + 1, host.len() as int)
    } else {
        "80"@
    }
}

/// The variables that the headers add, in order: each header other than
/// `Content-Type` and `Content-Length` under its `HTTP_` name; a later header
/// of the same variable wins.
pub open spec fn header_vars(
    m: Map<Seq<char>, Seq<char>>,
    hs: Seq<(Seq<char>, Seq<char>)>,
) -> Map<Seq<char>, Seq<char>>
    decreases hs.len(),
{
    if hs.len() == 0 {
        m
    } else {
        let prev = header_vars(m, hs.subrange(0, hs.len() - 1));
        let h = hs[hs.len() - 1];
        if lower_of(h.0) == "content-type"@ || lower_of(h.0) == "content-length"@ {
            prev
        } else {
            prev.insert(header_var(h.0), h.1)
        }
    }
}

/// The request as the environment builder reads it.
pub struct CgiRequest {
    /// HTTP method.
    pub method: String,
    /// Full request URI, query string included.
    pub uri: String,
    /// Raw query string, empty where there is none.
    pub query: String,
    /// Protocol version, such as `HTTP/1.1`.
    pub protocol: String,
    /// Header name and value pairs, in order.
    pub headers: Vec<(String, String)>,
    /// Client address, where the caller knows it.
    pub remote_addr: Option<String>,
    /// Client port, where the caller knows it.
    pub remote_port: Option<String>,
}

impl CgiRequest {
    pub open spec fn headers_view(&self) -> Seq<(Seq<char>, Seq<char>)> {
        self.headers@.map_values(|p: (String, String)| (p.0@, p.1@))
    }
}

/// The fixed variables and those of the script's location.
pub open spec fn location_vars(
    req: CgiRequest,
    script_filename: Seq<char>,
    doc_root: Seq<char>,
    script_name: Seq<char>,
    path_info: Seq<char>,
) -> Map<Seq<char>, Seq<char>> {
    let m = Map::empty().insert("GATEWAY_INTERFACE"@, "CGI/1.1"@).insert(
        "SERVER_PROTOCOL"@,
        req.protocol@,
    ).insert("SERVER_SOFTWARE"@, "VeloServe/1.0.0"@).insert("REQUEST_METHOD"@, req.method@).insert(
        "REQUEST_URI"@,
        req.uri@,
    ).insert("SCRIPT_NAME"@, script_name).insert("SCRIPT_FILENAME"@, script_filename).insert(
        "DOCUMENT_ROOT"@,
        doc_root,
    ).insert("QUERY_STRING"@, req.query@);
    if path_info.len() > 0 {
        m.insert("PATH_INFO"@, path_info).insert(
            "PATH_TRANSLATED"@,
            join_path(doc_root, strip_leading_slashes(path_info)),
        )
    } else {
        m
    }
}

/// Adds the server name and port that the `Host` header gives, and the
/// content type and length.
pub open spec fn server_vars(
    m: Map<Seq<char>, Seq<char>>,
    hs: Seq<(Seq<char>, Seq<char>)>,
) -> Map<Seq<char>, Seq<char>> {
    let m1 = match header_value(hs, "host"@) {
        Some(host) => m.insert("SERVER_NAME"@, host_name(host)).insert("HTTP_HOST"@, host).insert(
            "SERVER_PORT"@,
            host_port(host),
        ),
        None => m.insert("SERVER_NAME"@, "localhost"@).insert("SERVER_PORT"@, "80"@),
    };
    let m2 = match header_value(hs, "content-type"@) {
        Some(v) => m1.insert("CONTENT_TYPE"@, v),
        None => m1,
    };
    match header_value(hs, "content-length"@) {
        Some(v) => m2.insert("CONTENT_LENGTH"@, v),
        None => m2,
    }
}

/// The complete environment of one request.
pub open spec fn cgi_env(
    req: CgiRequest,
    script_filename: Seq<char>,
    doc_root: Seq<char>,
    script_name: Seq<char>,
    path_info: Seq<char>,
) -> Map<Seq<char>, Seq<char>> {
    let m = header_vars(
        server_vars(
            location_vars(req, script_filename, doc_root, script_name, path_info),
            req.headers_view(),
        ),
        req.headers_view(),
    );
    m.insert("REDIRECT_STATUS"@, "200"@).insert("PHP_SELF"@, script_name).insert(
        "HTTPS"@,
        "off"@,
    ).insert(
        "REMOTE_ADDR"@,
        match req.remote_addr {
            Some(a) => a@,
            None => "127.0.0.1"@,
        },
    ).insert(
        "REMOTE_PORT"@,
        match req.remote_port {
            Some(p) => p@,
            None => "0"@,
        },
    )
}

fn lit(s: &str) -> (r: String)
    ensures
        r@ == s@,
{
    String::from_str(s)
}

fn concat2(a: &str, b: &str) -> (r: String)
    ensures
        r@ == a@ + b@,
{
    let mut r = String::from_str(a);
    r.append(b);
    r
}

/// The value of the first header called `name` (in lower case).
fn find_header<'a>(hs: &'a Vec<(String, String)>, name: &str) -> (r: Option<&'a String>)
    ensures
        match r {
            Some(v) => header_value(hs@.map_values(|p: (String, String)| (p.0@, p.1@)), name@)
                == Some(v@),
            None => header_value(hs@.map_values(|p: (String, String)| (p.0@, p.1@)), name@)
                is None,
        },
{
    let ghost hv = hs@.map_values(|p: (String, String)| (p.0@, p.1@));
    let mut i: usize = 0;
    while i < hs.len()
        invariant
            i <= hs@.len(),
            hv == hs@.map_values(|p: (String, String)| (p.0@, p.1@)),
            forall|j: int| 0 <= j < i ==> lower_of(#[trigger] hv[j].0) != name@,
        decreases hs@.len() - i,
    {
        let l = lowercase(hs[i].0.as_str());
        if str_equals(l.as_str(), name) {
            proof {
                assert(first_header_at(hv, name@, i as int));
                lemma_first_header(hv, name@, i as int);
            }
            return Some(&hs[i].1);
        }
        i = i + 1;
    }
    proof {
        assert(first_header_at(hv, name@, hv.len() as int));
        lemma_first_header(hv, name@, hv.len() as int);
    }
    None
}

/// `s` with each `-` replaced by `_`.
fn replace_dashes(s: &str) -> (r: String)
    ensures
        r@ == dashes_to_underscores(s@),
{
    let v = chars_of(s);
    let mut w: Vec<char> = Vec::new();
    let mut i: usize = 0;
    while i < v.len()
        invariant
            i <= v@.len(),
            v@ == s@,
            w@ == dashes_to_underscores(v@.subrange(0, i as int)),
        decreases v@.len() - i,
    {
        let c = v[i];
        w.push(if c == '-' { '_' } else { c });
        i = i + 1;
        assert(w@ =~= dashes_to_underscores(v@.subrange(0, i as int)));
    }
    assert(v@.subrange(0, i as int) =~= v@);
    string_of(w.as_slice())
}

/// `rel`, without its leading slashes, joined onto `base`.
fn join_relative(base: &str, rel: &str) -> (r: String)
    ensures
        r@ == join_path(base@, strip_leading_slashes(rel@)),
{
    let v = chars_of(rel);
    assert(v@.subrange(0, v@.len() as int) =~= v@);
    let mut a: usize = 0;
    while a < v.len() && v[a] == '/'
        invariant
            a <= v@.len(),
            v@ == rel@,
            strip_leading_slashes(rel@) == strip_leading_slashes(v@.subrange(a as int, v@.len() as int)),
        decreases v@.len() - a,
    {
        let ghost t = v@.subrange(a as int, v@.len() as int);
        assert(t.subrange(1, t.len() as int) =~= v@.subrange(a + 1, v@.len() as int));
        a = a + 1;
    }
    assert(strip_leading_slashes(v@.subrange(a as int, v@.len() as int)) == v@.subrange(
        a as int,
        v@.len() as int,
    ));
    let tail = string_of_range(&v, a, v.len());
    let b = chars_of(base);
    let mut r = String::from_str(base);
    if b.len() > 0 && b[b.len() - 1] != '/' {
        r.append("/");
    }
    r.append(tail.as_str());
    r
}

/// Builds the environment of one request: the fixed protocol variables,
/// the script's location, the server name and port from `Host`, the content
/// type and length, and one `HTTP_` variable per header.
pub fn build_cgi_env(
    req: &CgiRequest,
    script_filename: &str,
    doc_root: &str,
    script_name: &str,
    path_info: &str,
) -> (r: VarMap)
    ensures
        r.wf(),
        r@ == cgi_env(*req, script_filename@, doc_root@, script_name@, path_info@),
{
    let mut env = VarMap::new();
    env.insert(lit("GATEWAY_INTERFACE"), lit("CGI/1.1"));
    env.insert(lit("SERVER_PROTOCOL"), req.protocol.clone());
    env.insert(lit("SERVER_SOFTWARE"), lit("VeloServe/1.0.0"));
    env.insert(lit("REQUEST_METHOD"), req.method.clone());
    env.insert(lit("REQUEST_URI"), req.uri.clone());
    env.insert(lit("SCRIPT_NAME"), lit(script_name));
    env.insert(lit("SCRIPT_FILENAME"), lit(script_filename));
    env.insert(lit("DOCUMENT_ROOT"), lit(doc_root));
    env.insert(lit("QUERY_STRING"), req.query.clone());
    if path_info.unicode_len() > 0 {
        env.insert(lit("PATH_INFO"), lit(path_info));
        env.insert(lit("PATH_TRANSLATED"), join_relative(doc_root, path_info));
    }
    assert(env@ == location_vars(*req, script_filename@, doc_root@, script_name@, path_info@));
    let ghost m0 = env@;
    match find_header(&req.headers, "host") {
        Some(host) => {
            let hv = chars_of(host.as_str());
            let k = index_in(&hv, 0, hv.len(), ':');
            assert(hv@.subrange(0, hv@.len() as int) =~= host@);
            env.insert(lit("SERVER_NAME"), string_of_range(&hv, 0, k));
            env.insert(lit("HTTP_HOST"), host.clone());
            if k < hv.len() {
                env.insert(lit("SERVER_PORT"), string_of_range(&hv, k + 1, hv.len()));
            } else {
                env.insert(lit("SERVER_PORT"), lit("80"));
            }
        },
        None => {
            env.insert(lit("SERVER_NAME"), lit("localhost"));
            env.insert(lit("SERVER_PORT"), lit("80"));
        },
    }
    match find_header(&req.headers, "content-type") {
        Some(v) => env.insert(lit("CONTENT_TYPE"), v.clone()),
        None => {},
    }
    match find_header(&req.headers, "content-length") {
        Some(v) => env.insert(lit("CONTENT_LENGTH"), v.clone()),
        None => {},
    }
    assert(env@ == server_vars(m0, req.headers_view()));
    let ghost m1 = env@;
    let mut i: usize = 0;
    while i < req.headers.len()
        invariant
            i <= req.headers@.len(),
            env.wf(),
            env@ == header_vars(m1, req.headers_view().subrange(0, i as int)),
        decreases req.headers@.len() - i,
    {
        let ghost hs = req.headers_view().subrange(0, i + 1);
        assert(hs.subrange(0, hs.len() - 1) =~= req.headers_view().subrange(0, i as int));
        let name = &req.headers[i].0;
        let l = lowercase(name.as_str());
        if !str_equals(l.as_str(), "content-type") && !str_equals(l.as_str(), "content-length") {
            let upper = uppercase(name.as_str());
            let var = concat2("HTTP_", replace_dashes(upper.as_str()).as_str());
            env.insert(var, req.headers[i].1.clone());
        }
        i = i + 1;
    }
    assert(req.headers_view().subrange(0, i as int) =~= req.headers_view());
    env.insert(lit("REDIRECT_STATUS"), lit("200"));
    env.insert(lit("PHP_SELF"), lit(script_name));
    env.insert(lit("HTTPS"), lit("off"));
    match &req.remote_addr {
        Some(a) => env.insert(lit("REMOTE_ADDR"), a.clone()),
        None => env.insert(lit("REMOTE_ADDR"), lit("127.0.0.1")),
    }
    match &req.remote_port {
        Some(p) => env.insert(lit("REMOTE_PORT"), p.clone()),
        None => env.insert(lit("REMOTE_PORT"), lit("0")),
    }
    env
}

} // verus!
