//! Messages between the host and the persistent worker, and the framing
//! that carries one message per connection: an 8-byte big-endian length,
//! then exactly that many bytes of payload.

use crate::vars::VarMap;
use vstd::prelude::*;

verus! {

/// Kinds of worker request.
pub enum RequestType {
    /// Execute a script.
    Execute,
    /// Health check.
    HealthCheck,
    /// Report the pool's status.
    Status,
}

/// A request from the host to the worker.
pub struct PhpRequest {
    pub request_type: RequestType,
    /// Path of the script.
    pub script_path: String,
    /// Request method.
    pub method: String,
    /// Request URI.
    pub uri: String,
    /// Request headers.
    pub headers: VarMap,
    /// Request body.
    pub body: Vec<u8>,
    /// Query parameters.
    pub query_params: VarMap,
    /// Environment variables for the script.
    pub server_vars: VarMap,
    /// Document root.
    pub document_root: String,
    /// Client address.
    pub remote_addr: String,
    /// Time allowed for the call, in seconds.
    pub timeout_secs: u32,
}

impl PhpRequest {
    pub open spec fn wf(&self) -> bool {
        self.headers.wf() && self.query_params.wf() && self.server_vars.wf()
    }

    /// A GET of `/` that executes `script_path`, with 30 seconds allowed.
    pub fn execute(script_path: String) -> (r: PhpRequest)
        ensures
            r.wf(),
            r.request_type is Execute,
            r.script_path == script_path,
            r.method@ == "GET"@,
            r.uri@ == "/"@,
            r.headers@.is_empty(),
            r.body@.len() == 0,
            r.query_params@.is_empty(),
            r.server_vars@.is_empty(),
            r.document_root@ == "/var/www"@,
            r.remote_addr@ == "127.0.0.1"@,
            r.timeout_secs == 30,
    {
        PhpRequest {
            request_type: RequestType::Execute,
            script_path,
            method: String::from_str("GET"),
            uri: String::from_str("/"),
            headers: VarMap::new(),
            body: Vec::new(),
            query_params: VarMap::new(),
            server_vars: VarMap::new(),
            document_root: String::from_str("/var/www"),
            remote_addr: String::from_str("127.0.0.1"),
            timeout_secs: 30,
        }
    }

    /// A health check, with 5 seconds allowed.
    pub fn health_check() -> (r: PhpRequest)
        ensures
            r.wf(),
            r.request_type is HealthCheck,
            r.script_path@.len() == 0,
            r.method@ == "GET"@,
            r.uri@ == "/health"@,
            r.headers@.is_empty(),
            r.body@.len() == 0,
            r.query_params@.is_empty(),
            r.server_vars@.is_empty(),
            r.document_root@ == "/var/www"@,
            r.remote_addr@ == "127.0.0.1"@,
            r.timeout_secs == 5,
    {
        PhpRequest {
            request_type: RequestType::HealthCheck,
            script_path: String::new(),
            method: String::from_str("GET"),
            uri: String::from_str("/health"),
            headers: VarMap::new(),
            body: Vec::new(),
            query_params: VarMap::new(),
            server_vars: VarMap::new(),
            document_root: String::from_str("/var/www"),
            remote_addr: String::from_str("127.0.0.1"),
            timeout_secs: 5,
        }
    }
}

/// A response from the worker to the host.
pub struct PhpResponse {
    /// Whether the request succeeded.
    pub success: bool,
    /// HTTP status code.
    pub status_code: u16,
    /// Response headers.
    pub headers: VarMap,
    /// Response body.
    pub body: String,
    /// Error text, if any.
    pub error: Option<String>,
    /// Diagnostic output of the script.
    pub stderr: String,
    /// Execution time in milliseconds.
    pub execution_time_ms: u64,
    /// The request was accepted but has not run yet.
    pub queued: bool,
}

impl PhpResponse {
    pub open spec fn wf(&self) -> bool {
        self.headers.wf()
    }

    /// A completed success with status 200.
    pub fn ok(body: &str, stderr: &str) -> (r: PhpResponse)
        ensures
            r.wf(),
            r.success,
            r.status_code == 200,
            r.headers@.is_empty(),
            r.body@ == body@,
            r.error is None,
            r.stderr@ == stderr@,
            r.execution_time_ms == 0,
            !r.queued,
    {
        PhpResponse {
            success: true,
            status_code: 200,
            headers: VarMap::new(),
            body: String::from_str(body),
            error: None,
            stderr: String::from_str(stderr),
            execution_time_ms: 0,
            queued: false,
        }
    }

    /// A failure with status 500 that carries `message`.
    pub fn error(message: &str) -> (r: PhpResponse)
        ensures
            r.wf(),
            !r.success,
            r.status_code == 500,
            r.headers@.is_empty(),
            r.body@.len() == 0,
            r.error matches Some(e) && e@ == message@,
            r.stderr@ == message@,
            r.execution_time_ms == 0,
            !r.queued,
    {
        PhpResponse {
            success: false,
            status_code: 500,
            headers: VarMap::new(),
            body: String::new(),
            error: Some(String::from_str(message)),
            stderr: String::from_str(message),
            execution_time_ms: 0,
            queued: false,
        }
    }

    /// Accepted for later execution, with status 202.
    pub fn queued() -> (r: PhpResponse)
        ensures
            r.wf(),
            r.success,
            r.status_code == 202,
            r.headers@.is_empty(),
            r.body@.len() == 0,
            r.error is None,
            r.stderr@.len() == 0,
            r.execution_time_ms == 0,
            r.queued,
    {
        PhpResponse {
            success: true,
            status_code: 202,
            headers: VarMap::new(),
            body: String::new(),
            error: None,
            stderr: String::new(),
            execution_time_ms: 0,
            queued: true,
        }
    }

    /// The response with header `key` set to `value`.
    pub fn with_header(self, key: &str, value: &str) -> (r: PhpResponse)
        requires
            self.wf(),
        ensures
            r.wf(),
            r.headers@ == self.headers@.insert(key@, value@),
            r.success == self.success,
            r.status_code == self.status_code,
            r.body == self.body,
            r.error == self.error,
            r.stderr == self.stderr,
            r.execution_time_ms == self.execution_time_ms,
            r.queued == self.queued,
    {
        let mut r = self;
        r.headers.insert(String::from_str(key), String::from_str(value));
        r
    }

    /// The response with status `code`.
    pub fn with_status(self, code: u16) -> (r: PhpResponse)
        ensures
            r.status_code == code,
            r.success == self.success,
            r.headers == self.headers,
            r.body == self.body,
            r.error == self.error,
            r.stderr == self.stderr,
            r.execution_time_ms == self.execution_time_ms,
            r.queued == self.queued,
    {
        let mut r = self;
        r.status_code = code;
        r
    }
}

/// The largest payload that a receiver reads: 256 MiB.
pub const MAX_FRAME_PAYLOAD: usize = 268435456;

/// Bytes in a frame's length prefix.
pub const FRAME_HEADER_LEN: usize = 8;

/// The 8-byte big-endian form of `n`.
pub open spec fn be_bytes(n: u64) -> Seq<u8> {
    seq![
        (n >> 56u64) as u8,
        (n >> 48u64) as u8,
        (n >> 40u64) as u8,
        (n >> 32u64) as u8,
        (n >> 24u64) as u8,
        (n >> 16u64) as u8,
        (n >> 8u64) as u8,
        n as u8,
    ]
}

/// The number that 8 big-endian bytes stand for.
pub open spec fn be_value(b: Seq<u8>) -> u64 {
    (b[0] as u64) << 56u64 | (b[1] as u64) << 48u64 | (b[2] as u64) << 40u64 | (b[3] as u64)
        << 32u64 | (b[4] as u64) << 24u64 | (b[5] as u64) << 16u64 | (b[6] as u64) << 8u64 | (
    b[7] as u64)
}

/// The frame that carries `payload`.
pub open spec fn frame_of(payload: Seq<u8>) -> Seq<u8> {
    be_bytes(payload.len() as u64) + payload
}

/// Why bytes do not hold a whole frame.
pub enum FrameError {
    /// Fewer bytes than the length prefix.
    ShortHeader,
    /// Fewer payload bytes than the prefix announces.
    ShortPayload { announced: u64 },
    /// The prefix announces more than the receiver accepts.
    TooLarge { announced: u64 },
}

/// What the first frame in `bytes` holds: its payload and the number of
/// bytes it takes; else no length prefix, or the length that it announces.
pub open spec fn frame_in(bytes: Seq<u8>) -> Result<(Seq<u8>, int), Option<u64>> {
    if bytes.len() < 8 {
        Err(None)
    } else {
        let n = be_value(bytes.subrange(0, 8)) as int;
        if bytes.len() - 8 < n {
            Err(Some(n as u64))
        } else {
            Ok((bytes.subrange(8, 8 + n), 8 + n))
        }
    }
}

/// The frame that carries `payload`: its length, then the payload.
pub fn encode_frame(payload: &[u8]) -> (r: Vec<u8>)
    requires
        payload@.len() <= u64::MAX,
    ensures
        r@ == frame_of(payload@),
{
    let n = payload.len() as u64;
    let mut r: Vec<u8> = Vec::new();
    r.push((n >> 56u64) as u8);
    r.push((n >> 48u64) as u8);
    r.push((n >> 40u64) as u8);
    r.push((n >> 32u64) as u8);
    r.push((n >> 24u64) as u8);
    r.push((n >> 16u64) as u8);
    r.push((n >> 8u64) as u8);
    r.push(n as u8);
    assert(r@ =~= be_bytes(n));
    let mut i: usize = 0;
    while i < payload.len()
        invariant
            i <= payload@.len(),
            r@ == be_bytes(n) + payload@.subrange(0, i as int),
        decreases payload@.len() - i,
    {
        r.push(payload[i]);
        i = i + 1;
        assert(r@ =~= be_bytes(n) + payload@.subrange(0, i as int));
    }
    assert(payload@.subrange(0, i as int) =~= payload@);
    r
}

/// The length that a frame's 8-byte prefix announces.
pub fn frame_length(header: &[u8]) -> (r: u64)
    requires
        header@.len() >= 8,
    ensures
        r == be_value(header@.subrange(0, 8)),
{
    let r = (header[0] as u64) << 56u64 | (header[1] as u64) << 48u64 | (header[2] as u64) << 40u64
        | (header[3] as u64) << 32u64 | (header[4] as u64) << 24u64 | (header[5] as u64) << 16u64
        | (header[6] as u64) << 8u64 | (header[7] as u64);
    let ghost h = header@.subrange(0, 8);
    assert(h[0] == header@[0] && h[1] == header@[1] && h[2] == header@[2] && h[3] == header@[3]
        && h[4] == header@[4] && h[5] == header@[5] && h[6] == header@[6] && h[7] == header@[7]);
    r
}

/// The payload length that a frame's prefix announces, where it is at most
/// `max`; a receiver reads exactly that many bytes next.
pub fn payload_length(header: &[u8], max: usize) -> (r: Result<usize, FrameError>)
    requires
        header@.len() >= 8,
    ensures
        match r {
            Ok(n) => n == be_value(header@.subrange(0, 8)) && n <= max,
            Err(FrameError::TooLarge { announced }) => announced == be_value(header@.subrange(0, 8))
                && announced > max,
            _ => false,
        },
{
    let n = frame_length(header);
    if n > max as u64 {
        Err(FrameError::TooLarge { announced: n })
    } else {
        Ok(n as usize)
    }
}

/// The reply to a request that needs no script run: a health check is
/// answered as healthy, a status request with the pool's `status`; an
/// execution gets none here.
pub fn direct_response(kind: &RequestType, status: &str) -> (r: Option<PhpResponse>)
    ensures
        match kind {
            RequestType::Execute => r is None,
            RequestType::HealthCheck => r matches Some(p) && p.wf() && p.success && p.status_code == 200
                && p.body@ == "healthy"@ && p.stderr@.len() == 0 && p.headers@.is_empty(),
            RequestType::Status => r matches Some(p) && p.wf() && p.success && p.status_code == 200
                && p.body@ == "status"@ && p.stderr@ == status@ && p.headers@.is_empty(),
        },
{
    match kind {
        RequestType::Execute => None,
        RequestType::HealthCheck => {
            proof {
                reveal_strlit("");
            }
            Some(PhpResponse::ok("healthy", ""))
        },
        RequestType::Status => Some(PhpResponse::ok("status", status)),
    }
}

/// Reads the first frame in `bytes`: its payload and the number of bytes it
/// takes. Bytes after the frame are left alone.
pub fn decode_frame(bytes: &[u8]) -> (r: Result<(Vec<u8>, usize), FrameError>)
    ensures
        match (r, frame_in(bytes@)) {
            (Ok((p, used)), Ok((q, n))) => p@ == q && used == n,
            (Err(FrameError::ShortHeader), Err(None)) => true,
            (Err(FrameError::ShortPayload { announced }), Err(Some(m))) => announced == m,
            _ => false,
        },
{
    if bytes.len() < 8 {
        return Err(FrameError::ShortHeader);
    }
    let n = frame_length(bytes);
    if ((bytes.len() - 8) as u64) < n {
        return Err(FrameError::ShortPayload { announced: n });
    }
    let end: usize = 8 + n as usize;
    let mut p: Vec<u8> = Vec::new();
    let mut i: usize = 8;
    while i < end
        invariant
            8 <= i <= end <= bytes@.len(),
            p@ == bytes@.subrange(8, i as int),
        decreases end - i,
    {
        p.push(bytes[i]);
        i = i + 1;
        assert(p@ =~= bytes@.subrange(8, i as int));
    }
    Ok((p, end))
}

proof fn lemma_be_round_trip(n: u64)
    ensures
        be_value(be_bytes(n)) == n,
{
    let b = be_bytes(n);
    assert(((n >> 56u64) as u8 as u64) << 56u64 | ((n >> 48u64) as u8 as u64) << 48u64 | ((n
        >> 40u64) as u8 as u64) << 40u64 | ((n >> 32u64) as u8 as u64) << 32u64 | ((n >> 24u64)
        as u8 as u64) << 24u64 | ((n >> 16u64) as u8 as u64) << 16u64 | ((n >> 8u64) as u8 as u64)
        << 8u64 | (n as u8 as u64) == n) by (bit_vector);
}

/// A frame read back gives the payload that was framed, whatever its size
/// and whatever follows it.
pub proof fn law_frame_round_trip(payload: Seq<u8>, rest: Seq<u8>)
    requires
        payload.len() <= u64::MAX,
    ensures
        frame_in(frame_of(payload) + rest) == Ok::<(Seq<u8>, int), Option<u64>>(
            (payload, 8 + payload.len() as int),
        ),
{
    let bytes = frame_of(payload) + rest;
    let n = payload.len() as u64;
    lemma_be_round_trip(n);
    assert(bytes.subrange(0, 8) =~= be_bytes(n));
    assert(bytes.subrange(8, 8 + payload.len() as int) =~= payload);
}

} // verus!
