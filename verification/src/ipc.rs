//! Inter-process messages: the capture selection served to the portal picker,
//! and the length-prefixed framing of messages exchanged with the recording
//! service.
//!
//! JSON encoding of the messages is done by the application shell.

use vstd::prelude::*;
use crate::text::{chars_of, decimal, push_decimal, push_str, string_from_chars, trim, trim_chars};

verus! {

/// Geometry for region capture.
#[derive(Debug, Clone, Copy, PartialEq, Eq, Structural)]
pub struct Geometry {
    pub x: i32,
    pub y: i32,
    pub width: u32,
    pub height: u32,
}

/// The current capture selection stored by the main app.
#[derive(Debug, Clone)]
pub struct CaptureSelection {
    /// Type of source: "monitor", "window", or "region"
    pub source_type: String,
    /// Source identifier (monitor name or window address)
    pub source_id: String,
    /// Geometry for region capture (None for monitor/window)
    pub geometry: Option<Geometry>,
}

/// IPC message sent from picker to main app.
#[derive(Debug, Clone, Copy, PartialEq, Eq, Structural)]
pub enum IpcRequest {
    /// Query the current capture selection.
    QuerySelection,
}

/// IPC response from main app to picker.
#[derive(Debug, Clone)]
pub enum IpcResponse {
    /// Current capture selection.
    Selection { source_type: String, source_id: String, geometry: Option<Geometry> },
    /// No selection available.
    NoSelection,
    /// Error occurred.
    Error { message: String },
}

/// Shared state for the IPC server.
pub struct IpcServerState {
    /// Current capture selection (set by UI before recording starts)
    pub selection: Option<CaptureSelection>,
}

impl Default for IpcServerState {
    fn default() -> (r: Self)
        ensures
            r.selection is None,
    {
        IpcServerState { selection: None }
    }
}

/// The answer to a request, given the stored selection.
pub open spec fn spec_respond(selection: Option<CaptureSelection>, response: IpcResponse) -> bool {
    match selection {
        Some(sel) => response matches IpcResponse::Selection { source_type, source_id, geometry }
            && source_type@ == sel.source_type@ && source_id@ == sel.source_id@ && geometry
            == sel.geometry,
        None => response is NoSelection,
    }
}

impl IpcServerState {
    /// Store the selection the picker will be given.
    pub fn set_selection(&mut self, selection: CaptureSelection)
        ensures
            final(self).selection == Some(selection),
    {
        self.selection = Some(selection);
    }

    /// Clear the current capture selection.
    pub fn clear_selection(&mut self)
        ensures
            final(self).selection is None,
    {
        self.selection = None;
    }

    /// Answer a request from the picker: the stored selection, or that there
    /// is none.
    pub fn respond(&self, request: IpcRequest) -> (r: IpcResponse)
        ensures
            spec_respond(self.selection, r),
    {
        match request {
            IpcRequest::QuerySelection => match &self.selection {
                Some(sel) => IpcResponse::Selection {
                    source_type: sel.source_type.clone(),
                    source_id: sel.source_id.clone(),
                    geometry: sel.geometry,
                },
                None => IpcResponse::NoSelection,
            },
        }
    }
}

/// What a query answers after a selection is stored is that selection; after
/// it is cleared, that there is none.
pub proof fn lemma_query_after_set(sel: CaptureSelection, r: IpcResponse, r2: IpcResponse)
    requires
        spec_respond(Some(sel), r),
        spec_respond(None, r2),
    ensures
        r matches IpcResponse::Selection { source_type, source_id, geometry } && source_type@
            == sel.source_type@ && source_id@ == sel.source_id@ && geometry == sel.geometry,
        r2 is NoSelection,
{
}

/// The request text of a line read from a client: the line trimmed, or
/// `None` when nothing is left.
pub fn request_text(line: &str) -> (r: Option<String>)
    ensures
        match r {
            Some(t) => trim(line@).len() > 0 && t@ == trim(line@),
            None => trim(line@).len() == 0,
        },
{
    let chars = chars_of(line);
    let t = trim_chars(chars.as_slice());
    if t.len() == 0 {
        None
    } else {
        Some(string_from_chars(t.as_slice()))
    }
}

/// The response to a request that could not be parsed.
pub fn invalid_request(parse_error: &str) -> (r: IpcResponse)
    ensures
        r matches IpcResponse::Error { message } && message@ == "Invalid request: "@ + parse_error@,
{
    let mut message = String::new();
    push_str(&mut message, "Invalid request: ");
    push_str(&mut message, parse_error);
    IpcResponse::Error { message }
}

// ---------------------------------------------------------------------------
// Service messages
// ---------------------------------------------------------------------------

/// Error type for service client operations.
#[derive(Debug, Clone)]
pub enum ServiceError {
    /// Service is not running or not connected
    NotConnected,
    /// Connection to service failed
    ConnectionFailed(String),
    /// Failed to send request
    SendFailed(String),
    /// Failed to receive response
    ReceiveFailed(String),
    /// Service returned an error
    ServiceError(String),
    /// Request timed out
    Timeout,
}

/// The text shown for each service error.
pub open spec fn spec_error_message(e: ServiceError) -> Seq<char> {
    match e {
        ServiceError::NotConnected => "Not connected to service"@,
        ServiceError::ConnectionFailed(m) => "Connection failed: "@ + m@,
        ServiceError::SendFailed(m) => "Send failed: "@ + m@,
        ServiceError::ReceiveFailed(m) => "Receive failed: "@ + m@,
        ServiceError::ServiceError(m) => "Service error: "@ + m@,
        ServiceError::Timeout => "Request timed out"@,
    }
}

impl ServiceError {
    /// The text shown for this error (what `Display` prints).
    pub fn message(&self) -> (r: String)
        ensures
            r@ == spec_error_message(*self),
    {
        let mut out = String::new();
        match self {
            ServiceError::NotConnected => push_str(&mut out, "Not connected to service"),
            ServiceError::ConnectionFailed(m) => {
                push_str(&mut out, "Connection failed: ");
                push_str(&mut out, m.as_str());
            },
            ServiceError::SendFailed(m) => {
                push_str(&mut out, "Send failed: ");
                push_str(&mut out, m.as_str());
            },
            ServiceError::ReceiveFailed(m) => {
                push_str(&mut out, "Receive failed: ");
                push_str(&mut out, m.as_str());
            },
            ServiceError::ServiceError(m) => {
                push_str(&mut out, "Service error: ");
                push_str(&mut out, m.as_str());
            },
            ServiceError::Timeout => push_str(&mut out, "Request timed out"),
        }
        out
    }
}

/// The four little-endian bytes of `n`.
pub open spec fn le_bytes(n: nat) -> Seq<u8> {
    seq![(n % 256) as u8, ((n / 256) % 256) as u8, ((n / 65536) % 256) as u8, ((n / 16777216) % 256) as u8]
}

/// The number whose little-endian bytes are `b[0..4]`.
pub open spec fn from_le(b: Seq<u8>) -> nat {
    b[0] as nat + 256 * b[1] as nat + 65536 * b[2] as nat + 16777216 * b[3] as nat
}

/// A message as sent: its length as four little-endian bytes, then the
/// payload. The header holds the length modulo 2^32, as a `u32` cast of it
/// does.
pub fn frame_message(payload: &[u8]) -> (r: Vec<u8>)
    ensures
        r@ == le_bytes(payload@.len() % 0x1_0000_0000) + payload@,
{
    let n = (payload.len() as u64 % 0x1_0000_0000) as u32;
    let mut out: Vec<u8> = Vec::new();
    out.push((n % 256) as u8);
    out.push(((n / 256) % 256) as u8);
    out.push(((n / 65536) % 256) as u8);
    out.push(((n / 16777216) % 256) as u8);
    let mut i: usize = 0;
    while i < payload.len()
        invariant
            i <= payload@.len(),
            n == payload@.len() % 0x1_0000_0000,
            out@ == le_bytes(n as nat) + payload@.subrange(0, i as int),
        decreases payload@.len() - i,
    {
        out.push(payload[i]);
        assert(payload@.subrange(0, i + 1) =~= payload@.subrange(0, i as int).push(payload@[i as int]));
        i = i + 1;
    }
    assert(payload@.subrange(0, payload@.len() as int) =~= payload@);
    out
}

/// The length announced by a message header.
pub fn decode_length(header: [u8; 4]) -> (n: u32)
    ensures
        n == from_le(header@),
{
    header[0] as u32 + 256 * header[1] as u32 + 65536 * header[2] as u32 + 16777216 * header[3] as u32
}

/// Reading back a header gives the length that was written.
pub proof fn lemma_length_round_trip(n: nat)
    requires
        n <= u32::MAX,
    ensures
        from_le(le_bytes(n)) == n,
{
    let b0 = n % 256;
    let b1 = (n / 256) % 256;
    let b2 = (n / 65536) % 256;
    let b3 = (n / 16777216) % 256;
    assert(n == b0 + 256 * b1 + 65536 * b2 + 16777216 * b3) by (nonlinear_arith)
        requires
            n <= 0xffff_ffff,
            b0 == n % 256,
            b1 == (n / 256) % 256,
            b2 == (n / 65536) % 256,
            b3 == (n / 16777216) % 256,
    ;
}

/// Checks an announced response length against the largest message accepted.
pub fn check_response_length(len: u32, max_message_size: usize) -> (r: Result<usize, ServiceError>)
    ensures
        (len as nat) <= max_message_size ==> r == Ok::<usize, ServiceError>(len as usize),
        (len as nat) > max_message_size ==> (r matches Err(ServiceError::ReceiveFailed(m)) && m@
            == "Response too large: "@ + decimal(len as nat) + " bytes"@),
{
    let n = len as usize;
    if n > max_message_size {
        let mut m = String::new();
        push_str(&mut m, "Response too large: ");
        push_decimal(&mut m, len as u64);
        push_str(&mut m, " bytes");
        return Err(ServiceError::ReceiveFailed(m));
    }
    Ok(n)
}

} // verus!
