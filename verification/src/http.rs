use vstd::prelude::*;
use vstd::string::StringExecFns;
use vstd::utf8::decode_utf8;
use vstd::utf8::valid_utf8;

verus! {

/// The closed set of failures an exchange reports; every phase of one
/// carries its own message, so the phase that failed can be read back.
#[derive(Debug)]
pub enum Error {
    Network(String),
}

impl Error {
    /// The message the failure carries.
    pub fn message(&self) -> (m: String)
        ensures
            self matches Error::Network(s) && m@ == s@,
    {
        match self {
            Error::Network(s) => s.clone(),
        }
    }
}

/// The message of a resolution failure reported by the resolver itself;
/// `detail` renders the resolver's own error.
pub open spec fn spec_resolution_failed(detail: Seq<char>) -> Seq<char> {
    "Failed to find IP addresses: "@ + detail
}

/// The message of a resolution that succeeded with no addresses.
pub open spec fn spec_no_addresses() -> Seq<char> {
    "Failed to find IP adresses"@
}

/// The message of a connect failure.
pub open spec fn spec_connect_failed() -> Seq<char> {
    "Failed to connect to TCP stream"@
}

/// The message of a write failure.
pub open spec fn spec_write_failed() -> Seq<char> {
    "Failed to send a request to TCP stream"@
}

/// The message of a read failure.
pub open spec fn spec_read_failed() -> Seq<char> {
    "Failed to receive a request from TCP stream"@
}

/// The prefix of the message of a decode failure; what follows it renders
/// the cause.
pub open spec fn spec_invalid_response_prefix() -> Seq<char> {
    "Invalid received response: "@
}

/// The request line and headers of one GET exchange: the path after a
/// single leading slash, the host, a fixed accept header, and a demand
/// that the peer close the connection after the response.
pub open spec fn spec_request(host: Seq<char>, path: Seq<char>) -> Seq<char> {
    "GET /"@ + path + " HTTP/1.1\r\nHost: "@ + host
        + "\r\nAccept: text/html\r\nConnection: close\r\n\r\n"@
}

/// A stateless HTTP/1.1 GET client: the decisions of one exchange, free
/// of the resolver and transport that unverified code supplies.
pub struct HttpClient {}

impl HttpClient {
    pub fn new() -> HttpClient {
        HttpClient {}
    }

    /// The address-selection rule: an exchange fails when resolution hands
    /// back no addresses at all, and otherwise uses exactly the first
    /// resolved address, never a later one.
    pub fn select_first_address(&self, n_addresses: usize) -> (r: Result<usize, Error>)
        ensures
            r is Ok <==> n_addresses > 0,
            r matches Ok(i) ==> i == 0,
            r matches Err(e) ==> (e matches Error::Network(m) && m@ == spec_no_addresses()),
    {
        if n_addresses < 1 {
            Err(Error::Network("Failed to find IP adresses".to_owned()))
        } else {
            Ok(0)
        }
    }

    /// The failure of the resolution phase proper, carrying the
    /// resolver's own rendered error.
    pub fn resolution_error(&self, detail: &str) -> (e: Error)
        ensures
            e matches Error::Network(m) && m@ == spec_resolution_failed(detail@),
    {
        let mut m: String = "Failed to find IP addresses: ".to_owned();
        m.append(detail);
        Error::Network(m)
    }

    /// The failure of the connect phase.
    pub fn connect_error(&self) -> (e: Error)
        ensures
            e matches Error::Network(m) && m@ == spec_connect_failed(),
    {
        Error::Network("Failed to connect to TCP stream".to_owned())
    }

    /// The failure of the request-write phase.
    pub fn write_error(&self) -> (e: Error)
        ensures
            e matches Error::Network(m) && m@ == spec_write_failed(),
    {
        Error::Network("Failed to send a request to TCP stream".to_owned())
    }

    /// The failure of the response-read phase.
    pub fn read_error(&self) -> (e: Error)
        ensures
            e matches Error::Network(m) && m@ == spec_read_failed(),
    {
        Error::Network("Failed to receive a request from TCP stream".to_owned())
    }

    /// The exact bytes written to the peer for one GET of `path` on
    /// `host`.
    pub fn build_request(&self, host: &str, path: &str) -> (r: String)
        ensures
            r@ == spec_request(host@, path@),
    {
        let mut r: String = "GET /".to_owned();
        r.append(path);
        r.append(" HTTP/1.1\r\nHost: ");
        r.append(host);
        r.append("\r\nAccept: text/html\r\nConnection: close\r\n\r\n");
        r
    }
}

/// The bytes of one response, accumulated chunk by chunk until the peer
/// closes the connection.
pub struct ResponseBuffer {
    pub bytes: Vec<u8>,
}

impl ResponseBuffer {
    /// An empty buffer: nothing received yet.
    pub fn new() -> (b: ResponseBuffer)
        ensures
            b.bytes@ == Seq::<u8>::empty(),
    {
        ResponseBuffer { bytes: Vec::new() }
    }

    /// Append the first `n` bytes of one read chunk.
    pub fn push_chunk(&mut self, chunk: &[u8], n: usize)
        requires
            n <= chunk@.len(),
        ensures
            final(self).bytes@ == old(self).bytes@ + chunk@.take(n as int),
    {
        let mut i: usize = 0;
        while i < n
            invariant
                i <= n <= chunk@.len(),
                self.bytes@ == old(self).bytes@ + chunk@.take(i as int),
            decreases n - i,
        {
            let b: u8 = chunk[i];
            self.bytes.push(b);
            proof {
                assert(self.bytes@ =~= old(self).bytes@ + chunk@.take(i + 1));
            }
            i += 1;
        }
    }

    /// Decode the accumulated bytes as UTF-8 text. Succeeds exactly on
    /// valid UTF-8; in particular a stream that closed after zero bytes
    /// decodes to the empty text.
    pub fn decode(&self) -> (r: Result<String, Error>)
        ensures
            r is Ok <==> valid_utf8(self.bytes@),
            r matches Ok(s) ==> s@ == decode_utf8(self.bytes@),
            self.bytes@.len() == 0 ==> (r matches Ok(s) && s@ == Seq::<char>::empty()),
            r matches Err(e) ==> (e matches Error::Network(m) && m@.len()
                >= spec_invalid_response_prefix().len() && m@.take(
                spec_invalid_response_prefix().len() as int,
            ) == spec_invalid_response_prefix()),
    {
        match utf8_text(&self.bytes) {
            Ok(s) => Ok(s),
            Err(cause) => {
                let mut m: String = "Invalid received response: ".to_owned();
                m.append(cause.as_str());
                proof {
                    assert(m@.take(spec_invalid_response_prefix().len() as int)
                        =~= spec_invalid_response_prefix());
                }
                Err(Error::Network(m))
            },
        }
    }
}

/// Relies on core::str::from_utf8: it succeeds exactly on the byte
/// sequences that are valid UTF-8 and yields the characters those bytes
/// encode; on failure the rendered error names the cause.
#[verifier::external_body]
fn utf8_text(bytes: &Vec<u8>) -> (r: Result<String, String>)
    ensures
        r is Ok <==> valid_utf8(bytes@),
        r matches Ok(s) ==> s@ == decode_utf8(bytes@),
{
    match core::str::from_utf8(bytes.as_slice()) {
        Ok(s) => Ok(s.to_string()),
        Err(e) => Err(format!("{}", e)),
    }
}

} // verus!
