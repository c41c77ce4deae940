//! Messages exchanged between the backend and the preview application.

use vstd::prelude::*;

verus! {

#[derive(Debug, Clone, Copy, PartialEq, Eq, Structural)]
pub enum MessageType {
    Request,
    Response,
    Notification,
    Ack,
    Error,
}

#[derive(Debug, Clone, Copy, PartialEq, Eq, Structural)]
pub enum MessageSource {
    Backend,
    Preview,
    Ipc,
}

#[derive(Debug, Clone, Copy, PartialEq, Eq, Structural)]
pub enum MessageDestination {
    Backend,
    Preview,
    Broadcast,
}

/// What a request asks for.
#[derive(Debug, Clone, Copy, PartialEq, Eq, Structural)]
pub enum RequestType {
    GetPrinterInfo,
    GetJobQueue,
    GetJobStatus,
    CreateJob,
    CancelJob,
    SendDocument,
    CloseJob,
    PrintDocument,
}

/// A request with its named parameters.
#[derive(Debug, Clone)]
pub struct Request {
    pub request_id: u64,
    pub request_type: RequestType,
    pub parameters: Vec<(String, String)>,
}

#[derive(Debug, Clone, Copy, PartialEq, Eq, Structural)]
pub enum ResponseType {
    Success,
    Error,
    Partial,
}

/// The answer to a request: its data, or the error that prevented it.
#[derive(Debug, Clone)]
pub struct Response {
    pub request_id: u64,
    pub response_type: ResponseType,
    pub success: bool,
    pub data: Vec<(String, String)>,
    pub error: Option<String>,
}

impl Response {
    /// A successful answer to request `request_id` carrying `data`.
    pub fn success(request_id: u64, data: Vec<(String, String)>) -> (r: Response)
        ensures
            r.request_id == request_id,
            r.response_type == ResponseType::Success,
            r.success,
            r.data == data,
            r.error is None,
    {
        Response { request_id, response_type: ResponseType::Success, success: true, data, error: None }
    }

    /// A failed answer to request `request_id`, with the error's text.
    pub fn error(request_id: u64, error: String) -> (r: Response)
        ensures
            r.request_id == request_id,
            r.response_type == ResponseType::Error,
            !r.success,
            r.data@.len() == 0,
            r.error == Some(error),
    {
        Response { request_id, response_type: ResponseType::Error, success: false, data: Vec::new(), error: Some(error) }
    }
}

/// Where the local socket between backend and preview lives.
pub struct UnixSocketTransport {
    socket_path: String,
}

impl UnixSocketTransport {
    pub closed spec fn spec_socket_path(&self) -> Seq<char> {
        self.socket_path@
    }

    /// A transport over the socket at `socket_path`.
    pub fn new(socket_path: String) -> (r: UnixSocketTransport)
        ensures
            r.spec_socket_path() == socket_path@,
    {
        UnixSocketTransport { socket_path }
    }

    /// The socket's path.
    pub fn socket_path(&self) -> (r: &String)
        ensures
            r@ == self.spec_socket_path(),
    {
        &self.socket_path
    }
}

} // verus!
