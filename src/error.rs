use vstd::prelude::*;

verus! {

/// Why the gateway could not serve a request.
#[derive(Debug, Clone)]
pub enum ProxyError {
    /// No configured route serves the request path.
    RouteNotFound(String),
    /// The outbound call failed or the backend was unreachable.
    BackendError(String),
    /// The inbound body could not be buffered.
    BodyError(String),
    /// The backend's response could not be reassembled.
    ResponseError(String),
    /// Admission control rejected the request.
    RateLimitExceeded(String),
}

/// The HTTP status that each kind of failure is answered with.
pub open spec fn spec_status(e: ProxyError) -> u16 {
    match e {
        ProxyError::RouteNotFound(_) => 404,
        ProxyError::BackendError(_) => 502,
        ProxyError::BodyError(_) => 400,
        ProxyError::ResponseError(_) => 500,
        ProxyError::RateLimitExceeded(_) => 429,
    }
}

/// The label that opens the message of each kind of failure.
pub open spec fn spec_label(e: ProxyError) -> Seq<char> {
    match e {
        ProxyError::RouteNotFound(_) => "Route not found: "@,
        ProxyError::BackendError(_) => "Backend error: "@,
        ProxyError::BodyError(_) => "Body error: "@,
        ProxyError::ResponseError(_) => "Response error: "@,
        ProxyError::RateLimitExceeded(_) => "Rate limit exceeded: "@,
    }
}

/// The detail carried by a failure.
pub open spec fn spec_detail(e: ProxyError) -> Seq<char> {
    match e {
        ProxyError::RouteNotFound(m) => m@,
        ProxyError::BackendError(m) => m@,
        ProxyError::BodyError(m) => m@,
        ProxyError::ResponseError(m) => m@,
        ProxyError::RateLimitExceeded(m) => m@,
    }
}

impl ProxyError {
    /// The HTTP status of the response that reports this failure.
    pub fn status_code(&self) -> (r: u16)
        ensures
            r == spec_status(*self),
    {
        match self {
            ProxyError::RouteNotFound(_) => 404,
            ProxyError::BackendError(_) => 502,
            ProxyError::BodyError(_) => 400,
            ProxyError::ResponseError(_) => 500,
            ProxyError::RateLimitExceeded(_) => 429,
        }
    }

    /// Whether the client caused this failure (as opposed to the backend or
    /// the gateway itself).
    pub fn is_client_error(&self) -> (r: bool)
        ensures
            r == (spec_status(*self) < 500),
    {
        self.status_code() < 500
    }

    /// The text of the response that reports this failure: its label
    /// followed by its detail.
    pub fn message(&self) -> (r: String)
        ensures
            r@ == spec_label(*self) + spec_detail(*self),
    {
        let (label, detail) = match self {
            ProxyError::RouteNotFound(m) => ("Route not found: ", m),
            ProxyError::BackendError(m) => ("Backend error: ", m),
            ProxyError::BodyError(m) => ("Body error: ", m),
            ProxyError::ResponseError(m) => ("Response error: ", m),
            ProxyError::RateLimitExceeded(m) => ("Rate limit exceeded: ", m),
        };
        String::from_str(label).concat(detail.as_str())
    }
}

} // verus!
