use vstd::prelude::*;

verus! {

#[verifier::external_type_specification]
#[verifier::external_body]
pub struct ExIoError(std::io::Error);

#[verifier::external_type_specification]
#[verifier::external_body]
pub struct ExXmlDeError(quick_xml::de::DeError);

#[verifier::external_type_specification]
#[verifier::external_body]
pub struct ExJoinError(tokio::task::JoinError);

#[verifier::external_type_specification]
#[verifier::external_body]
pub struct ExJsonError(serde_json::Error);

#[verifier::external_type_specification]
#[verifier::external_body]
pub struct ExBase64DecodeError(base64::DecodeError);

#[verifier::external_type_specification]
#[verifier::external_body]
pub struct ExInvalidHeaderValue(reqwest::header::InvalidHeaderValue);

#[verifier::external_type_specification]
#[verifier::external_body]
pub struct ExReqwestError(reqwest::Error);

#[verifier::external_type_specification]
#[verifier::external_body]
pub struct ExMiddlewareError(reqwest_middleware::Error);

/// Errors of the program as a whole.
#[derive(Debug)]
pub enum CatError {
    Socket(SocketError),
    RSS(quick_xml::de::DeError),
    Join(tokio::task::JoinError),
    /// a bangumi page or RSS feed could not be read
    Parse(String),
    /// an RSS link is no URL; the parser's message
    RssLinkParse(String),
    Cloud(CloudError),
    GetCookie(String),
    Deserialize(serde_json::Error),
    Exit,
}

/// Errors of the cloud drive.
#[derive(Debug)]
pub enum CloudError {
    Decrypt(base64::DecodeError),
    CookiesParse(reqwest::header::InvalidHeaderValue),
    Cookies(String),
    Deserialize(serde_json::Error),
    Api(String),
    Download(DownloadError),
    Param(String),
    DownloadErrors(Vec<DownloadError>),
}

/// Errors of a download.
#[derive(Debug)]
pub enum DownloadError {
    IO(std::io::Error),
    Request(RequestError),
    Path(String),
    ContentLength(String),
    /// the file's SHA-1 differs from the one the drive announced
    Hash { expected: String, found: String },
}

/// Errors of the unix socket.
#[derive(Debug)]
pub enum SocketError {
    IO(std::io::Error),
    Other(String),
}

/// Errors of an HTTP request.
#[derive(Debug)]
pub enum RequestError {
    Client(reqwest::Error),
    Middleware(reqwest_middleware::Error),
    Status(String),
}

impl From<String> for SocketError {
    fn from(value: String) -> (r: Self) {
        SocketError::Other(value)
    }
}

impl vstd::std_specs::convert::FromSpecImpl<String> for SocketError {
    open spec fn obeys_from_spec() -> bool {
        true
    }

    open spec fn from_spec(value: String) -> Self {
        SocketError::Other(value)
    }
}

impl From<std::io::Error> for SocketError {
    fn from(value: std::io::Error) -> (r: Self) {
        SocketError::IO(value)
    }
}

impl vstd::std_specs::convert::FromSpecImpl<std::io::Error> for SocketError {
    open spec fn obeys_from_spec() -> bool {
        true
    }

    open spec fn from_spec(value: std::io::Error) -> Self {
        SocketError::IO(value)
    }
}

impl From<String> for CloudError {
    fn from(value: String) -> (r: Self) {
        CloudError::Api(value)
    }
}

impl vstd::std_specs::convert::FromSpecImpl<String> for CloudError {
    open spec fn obeys_from_spec() -> bool {
        true
    }

    open spec fn from_spec(value: String) -> Self {
        CloudError::Api(value)
    }
}

impl From<String> for RequestError {
    fn from(value: String) -> (r: Self) {
        RequestError::Status(value)
    }
}

impl vstd::std_specs::convert::FromSpecImpl<String> for RequestError {
    open spec fn obeys_from_spec() -> bool {
        true
    }

    open spec fn from_spec(value: String) -> Self {
        RequestError::Status(value)
    }
}

impl From<String> for DownloadError {
    fn from(value: String) -> (r: Self) {
        DownloadError::Request(RequestError::Status(value))
    }
}

impl vstd::std_specs::convert::FromSpecImpl<String> for DownloadError {
    open spec fn obeys_from_spec() -> bool {
        true
    }

    open spec fn from_spec(value: String) -> Self {
        DownloadError::Request(RequestError::Status(value))
    }
}

impl From<DownloadError> for CloudError {
    fn from(value: DownloadError) -> (r: Self) {
        CloudError::Download(value)
    }
}

impl vstd::std_specs::convert::FromSpecImpl<DownloadError> for CloudError {
    open spec fn obeys_from_spec() -> bool {
        true
    }

    open spec fn from_spec(value: DownloadError) -> Self {
        CloudError::Download(value)
    }
}

impl From<DownloadError> for CatError {
    fn from(value: DownloadError) -> (r: Self) {
        CatError::Cloud(CloudError::Download(value))
    }
}

impl vstd::std_specs::convert::FromSpecImpl<DownloadError> for CatError {
    open spec fn obeys_from_spec() -> bool {
        true
    }

    open spec fn from_spec(value: DownloadError) -> Self {
        CatError::Cloud(CloudError::Download(value))
    }
}

impl From<CloudError> for CatError {
    fn from(value: CloudError) -> (r: Self) {
        CatError::Cloud(value)
    }
}

impl vstd::std_specs::convert::FromSpecImpl<CloudError> for CatError {
    open spec fn obeys_from_spec() -> bool {
        true
    }

    open spec fn from_spec(value: CloudError) -> Self {
        CatError::Cloud(value)
    }
}

impl From<SocketError> for CatError {
    fn from(value: SocketError) -> (r: Self) {
        CatError::Socket(value)
    }
}

impl vstd::std_specs::convert::FromSpecImpl<SocketError> for CatError {
    open spec fn obeys_from_spec() -> bool {
        true
    }

    open spec fn from_spec(value: SocketError) -> Self {
        CatError::Socket(value)
    }
}

impl From<std::io::Error> for CatError {
    fn from(value: std::io::Error) -> (r: Self) {
        CatError::Socket(SocketError::IO(value))
    }
}

impl vstd::std_specs::convert::FromSpecImpl<std::io::Error> for CatError {
    open spec fn obeys_from_spec() -> bool {
        true
    }

    open spec fn from_spec(value: std::io::Error) -> Self {
        CatError::Socket(SocketError::IO(value))
    }
}

impl From<std::io::Error> for DownloadError {
    fn from(value: std::io::Error) -> (r: Self) {
        DownloadError::IO(value)
    }
}

impl vstd::std_specs::convert::FromSpecImpl<std::io::Error> for DownloadError {
    open spec fn obeys_from_spec() -> bool {
        true
    }

    open spec fn from_spec(value: std::io::Error) -> Self {
        DownloadError::IO(value)
    }
}

impl From<reqwest::Error> for DownloadError {
    fn from(value: reqwest::Error) -> (r: Self) {
        DownloadError::Request(RequestError::Client(value))
    }
}

impl vstd::std_specs::convert::FromSpecImpl<reqwest::Error> for DownloadError {
    open spec fn obeys_from_spec() -> bool {
        true
    }

    open spec fn from_spec(value: reqwest::Error) -> Self {
        DownloadError::Request(RequestError::Client(value))
    }
}

impl From<reqwest_middleware::Error> for DownloadError {
    fn from(value: reqwest_middleware::Error) -> (r: Self) {
        DownloadError::Request(RequestError::Middleware(value))
    }
}

impl vstd::std_specs::convert::FromSpecImpl<reqwest_middleware::Error> for DownloadError {
    open spec fn obeys_from_spec() -> bool {
        true
    }

    open spec fn from_spec(value: reqwest_middleware::Error) -> Self {
        DownloadError::Request(RequestError::Middleware(value))
    }
}

impl From<reqwest::Error> for CloudError {
    fn from(value: reqwest::Error) -> (r: Self) {
        CloudError::Download(DownloadError::Request(RequestError::Client(value)))
    }
}

impl vstd::std_specs::convert::FromSpecImpl<reqwest::Error> for CloudError {
    open spec fn obeys_from_spec() -> bool {
        true
    }

    open spec fn from_spec(value: reqwest::Error) -> Self {
        CloudError::Download(DownloadError::Request(RequestError::Client(value)))
    }
}

impl From<reqwest_middleware::Error> for CloudError {
    fn from(value: reqwest_middleware::Error) -> (r: Self) {
        CloudError::Download(DownloadError::Request(RequestError::Middleware(value)))
    }
}

impl vstd::std_specs::convert::FromSpecImpl<reqwest_middleware::Error> for CloudError {
    open spec fn obeys_from_spec() -> bool {
        true
    }

    open spec fn from_spec(value: reqwest_middleware::Error) -> Self {
        CloudError::Download(DownloadError::Request(RequestError::Middleware(value)))
    }
}

impl From<reqwest::Error> for CatError {
    fn from(value: reqwest::Error) -> (r: Self) {
        CatError::Cloud(CloudError::Download(DownloadError::Request(RequestError::Client(value))))
    }
}

impl vstd::std_specs::convert::FromSpecImpl<reqwest::Error> for CatError {
    open spec fn obeys_from_spec() -> bool {
        true
    }

    open spec fn from_spec(value: reqwest::Error) -> Self {
        CatError::Cloud(CloudError::Download(DownloadError::Request(RequestError::Client(value))))
    }
}

impl From<reqwest_middleware::Error> for CatError {
    fn from(value: reqwest_middleware::Error) -> (r: Self) {
        CatError::Cloud(CloudError::Download(DownloadError::Request(RequestError::Middleware(value))))
    }
}

impl vstd::std_specs::convert::FromSpecImpl<reqwest_middleware::Error> for CatError {
    open spec fn obeys_from_spec() -> bool {
        true
    }

    open spec fn from_spec(value: reqwest_middleware::Error) -> Self {
        CatError::Cloud(CloudError::Download(DownloadError::Request(RequestError::Middleware(value))))
    }
}

impl From<serde_json::Error> for CatError {
    fn from(value: serde_json::Error) -> (r: Self) {
        CatError::Deserialize(value)
    }
}

impl vstd::std_specs::convert::FromSpecImpl<serde_json::Error> for CatError {
    open spec fn obeys_from_spec() -> bool {
        true
    }

    open spec fn from_spec(value: serde_json::Error) -> Self {
        CatError::Deserialize(value)
    }
}

impl From<serde_json::Error> for CloudError {
    fn from(value: serde_json::Error) -> (r: Self) {
        CloudError::Deserialize(value)
    }
}

impl vstd::std_specs::convert::FromSpecImpl<serde_json::Error> for CloudError {
    open spec fn obeys_from_spec() -> bool {
        true
    }

    open spec fn from_spec(value: serde_json::Error) -> Self {
        CloudError::Deserialize(value)
    }
}

impl From<quick_xml::de::DeError> for CatError {
    fn from(value: quick_xml::de::DeError) -> (r: Self) {
        CatError::RSS(value)
    }
}

impl vstd::std_specs::convert::FromSpecImpl<quick_xml::de::DeError> for CatError {
    open spec fn obeys_from_spec() -> bool {
        true
    }

    open spec fn from_spec(value: quick_xml::de::DeError) -> Self {
        CatError::RSS(value)
    }
}

impl From<tokio::task::JoinError> for CatError {
    fn from(value: tokio::task::JoinError) -> (r: Self) {
        CatError::Join(value)
    }
}

impl vstd::std_specs::convert::FromSpecImpl<tokio::task::JoinError> for CatError {
    open spec fn obeys_from_spec() -> bool {
        true
    }

    open spec fn from_spec(value: tokio::task::JoinError) -> Self {
        CatError::Join(value)
    }
}

impl From<base64::DecodeError> for CloudError {
    fn from(value: base64::DecodeError) -> (r: Self) {
        CloudError::Decrypt(value)
    }
}

impl vstd::std_specs::convert::FromSpecImpl<base64::DecodeError> for CloudError {
    open spec fn obeys_from_spec() -> bool {
        true
    }

    open spec fn from_spec(value: base64::DecodeError) -> Self {
        CloudError::Decrypt(value)
    }
}

impl From<reqwest::header::InvalidHeaderValue> for CloudError {
    fn from(value: reqwest::header::InvalidHeaderValue) -> (r: Self) {
        CloudError::CookiesParse(value)
    }
}

impl vstd::std_specs::convert::FromSpecImpl<reqwest::header::InvalidHeaderValue> for CloudError {
    open spec fn obeys_from_spec() -> bool {
        true
    }

    open spec fn from_spec(value: reqwest::header::InvalidHeaderValue) -> Self {
        CloudError::CookiesParse(value)
    }
}

} // verus!
