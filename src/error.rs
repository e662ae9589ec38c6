use vstd::prelude::*;

verus! {

/// A failure to extract a request, answered with status 400 and the message as body.
pub enum ParseRequestError {
    /// The request has no `Content-Type` header.
    ExpectContentType,
    /// No alternative of the request accepts this content type.
    ContentTypeNotSupported { content_type: String },
    /// A parameter is missing, malformed or fails its validators.
    ParseParam { name: String, reason: String },
    /// The body does not decode, or fails a validator.
    ParseRequestBody { reason: String },
}

/// The rendered message of an error.
pub open spec fn request_error_message(e: ParseRequestError) -> Seq<char> {
    match e {
        ParseRequestError::ExpectContentType => "The client request does not include the `Content-Type` header."@,
        ParseRequestError::ContentTypeNotSupported { content_type } =>
            "The `Content-Type` requested by the client is not supported: "@ + content_type@,
        ParseRequestError::ParseParam { name, reason } => "Failed to parse parameter `"@ + name@
            + "`: "@ + reason@,
        ParseRequestError::ParseRequestBody { reason } => "Failed to parse a request body: "@
            + reason@,
    }
}

impl ParseRequestError {
    /// The rendered message, used verbatim as the response body.
    pub fn message(&self) -> (r: String)
        ensures
            r@ == request_error_message(*self),
    {
        match self {
            ParseRequestError::ExpectContentType => String::from_str(
                "The client request does not include the `Content-Type` header.",
            ),
            ParseRequestError::ContentTypeNotSupported { content_type } => {
                let mut m = String::from_str(
                    "The `Content-Type` requested by the client is not supported: ",
                );
                m.append(content_type.as_str());
                m
            },
            ParseRequestError::ParseParam { name, reason } => {
                let mut m = String::from_str("Failed to parse parameter `");
                m.append(name.as_str());
                m.append("`: ");
                m.append(reason.as_str());
                assert(m@ =~= request_error_message(*self));
                m
            },
            ParseRequestError::ParseRequestBody { reason } => {
                let mut m = String::from_str("Failed to parse a request body: ");
                m.append(reason.as_str());
                m
            },
        }
    }

    /// The HTTP status of every extraction failure: 400, Bad Request.
    pub fn status(&self) -> (r: u16)
        ensures
            r == 400,
    {
        400
    }
}

} // verus!
