use crate::options::{BorrowedOpenAIModelOptions, OpenAIOptionsView};
use crate::text::optional_str;
use vstd::prelude::*;
use vstd::string::*;

verus! {

/// Why a call fails before or after it reaches the endpoint.
#[derive(Clone, Debug)]
pub enum ChatError {
    /// The effective options name no endpoint. Nothing was sent.
    MissingBaseUrl,
    /// The endpoint answered with a status outside the 2xx range.
    RequestFailed { status: u16, body: String },
}

/// The mathematical value of a [`ChatError`].
pub enum ChatErrorView {
    MissingBaseUrl,
    RequestFailed { status: u16, body: Seq<char> },
}

impl View for ChatError {
    type V = ChatErrorView;

    open spec fn view(&self) -> ChatErrorView {
        match self {
            ChatError::MissingBaseUrl => ChatErrorView::MissingBaseUrl,
            ChatError::RequestFailed { status, body } => ChatErrorView::RequestFailed {
                status: *status,
                body: body@,
            },
        }
    }
}

/// What one call sends: where to, under which credential, and the fields of
/// the body besides the messages.
pub struct RequestPlan<'a> {
    /// The endpoint that receives the POST.
    pub url: &'a str,
    /// The `model` field of the body; unset, the server decides.
    pub model: Option<&'a str>,
    /// The bearer token of the `Authorization` header, where there is one.
    pub bearer: Option<&'a str>,
    /// The `stream` field of the body.
    pub stream: bool,
    /// The `include_usage` field under `stream_options`.
    pub include_usage: bool,
}

/// The mathematical value of a [`RequestPlan`].
pub struct RequestPlanView {
    pub url: Seq<char>,
    pub model: Option<Seq<char>>,
    pub bearer: Option<Seq<char>>,
    pub stream: bool,
    pub include_usage: bool,
}

impl<'a> View for RequestPlan<'a> {
    type V = RequestPlanView;

    open spec fn view(&self) -> RequestPlanView {
        RequestPlanView {
            url: self.url@,
            model: optional_str(self.model),
            bearer: optional_str(self.bearer),
            stream: self.stream,
            include_usage: self.include_usage,
        }
    }
}

/// The request that effective options ask for, or the error where they name
/// no endpoint. Usage is always asked for.
pub open spec fn planned(options: OpenAIOptionsView, stream: bool) -> Result<
    RequestPlanView,
    ChatErrorView,
> {
    match options.base_url {
        Some(url) => Ok(
            RequestPlanView {
                url,
                model: options.model,
                bearer: options.api_key,
                stream,
                include_usage: true,
            },
        ),
        None => Err(ChatErrorView::MissingBaseUrl),
    }
}

/// The value of a planning result.
pub open spec fn plan_result_view(result: Result<RequestPlan<'_>, ChatError>) -> Result<
    RequestPlanView,
    ChatErrorView,
> {
    match result {
        Ok(plan) => Ok(plan@),
        Err(error) => Err(error@),
    }
}

/// Plans the request of one call from its effective options, before anything
/// is sent.
pub fn plan_request<'a>(options: BorrowedOpenAIModelOptions<'a>, stream: bool) -> (result: Result<
    RequestPlan<'a>,
    ChatError,
>)
    ensures
        plan_result_view(result) == planned(options@, stream),
{
    match options.base_url {
        Some(url) => Ok(
            RequestPlan {
                url,
                model: options.model,
                bearer: options.api_key,
                stream,
                include_usage: true,
            },
        ),
        None => Err(ChatError::MissingBaseUrl),
    }
}

/// Whether an HTTP status is in the 2xx range.
pub open spec fn success_status(status: u16) -> bool {
    200 <= status < 300
}

/// Whether the endpoint's answer is to be read as a result.
pub fn is_success(status: u16) -> (success: bool)
    ensures
        success == success_status(status),
{
    200 <= status && status < 300
}

/// The error for an answer whose status is not a success. It carries the
/// status and the text of the body, or no text where the body could not be
/// read.
pub fn request_failed(status: u16, body: Option<String>) -> (error: ChatError)
    ensures
        error@ == (ChatErrorView::RequestFailed {
            status,
            body: match body {
                Some(text) => text@,
                None => Seq::<char>::empty(),
            },
        }),
{
    let body = match body {
        Some(text) => text,
        None => String::new(),
    };
    ChatError::RequestFailed { status, body }
}

} // verus!
