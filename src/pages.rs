//! The pages the proxy answers with when it does not forward.
use vstd::prelude::*;
use crate::text::{
    chars_of, decimal, decimal_string, replace_all, replaced, string_of,
};

verus! {

/// A response the proxy writes itself.
#[derive(Debug, Clone)]
pub struct PageResponse {
    pub status_code: u16,
    /// Whether the page is sent with `Content-Type: text/html`.
    pub html_content_type: bool,
    pub body: String,
}

/// The status, message and title an error page shows.
#[derive(Debug, Clone)]
pub struct HttpMessageError {
    pub status_code: u16,
    pub message: String,
    pub title: String,
}

pub const ERROR_PAGE_HEAD: &'static str = "<html>\n        <head>\n            <title>";

pub const ERROR_PAGE_STATUS: &'static str =
    "</title>\n        </head>\n        <body>\n            <div style=\"display: flex; justify-content: center; align-items: center; height: 100vh;\">\n                <div style=\"text-align: center;\">\n                    <h1>";

pub const ERROR_PAGE_MESSAGE: &'static str = "</h1>\n                    <p>";

pub const ERROR_PAGE_TAIL: &'static str =
    "</p>\n                </div>\n            </div>\n        </body>\n    </html>";

/// The page shown when no forwarding rule is configured and no static page is.
pub const DEFAULT_PAGE: &'static str =
    "<html><head><title>404 Not Found</title></head><body><h1>404 Not Found</h1><p>The requested URL was not found on this server.</p></body></html>";

/// The rate-limit page used when none is installed.
pub const DEFAULT_RATE_LIMIT_TEMPLATE: &'static str =
    "<html><head><title>429 Too Many Requests</title></head><body><h1>429 Too Many Requests</h1><p>Too many requests from {{user_ip}}. Try again in {{seconds}} seconds.</p></body></html>";

pub const USER_IP_PLACEHOLDER: &'static str = "{{user_ip}}";

pub const SECONDS_PLACEHOLDER: &'static str = "{{seconds}}";

/// The body of the error page with this status, message and title.
pub open spec fn error_page_body(status_code: u16, message: Seq<char>, title: Seq<char>) -> Seq<
    char,
> {
    ERROR_PAGE_HEAD@ + title + ERROR_PAGE_STATUS@ + decimal(status_code as nat)
        + ERROR_PAGE_MESSAGE@ + message + ERROR_PAGE_TAIL@
}

/// `p` answers with `status_code` and exactly `body`.
pub open spec fn is_page(p: PageResponse, status_code: u16, html: bool, body: Seq<char>) -> bool {
    p.status_code == status_code && p.html_content_type == html && p.body@ == body
}

/// The rate-limit page: the template with the client's address and the
/// seconds to wait put in for their placeholders.
pub open spec fn rate_limit_body(template: Seq<char>, user_ip: Seq<char>, seconds: nat) -> Seq<
    char,
> {
    replaced(
        replaced(template, USER_IP_PLACEHOLDER@, user_ip),
        SECONDS_PLACEHOLDER@,
        decimal(seconds),
    )
}

/// The HTML error page with this status, message and title.
pub fn http_error_response(status_code: u16, message: String, title: String) -> (r: PageResponse)
    ensures
        is_page(r, status_code, true, error_page_body(status_code, message@, title@)),
{
    let error = HttpMessageError { status_code, message, title };
    let mut body = String::from_str(ERROR_PAGE_HEAD);
    body.append(error.title.as_str());
    body.append(ERROR_PAGE_STATUS);
    let code = decimal_string(error.status_code as u64);
    body.append(code.as_str());
    body.append(ERROR_PAGE_MESSAGE);
    body.append(error.message.as_str());
    body.append(ERROR_PAGE_TAIL);
    PageResponse { status_code, html_content_type: true, body }
}

/// The built-in page answered, with status 404, when no forwarding rule is
/// configured and no static page is.
pub fn show_default_page() -> (r: PageResponse)
    ensures
        is_page(r, 404, false, DEFAULT_PAGE@),
{
    PageResponse { status_code: 404, html_content_type: false, body: String::from_str(DEFAULT_PAGE) }
}

/// A configured static page, answered with status 404.
pub fn static_page(content: String) -> (r: PageResponse)
    ensures
        is_page(r, 404, false, content@),
{
    PageResponse { status_code: 404, html_content_type: false, body: content }
}

/// The rate-limit page for `user_ip`, who may retry after `seconds`.
pub fn render_rate_limit_page(template: &str, user_ip: &str, seconds: u64) -> (r: PageResponse)
    ensures
        is_page(r, 429, false, rate_limit_body(template@, user_ip@, seconds as nat)),
{
    proof {
        reveal_strlit("{{user_ip}}");
        reveal_strlit("{{seconds}}");
    }
    let t = chars_of(template);
    let ip_pat = chars_of(USER_IP_PLACEHOLDER);
    let ip = chars_of(user_ip);
    let with_ip = replace_all(&t, &ip_pat, &ip);
    let secs_pat = chars_of(SECONDS_PLACEHOLDER);
    let mut secs: Vec<char> = Vec::new();
    crate::text::push_decimal(seconds, &mut secs);
    assert(secs@ =~= decimal(seconds as nat));
    let body = replace_all(&with_ip, &secs_pat, &secs);
    PageResponse { status_code: 429, html_content_type: false, body: string_of(&body) }
}

} // verus!
