//! Routing: from the context of a request to the plan of its response.

use crate::context::{RequestContext, RequestContextView};
use crate::text::same_text;
use vstd::prelude::*;
use vstd::string::StringExecFns;

verus! {

/// The body of a response.
#[derive(Debug, PartialEq, Eq)]
pub enum Body {
    /// A text, sent as a JSON string.
    Text(String),
    /// An error of this module's own: an object with the one member `err`.
    Error { err: String },
    /// A failure that the host reported: an object with the members `err`
    /// and `err_desc`.
    Upstream { err: String, err_desc: String },
}

/// The mathematical value of a [`Body`].
pub enum BodyView {
    Text(Seq<char>),
    Error { err: Seq<char> },
    Upstream { err: Seq<char>, err_desc: Seq<char> },
}

impl View for Body {
    type V = BodyView;

    open spec fn view(&self) -> BodyView {
        match self {
            Body::Text(text) => BodyView::Text(text@),
            Body::Error { err } => BodyView::Error { err: err@ },
            Body::Upstream { err, err_desc } => BodyView::Upstream {
                err: err@,
                err_desc: err_desc@,
            },
        }
    }
}

/// What is to be sent back: a status, a body, and headers in the order in
/// which they are to be written.
#[derive(Debug, PartialEq, Eq)]
pub struct ResponsePlan {
    pub status: u16,
    pub body: Body,
    pub headers: Vec<(String, String)>,
}

/// The mathematical value of a [`ResponsePlan`].
pub struct ResponsePlanView {
    pub status: u16,
    pub body: BodyView,
    pub headers: Seq<(Seq<char>, Seq<char>)>,
}

impl View for ResponsePlan {
    type V = ResponsePlanView;

    open spec fn view(&self) -> ResponsePlanView {
        ResponsePlanView {
            status: self.status,
            body: self.body@,
            headers: self.headers.deep_view(),
        }
    }
}

/// The page that greets the caller in the name of `host`.
pub open spec fn greeting_text(host: Seq<char>) -> Seq<char> {
    "<h1>Hello from "@ + host + "!</h1>"@
}

/// The plan for the one page that is served.
pub open spec fn greeting_plan(host: Seq<char>) -> ResponsePlanView {
    ResponsePlanView {
        status: 200,
        body: BodyView::Text(greeting_text(host)),
        headers: seq![("Content-Type"@, "text/html; charset=utf-8"@)],
    }
}

/// The plan for everything else that is asked for.
pub open spec fn not_found_plan() -> ResponsePlanView {
    ResponsePlanView {
        status: 404,
        body: BodyView::Error { err: "resource not found"@ },
        headers: seq![("Content-Type"@, "application/json"@)],
    }
}

/// The plan that relays a failure reported by the host.
pub open spec fn upstream_plan(err: Seq<char>, err_desc: Seq<char>) -> ResponsePlanView {
    ResponsePlanView {
        status: 500,
        body: BodyView::Upstream { err, err_desc },
        headers: Seq::empty(),
    }
}

/// The routing table. A failure reported by the host is relayed; `GET /` is
/// greeted; every other request is not found. Method and path are compared
/// exactly, case included.
pub open spec fn plan_for(ctx: RequestContextView) -> ResponsePlanView {
    match ctx {
        RequestContextView::Upstream { err, err_desc } => upstream_plan(err, err_desc),
        RequestContextView::Request { method, path, host } => if method == "GET"@ && path
            == "/"@ {
            greeting_plan(host)
        } else {
            not_found_plan()
        },
    }
}

/// Writes the greeting for `host`.
pub fn greeting(host: &str) -> (r: String)
    ensures
        r@ == greeting_text(host@),
{
    let mut page = "<h1>Hello from ".to_owned();
    page.append(host);
    page.append("!</h1>");
    page
}

/// Picks the response for a request.
pub fn route(ctx: RequestContext) -> (plan: ResponsePlan)
    ensures
        plan@ == plan_for(ctx@),
{
    match ctx {
        RequestContext::Upstream { err, err_desc } => {
            let plan = ResponsePlan {
                status: 500,
                body: Body::Upstream { err, err_desc },
                headers: Vec::new(),
            };
            assert(plan.headers.deep_view() =~= Seq::empty());
            plan
        },
        RequestContext::Request { method, path, host } => {
            if same_text(method.as_str(), "GET") && same_text(path.as_str(), "/") {
                let mut headers: Vec<(String, String)> = Vec::new();
                headers.push(("Content-Type".to_owned(), "text/html; charset=utf-8".to_owned()));
                assert(headers.deep_view() =~= seq![
                    ("Content-Type"@, "text/html; charset=utf-8"@),
                ]);
                ResponsePlan { status: 200, body: Body::Text(greeting(host.as_str())), headers }
            } else {
                let mut headers: Vec<(String, String)> = Vec::new();
                headers.push(("Content-Type".to_owned(), "application/json".to_owned()));
                assert(headers.deep_view() =~= seq![("Content-Type"@, "application/json"@)]);
                ResponsePlan {
                    status: 404,
                    body: Body::Error { err: "resource not found".to_owned() },
                    headers,
                }
            }
        },
    }
}

/// Every request is answered in one of two ways: `GET /` with the greeting,
/// anything else with "not found" -- status 404, the error
/// `resource not found`, and a JSON content type.
pub proof fn lemma_route_is_total(ctx: RequestContextView)
    requires
        ctx is Request,
    ensures
        ctx->method == "GET"@ && ctx->path == "/"@ ==> plan_for(ctx) == greeting_plan(ctx->host),
        !(ctx->method == "GET"@ && ctx->path == "/"@) ==> plan_for(ctx) == not_found_plan(),
        greeting_plan(ctx->host).status == 200,
        not_found_plan().status == 404,
        not_found_plan().body == (BodyView::Error { err: "resource not found"@ }),
{
}

} // verus!
