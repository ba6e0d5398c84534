//! The dispatcher's decision logic: the single serialized consumer
//! that owns the handler domain. Here stand the parts a machine can
//! check: how declared parameters bind, in what order queued requests
//! are served, how the connection budget gates acceptance, and how a
//! middleware short-circuits the handler.
//!
//! The foreign calls themselves — invoking a handler capability,
//! decoding a body — happen outside; the functions here take what
//! came back and decide the next step, whatever that was.

use vstd::prelude::*;

use crate::into_response::{convert_to_response, spec_convert, HandlerValue, HandlerValueView};
use crate::request::Request;
use crate::response::{Response, ResponseView};
use crate::routing::{Route, RouteView};
use crate::status::Status;
use crate::strutil::str_eq;

verus! {

/// Where one declared parameter's value comes from.
pub enum ParamSource {
    /// The shared application-wide data object.
    AppData,
    /// The request object itself.
    RequestObj,
    /// The continuation reference to the original handler.
    Continuation,
    /// A value captured from the path.
    PathValue(String),
    /// The decoded request body.
    BodyValue,
}

/// The model of a parameter source.
pub enum ParamSourceView {
    AppData,
    RequestObj,
    Continuation,
    PathValue(Seq<char>),
    BodyValue,
}

impl View for ParamSource {
    type V = ParamSourceView;

    open spec fn view(&self) -> ParamSourceView {
        match self {
            ParamSource::AppData => ParamSourceView::AppData,
            ParamSource::RequestObj => ParamSourceView::RequestObj,
            ParamSource::Continuation => ParamSourceView::Continuation,
            ParamSource::PathValue(v) => ParamSourceView::PathValue(v@),
            ParamSource::BodyValue => ParamSourceView::BodyValue,
        }
    }
}

impl DeepView for ParamSource {
    type V = ParamSourceView;

    open spec fn deep_view(&self) -> ParamSourceView {
        self@
    }
}

/// Why a dispatch could not be carried out.
#[derive(Clone, Copy, Debug, PartialEq, Eq, Structural)]
pub enum InvocationError {
    /// A declared parameter name could be resolved from no source.
    UnresolvedParam,
}

/// The value of the first capture under `name`, if any.
pub open spec fn lookup_param(params: Seq<(Seq<char>, Seq<char>)>, name: Seq<char>) -> Option<
    Seq<char>,
>
    decreases params.len(),
{
    if params.len() == 0 {
        None
    } else if params[0].0 == name {
        Some(params[0].1)
    } else {
        lookup_param(params.drop_first(), name)
    }
}

/// How the declared names bind, in declaration order: the reserved
/// contextual names first — the shared data, the request object, the
/// continuation — then the path captures, and the first name bound by
/// none of those receives the decoded body; at most one name receives
/// the body, and a name that no source resolves fails the dispatch.
pub open spec fn spec_bind(
    args: Seq<Seq<char>>,
    params: Seq<(Seq<char>, Seq<char>)>,
    has_app_data: bool,
    body_available: bool,
) -> Option<Seq<(Seq<char>, ParamSourceView)>>
    decreases args.len(),
{
    if args.len() == 0 {
        Some(Seq::empty())
    } else {
        let name = args[0];
        if name == "app_data"@ {
            if has_app_data {
                match spec_bind(args.drop_first(), params, has_app_data, body_available) {
                    None => None,
                    Some(rest) => Some(seq![(name, ParamSourceView::AppData)] + rest),
                }
            } else {
                None
            }
        } else if name == "request"@ {
            match spec_bind(args.drop_first(), params, has_app_data, body_available) {
                None => None,
                Some(rest) => Some(seq![(name, ParamSourceView::RequestObj)] + rest),
            }
        } else if name == "next"@ {
            match spec_bind(args.drop_first(), params, has_app_data, body_available) {
                None => None,
                Some(rest) => Some(seq![(name, ParamSourceView::Continuation)] + rest),
            }
        } else {
            match lookup_param(params, name) {
                Some(v) => match spec_bind(args.drop_first(), params, has_app_data,
                body_available) {
                    None => None,
                    Some(rest) => Some(seq![(name, ParamSourceView::PathValue(v))] + rest),
                },
                None => {
                    if body_available {
                        match spec_bind(args.drop_first(), params, has_app_data, false) {
                            None => None,
                            Some(rest) => Some(seq![(name, ParamSourceView::BodyValue)] + rest),
                        }
                    } else {
                        None
                    }
                },
            }
        }
    }
}

/// Looks a name up among the captures.
fn lookup_param_exec(params: &Vec<(String, String)>, name: &str) -> (r: Option<String>)
    ensures
        match r {
            Some(v) => lookup_param(params.deep_view(), name@) == Some(v@),
            None => lookup_param(params.deep_view(), name@) is None,
        },
{
    let mut i: usize = 0;
    proof {
        assert(params.deep_view().skip(0) =~= params.deep_view());
    }
    while i < params.len()
        invariant
            i <= params@.len(),
            lookup_param(params.deep_view(), name@) == lookup_param(
                params.deep_view().skip(i as int),
                name@,
            ),
        decreases params@.len() - i,
    {
        proof {
            assert(params.deep_view().skip(i as int)[0] == params@[i as int].deep_view());
            assert(params.deep_view().skip(i as int).drop_first() =~= params.deep_view().skip(
                i as int + 1,
            ));
        }
        if str_eq(params[i].0.as_str(), name) {
            return Some(params[i].1.clone());
        }
        i = i + 1;
    }
    proof {
        assert(params.deep_view().skip(params@.len() as int) =~= Seq::<(Seq<char>, Seq<
            char,
        >)>::empty());
    }
    None
}

/// Binds the declared names of `args[from..]`.
fn bind_from(
    args: &Vec<String>,
    params: &Vec<(String, String)>,
    has_app_data: bool,
    body_available: bool,
    from: usize,
) -> (r: Result<Vec<(String, ParamSource)>, InvocationError>)
    requires
        from <= args@.len(),
    ensures
        match r {
            Ok(bound) => spec_bind(
                args.deep_view().skip(from as int),
                params.deep_view(),
                has_app_data,
                body_available,
            ) == Some(bound.deep_view()),
            Err(e) => spec_bind(
                args.deep_view().skip(from as int),
                params.deep_view(),
                has_app_data,
                body_available,
            ) is None && e == InvocationError::UnresolvedParam,
        },
    decreases args@.len() - from,
{
    if from == args.len() {
        let bound: Vec<(String, ParamSource)> = Vec::new();
        proof {
            assert(bound.deep_view() =~= Seq::<(Seq<char>, ParamSourceView)>::empty());
            assert(args.deep_view().skip(from as int) =~= Seq::<Seq<char>>::empty());
        }
        Ok(bound)
    } else {
        proof {
            assert(args.deep_view().skip(from as int)[0] == args@[from as int]@);
            assert(args.deep_view().skip(from as int).drop_first() =~= args.deep_view().skip(
                from as int + 1,
            ));
        }
        let name = &args[from];
        let source: ParamSource;
        let body_left: bool;
        if str_eq(name.as_str(), "app_data") {
            if !has_app_data {
                return Err(InvocationError::UnresolvedParam);
            }
            source = ParamSource::AppData;
            body_left = body_available;
        } else if str_eq(name.as_str(), "request") {
            source = ParamSource::RequestObj;
            body_left = body_available;
        } else if str_eq(name.as_str(), "next") {
            source = ParamSource::Continuation;
            body_left = body_available;
        } else {
            match lookup_param_exec(params, name.as_str()) {
                Some(v) => {
                    source = ParamSource::PathValue(v);
                    body_left = body_available;
                },
                None => {
                    if !body_available {
                        return Err(InvocationError::UnresolvedParam);
                    }
                    source = ParamSource::BodyValue;
                    body_left = false;
                },
            }
        }
        match bind_from(args, params, has_app_data, body_left, from + 1) {
            Err(e) => Err(e),
            Ok(rest) => {
                let mut bound: Vec<(String, ParamSource)> = Vec::new();
                bound.push((name.clone(), source));
                let mut rest_v = rest;
                bound.append(&mut rest_v);
                proof {
                    assert(bound.deep_view() =~= seq![
                        bound@[0].deep_view(),
                    ] + spec_bind(
                        args.deep_view().skip(from as int + 1),
                        params.deep_view(),
                        has_app_data,
                        body_left,
                    )->Some_0);
                }
                Ok(bound)
            },
        }
    }
}

/// Binds the declared names of a route's schema.
pub fn bind_params(
    args: &Vec<String>,
    params: &Vec<(String, String)>,
    has_app_data: bool,
    body_available: bool,
) -> (r: Result<Vec<(String, ParamSource)>, InvocationError>)
    ensures
        match r {
            Ok(bound) => spec_bind(
                args.deep_view(),
                params.deep_view(),
                has_app_data,
                body_available,
            ) == Some(bound.deep_view()),
            Err(e) => spec_bind(args.deep_view(), params.deep_view(), has_app_data,
            body_available) is None && e == InvocationError::UnresolvedParam,
        },
{
    proof {
        assert(args.deep_view().skip(0) =~= args.deep_view());
    }
    bind_from(args, params, has_app_data, body_available, 0)
}

/// What came back from the handler domain: a value, or a fault
/// raised while running there.
pub enum HandlerOutcome {
    Value(HandlerValue),
    Fault(String),
}

/// The model of a handler outcome.
pub enum HandlerOutcomeView {
    Value(HandlerValueView),
    Fault(Seq<char>),
}

impl View for HandlerOutcome {
    type V = HandlerOutcomeView;

    open spec fn view(&self) -> HandlerOutcomeView {
        match self {
            HandlerOutcome::Value(v) => HandlerOutcomeView::Value(v@),
            HandlerOutcome::Fault(m) => HandlerOutcomeView::Fault(m@),
        }
    }
}

/// The response a finished invocation yields: the conversion protocol
/// for a value, and the mandatory containment of a fault as a 500
/// whose body carries the diagnostic.
pub open spec fn spec_complete(o: HandlerOutcomeView) -> ResponseView {
    match o {
        HandlerOutcomeView::Value(v) => spec_convert(v),
        HandlerOutcomeView::Fault(m) => ResponseView {
            status: 500,
            content_type: "text/plain"@,
            body: m,
        },
    }
}

/// Turns a handler outcome into the response sent back: a fault never
/// unwinds past the dispatcher; it becomes a 500.
pub fn complete_invocation(o: HandlerOutcome) -> (r: Response)
    ensures
        r@ == spec_complete(o@),
{
    match o {
        HandlerOutcome::Value(v) => convert_to_response(v),
        HandlerOutcome::Fault(m) => Response::new(Status(500), m, "text/plain".to_owned()),
    }
}

/// The dispatcher's next obligation for one dequeued request.
pub enum DispatchStep {
    /// Invoke the middleware with these bindings; the continuation
    /// stands among them or is handed along by the runtime.
    CallMiddleware(Vec<(String, ParamSource)>),
    /// Invoke the handler with these bindings.
    CallHandler(Vec<(String, ParamSource)>),
    /// Nothing to invoke: send this response.
    Done(Response),
}

/// The model of a dispatch step.
pub enum DispatchStepView {
    CallMiddleware(Seq<(Seq<char>, ParamSourceView)>),
    CallHandler(Seq<(Seq<char>, ParamSourceView)>),
    Done(ResponseView),
}

impl View for DispatchStep {
    type V = DispatchStepView;

    open spec fn view(&self) -> DispatchStepView {
        match self {
            DispatchStep::CallMiddleware(b) => DispatchStepView::CallMiddleware(b.deep_view()),
            DispatchStep::CallHandler(b) => DispatchStepView::CallHandler(b.deep_view()),
            DispatchStep::Done(r) => DispatchStepView::Done(r@),
        }
    }
}

/// The diagnostic sent when a declared name resolves from no source.
pub open spec fn spec_unresolved_response() -> ResponseView {
    ResponseView {
        status: 500,
        content_type: "text/plain"@,
        body: "Unresolved required parameter"@,
    }
}

/// The first step for a dequeued request: bind the declared names;
/// an unresolved name answers 500 at once; otherwise the middleware
/// is invoked when the router has one, else the handler.
pub fn plan_dispatch(
    route: &Route,
    params: &Vec<(String, String)>,
    has_app_data: bool,
    body_available: bool,
    has_middleware: bool,
) -> (r: DispatchStep)
    ensures
        ({
            let bound = spec_bind(
                route@.args,
                params.deep_view(),
                has_app_data,
                body_available,
            );
            match bound {
                None => r@ == DispatchStepView::Done(spec_unresolved_response()),
                Some(b) => r@ == if has_middleware {
                    DispatchStepView::CallMiddleware(b)
                } else {
                    DispatchStepView::CallHandler(b)
                },
            }
        }),
{
    match bind_params(&route.args, params, has_app_data, body_available) {
        Err(_) => {
            let resp = Response::new(
                Status(500),
                "Unresolved required parameter".to_owned(),
                "text/plain".to_owned(),
            );
            DispatchStep::Done(resp)
        },
        Ok(bound) => {
            if has_middleware {
                DispatchStep::CallMiddleware(bound)
            } else {
                DispatchStep::CallHandler(bound)
            }
        },
    }
}

/// What the middleware did: answered with its own value, or invoked
/// the continuation to reach the handler.
pub enum MiddlewareAction {
    Respond(HandlerValue),
    CallNext,
}

/// The model of a middleware action.
pub enum MiddlewareActionView {
    Respond(HandlerValueView),
    CallNext,
}

impl View for MiddlewareAction {
    type V = MiddlewareActionView;

    open spec fn view(&self) -> MiddlewareActionView {
        match self {
            MiddlewareAction::Respond(v) => MiddlewareActionView::Respond(v@),
            MiddlewareAction::CallNext => MiddlewareActionView::CallNext,
        }
    }
}

/// The step after the middleware returned: its own value is final —
/// the handler is never invoked for this request — and only an
/// explicit continuation call reaches the handler.
pub open spec fn spec_after_middleware(
    action: MiddlewareActionView,
    bound: Seq<(Seq<char>, ParamSourceView)>,
) -> DispatchStepView {
    match action {
        MiddlewareActionView::Respond(v) => DispatchStepView::Done(spec_convert(v)),
        MiddlewareActionView::CallNext => DispatchStepView::CallHandler(bound),
    }
}

/// Decides what follows the middleware's return.
pub fn after_middleware(action: MiddlewareAction, bound: Vec<(String, ParamSource)>) -> (r:
    DispatchStep)
    ensures
        r@ == spec_after_middleware(action@, bound.deep_view()),
{
    match action {
        MiddlewareAction::Respond(v) => DispatchStep::Done(convert_to_response(v)),
        MiddlewareAction::CallNext => DispatchStep::CallHandler(bound),
    }
}

/// A middleware that answers for itself short-circuits: the step
/// after it is final, whatever the bindings, and is never a handler
/// invocation.
pub proof fn lemma_middleware_short_circuit(
    v: HandlerValueView,
    bound: Seq<(Seq<char>, ParamSourceView)>,
)
    ensures
        spec_after_middleware(MiddlewareActionView::Respond(v), bound)
            == DispatchStepView::Done(spec_convert(v)),
        !(spec_after_middleware(MiddlewareActionView::Respond(v), bound)
            is CallHandler),
        !(spec_after_middleware(MiddlewareActionView::Respond(v), bound)
            is CallMiddleware),
{
}

/// One queued request: the parsed request, the matched route and its
/// captures cloned into owned values, the identifier of the one-shot
/// reply channel, and the serial the queue stamped at enqueue time.
pub struct ProcessRequest {
    pub serial: u64,
    pub request: Request,
    pub route: Route,
    pub params: Vec<(String, String)>,
    pub reply: u64,
}

/// The model of a queued request.
pub struct ProcessRequestView {
    pub serial: u64,
    pub request: crate::request::RequestView,
    pub route: RouteView,
    pub params: Seq<(Seq<char>, Seq<char>)>,
    pub reply: u64,
}

impl View for ProcessRequest {
    type V = ProcessRequestView;

    open spec fn view(&self) -> ProcessRequestView {
        ProcessRequestView {
            serial: self.serial,
            request: self.request@,
            route: self.route@,
            params: self.params.deep_view(),
            reply: self.reply,
        }
    }
}

/// The dispatcher's inbox: requests from all connection workers,
/// served strictly in enqueue order. Serials are stamped at enqueue
/// and grow; the front of the queue always carries the least one.
pub struct DispatchQueue {
    pub items: Vec<ProcessRequest>,
    pub next_serial: u64,
}

impl DispatchQueue {
    /// The queue's invariant: serials strictly increase along the
    /// queue and stay below the next to be stamped.
    pub open spec fn wf(&self) -> bool {
        &&& forall|i: int, j: int|
            0 <= i < j < self.items@.len() ==> (#[trigger] self.items@[i].serial) < (
            #[trigger] self.items@[j].serial)
        &&& forall|i: int|
            0 <= i < self.items@.len() ==> (#[trigger] self.items@[i].serial)
                < self.next_serial
    }

    /// An empty inbox.
    pub fn new() -> (r: DispatchQueue)
        ensures
            r.wf(),
            r.items@.len() == 0,
            r.next_serial == 0,
    {
        DispatchQueue { items: Vec::new(), next_serial: 0 }
    }

    /// How many requests wait.
    pub fn len(&self) -> (r: usize)
        ensures
            r == self.items@.len(),
    {
        self.items.len()
    }

    /// Stamps a request with the next serial and appends it.
    pub fn enqueue(
        &mut self,
        request: Request,
        route: Route,
        params: Vec<(String, String)>,
        reply: u64,
    ) -> (serial: u64)
        requires
            old(self).wf(),
            old(self).next_serial < u64::MAX,
        ensures
            final(self).wf(),
            serial == old(self).next_serial,
            final(self).next_serial == old(self).next_serial + 1,
            final(self).items@.len() == old(self).items@.len() + 1,
            final(self).items@.last()@ == (ProcessRequestView {
                serial,
                request: request@,
                route: route@,
                params: params.deep_view(),
                reply,
            }),
            forall|i: int|
                0 <= i < old(self).items@.len() ==> final(self).items@[i]
                    == old(self).items@[i],
    {
        let serial = self.next_serial;
        let ticket = ProcessRequest { serial, request, route, params, reply };
        self.items.push(ticket);
        self.next_serial = self.next_serial + 1;
        serial
    }

    /// Takes the longest-waiting request: the front of the queue,
    /// whose serial is below every serial still queued.
    pub fn dequeue(&mut self) -> (r: Option<ProcessRequest>)
        requires
            old(self).wf(),
        ensures
            final(self).wf(),
            final(self).next_serial == old(self).next_serial,
            match r {
                Some(t) => {
                    &&& old(self).items@.len() > 0
                    &&& t == old(self).items@[0]
                    &&& final(self).items@ == old(self).items@.drop_first()
                    &&& forall|i: int|
                        0 <= i < final(self).items@.len() ==> t.serial
                            < (#[trigger] final(self).items@[i].serial)
                },
                None => {
                    &&& old(self).items@.len() == 0
                    &&& final(self).items@ == old(self).items@
                },
            },
    {
        if self.items.len() == 0 {
            None
        } else {
            let t = self.items.remove(0);
            proof {
                assert(self.items@ =~= old(self).items@.drop_first());
            }
            Some(t)
        }
    }
}

/// Requests leave the inbox in enqueue order: of two queued
/// requests, the earlier-enqueued one carries the smaller serial, so
/// the dispatcher — which always takes the least serial next — serves
/// it first.
pub proof fn lemma_fifo_order(q: &DispatchQueue, i: int, j: int)
    requires
        q.wf(),
        0 <= i < j < q.items@.len(),
    ensures
        q.items@[i].serial < q.items@[j].serial,
{
}

/// The connection budget: a counting pool of permits. A worker that
/// finds no permit free is not refused: it waits, and acceptance
/// resumes when a permit returns.
#[derive(Clone, Copy, Debug, PartialEq, Eq, Structural)]
pub struct PermitPool {
    pub available: usize,
    pub capacity: usize,
}

/// A pool is well formed when no more permits are out than exist.
pub open spec fn pool_wf(p: PermitPool) -> bool {
    p.available <= p.capacity
}

/// What acquiring does: one permit leaves when one is free, and
/// nothing changes when none is.
pub open spec fn spec_try_acquire(p: PermitPool) -> (PermitPool, bool) {
    if p.available > 0 {
        (PermitPool { available: (p.available - 1) as usize, capacity: p.capacity }, true)
    } else {
        (p, false)
    }
}

/// What releasing does: the permit returns.
pub open spec fn spec_release(p: PermitPool) -> PermitPool {
    PermitPool { available: (p.available + 1) as usize, capacity: p.capacity }
}

impl PermitPool {
    /// A full pool of `capacity` permits.
    pub fn new(capacity: usize) -> (r: PermitPool)
        ensures
            pool_wf(r),
            r.capacity == capacity,
            r.available == capacity,
    {
        PermitPool { available: capacity, capacity }
    }

    /// Takes a permit when one is free.
    pub fn try_acquire(&mut self) -> (r: bool)
        requires
            pool_wf(*old(self)),
        ensures
            pool_wf(*final(self)),
            (*final(self), r) == spec_try_acquire(*old(self)),
    {
        if self.available > 0 {
            self.available = self.available - 1;
            true
        } else {
            false
        }
    }

    /// Returns a permit.
    pub fn release(&mut self)
        requires
            pool_wf(*old(self)),
            old(self).available < old(self).capacity,
        ensures
            pool_wf(*final(self)),
            *final(self) == spec_release(*old(self)),
    {
        self.available = self.available + 1;
    }
}

/// Backpressure with a budget of one: while the first of two
/// simultaneous connections holds the permit, the second acquires
/// nothing; once the first releases, the second acquires.
pub proof fn lemma_backpressure(p: PermitPool)
    requires
        pool_wf(p),
        p.capacity == 1,
        p.available == 1,
    ensures
        ({
            let (held, ok1) = spec_try_acquire(p);
            let (still, ok2) = spec_try_acquire(held);
            let (after, ok3) = spec_try_acquire(spec_release(still));
            ok1 && !ok2 && still == held && ok3
        }),
{
}

} // verus!
