use vstd::prelude::*;
use vstd::string::*;
use vstd::slice::slice_to_vec;
use vstd::utf8::encode_utf8;
use crate::error::{ObtError, Status};
use crate::files::{escape_message, locate, location, within};
use crate::fixture::{decimal, decimal_digits, params_view, rendering, substituted, Param};
use crate::path::components_view;
use crate::response::{ContentType, Response};
use crate::route::{entry_bindings, is_first_match, Bindings, Dispatch, Handler, Method, RouteEntry};

verus! {

/// What the transport is to do for a request.
#[derive(Debug)]
pub enum Action {
    /// Send this answer.
    Answer(Response),
    /// Read the fixture in the named file and render it with these parameters.
    Fixture { file: &'static str, params: Vec<Param> },
    /// Read the file at this place below the working directory and serve it.
    File { target: Vec<Vec<u8>> },
    /// Take the body and run the save-slot synchronisation.
    Sync,
    /// Upgrade the connection to a WebSocket.
    WebSocket,
    /// Send the page for this error.
    Fail(ObtError),
}

/// What an `Action` holds.
pub ghost enum Plan {
    Answer { status: u16, content_type: ContentType, body: Seq<u8> },
    Fixture { file: Seq<char>, params: Bindings },
    File { target: Seq<Seq<u8>> },
    Sync,
    WebSocket,
    Fail { status: Status, description: Seq<char> },
}

impl View for Action {
    type V = Plan;

    open spec fn view(&self) -> Plan {
        match self {
            Action::Answer(response) => Plan::Answer {
                status: response.status,
                content_type: response.content_type,
                body: response.body@,
            },
            Action::Fixture { file, params } => Plan::Fixture {
                file: file@,
                params: params_view(params@),
            },
            Action::File { target } => Plan::File { target: components_view(target@) },
            Action::Sync => Plan::Sync,
            Action::WebSocket => Plan::WebSocket,
            Action::Fail(e) => Plan::Fail { status: e.status(), description: e.description() },
        }
    }
}

/// The name of the placeholder that stands for a freshly generated number.
pub open spec fn random_number_name() -> Seq<u8> {
    encode_utf8("random_number"@)
}

/// The parameters that a fixture is rendered with: the values taken from the
/// path, and after them, where the route asks for it, the decimal text of `number`.
pub open spec fn fixture_bindings(bound: Bindings, random_number: bool, number: u32) -> Bindings {
    if random_number {
        bound.push((random_number_name(), decimal(number as nat)))
    } else {
        bound
    }
}

/// The route that a dispatch found: its place in the catalogue, what
/// answers it and the bindings of its path.
pub open spec fn dispatch_view(d: Dispatch) -> Option<(int, Handler, Bindings)> {
    match d {
        Dispatch::Route { index, handler, params } => Some(
            (index as int, handler, params_view(params@)),
        ),
        Dispatch::Default => None,
    }
}

/// What is done for a request, given the route that takes it (`None`: no
/// route does), the working directory, the request path and the number
/// generated for this request.
pub open spec fn planned(
    route: Option<(int, Handler, Bindings)>,
    work_dir: Seq<Seq<u8>>,
    path: Seq<u8>,
    number: u32,
) -> Plan {
    match route {
        Some((_, Handler::Liveness, _)) => Plan::Answer {
            status: 200,
            content_type: ContentType::PlainText,
            body: Seq::empty(),
        },
        Some((_, Handler::WebSocket, _)) => Plan::WebSocket,
        Some((_, Handler::Sync, _)) => Plan::Sync,
        Some((_, Handler::Fixture { file, random_number }, bound)) => Plan::Fixture {
            file: file@,
            params: fixture_bindings(bound, random_number, number),
        },
        None => if within(work_dir, location(work_dir, path)) {
            Plan::File { target: location(work_dir, path) }
        } else {
            Plan::Fail { status: Status::Forbidden, description: escape_message() }
        },
    }
}

/// Decides what is done for a request that `dispatch` has matched against
/// the catalogue. `number` is a number generated for this request; it is
/// used by the one route that puts a random number into its fixture.
pub fn plan(d: Dispatch, work_dir: &Vec<Vec<u8>>, path: &[u8], number: u32) -> (r: Action)
    ensures
        r@ == planned(dispatch_view(d), components_view(work_dir@), path@, number),
{
    match d {
        Dispatch::Route { index, handler, params } => match handler {
            Handler::Liveness => Action::Answer(Response::ok(ContentType::PlainText, Vec::new())),
            Handler::WebSocket => Action::WebSocket,
            Handler::Sync => Action::Sync,
            Handler::Fixture { file, random_number } => {
                let mut params = params;
                if random_number {
                    let ghost bound = params_view(params@);
                    let generated = Param {
                        name: slice_to_vec("random_number".as_bytes()),
                        value: decimal_digits(number),
                    };
                    assert(params_view(params@.push(generated)) == bound.push(generated@));
                    params.push(generated);
                }
                Action::Fixture { file, params }
            },
        },
        Dispatch::Default => match locate(work_dir, path) {
            Ok(target) => Action::File { target },
            Err(e) => Action::Fail(e),
        },
    }
}

/// A request that matches a declared fixture route is answered from that
/// route's file, with the values of the path's named segments as
/// parameters: the decoded bytes as MessagePack where the file holds valid
/// base64, and otherwise its text as JSON with the value of each parameter
/// in the place of its placeholders.
pub proof fn lemma_declared_route_serves_fixture(
    table: Seq<RouteEntry>,
    method: Method,
    path: Seq<u8>,
    d: Dispatch,
    work_dir: Seq<Seq<u8>>,
    number: u32,
    contents: Seq<u8>,
    decoded: Option<Seq<u8>>,
)
    requires
        is_first_match(d, table, method, path),
        d is Route,
        table[d->index as int].handler is Fixture,
    ensures
        ({
            let entry = table[d->index as int];
            let bound = entry_bindings(entry, method, path)->Some_0;
            let params = fixture_bindings(bound, entry.handler->random_number, number);
            &&& planned(dispatch_view(d), work_dir, path, number) == Plan::Fixture {
                file: entry.handler->file@,
                params,
            }
            &&& decoded is Some ==> rendering(contents, params, decoded, None) == Ok::<
                (ContentType, Seq<u8>),
                (Status, Seq<char>),
            >((ContentType::MsgPack, decoded->Some_0))
            &&& decoded is None ==> rendering(contents, params, decoded, None) == Ok::<
                (ContentType, Seq<u8>),
                (Status, Seq<char>),
            >((ContentType::Json, substituted(contents, params)))
        }),
{
}

} // verus!
