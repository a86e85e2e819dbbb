//! What this library takes on trust from the display: the types of
//! `wayland-server` and of the screencopy protocol that pass through it, and
//! the calls that it makes into them. Nothing here is proved.

use crate::lifecycle::CompletionToken;
use crate::protocol::ManagerHandle;
use crate::protocol::MANAGER_VERSION;
use vstd::prelude::*;
use wayland_protocols_wlr::screencopy::v1::server::zwlr_screencopy_frame_v1::ZwlrScreencopyFrameV1;
use wayland_protocols_wlr::screencopy::v1::server::zwlr_screencopy_manager_v1::Request;
use wayland_protocols_wlr::screencopy::v1::server::zwlr_screencopy_manager_v1::ZwlrScreencopyManagerV1;
use wayland_server::backend::ClientId;
use wayland_server::backend::GlobalId;
use wayland_server::protocol::wl_output::WlOutput;
use wayland_server::DataInit;
use wayland_server::Dispatch;
use wayland_server::Display;
use wayland_server::GlobalDispatch;
use wayland_server::New;
use wayland_server::Resource;

verus! {

/// `wayland_server::Display`: the display that serves clients with the state
/// `D`.
#[verifier::external_type_specification]
#[verifier::external_body]
#[verifier::reject_recursive_types(D)]
pub struct ExDisplay<D: 'static>(Display<D>);

/// `wayland_server::backend::GlobalId`: names a global of the display.
#[verifier::external_type_specification]
#[verifier::external_body]
pub struct ExGlobalId(GlobalId);

/// `wayland_server::backend::ClientId`: names a client connection.
#[verifier::external_type_specification]
#[verifier::external_body]
pub struct ExClientId(ClientId);

/// `wayland_server::New`: an object that a request created and that is not
/// initialized yet.
#[verifier::external_type_specification]
#[verifier::external_body]
#[verifier::reject_recursive_types(I)]
pub struct ExNew<I>(New<I>);

/// `wayland_server::DataInit`: initializes the objects that a request created.
#[verifier::external_type_specification]
#[verifier::external_body]
#[verifier::reject_recursive_types(D)]
pub struct ExDataInit<'a, D: 'static>(DataInit<'a, D>);

/// The manager resource of the screencopy protocol.
#[verifier::external_type_specification]
#[verifier::external_body]
pub struct ExManager(ZwlrScreencopyManagerV1);

/// The frame resource of the screencopy protocol.
#[verifier::external_type_specification]
#[verifier::external_body]
pub struct ExFrame(ZwlrScreencopyFrameV1);

/// The output resource of the core protocol.
#[verifier::external_type_specification]
#[verifier::external_body]
pub struct ExOutput(WlOutput);

/// The requests of the manager interface, as the display parses them.
#[verifier::external_type_specification]
#[verifier::external_body]
pub struct ExManagerRequest(Request);

/// `GlobalId::clone`: the copy names the same global.
pub assume_specification[ <GlobalId as Clone>::clone ](id: &GlobalId) -> (copy: GlobalId)
    ensures
        copy == *id,
;

/// No character of `text` is NUL.
pub open spec fn no_nul(text: Seq<char>) -> bool {
    forall|i: int| 0 <= i < text.len() ==> text[i] != '\0'
}

/// The reading of a parsed manager request: the variant that it is, with the
/// arguments that it holds, and with the protocol id of the output that it
/// names.
pub uninterp spec fn reading(request: Request) -> ManagerCall;

/// A manager request with its arguments, told apart by variant.
#[derive(Debug)]
pub enum ManagerCall {
    /// `capture_output`. `output_id` is the protocol id of `output`: the
    /// number under which the client knows the output.
    CaptureOutput {
        frame: New<ZwlrScreencopyFrameV1>,
        overlay_cursor: i32,
        output: WlOutput,
        output_id: u32,
    },
    /// `capture_output_region`.
    CaptureOutputRegion,
    /// `destroy`.
    Destroy,
    /// A request that a later version of the protocol may add.
    Other,
}

/// `ClientId::eq`: two ids are equal exactly when they name the same client
/// connection.
#[verifier::external_body]
pub(crate) fn same_client(a: &ClientId, b: &ClientId) -> (same: bool)
    ensures
        same == (*a == *b),
{
    a.eq(b)
}

/// `Display::handle` and `DisplayHandle::create_global` for the manager
/// interface: the display registers the global with `version`, announces it
/// to the clients that are connected, and returns its id. The call panics for
/// a version above that of the interface; `requires` leaves those out, and
/// every version but the one that this library advertises with them. The call
/// also panics for a state type other than that of the display, which cannot
/// occur here because the display is taken with its type. Nothing is claimed
/// of the id: it is for the display to choose.
#[verifier::external_body]
pub(crate) fn create_manager_global<D>(display: &Display<D>, version: u32) -> (id: GlobalId) where
    D: GlobalDispatch<ZwlrScreencopyManagerV1, ()> + 'static,

    requires
        version == MANAGER_VERSION,
{
    display.handle().create_global::<D, ZwlrScreencopyManagerV1, ()>(version, ())
}

/// Takes a parsed manager request apart, and reads the protocol id of the
/// output with `Resource::id` and `ObjectId::protocol_id`. The result depends
/// on the request alone: it is its reading.
#[verifier::external_body]
pub(crate) fn split_request(request: Request) -> (call: ManagerCall)
    ensures
        call == reading(request),
{
    match request {
        Request::CaptureOutput { frame, overlay_cursor, output } => {
            let output_id = output.id().protocol_id();
            ManagerCall::CaptureOutput { frame, overlay_cursor, output, output_id }
        },
        Request::CaptureOutputRegion { .. } => ManagerCall::CaptureOutputRegion,
        Request::Destroy => ManagerCall::Destroy,
        _ => ManagerCall::Other,
    }
}

/// `DataInit::init` on a new manager: the object becomes live and carries
/// `handle` as its user data. Nothing is claimed of the object.
#[verifier::external_body]
pub(crate) fn init_manager<D>(
    data_init: &mut DataInit<'_, D>,
    resource: New<ZwlrScreencopyManagerV1>,
    handle: ManagerHandle,
) where D: Dispatch<ZwlrScreencopyManagerV1, ManagerHandle> + 'static {
    data_init.init(resource, handle);
}

/// `DataInit::post_error` on a new manager: the bind is answered with a
/// protocol error instead of an object. The call stores code and message; the
/// display later sends the message as a C string and panics on a NUL in it,
/// which `requires` leaves out.
#[verifier::external_body]
pub(crate) fn refuse_manager<D>(
    data_init: &mut DataInit<'_, D>,
    resource: New<ZwlrScreencopyManagerV1>,
    code: u32,
    message: &str,
) where D: 'static
    requires
        no_nul(message@),
{
    data_init.post_error(resource, code, message);
}

/// `DataInit::init` on a new frame: the object becomes live, and the object
/// that is returned carries `token` as its user data. Nothing is claimed of the
/// object.
#[verifier::external_body]
pub(crate) fn init_frame<D>(
    data_init: &mut DataInit<'_, D>,
    frame: New<ZwlrScreencopyFrameV1>,
    token: CompletionToken,
) -> (live: ZwlrScreencopyFrameV1) where
    D: Dispatch<ZwlrScreencopyFrameV1, CompletionToken> + 'static,
{
    data_init.init(frame, token)
}

} // verus!
