//! Records from the guest, and the messages that they become.
use crate::ipc::IoErrorKind;
use crate::text::{self, same_text};
use vstd::prelude::*;
use vstd::string::StringExecFns;

verus! {

/// The longest record of a guest, in bytes.
pub const MAX_RECORD_BYTES: usize = 2097152;

/// The pane, session and generation that a client is attached to.
#[derive(Debug, Clone, PartialEq, Eq)]
pub struct OmpRoute {
    pub pane_id: String,
    pub omp_session_id: String,
    pub route_generation: u64,
}

/// The content of a route.
pub struct RouteView {
    pub pane_id: Seq<char>,
    pub omp_session_id: Seq<char>,
    pub route_generation: u64,
}

impl View for OmpRoute {
    type V = RouteView;

    open spec fn view(&self) -> RouteView {
        RouteView {
            pane_id: self.pane_id@,
            omp_session_id: self.omp_session_id@,
            route_generation: self.route_generation,
        }
    }
}

impl OmpRoute {
    pub fn same(&self, other: &OmpRoute) -> (same: bool)
        ensures
            same == (self@ == other@),
    {
        same_text(self.pane_id.as_str(), other.pane_id.as_str()) && same_text(
            self.omp_session_id.as_str(),
            other.omp_session_id.as_str(),
        ) && self.route_generation == other.route_generation
    }

    pub fn duplicate(&self) -> (copy: OmpRoute)
        ensures
            copy@ == self@,
    {
        OmpRoute {
            pane_id: self.pane_id.clone(),
            omp_session_id: self.omp_session_id.clone(),
            route_generation: self.route_generation,
        }
    }
}

/// One line from the guest. `frame` is the raw text of its payload.
#[derive(Debug, Clone, PartialEq, Eq)]
pub struct GuestRecord {
    pub t: String,
    pub action: Option<String>,
    pub frame: Option<String>,
    pub mutation: bool,
}

/// The content of a record.
pub struct RecordView {
    pub t: Seq<char>,
    pub action: Option<Seq<char>>,
    pub frame: Option<Seq<char>>,
    pub mutation: bool,
}

impl View for GuestRecord {
    type V = RecordView;

    open spec fn view(&self) -> RecordView {
        RecordView {
            t: self.t@,
            action: text::opt_text(self.action),
            frame: text::opt_text(self.frame),
            mutation: self.mutation,
        }
    }
}

/// Why a guest's record is refused.
#[derive(Debug, Clone, Copy, PartialEq, Eq, Structural)]
pub enum GuestProblem {
    MissingPayload,
    InvalidControl,
    UnknownType,
    TooLarge,
    /// The payload does not fit into a frame.
    OversizedPayload,
}

impl GuestProblem {
    pub open spec fn error_kind(self) -> IoErrorKind {
        if self == GuestProblem::OversizedPayload {
            IoErrorKind::Other
        } else {
            IoErrorKind::InvalidData
        }
    }

    pub open spec fn text(self) -> Seq<char> {
        match self {
            GuestProblem::MissingPayload => "OMP guest bridge frame missing payload"@,
            GuestProblem::InvalidControl => "invalid OMP guest bridge control"@,
            GuestProblem::UnknownType => "unknown OMP guest bridge record type"@,
            GuestProblem::TooLarge => "OMP guest bridge record too large"@,
            GuestProblem::OversizedPayload => "OMP frame payload too large"@,
        }
    }

    pub fn kind(self) -> (kind: IoErrorKind)
        ensures
            kind == self.error_kind(),
    {
        match self {
            GuestProblem::OversizedPayload => IoErrorKind::Other,
            _ => IoErrorKind::InvalidData,
        }
    }

    pub fn message(self) -> (message: &'static str)
        ensures
            message@ == self.text(),
    {
        match self {
            GuestProblem::MissingPayload => "OMP guest bridge frame missing payload",
            GuestProblem::InvalidControl => "invalid OMP guest bridge control",
            GuestProblem::UnknownType => "unknown OMP guest bridge record type",
            GuestProblem::TooLarge => "OMP guest bridge record too large",
            GuestProblem::OversizedPayload => "OMP frame payload too large",
        }
    }
}

/// What a control asks for.
#[derive(Debug, Clone, PartialEq, Eq)]
pub enum OmpControlAction {
    RequestController,
    ReleaseController,
    /// A guest frame that changes the session.
    Mutation { payload: Vec<u8> },
}

/// A message to the server. Frame payloads get their envelope when they are sent.
#[derive(Debug, Clone, PartialEq, Eq)]
pub enum BridgeMessage {
    OmpControl { route: OmpRoute, attachment_epoch: u64, action: OmpControlAction },
    OmpFrame { route: OmpRoute, attachment_epoch: u64, payload: Vec<u8> },
    OmpPaneDetach { route: OmpRoute, attachment_epoch: u64 },
    Detach,
}

/// The content of a control's request.
pub enum ControlActionView {
    RequestController,
    ReleaseController,
    Mutation { payload: Seq<u8> },
}

impl View for OmpControlAction {
    type V = ControlActionView;

    open spec fn view(&self) -> ControlActionView {
        match self {
            OmpControlAction::RequestController => ControlActionView::RequestController,
            OmpControlAction::ReleaseController => ControlActionView::ReleaseController,
            OmpControlAction::Mutation { payload } => ControlActionView::Mutation {
                payload: payload@,
            },
        }
    }
}

/// The content of a message.
pub enum BridgeMessageView {
    OmpControl { route: RouteView, attachment_epoch: u64, action: ControlActionView },
    OmpFrame { route: RouteView, attachment_epoch: u64, payload: Seq<u8> },
    OmpPaneDetach { route: RouteView, attachment_epoch: u64 },
    Detach,
}

impl View for BridgeMessage {
    type V = BridgeMessageView;

    open spec fn view(&self) -> BridgeMessageView {
        match self {
            BridgeMessage::OmpControl { route, attachment_epoch, action } => {
                BridgeMessageView::OmpControl {
                    route: route@,
                    attachment_epoch: *attachment_epoch,
                    action: action@,
                }
            },
            BridgeMessage::OmpFrame { route, attachment_epoch, payload } => {
                BridgeMessageView::OmpFrame {
                    route: route@,
                    attachment_epoch: *attachment_epoch,
                    payload: payload@,
                }
            },
            BridgeMessage::OmpPaneDetach { route, attachment_epoch } => {
                BridgeMessageView::OmpPaneDetach {
                    route: route@,
                    attachment_epoch: *attachment_epoch,
                }
            },
            BridgeMessage::Detach => BridgeMessageView::Detach,
        }
    }
}

/// Which control an action's name asks for.
pub open spec fn control_action(action: Option<Seq<char>>) -> Option<ControlActionView> {
    match action {
        Some(name) => if name == "request-controller"@ {
            Some(ControlActionView::RequestController)
        } else if name == "release-controller"@ {
            Some(ControlActionView::ReleaseController)
        } else {
            None
        },
        None => None,
    }
}

/// What is wrong with a record.
pub open spec fn record_problem(record: RecordView) -> Option<GuestProblem> {
    if record.t == "frame"@ {
        if record.frame is Some {
            None
        } else {
            Some(GuestProblem::MissingPayload)
        }
    } else if record.t == "control"@ {
        if control_action(record.action) is Some {
            None
        } else {
            Some(GuestProblem::InvalidControl)
        }
    } else {
        Some(GuestProblem::UnknownType)
    }
}

/// The message that a record becomes.
pub open spec fn message_of(
    route: RouteView,
    attachment_epoch: u64,
    record: RecordView,
    max_payload: int,
) -> Result<BridgeMessageView, GuestProblem> {
    match record_problem(record) {
        Some(problem) => Err(problem),
        None => if record.t == "control"@ {
            Ok(
                BridgeMessageView::OmpControl {
                    route,
                    attachment_epoch,
                    action: control_action(record.action)->0,
                },
            )
        } else {
            let payload = vstd::utf8::encode_utf8(record.frame->0);
            if payload.len() > max_payload {
                Err(GuestProblem::OversizedPayload)
            } else if record.mutation {
                Ok(
                    BridgeMessageView::OmpControl {
                        route,
                        attachment_epoch,
                        action: ControlActionView::Mutation { payload },
                    },
                )
            } else {
                Ok(BridgeMessageView::OmpFrame { route, attachment_epoch, payload })
            }
        },
    }
}

fn parse_action(action: &Option<String>) -> (parsed: Option<OmpControlAction>)
    ensures
        control_action(text::opt_text(*action)) == (match parsed {
            Some(parsed) => Some(parsed@),
            None => None,
        }),
{
    match action {
        Some(name) => if same_text(name.as_str(), "request-controller") {
            Some(OmpControlAction::RequestController)
        } else if same_text(name.as_str(), "release-controller") {
            Some(OmpControlAction::ReleaseController)
        } else {
            None
        },
        None => None,
    }
}

/// Refuses records that the bridge does not know.
pub fn validate_guest_record(record: &GuestRecord) -> (valid: Result<(), GuestProblem>)
    ensures
        valid == (match record_problem(record@) {
            Some(problem) => Err::<(), GuestProblem>(problem),
            None => Ok(()),
        }),
{
    if same_text(record.t.as_str(), "frame") {
        if record.frame.is_some() {
            Ok(())
        } else {
            Err(GuestProblem::MissingPayload)
        }
    } else if same_text(record.t.as_str(), "control") {
        if parse_action(&record.action).is_some() {
            Ok(())
        } else {
            Err(GuestProblem::InvalidControl)
        }
    } else {
        Err(GuestProblem::UnknownType)
    }
}

/// The payload of a guest frame; one that is longer than a frame may be is refused.
pub fn encode_guest_payload(payload: &[u8], max_payload: usize) -> (encoded: Result<
    Vec<u8>,
    GuestProblem,
>)
    ensures
        match encoded {
            Ok(bytes) => payload@.len() <= max_payload && bytes@ == payload@,
            Err(problem) => payload@.len() > max_payload && problem
                == GuestProblem::OversizedPayload,
        },
{
    if payload.len() > max_payload {
        Err(GuestProblem::OversizedPayload)
    } else {
        Ok(crate::bytes::copied(payload))
    }
}

/// Whether a line was read: not at the end, and an error for a line over the bound.
pub fn guest_read(read: usize) -> (line: Result<bool, GuestProblem>)
    ensures
        line == (if read == 0 {
            Ok::<bool, GuestProblem>(false)
        } else if read > MAX_RECORD_BYTES {
            Err(GuestProblem::TooLarge)
        } else {
            Ok(true)
        }),
{
    if read == 0 {
        Ok(false)
    } else if read > MAX_RECORD_BYTES {
        Err(GuestProblem::TooLarge)
    } else {
        Ok(true)
    }
}

/// Turns a record into the message for the server.
pub fn guest_message(
    route: &OmpRoute,
    attachment_epoch: u64,
    record: &GuestRecord,
    max_payload: usize,
) -> (message: Result<BridgeMessage, GuestProblem>)
    ensures
        message_of(route@, attachment_epoch, record@, max_payload as int) == (match message {
            Ok(message) => Ok::<BridgeMessageView, GuestProblem>(message@),
            Err(problem) => Err(problem),
        }),
{
    if let Err(problem) = validate_guest_record(record) {
        return Err(problem);
    }
    if same_text(record.t.as_str(), "control") {
        proof {
            reveal_strlit("frame");
            reveal_strlit("control");
            assert("frame"@.len() != "control"@.len());
        }
        match parse_action(&record.action) {
            Some(action) => Ok(
                BridgeMessage::OmpControl { route: route.duplicate(), attachment_epoch, action },
            ),
            None => Err(GuestProblem::InvalidControl),
        }
    } else {
        match &record.frame {
            Some(frame) => {
                let payload = match encode_guest_payload(frame.as_str().as_bytes(), max_payload) {
                    Ok(payload) => payload,
                    Err(problem) => return Err(problem),
                };
                if record.mutation {
                    Ok(
                        BridgeMessage::OmpControl {
                            route: route.duplicate(),
                            attachment_epoch,
                            action: OmpControlAction::Mutation { payload },
                        },
                    )
                } else {
                    Ok(BridgeMessage::OmpFrame { route: route.duplicate(), attachment_epoch, payload })
                }
            },
            None => Err(GuestProblem::MissingPayload),
        }
    }
}

/// The digest of SHA-256.
pub uninterp spec fn sha256(bytes: Seq<u8>) -> Seq<u8>;

/// Calls `sha2::Sha256::digest`, the SHA-256 hash of the bytes: a function of the
/// bytes alone, of 32 bytes.
#[verifier::external_body]
pub(crate) fn sha256_of(bytes: &[u8]) -> (digest: Vec<u8>)
    ensures
        digest@ == sha256(bytes@),
        digest@.len() == 32,
{
    <sha2::Sha256 as sha2::Digest>::digest(bytes).to_vec()
}

/// What a room is made of: the server's socket and the attachment, separated by
/// NUL characters.
pub open spec fn room_identity(
    socket_path: Seq<char>,
    route: RouteView,
    attachment_epoch: u64,
) -> Seq<char> {
    socket_path + seq!['\0'] + route.pane_id + seq!['\0'] + route.omp_session_id + seq!['\0']
        + text::decimal(route.route_generation as nat) + seq!['\0'] + text::decimal(
        attachment_epoch as nat,
    )
}

/// The name of the room for a digest of its identity.
pub open spec fn room_name(digest: Seq<u8>) -> Seq<char> {
    "herdr-"@ + crate::random::hex_of(digest)
}

/// The name of a room, from the digest of its identity.
pub fn room_id_of(digest: &[u8]) -> (room_id: String)
    ensures
        room_id@ == room_name(digest@),
{
    let mut room_id = "herdr-".to_owned();
    room_id.append(crate::random::hex_string(digest).as_str());
    room_id
}

/// The room that the guest joins.
pub fn room_id(socket_path: &str, route: &OmpRoute, attachment_epoch: u64) -> (room_id: String)
    ensures
        room_id@ == room_name(
            sha256(
                vstd::utf8::encode_utf8(
                    room_identity(socket_path@, route@, attachment_epoch),
                ),
            ),
        ),
{
    let mut identity = socket_path.to_owned();
    text::push_char(&mut identity, '\0');
    identity.append(route.pane_id.as_str());
    text::push_char(&mut identity, '\0');
    identity.append(route.omp_session_id.as_str());
    text::push_char(&mut identity, '\0');
    identity.append(text::decimal_text(route.route_generation as u128).as_str());
    text::push_char(&mut identity, '\0');
    identity.append(text::decimal_text(attachment_epoch as u128).as_str());
    assert(identity@ =~= room_identity(socket_path@, route@, attachment_epoch));
    let digest = sha256_of(identity.as_str().as_bytes());
    room_id_of(digest.as_slice())
}

/// How many random bytes a bridge token holds.
pub const BRIDGE_TOKEN_BYTES: usize = 32;

/// A fresh token by which the guest proves that it was started by this client; or
/// the error of the random source.
pub fn bridge_token() -> (token: Result<String, String>)
    ensures
        token matches Ok(token) ==> exists|bytes: Seq<u8>| #[trigger]
            crate::identity::url_safe_base64(bytes) == token@ && bytes.len() == BRIDGE_TOKEN_BYTES,
{
    match crate::random::random_bytes(BRIDGE_TOKEN_BYTES) {
        Ok(bytes) => bridge_token_of(Ok(bytes)),
        Err(error) => bridge_token_of(Err(crate::random::random_error_text(error))),
    }
}

/// The token for what the random source gave: its bytes as URL-safe base64, or the
/// text of its error where it gave none.
pub fn bridge_token_of(filled: Result<Vec<u8>, String>) -> (token: Result<String, String>)
    requires
        filled matches Ok(bytes) ==> bytes@.len() == BRIDGE_TOKEN_BYTES,
    ensures
        match filled {
            Ok(bytes) => token matches Ok(token) && token@ == crate::identity::url_safe_base64(
                bytes@,
            ),
            Err(error) => token == Err::<String, String>(error),
        },
{
    match filled {
        Ok(bytes) => Ok(crate::identity::encode_url_safe(bytes.as_slice())),
        Err(error) => Err(error),
    }
}

/// The guest's command line.
pub open spec fn guest_arguments(
    address: Seq<char>,
    room_id: Seq<char>,
    token: Seq<char>,
) -> Seq<Seq<char>> {
    seq![
        "__collab-guest-bridge"@,
        address,
        room_id,
        token,
        "--no-tools"@,
        "--no-lsp"@,
        "--no-skills"@,
        "--no-rules"@,
        "--no-extensions"@,
    ]
}

pub fn guest_args(address: &str, room_id: &str, token: &str) -> (args: Vec<String>)
    ensures
        crate::json::texts(args@) == guest_arguments(address@, room_id@, token@),
{
    let mut args: Vec<String> = Vec::new();
    args.push("__collab-guest-bridge".to_owned());
    args.push(address.to_owned());
    args.push(room_id.to_owned());
    args.push(token.to_owned());
    args.push("--no-tools".to_owned());
    args.push("--no-lsp".to_owned());
    args.push("--no-skills".to_owned());
    args.push("--no-rules".to_owned());
    args.push("--no-extensions".to_owned());
    assert(crate::json::texts(args@) =~= guest_arguments(address@, room_id@, token@));
    args
}

/// What a guest sends reaches the server unchanged: the payload of a frame is the
/// record's text, byte for byte.
pub proof fn law_payload_kept(
    route: RouteView,
    attachment_epoch: u64,
    record: RecordView,
    max_payload: int,
)
    requires
        record.t == "frame"@,
        record.frame matches Some(frame) && vstd::utf8::encode_utf8(frame).len() <= max_payload,
    ensures
        message_of(route, attachment_epoch, record, max_payload) == Ok::<
            BridgeMessageView,
            GuestProblem,
        >(
            if record.mutation {
                BridgeMessageView::OmpControl {
                    route,
                    attachment_epoch,
                    action: ControlActionView::Mutation {
                        payload: vstd::utf8::encode_utf8(record.frame->0),
                    },
                }
            } else {
                BridgeMessageView::OmpFrame {
                    route,
                    attachment_epoch,
                    payload: vstd::utf8::encode_utf8(record.frame->0),
                }
            },
        ),
{
    reveal_strlit("frame");
    reveal_strlit("control");
    assert("frame"@.len() != "control"@.len());
}

/// A control of the guest asks the server for exactly what it names, for the guest's own
/// attachment.
pub proof fn law_controls_are_passed_on(
    route: RouteView,
    attachment_epoch: u64,
    record: RecordView,
    max_payload: int,
)
    requires
        record.t == "control"@,
    ensures
        ({
            let message = message_of(route, attachment_epoch, record, max_payload);
            let asked = |action: ControlActionView|
                Ok::<BridgeMessageView, GuestProblem>(
                    BridgeMessageView::OmpControl { route, attachment_epoch, action },
                );
            &&& record.action == Some("request-controller"@) ==> message == asked(
                ControlActionView::RequestController,
            )
            &&& record.action == Some("release-controller"@) ==> message == asked(
                ControlActionView::ReleaseController,
            )
            &&& record.action != Some("request-controller"@) && record.action != Some(
                "release-controller"@,
            ) ==> message == Err::<BridgeMessageView, GuestProblem>(GuestProblem::InvalidControl)
        }),
{
    reveal_strlit("frame");
    reveal_strlit("control");
    reveal_strlit("request-controller");
    reveal_strlit("release-controller");
    assert("frame"@.len() == 5 && "control"@.len() == 7);
    assert("request-controller"@[2] == 'q' && "release-controller"@[2] == 'l');
}

/// A record that is neither frame nor control, a frame without a payload and one whose payload
/// is too large are refused, each with its own reason.
pub proof fn law_bad_records_are_refused(
    route: RouteView,
    attachment_epoch: u64,
    record: RecordView,
    max_payload: int,
)
    ensures
        ({
            let message = message_of(route, attachment_epoch, record, max_payload);
            let refused = |problem: GuestProblem| Err::<BridgeMessageView, GuestProblem>(problem);
            &&& record.t != "frame"@ && record.t != "control"@ ==> message == refused(
                GuestProblem::UnknownType,
            )
            &&& record.t == "frame"@ && record.frame is None ==> message == refused(
                GuestProblem::MissingPayload,
            )
            &&& record.t == "frame"@ && record.frame is Some && vstd::utf8::encode_utf8(
                record.frame->0,
            ).len() > max_payload ==> message == refused(GuestProblem::OversizedPayload)
        }),
{
    reveal_strlit("frame");
    reveal_strlit("control");
    assert("frame"@.len() == 5 && "control"@.len() == 7);
}

/// The guest is told where to connect, which room to join and its token, in that order, and
/// is kept from tools and from the user's own setup.
pub proof fn law_guest_is_told_its_room(address: Seq<char>, room_id: Seq<char>, token: Seq<char>)
    ensures
        ({
            let args = guest_arguments(address, room_id, token);
            &&& args[0] == "__collab-guest-bridge"@
            &&& args[1] == address && args[2] == room_id && args[3] == token
            &&& args.contains("--no-tools"@) && args.contains("--no-lsp"@) && args.contains(
                "--no-skills"@,
            ) && args.contains("--no-rules"@) && args.contains("--no-extensions"@)
            &&& args.len() == 9
        }),
{
    let args = guest_arguments(address, room_id, token);
    assert(args[4] == "--no-tools"@ && args[5] == "--no-lsp"@ && args[6] == "--no-skills"@
        && args[7] == "--no-rules"@ && args[8] == "--no-extensions"@);
}

/// A room belongs to one server and one attachment: its identity begins with the socket and
/// the pane, and ends with the generation and the epoch.
pub proof fn law_room_is_of_one_attachment(
    socket_path: Seq<char>,
    route: RouteView,
    attachment_epoch: u64,
    digest: Seq<u8>,
)
    ensures
        ({
            let identity = room_identity(socket_path, route, attachment_epoch);
            let nul = seq!['\0'];
            &&& (socket_path + nul + route.pane_id + nul + route.omp_session_id + nul).is_prefix_of(
                identity,
            )
            &&& (nul + text::decimal(route.route_generation as nat) + nul + text::decimal(
                attachment_epoch as nat,
            )).is_suffix_of(identity)
            &&& identity.len() == socket_path.len() + route.pane_id.len()
                + route.omp_session_id.len() + text::decimal(route.route_generation as nat).len()
                + text::decimal(attachment_epoch as nat).len() + 4
            &&& room_name(digest) == "herdr-"@ + crate::random::hex_of(digest)
        }),
{
    let identity = room_identity(socket_path, route, attachment_epoch);
    let nul = seq!['\0'];
    let start = socket_path + nul + route.pane_id + nul + route.omp_session_id + nul;
    let end = nul + text::decimal(route.route_generation as nat) + nul + text::decimal(
        attachment_epoch as nat,
    );
    assert(start =~= identity.subrange(0, start.len() as int));
    assert(end =~= identity.subrange(identity.len() - end.len(), identity.len() as int));
}

} // verus!
