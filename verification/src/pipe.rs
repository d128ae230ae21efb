//! The named pipe: framing, who may talk to whom, and the course of a request.

use vstd::prelude::*;

use crate::app::EXE_NAME;
use crate::path::{is_sibling, sibling_named};
use crate::protocol::PIPE_MAGIC;
use crate::text::chars_of;

verus! {

/// Security descriptor of the pipe: users read and write, SYSTEM and the
/// administrators have full control, and nothing below medium integrity may
/// write.
pub const PIPE_SDDL: &'static str = "D:(A;;GRGW;;;BU)(A;;GA;;;SY)(A;;GA;;;BA)S:(ML;;NW;;;ME)";

/// Integrity levels, as Windows numbers them.
pub const SECURITY_MANDATORY_MEDIUM_RID: u32 = 0x2000;
pub const SECURITY_MANDATORY_HIGH_RID: u32 = 0x3000;

/// How long the client waits for one read or write, in milliseconds.
pub const CLIENT_IO_TIMEOUT_MS: u32 = 1000;

/// The four bytes of a request.
pub open spec fn frame(command: u8, payload: u8) -> Seq<u8> {
    seq![PIPE_MAGIC[0], PIPE_MAGIC[1], command, payload]
}

/// The command and the payload of four bytes that came in, where they begin with
/// the magic bytes.
pub open spec fn parsed_frame(buf: Seq<u8>) -> Option<(u8, u8)> {
    if buf[0] == PIPE_MAGIC[0] && buf[1] == PIPE_MAGIC[1] {
        Some((buf[2], buf[3]))
    } else {
        None
    }
}

/// Command and payload, side by side.
pub open spec fn pair_of(req: Option<[u8; 2]>) -> Option<(u8, u8)> {
    match req {
        Some(r) => Some((r[0], r[1])),
        None => None,
    }
}

/// Checks the magic bytes of a frame and takes out command and payload. The magic
/// bytes keep out traffic that is not meant for the service; they authenticate
/// nobody.
pub fn parse_request_frame(buf: [u8; 4]) -> (r: Option<[u8; 2]>)
    ensures
        pair_of(r) == parsed_frame(buf@),
{
    if buf[0] == PIPE_MAGIC[0] && buf[1] == PIPE_MAGIC[1] {
        Some([buf[2], buf[3]])
    } else {
        None
    }
}

/// The frame of a request: magic bytes, command, payload.
pub fn build_request_frame(cmd: u8, payload: u8) -> (buf: [u8; 4])
    ensures
        buf@ == frame(cmd, payload),
{
    let buf: [u8; 4] = [PIPE_MAGIC[0], PIPE_MAGIC[1], cmd, payload];
    assert(buf@ =~= frame(cmd, payload));
    buf
}

/// A frame that was built is parsed to its command and payload, and no other four
/// bytes are.
pub proof fn frames_round_trip(command: u8, payload: u8, buf: Seq<u8>)
    requires
        buf.len() == 4,
    ensures
        parsed_frame(frame(command, payload)) == Some((command, payload)),
        parsed_frame(buf) == Some((command, payload)) ==> buf == frame(command, payload),
{
}

/// The request that a read brought.
pub open spec fn request_in(ok: bool, read: u32, buf: Seq<u8>) -> Option<(u8, u8)> {
    if ok && read == 4 {
        parsed_frame(buf)
    } else {
        None
    }
}

/// The request that came in, given whether the read succeeded and how many bytes
/// it brought. A short read or a wrong magic is dropped.
pub fn read_request(ok: bool, read: u32, buf: [u8; 4]) -> (r: Option<[u8; 2]>)
    ensures
        pair_of(r) == request_in(ok, read, buf@),
{
    if ok && read == 4 {
        parse_request_frame(buf)
    } else {
        None
    }
}

/// Whether a response went out in whole.
pub open spec fn response_sent(ok: bool, written: u32) -> bool {
    ok && written == 2
}

/// Whether a response came in in whole.
pub open spec fn response_whole(transferred: Option<u32>) -> bool {
    transferred == Some(2u32)
}

/// Whether a request went out in whole.
pub open spec fn request_sent(transferred: Option<u32>) -> bool {
    transferred == Some(4u32)
}

/// Whether the two bytes of a response went out.
pub fn write2(ok: bool, written: u32) -> (r: bool)
    ensures
        r == response_sent(ok, written),
{
    ok && written == 2
}

/// The response that came in, given how many bytes were read, if any.
pub fn read2(transferred: Option<u32>, buf: [u8; 2]) -> (r: Option<[u8; 2]>)
    ensures
        r == (if response_whole(transferred) {
            Some(buf)
        } else {
            None
        }),
{
    match transferred {
        Some(n) => if n == 2 {
            Some(buf)
        } else {
            None
        },
        None => None,
    }
}

/// Whether the four bytes of a request went out.
pub fn write_request(transferred: Option<u32>) -> (r: bool)
    ensures
        r == request_sent(transferred),
{
    match transferred {
        Some(n) => n == 4,
        None => false,
    }
}

/// Whether a program is this program: the same directory, and the name that the
/// program is installed under.
pub open spec fn is_our_program(path: Seq<char>, own: Seq<char>) -> bool {
    is_sibling(path, own, EXE_NAME@)
}

/// Whether the program at `path` is this program, which runs from `own`.
pub fn our_program(path: &str, own: &str) -> (r: bool)
    ensures
        r == is_our_program(path@, own@),
{
    let path_chars = chars_of(path);
    let own_chars = chars_of(own);
    let name_chars = chars_of(EXE_NAME);
    sibling_named(path_chars.as_slice(), own_chars.as_slice(), name_chars.as_slice())
}

/// Whether an integrity level was read and is `least` or above.
pub open spec fn reaches(level: Option<u32>, least: u32) -> bool {
    level matches Some(rid) && rid >= least
}

/// Whether a client of this integrity level may talk to the service. Where the
/// level could not be read, it may not.
pub fn client_integrity_ok(level: Option<u32>) -> (r: bool)
    ensures
        r == reaches(level, SECURITY_MANDATORY_MEDIUM_RID),
{
    match level {
        Some(rid) => rid >= SECURITY_MANDATORY_MEDIUM_RID,
        None => false,
    }
}

/// Whether a process of this integrity level may do privileged work. Where the
/// level could not be read, it may not.
pub fn own_process_is_privileged(level: Option<u32>) -> (r: bool)
    ensures
        r == reaches(level, SECURITY_MANDATORY_HIGH_RID),
{
    match level {
        Some(rid) => rid >= SECURITY_MANDATORY_HIGH_RID,
        None => false,
    }
}

/// Who the service talks to.
pub open spec fn client_accepted(
    path: Option<Seq<char>>,
    own: Seq<char>,
    level: Option<u32>,
) -> bool {
    &&& path matches Some(p) && is_our_program(p, own)
    &&& reaches(level, SECURITY_MANDATORY_MEDIUM_RID)
}

/// Whether the service talks to a client: it must be this program, at medium
/// integrity or above. Whatever could not be found out counts against it.
pub fn server_validate_client(path: Option<&str>, own: &str, level: Option<u32>) -> (r: bool)
    ensures
        r == client_accepted(
            match path {
                Some(p) => Some(p@),
                None => None,
            },
            own@,
            level,
        ),
{
    match path {
        Some(p) => our_program(p, own) && client_integrity_ok(level),
        None => false,
    }
}

/// Who the client talks to.
pub open spec fn server_accepted(path: Option<Seq<char>>, own: Seq<char>) -> bool {
    path matches Some(p) ==> is_our_program(p, own)
}

/// Whether the client talks to a server: one that is known to be another program
/// is turned down; one that could not be identified is left to the security
/// descriptor of the pipe.
pub fn client_validate_server(path: Option<&str>, own: &str) -> (r: bool)
    ensures
        r == server_accepted(
            match path {
                Some(p) => Some(p@),
                None => None,
            },
            own@,
        ),
{
    match path {
        Some(p) => our_program(p, own),
        None => true,
    }
}

/// Whether a wait ended with a client.
pub open spec fn client_came(event_created: bool, signaled: u32) -> bool {
    event_created && signaled == 0
}

/// Whether a wait ended with a client at the pipe: the wait could be set up, and
/// its first object (not the second, which tells the service to end) was
/// signaled.
pub fn server_wait(event_created: bool, signaled: u32) -> (r: bool)
    ensures
        r == client_came(event_created, signaled),
{
    event_created && signaled == 0
}

/// How the start of a bounded read or write went.
#[derive(Clone, Copy, PartialEq, Eq, Structural, Debug)]
pub enum IoStart {
    Completed,
    Pending,
    Failed,
}

/// What to do next with a bounded read or write.
#[derive(Clone, Copy, PartialEq, Eq, Structural, Debug)]
pub enum IoStep {
    /// Ask how many bytes were transferred.
    Fetch,
    /// Wait until it completes, up to the timeout.
    Wait,
    /// Cancel it and wait until it has ended; it has brought nothing.
    CancelAndDrain,
    /// It has brought nothing.
    GiveUp,
}

/// What follows the start of a read or write.
pub open spec fn after_start(start: IoStart) -> IoStep {
    match start {
        IoStart::Completed => IoStep::Fetch,
        IoStart::Pending => IoStep::Wait,
        IoStart::Failed => IoStep::GiveUp,
    }
}

/// What follows the wait for a read or write.
pub open spec fn after_wait(completed: bool) -> IoStep {
    if completed {
        IoStep::Fetch
    } else {
        IoStep::CancelAndDrain
    }
}

/// What to do once a read or write was started.
pub fn io_started(start: IoStart) -> (step: IoStep)
    ensures
        step == after_start(start),
{
    match start {
        IoStart::Completed => IoStep::Fetch,
        IoStart::Pending => IoStep::Wait,
        IoStart::Failed => IoStep::GiveUp,
    }
}

/// What to do once the wait is over: a read or write that did not complete in time
/// is cancelled, so that nothing touches its buffer afterwards.
pub fn io_waited(completed: bool) -> (step: IoStep)
    ensures
        step == after_wait(completed),
{
    if completed {
        IoStep::Fetch
    } else {
        IoStep::CancelAndDrain
    }
}

/// Where a request of the client stands.
#[derive(Clone, Copy, PartialEq, Eq, Structural, Debug)]
pub enum TransactStep {
    /// Connect to the pipe.
    Connect,
    /// Find out who the server is.
    Validate,
    /// Send the request.
    Send,
    /// Read the response.
    Receive,
    /// Close the connection, with a response or without.
    Close,
    /// There was no connection.
    Unconnected,
}

/// The step that follows, by whether this one succeeded.
pub open spec fn transact_step(step: TransactStep, ok: bool) -> TransactStep {
    match step {
        TransactStep::Connect => if ok {
            TransactStep::Validate
        } else {
            TransactStep::Unconnected
        },
        TransactStep::Validate => if ok {
            TransactStep::Send
        } else {
            TransactStep::Close
        },
        TransactStep::Send => if ok {
            TransactStep::Receive
        } else {
            TransactStep::Close
        },
        TransactStep::Receive => TransactStep::Close,
        TransactStep::Close => TransactStep::Close,
        TransactStep::Unconnected => TransactStep::Unconnected,
    }
}

/// The step that follows, by whether this one succeeded.
pub fn client_transact(step: TransactStep, ok: bool) -> (next: TransactStep)
    ensures
        next == transact_step(step, ok),
{
    match step {
        TransactStep::Connect => if ok {
            TransactStep::Validate
        } else {
            TransactStep::Unconnected
        },
        TransactStep::Validate => if ok {
            TransactStep::Send
        } else {
            TransactStep::Close
        },
        TransactStep::Send => if ok {
            TransactStep::Receive
        } else {
            TransactStep::Close
        },
        TransactStep::Receive => TransactStep::Close,
        TransactStep::Close => TransactStep::Close,
        TransactStep::Unconnected => TransactStep::Unconnected,
    }
}

/// A request is sent only to a server that was validated, and every connection
/// that was made is closed: the only ends are a closed connection and none at all.
pub proof fn requests_go_to_a_validated_server(step: TransactStep, ok: bool)
    ensures
        transact_step(step, ok) is Send ==> step is Validate && ok,
        transact_step(step, ok) is Receive ==> step is Send && ok,
        transact_step(step, ok) is Unconnected ==> step is Unconnected || (step is Connect
            && !ok),
        transact_step(step, ok) == step ==> step is Close || step is Unconnected,
{
}

/// A client that cannot be identified, or whose level cannot be read, is turned
/// down.
pub proof fn unknown_clients_are_turned_down(
    path: Option<Seq<char>>,
    own: Seq<char>,
    level: Option<u32>,
)
    requires
        path is None || level is None,
    ensures
        !client_accepted(path, own, level),
{
}

/// A frame is "HT", the command and the payload, in this order; four bytes that begin
/// otherwise are no request, whatever follows.
pub proof fn frames_are_laid_out(command: u8, payload: u8, buf: Seq<u8>)
    requires
        buf.len() == 4,
    ensures
        frame(command, payload) == seq![0x48u8, 0x54u8, command, payload],
        parsed_frame(buf) is Some <==> buf[0] == 0x48 && buf[1] == 0x54,
        parsed_frame(buf) matches Some(r) ==> r == (buf[2], buf[3]),
{
}

/// Nothing is taken in parts: a request that did not come in whole is dropped even if its
/// bytes look right, and so is a response; what did not go out in whole did not go out.
pub proof fn partial_transfers_count_for_nothing(ok: bool, n: u32, command: u8, payload: u8)
    ensures
        request_in(ok, n, frame(command, payload)) == if ok && n == 4 {
            Some((command, payload))
        } else {
            None
        },
        response_sent(ok, n) <==> ok && n == 2,
        response_whole(Some(n)) <==> n == 2,
        request_sent(Some(n)) <==> n == 4,
        !response_whole(None) && !request_sent(None),
{
}

/// A program is this program where everything but its last component is the same, and that
/// is the name of the program, in whatever case. A program beside this one is not, nor is
/// one of the same name elsewhere.
pub proof fn programs_are_told_by_place_and_name(path: Seq<char>, own: Seq<char>)
    ensures
        is_our_program(path, own) <==> {
            let p = crate::path::components(path);
            let o = crate::path::components(own);
            &&& p.len() > 0 && o.len() > 0
            &&& p.drop_last() == o.drop_last()
            &&& o.last() is Name
            &&& p.last() matches crate::path::Component::Name(n)
                && crate::text::same_ignoring_ascii_case(n, "hp-thermal.exe"@)
        },
{
}

/// Who is let in: a client that is this program, at medium integrity or above; both must be
/// known. The service itself must be at high integrity or above. More integrity is never
/// less.
pub proof fn clients_need_program_and_integrity(
    path: Seq<char>,
    own: Seq<char>,
    level: u32,
    higher: u32,
)
    requires
        level <= higher,
    ensures
        client_accepted(Some(path), own, Some(level)) <==> is_our_program(path, own) && level
            >= 0x2000,
        client_accepted(Some(path), own, Some(level)) ==> client_accepted(
            Some(path),
            own,
            Some(higher),
        ),
        !client_accepted(None, own, Some(level)) && !client_accepted(Some(path), own, None),
        reaches(Some(level), SECURITY_MANDATORY_HIGH_RID) <==> level >= 0x3000,
        !reaches(None, SECURITY_MANDATORY_HIGH_RID),
{
}

/// A server that is known to be another program is turned down, and only such a one.
pub proof fn known_strangers_are_turned_down(path: Seq<char>, own: Seq<char>)
    ensures
        server_accepted(Some(path), own) <==> is_our_program(path, own),
        server_accepted(None, own),
{
}

/// A wait brings a client only by its first object; the second one ends the service, and so
/// does a wait that could not be set up.
pub proof fn only_the_first_object_is_a_client(created: bool, signaled: u32)
    ensures
        client_came(created, signaled) ==> created && signaled == 0,
        client_came(true, 0),
        !client_came(created, 1),
{
}

/// What was transferred is asked for just where the transfer completed; one that is still
/// pending once the time is up is cancelled, and one that failed is given up.
pub proof fn transfers_are_bounded(start: IoStart, completed: bool)
    ensures
        after_start(start) is Fetch <==> start is Completed,
        after_start(start) is Wait <==> start is Pending,
        after_start(start) is GiveUp <==> start is Failed,
        after_wait(completed) is Fetch <==> completed,
        after_wait(completed) is CancelAndDrain <==> !completed,
{
}

/// How a request goes: connected, validated, sent, received, closed; whatever fails after
/// the connection closes it.
pub proof fn requests_take_their_course(step: TransactStep, ok: bool)
    ensures
        transact_step(step, ok) is Validate <==> step is Connect && ok,
        transact_step(step, ok) is Send <==> step is Validate && ok,
        transact_step(step, ok) is Receive <==> step is Send && ok,
        transact_step(step, ok) is Close <==> step is Receive || step is Close || (!ok && (step
            is Validate || step is Send)),
        transact_step(step, ok) is Unconnected <==> step is Unconnected || (step is Connect && !ok),
{
}

} // verus!
