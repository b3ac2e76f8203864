//! Whole operations, each in a session of its own: start the session,
//! optionally speed it up, do the work, and end the fast session again.

use crate::camera_interface::{
    end_fast_session_steps, fast_session_steps, lemma_performed_stopped, lemma_performed_then,
    packet_payload, performed, start_session_steps, status, CameraError, Exchange,
    SerialCameraConnection, SerialInterface, Step, ValidationError, OK_RESPONSE,
};
use crate::messaging::{read_memory_bytes, write_to_memory_bytes, CameraCommand, EncodingError, MAX_WRITE_VALUES};
use crate::shooting_data::{query, query_steps};
use vstd::prelude::*;

verus! {

/// The steps of a command that the camera acknowledges.
pub open spec fn acknowledged_steps(request: Seq<u8>) -> Seq<Step> {
    seq![Step::Send(request), Step::Expect(OK_RESPONSE@, ValidationError::OkResponse)]
}

/// The steps of a new session around `body`, sped up around it if `fast`.
pub open spec fn session_steps(fast: bool, body: Seq<Step>) -> Seq<Step> {
    if fast {
        start_session_steps() + fast_session_steps() + body + end_fast_session_steps()
    } else {
        start_session_steps() + body
    }
}

/// How many steps of a new session come before its body.
pub open spec fn body_offset(fast: bool) -> int {
    if fast {
        (start_session_steps().len() + fast_session_steps().len()) as int
    } else {
        start_session_steps().len() as int
    }
}

/// Runs `next` after a run of `done` that went through; stops the whole of
/// `total` if it fails.
proof fn lemma_continue(
    total: Seq<Step>,
    done: Seq<Step>,
    next: Seq<Step>,
    x: Seq<Exchange>,
    y: Seq<Exchange>,
    z: Seq<Exchange>,
    r: Result<(), CameraError>,
)
    requires
        performed(done, x, y, Ok(())),
        performed(next, y, z, r),
        done.len() + next.len() <= total.len(),
        total.subrange(0, (done.len() + next.len()) as int) == done + next,
    ensures
        performed(done + next, x, z, r),
        r is Err ==> performed(total, x, z, r),
        done.len() + next.len() == total.len() ==> performed(total, x, z, r),
{
    lemma_performed_then(done, next, x, y, z, r);
    if r is Err {
        lemma_performed_stopped(done + next, total, x, z, r->Err_0);
    }
    if done.len() + next.len() == total.len() {
        assert(total =~= total.subrange(0, total.len() as int));
    }
}

/// A run that went through has one exchange for each step.
proof fn lemma_completed_length(
    steps: Seq<Step>,
    x: Seq<Exchange>,
    y: Seq<Exchange>,
)
    requires
        performed(steps, x, y, Ok(())),
    ensures
        y.len() == x.len() + steps.len(),
{
}

/// Sends a command and expects the camera's acknowledgement.
fn command_acknowledged<S: SerialInterface>(
    camera: &mut SerialCameraConnection<S>,
    command: &CameraCommand,
) -> (r: Result<(), CameraError>)
    requires
        command.encoded() is Ok,
    ensures
        performed(
            acknowledged_steps(command.encoded()->Ok_0),
            old(camera).exchanges(),
            final(camera).exchanges(),
            r,
        ),
{
    let ghost steps = acknowledged_steps(command.encoded()->Ok_0);
    let ghost t0 = camera.exchanges();
    let r = camera.send_command(command);
    if let Err(e) = r {
        proof {
            assert(steps.subrange(0, 1) =~= seq![steps[0]]);
            lemma_performed_stopped(seq![steps[0]], steps, t0, camera.exchanges(), e);
        }
        return r;
    }
    let ghost t1 = camera.exchanges();
    let r = camera.expect_ok_response();
    proof {
        lemma_performed_then(seq![steps[0]], seq![steps[1]], t0, t1, camera.exchanges(), r);
        assert(seq![steps[0]] + seq![steps[1]] =~= steps);
    }
    r
}

/// Starts a new session and sends a command that the camera acknowledges.
fn acknowledged_in_new_session<S: SerialInterface>(
    camera: &mut SerialCameraConnection<S>,
    command: &CameraCommand,
) -> (r: Result<(), CameraError>)
    requires
        command.encoded() is Ok,
    ensures
        performed(
            session_steps(false, acknowledged_steps(command.encoded()->Ok_0)),
            old(camera).exchanges(),
            final(camera).exchanges(),
            r,
        ),
{
    let ghost body = acknowledged_steps(command.encoded()->Ok_0);
    let ghost total = session_steps(false, body);
    let ghost t0 = camera.exchanges();
    let r = camera.start_new_session();
    proof {
        assert(total.subrange(0, start_session_steps().len() as int) =~= start_session_steps());
    }
    if let Err(e) = r {
        proof {
            lemma_performed_stopped(start_session_steps(), total, t0, camera.exchanges(), e);
        }
        return r;
    }
    let ghost t1 = camera.exchanges();
    let r = command_acknowledged(camera, command);
    proof {
        assert(total.subrange(0, total.len() as int) =~= start_session_steps() + body);
        lemma_continue(total, start_session_steps(), body, t0, t1, camera.exchanges(), r);
    }
    r
}

/// Triggers auto-focus in a new session.
pub fn autofocus_in_new_session<S: SerialInterface>(camera: &mut SerialCameraConnection<S>) -> (r:
    Result<(), CameraError>)
    ensures
        performed(
            session_steps(false, acknowledged_steps(CameraCommand::Focus.encoded()->Ok_0)),
            old(camera).exchanges(),
            final(camera).exchanges(),
            r,
        ),
{
    acknowledged_in_new_session(camera, &CameraCommand::Focus)
}

/// Releases the shutter in a new session.
pub fn release_shutter_in_new_session<S: SerialInterface>(
    camera: &mut SerialCameraConnection<S>,
) -> (r: Result<(), CameraError>)
    ensures
        performed(
            session_steps(false, acknowledged_steps(CameraCommand::Shoot.encoded()->Ok_0)),
            old(camera).exchanges(),
            final(camera).exchanges(),
            r,
        ),
{
    acknowledged_in_new_session(camera, &CameraCommand::Shoot)
}

/// The steps of a new session before its body.
pub open spec fn opening_steps(fast: bool) -> Seq<Step> {
    if fast {
        start_session_steps() + fast_session_steps()
    } else {
        start_session_steps()
    }
}

/// Starts a new session, sped up if `fast`.
fn open_session<S: SerialInterface>(camera: &mut SerialCameraConnection<S>, fast: bool) -> (r:
    Result<(), CameraError>)
    ensures
        performed(opening_steps(fast), old(camera).exchanges(), final(camera).exchanges(), r),
{
    let ghost t0 = camera.exchanges();
    let r = camera.start_new_session();
    if r.is_err() || !fast {
        proof {
            if fast {
                assert(opening_steps(fast).subrange(0, start_session_steps().len() as int)
                    =~= start_session_steps());
                lemma_performed_stopped(
                    start_session_steps(),
                    opening_steps(fast),
                    t0,
                    camera.exchanges(),
                    r->Err_0,
                );
            }
        }
        return r;
    }
    let ghost t1 = camera.exchanges();
    let r = camera.upgrade_to_fast_session();
    proof {
        assert(opening_steps(fast).subrange(0, opening_steps(fast).len() as int)
            =~= start_session_steps() + fast_session_steps());
        lemma_continue(
            opening_steps(fast),
            start_session_steps(),
            fast_session_steps(),
            t0,
            t1,
            camera.exchanges(),
            r,
        );
    }
    r
}

/// After a body that went through: ends the fast session, if there is one,
/// and completes the run of the whole session.
fn close_session<S: SerialInterface>(
    camera: &mut SerialCameraConnection<S>,
    fast: bool,
    body: Ghost<Seq<Step>>,
    t0: Ghost<Seq<Exchange>>,
) -> (r: Result<(), CameraError>)
    requires
        performed(opening_steps(fast) + body@, t0@, old(camera).exchanges(), Ok(())),
    ensures
        performed(session_steps(fast, body@), t0@, final(camera).exchanges(), r),
        final(camera).exchanges().len() >= old(camera).exchanges().len(),
        final(camera).exchanges().subrange(0, old(camera).exchanges().len() as int)
            == old(camera).exchanges(),
{
    let ghost total = session_steps(fast, body@);
    if !fast {
        proof {
            assert(total =~= opening_steps(fast) + body@);
        }
        return Ok(());
    }
    let ghost t1 = camera.exchanges();
    let r = camera.end_fast_session();
    proof {
        let done = opening_steps(fast) + body@;
        assert(total.subrange(0, total.len() as int) =~= done + end_fast_session_steps());
        lemma_continue(total, done, end_fast_session_steps(), t0@, t1, camera.exchanges(), r);
    }
    r
}

/// Reads `length` bytes at `address` of the given memory space in a new
/// session, sped up if `use_fast_session`, and returns them.
pub fn read_memory_in_new_session<S: SerialInterface>(
    camera: &mut SerialCameraConnection<S>,
    address: u16,
    length: u8,
    memory_space: u8,
    use_fast_session: bool,
) -> (r: Result<Vec<u8>, CameraError>)
    ensures
        performed(
            session_steps(
                use_fast_session,
                query_steps(read_memory_bytes(memory_space, address, length), length as nat),
            ),
            old(camera).exchanges(),
            final(camera).exchanges(),
            status(r),
        ),
        r is Ok ==> r->Ok_0@ == packet_payload(
            final(camera).exchanges()[old(camera).exchanges().len() + body_offset(
                use_fast_session,
            ) + 1],
        ),
{
    let command = CameraCommand::ReadMemory { memory_space, address, length };
    let ghost body = query_steps(read_memory_bytes(memory_space, address, length), length as nat);
    let ghost total = session_steps(use_fast_session, body);
    let ghost opening = opening_steps(use_fast_session);
    let ghost t0 = camera.exchanges();
    let r = open_session(camera, use_fast_session);
    proof {
        assert(total.subrange(0, opening.len() as int) =~= opening);
        assert(total.subrange(0, (opening.len() + body.len()) as int) =~= opening + body);
    }
    if let Err(e) = r {
        proof {
            lemma_performed_stopped(opening, total, t0, camera.exchanges(), e);
        }
        return Err(e);
    }
    let ghost t1 = camera.exchanges();
    let packet = query(camera, &command, length);
    proof {
        lemma_continue(total, opening, body, t0, t1, camera.exchanges(), status(packet));
    }
    let packet = match packet {
        Ok(packet) => packet,
        Err(e) => return Err(e),
    };
    let ghost t2 = camera.exchanges();
    proof {
        lemma_completed_length(opening, t0, t1);
        lemma_completed_length(body, t1, t2);
    }
    let closed = close_session(camera, use_fast_session, Ghost(body), Ghost(t0));
    match closed {
        Ok(()) => {
            proof {
                assert(camera.exchanges()[t2.len() - 1] == t2[t2.len() - 1]);
            }
            Ok(packet.bytes)
        },
        Err(e) => Err(e),
    }
}

/// Writes `values` starting at `address` of memory space 0 in a new session,
/// sped up if `use_fast_session`; more than 255 values are refused before
/// the camera is addressed.
pub fn write_memory_in_new_session<S: SerialInterface>(
    camera: &mut SerialCameraConnection<S>,
    address: u16,
    values: Vec<u8>,
    use_fast_session: bool,
) -> (r: Result<(), CameraError>)
    ensures
        values@.len() > MAX_WRITE_VALUES ==> r == Err::<(), CameraError>(
            CameraError::Encoding(EncodingError { length: values@.len() as usize }),
        ) && final(camera).exchanges() == old(camera).exchanges(),
        values@.len() <= MAX_WRITE_VALUES ==> performed(
            session_steps(use_fast_session, acknowledged_steps(write_to_memory_bytes(address, values@))),
            old(camera).exchanges(),
            final(camera).exchanges(),
            r,
        ),
{
    if values.len() > MAX_WRITE_VALUES {
        return Err(CameraError::Encoding(EncodingError { length: values.len() }));
    }
    let ghost body = acknowledged_steps(write_to_memory_bytes(address, values@));
    let ghost total = session_steps(use_fast_session, body);
    let ghost opening = opening_steps(use_fast_session);
    let ghost t0 = camera.exchanges();
    let r = open_session(camera, use_fast_session);
    proof {
        assert(total.subrange(0, opening.len() as int) =~= opening);
        assert(total.subrange(0, (opening.len() + body.len()) as int) =~= opening + body);
    }
    if let Err(e) = r {
        proof {
            lemma_performed_stopped(opening, total, t0, camera.exchanges(), e);
        }
        return Err(e);
    }
    let ghost t1 = camera.exchanges();
    let command = CameraCommand::WriteToMemory { address, values };
    let r = command_acknowledged(camera, &command);
    proof {
        lemma_continue(total, opening, body, t0, t1, camera.exchanges(), r);
    }
    if r.is_err() {
        return r;
    }
    close_session(camera, use_fast_session, Ghost(body), Ghost(t0))
}

/// Reads the memo holder's roll number and byte count in a new session and
/// returns the payload that holds them.
pub fn read_memo_holder_info_in_new_session<S: SerialInterface>(
    camera: &mut SerialCameraConnection<S>,
) -> (r: Result<Vec<u8>, CameraError>)
    ensures
        performed(
            session_steps(false, query_steps(CameraCommand::ReadMemoHolderInfo.encoded()->Ok_0, 4)),
            old(camera).exchanges(),
            final(camera).exchanges(),
            status(r),
        ),
        r is Ok ==> r->Ok_0@ == packet_payload(final(camera).exchanges().last()),
{
    let ghost body = query_steps(CameraCommand::ReadMemoHolderInfo.encoded()->Ok_0, 4);
    let ghost total = session_steps(false, body);
    let ghost t0 = camera.exchanges();
    let r = camera.start_new_session();
    proof {
        assert(total.subrange(0, start_session_steps().len() as int) =~= start_session_steps());
        assert(total.subrange(0, total.len() as int) =~= start_session_steps() + body);
    }
    if let Err(e) = r {
        proof {
            lemma_performed_stopped(start_session_steps(), total, t0, camera.exchanges(), e);
        }
        return Err(e);
    }
    let ghost t1 = camera.exchanges();
    let packet = query(camera, &CameraCommand::ReadMemoHolderInfo, 4);
    proof {
        lemma_continue(total, start_session_steps(), body, t0, t1, camera.exchanges(), status(packet));
    }
    match packet {
        Ok(packet) => Ok(packet.bytes),
        Err(e) => Err(e),
    }
}

} // verus!
