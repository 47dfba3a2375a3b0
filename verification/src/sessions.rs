//! Mirror sessions: which devices are being mirrored, and the commands that
//! start a screen mirror or a camera mirror.
//!
//! A registry holds at most one session per device. Starting and killing
//! processes is the application's business; the registry decides whether a
//! session may start, remembers it, and gives up the process that is to be
//! killed when it stops. The application keeps one registry for screen
//! mirrors and one for camera mirrors.

use crate::errors::{AppError, ErrorKind, ErrorView};
use crate::models::{str_is, MirrorSession, MirrorSessionView};
use crate::text::{append_str, chars_of, string_of, texts};
use vstd::prelude::*;

verus! {

/// The sessions that are running, oldest first.
#[derive(Clone, Debug, PartialEq, Eq)]
pub struct SessionRegistry {
    pub sessions: Vec<MirrorSession>,
}

/// The views of a vector of sessions.
pub open spec fn session_views(sessions: Seq<MirrorSession>) -> Seq<MirrorSessionView> {
    sessions.map_values(|s: MirrorSession| s@)
}

impl View for SessionRegistry {
    type V = Seq<MirrorSessionView>;

    open spec fn view(&self) -> Seq<MirrorSessionView> {
        session_views(self.sessions@)
    }
}

/// A session of the device `serial` is among `sessions`.
pub open spec fn is_active(sessions: Seq<MirrorSessionView>, serial: Seq<char>) -> bool {
    exists|i: int| 0 <= i < sessions.len() && (#[trigger] sessions[i]).device_serial == serial
}

/// The process of the first session of the device `serial`.
pub open spec fn process_of(sessions: Seq<MirrorSessionView>, serial: Seq<char>) -> Option<u32>
    decreases sessions.len(),
{
    if sessions.len() == 0 {
        None
    } else if sessions[0].device_serial == serial {
        Some(sessions[0].process_id)
    } else {
        process_of(sessions.skip(1), serial)
    }
}

/// The sessions without those of the devices `gone`, in order.
pub open spec fn without(sessions: Seq<MirrorSessionView>, gone: Seq<Seq<char>>) -> Seq<
    MirrorSessionView,
>
    decreases sessions.len(),
{
    if sessions.len() == 0 {
        Seq::empty()
    } else if gone.contains(sessions.last().device_serial) {
        without(sessions.drop_last(), gone)
    } else {
        without(sessions.drop_last(), gone).push(sessions.last())
    }
}

/// No device has two sessions.
pub open spec fn one_per_device(sessions: Seq<MirrorSessionView>) -> bool {
    forall|i: int, j: int|
        0 <= i < j < sessions.len() ==> (#[trigger] sessions[i]).device_serial
            != (#[trigger] sessions[j]).device_serial
}

/// A session as it is listed: without its start time.
pub open spec fn as_listed(session: MirrorSessionView) -> MirrorSessionView {
    MirrorSessionView { started_at: Seq::empty(), ..session }
}

/// What is said when something is wrong with the sessions of a device.
pub open spec fn session_error(message: Seq<char>, subject: Seq<char>) -> ErrorView {
    ErrorView { kind: ErrorKind::MirrorError, detail: message + subject }
}

/// The arguments that start a screen mirror of the device `serial`.
pub open spec fn mirror_arguments(serial: Seq<char>, screen_off: bool) -> Seq<Seq<char>> {
    seq!["-s"@, serial] + if screen_off {
        seq!["--turn-screen-off"@]
    } else {
        Seq::empty()
    }
}

/// The arguments that start a camera mirror of the device `serial`: the
/// camera that faces `facing`, at the size `size` unless that is empty,
/// without sound if `no_audio`. A camera delivers its picture lying down,
/// so for a `portrait` picture the back camera is turned by 90 degrees and
/// the `front` camera by 270.
pub open spec fn camera_arguments(
    serial: Seq<char>,
    facing: Seq<char>,
    size: Seq<char>,
    no_audio: bool,
    orientation: Seq<char>,
) -> Seq<Seq<char>> {
    seq!["-s"@, serial, "--video-source=camera"@, "--camera-facing="@ + facing] + (if size.len()
        > 0 {
        seq!["--camera-size="@ + size]
    } else {
        Seq::empty()
    }) + (if no_audio {
        seq!["--no-audio"@]
    } else {
        Seq::empty()
    }) + (if orientation == "portrait"@ {
        if facing == "front"@ {
            seq!["--orientation=270"@]
        } else {
            seq!["--orientation=90"@]
        }
    } else {
        Seq::empty()
    })
}

/// Removing the sessions of some devices leaves none of theirs, keeps all
/// others, and keeps a registry with one session per device that way.
pub proof fn lemma_without(sessions: Seq<MirrorSessionView>, gone: Seq<Seq<char>>)
    ensures
        without(sessions, gone).len() <= sessions.len(),
        forall|k: int|
            0 <= k < without(sessions, gone).len() ==> !gone.contains(
                (#[trigger] without(sessions, gone)[k]).device_serial,
            ) && is_active(sessions, without(sessions, gone)[k].device_serial),
        forall|serial: Seq<char>|
            is_active(without(sessions, gone), serial) <==> is_active(sessions, serial)
                && !gone.contains(serial),
        one_per_device(sessions) ==> one_per_device(without(sessions, gone)),
    decreases sessions.len(),
{
    if sessions.len() > 0 {
        let rest = sessions.drop_last();
        let last = sessions.last();
        lemma_without(rest, gone);
        let w = without(sessions, gone);
        let wr = without(rest, gone);
        assert forall|k: int| 0 <= k < w.len() implies !gone.contains(
            (#[trigger] w[k]).device_serial,
        ) && is_active(sessions, w[k].device_serial) by {
            if k < wr.len() {
                assert(w[k] == wr[k]);
                let i = choose|i: int|
                    0 <= i < rest.len() && (#[trigger] rest[i]).device_serial
                        == wr[k].device_serial;
                assert(sessions[i] == rest[i]);
            } else {
                assert(w[k] == last);
                assert(sessions[sessions.len() - 1] == last);
            }
        }
        assert forall|serial: Seq<char>|
            is_active(w, serial) <==> is_active(sessions, serial) && !gone.contains(serial) by {
            if is_active(w, serial) {
                let k = choose|k: int| 0 <= k < w.len() && (#[trigger] w[k]).device_serial == serial;
                assert(!gone.contains(w[k].device_serial));
            }
            if is_active(sessions, serial) && !gone.contains(serial) {
                let i = choose|i: int|
                    0 <= i < sessions.len() && (#[trigger] sessions[i]).device_serial == serial;
                if i < rest.len() {
                    assert(rest[i] == sessions[i]);
                    assert(is_active(rest, serial));
                    assert(is_active(wr, serial));
                    let k = choose|k: int|
                        0 <= k < wr.len() && (#[trigger] wr[k]).device_serial == serial;
                    assert(w[k] == wr[k]);
                } else {
                    assert(w[w.len() - 1] == last);
                }
            }
        }
        if one_per_device(sessions) {
            assert(one_per_device(rest)) by {
                assert forall|i: int, j: int| 0 <= i < j < rest.len() implies (
                #[trigger] rest[i]).device_serial != (#[trigger] rest[j]).device_serial by {
                    assert(rest[i] == sessions[i]);
                    assert(rest[j] == sessions[j]);
                }
            }
            assert forall|i: int, j: int| 0 <= i < j < w.len() implies (
            #[trigger] w[i]).device_serial != (#[trigger] w[j]).device_serial by {
                if j < wr.len() {
                    assert(w[i] == wr[i]);
                    assert(w[j] == wr[j]);
                } else {
                    assert(w[i] == wr[i]);
                    assert(w[j] == last);
                    let k = choose|k: int|
                        0 <= k < rest.len() && (#[trigger] rest[k]).device_serial
                            == wr[i].device_serial;
                    assert(rest[k] == sessions[k]);
                    assert(sessions[sessions.len() - 1] == last);
                }
            }
        }
    }
}

/// Whether `serial` is among `list`.
fn listed_in(list: &Vec<String>, serial: &str) -> (r: bool)
    ensures
        r == texts(list@).contains(serial@),
{
    let mut i: usize = 0;
    while i < list.len()
        invariant
            i <= list.len(),
            forall|k: int| 0 <= k < i ==> texts(list@)[k] != serial@,
        decreases list.len() - i,
    {
        if str_is(list[i].as_str(), serial) {
            proof {
                assert(texts(list@)[i as int] == serial@);
            }
            return true;
        }
        i += 1;
    }
    false
}

/// The failure with the message `message` about `subject`.
fn failure(message: &str, subject: &str) -> (e: AppError)
    ensures
        e@ == session_error(message@, subject@),
{
    let mut detail = chars_of(message);
    append_str(&mut detail, subject);
    AppError::MirrorError(string_of(&detail))
}

impl SessionRegistry {
    /// A registry without sessions.
    pub fn new() -> (registry: SessionRegistry)
        ensures
            registry@ == Seq::<MirrorSessionView>::empty(),
    {
        let registry = SessionRegistry { sessions: Vec::new() };
        proof {
            assert(registry@ =~= Seq::<MirrorSessionView>::empty());
        }
        registry
    }

    /// Whether a session of the device `serial` is running.
    pub fn has_session(&self, serial: &str) -> (r: bool)
        ensures
            r == is_active(self@, serial@),
    {
        self.process(serial).is_some()
    }

    /// The process of the session of the device `serial`.
    pub fn process(&self, serial: &str) -> (r: Option<u32>)
        ensures
            r == process_of(self@, serial@),
            r is Some <==> is_active(self@, serial@),
    {
        let mut i: usize = 0;
        proof {
            assert(self@.skip(0) =~= self@);
        }
        while i < self.sessions.len()
            invariant
                i <= self.sessions.len(),
                process_of(self@, serial@) == process_of(self@.skip(i as int), serial@),
                forall|k: int| 0 <= k < i ==> (#[trigger] self@[k]).device_serial != serial@,
            decreases self.sessions.len() - i,
        {
            proof {
                assert(self@.skip(i as int)[0] == self.sessions@[i as int]@);
                assert(self@.skip(i as int).skip(1) =~= self@.skip(i + 1));
                assert(self@[i as int] == self.sessions@[i as int]@);
            }
            if str_is(self.sessions[i].device_serial.as_str(), serial) {
                return Some(self.sessions[i].process_id);
            }
            i += 1;
        }
        None
    }

    /// Remembers that the process `process_id` mirrors the device `serial`
    /// since `started_at`. A session that the device had before is forgotten.
    pub fn record(&mut self, serial: &str, process_id: u32, started_at: &str) -> (session:
        MirrorSession)
        ensures
            session@ == (MirrorSessionView {
                device_serial: serial@,
                process_id,
                started_at: started_at@,
            }),
            final(self)@ == without(old(self)@, seq![serial@]).push(session@),
            one_per_device(old(self)@) ==> one_per_device(final(self)@),
    {
        proof {
            lemma_without(self@, seq![serial@]);
            assert(seq![serial@].contains(serial@)) by {
                assert(seq![serial@][0] == serial@);
            }
        }
        let mut gone: Vec<String> = Vec::new();
        gone.push(serial.to_owned());
        proof {
            assert(texts(gone@) =~= seq![serial@]);
        }
        self.remove_all(&gone);
        let session = MirrorSession {
            device_serial: serial.to_owned(),
            process_id,
            started_at: started_at.to_owned(),
        };
        let copy = MirrorSession {
            device_serial: serial.to_owned(),
            process_id,
            started_at: started_at.to_owned(),
        };
        proof {
            assert(session_views(self.sessions@.push(copy)) =~= session_views(
                self.sessions@,
            ).push(copy@));
        }
        self.sessions.push(copy);
        session
    }

    /// Forgets the sessions of the devices `gone`.
    pub fn remove_all(&mut self, gone: &Vec<String>)
        ensures
            final(self)@ == without(old(self)@, texts(gone@)),
            one_per_device(old(self)@) ==> one_per_device(final(self)@),
    {
        proof {
            lemma_without(self@, texts(gone@));
        }
        let mut kept: Vec<MirrorSession> = Vec::new();
        let mut i: usize = 0;
        proof {
            assert(self@.take(0) =~= Seq::<MirrorSessionView>::empty());
            assert(session_views(kept@) =~= Seq::<MirrorSessionView>::empty());
        }
        while i < self.sessions.len()
            invariant
                i <= self.sessions.len(),
                *self == *old(self),
                session_views(kept@) == without(self@.take(i as int), texts(gone@)),
            decreases self.sessions.len() - i,
        {
            proof {
                let part = self@.take(i + 1);
                assert(part.last() == self.sessions@[i as int]@);
                assert(part.drop_last() =~= self@.take(i as int));
            }
            if !listed_in(gone, self.sessions[i].device_serial.as_str()) {
                let copy = MirrorSession {
                    device_serial: self.sessions[i].device_serial.clone(),
                    process_id: self.sessions[i].process_id,
                    started_at: self.sessions[i].started_at.clone(),
                };
                proof {
                    assert(session_views(kept@.push(copy)) =~= session_views(kept@).push(copy@));
                }
                kept.push(copy);
            }
            i += 1;
        }
        proof {
            assert(self@.take(self.sessions.len() as int) =~= self@);
        }
        self.sessions = kept;
    }

    /// The sessions as they are listed: each without its start time.
    pub fn listing(&self) -> (sessions: Vec<MirrorSession>)
        ensures
            session_views(sessions@) == self@.map_values(|s: MirrorSessionView| as_listed(s)),
    {
        let mut out: Vec<MirrorSession> = Vec::new();
        let mut i: usize = 0;
        while i < self.sessions.len()
            invariant
                i <= self.sessions.len(),
                out.len() == i,
                forall|k: int| 0 <= k < i ==> (#[trigger] out@[k])@ == as_listed(self@[k]),
            decreases self.sessions.len() - i,
        {
            proof {
                assert(self@[i as int] == self.sessions@[i as int]@);
            }
            out.push(
                MirrorSession {
                    device_serial: self.sessions[i].device_serial.clone(),
                    process_id: self.sessions[i].process_id,
                    started_at: String::new(),
                },
            );
            i += 1;
        }
        proof {
            assert(session_views(out@) =~= self@.map_values(|s: MirrorSessionView| as_listed(s)));
        }
        out
    }
}

/// The arguments with which the mirroring executable starts a screen mirror
/// of the device `device_serial`, or the failure of a device that is
/// mirrored already.
pub fn start_mirror(registry: &SessionRegistry, device_serial: &str, screen_off: bool) -> (r:
    Result<Vec<String>, AppError>)
    ensures
        match r {
            Ok(arguments) => !is_active(registry@, device_serial@) && texts(arguments@)
                == mirror_arguments(device_serial@, screen_off),
            Err(e) => is_active(registry@, device_serial@) && e@ == session_error(
                "Mirror session already active for device "@,
                device_serial@,
            ),
        },
{
    if registry.has_session(device_serial) {
        return Err(failure("Mirror session already active for device ", device_serial));
    }
    let mut arguments: Vec<String> = Vec::new();
    arguments.push("-s".to_owned());
    arguments.push(device_serial.to_owned());
    if screen_off {
        arguments.push("--turn-screen-off".to_owned());
    }
    proof {
        assert(texts(arguments@) =~= mirror_arguments(device_serial@, screen_off));
    }
    Ok(arguments)
}

/// The arguments with which the mirroring executable starts a camera mirror
/// of the device `device_serial`, or the failure of a device whose camera
/// is mirrored already.
pub fn start_camera_mirror(
    registry: &SessionRegistry,
    device_serial: &str,
    camera_facing: &str,
    camera_size: &str,
    no_audio: bool,
    orientation: &str,
) -> (r: Result<Vec<String>, AppError>)
    ensures
        match r {
            Ok(arguments) => !is_active(registry@, device_serial@) && texts(arguments@)
                == camera_arguments(
                device_serial@,
                camera_facing@,
                camera_size@,
                no_audio,
                orientation@,
            ),
            Err(e) => is_active(registry@, device_serial@) && e@ == session_error(
                "Camera session already active for device "@,
                device_serial@,
            ),
        },
{
    if registry.has_session(device_serial) {
        return Err(failure("Camera session already active for device ", device_serial));
    }
    let mut facing = chars_of("--camera-facing=");
    append_str(&mut facing, camera_facing);
    let mut arguments: Vec<String> = Vec::new();
    arguments.push("-s".to_owned());
    arguments.push(device_serial.to_owned());
    arguments.push("--video-source=camera".to_owned());
    arguments.push(string_of(&facing));
    let ghost head = texts(arguments@);
    proof {
        assert(head =~= seq![
            "-s"@,
            device_serial@,
            "--video-source=camera"@,
            "--camera-facing="@ + camera_facing@,
        ]);
    }
    let size = chars_of(camera_size);
    let ghost size_part: Seq<Seq<char>> = Seq::empty();
    if size.len() > 0 {
        let mut text = chars_of("--camera-size=");
        append_str(&mut text, camera_size);
        arguments.push(string_of(&text));
        proof {
            size_part = seq!["--camera-size="@ + camera_size@];
        }
    }
    proof {
        assert(texts(arguments@) =~= head + size_part);
    }
    let ghost audio_part: Seq<Seq<char>> = Seq::empty();
    if no_audio {
        arguments.push("--no-audio".to_owned());
        proof {
            audio_part = seq!["--no-audio"@];
        }
    }
    proof {
        assert(texts(arguments@) =~= head + size_part + audio_part);
    }
    let ghost turn_part: Seq<Seq<char>> = Seq::empty();
    if str_is(orientation, "portrait") {
        if str_is(camera_facing, "front") {
            arguments.push("--orientation=270".to_owned());
            proof {
                turn_part = seq!["--orientation=270"@];
            }
        } else {
            arguments.push("--orientation=90".to_owned());
            proof {
                turn_part = seq!["--orientation=90"@];
            }
        }
    }
    proof {
        assert(texts(arguments@) =~= head + size_part + audio_part + turn_part);
    }
    Ok(arguments)
}

/// Ends the session of `serial`, if there is one, with `message` for the
/// failure.
fn stop(registry: &mut SessionRegistry, serial: &str, message: &str) -> (r: Result<u32, AppError>)
    ensures
        match r {
            Ok(process_id) => process_of(old(registry)@, serial@) == Some(process_id)
                && final(registry)@ == without(old(registry)@, seq![serial@]),
            Err(e) => !is_active(old(registry)@, serial@) && e@ == session_error(
                message@,
                serial@,
            ) && final(registry)@ == old(registry)@,
        },
{
    match registry.process(serial) {
        Some(process_id) => {
            let mut gone: Vec<String> = Vec::new();
            gone.push(serial.to_owned());
            proof {
                assert(texts(gone@) =~= seq![serial@]);
            }
            registry.remove_all(&gone);
            Ok(process_id)
        },
        None => Err(failure(message, serial)),
    }
}

/// Ends the screen mirror of the device `device_serial`: the session is
/// forgotten, and the process that is to be killed is returned. A device
/// that is not mirrored is a failure, and leaves the registry as it is.
pub fn stop_mirror(registry: &mut SessionRegistry, device_serial: &str) -> (r: Result<
    u32,
    AppError,
>)
    ensures
        match r {
            Ok(process_id) => process_of(old(registry)@, device_serial@) == Some(process_id)
                && final(registry)@ == without(old(registry)@, seq![device_serial@]),
            Err(e) => !is_active(old(registry)@, device_serial@) && e@ == session_error(
                "No active mirror session for device "@,
                device_serial@,
            ) && final(registry)@ == old(registry)@,
        },
{
    stop(registry, device_serial, "No active mirror session for device ")
}

/// Ends the camera mirror of the device `device_serial`, as [`stop_mirror`]
/// ends a screen mirror.
pub fn stop_camera_mirror(registry: &mut SessionRegistry, device_serial: &str) -> (r: Result<
    u32,
    AppError,
>)
    ensures
        match r {
            Ok(process_id) => process_of(old(registry)@, device_serial@) == Some(process_id)
                && final(registry)@ == without(old(registry)@, seq![device_serial@]),
            Err(e) => !is_active(old(registry)@, device_serial@) && e@ == session_error(
                "No active camera session for device "@,
                device_serial@,
            ) && final(registry)@ == old(registry)@,
        },
{
    stop(registry, device_serial, "No active camera session for device ")
}

/// The screen mirrors that are running. `exited` names the devices whose
/// process was found to have ended; their sessions are forgotten first.
pub fn get_active_sessions(registry: &mut SessionRegistry, exited: &Vec<String>) -> (sessions:
    Vec<MirrorSession>)
    ensures
        final(registry)@ == without(old(registry)@, texts(exited@)),
        session_views(sessions@) == final(registry)@.map_values(
            |s: MirrorSessionView| as_listed(s),
        ),
{
    registry.remove_all(exited);
    registry.listing()
}

/// The camera mirrors that are running, as [`get_active_sessions`] gives
/// the screen mirrors.
pub fn get_camera_sessions(registry: &mut SessionRegistry, exited: &Vec<String>) -> (sessions:
    Vec<MirrorSession>)
    ensures
        final(registry)@ == without(old(registry)@, texts(exited@)),
        session_views(sessions@) == final(registry)@.map_values(
            |s: MirrorSessionView| as_listed(s),
        ),
{
    registry.remove_all(exited);
    registry.listing()
}

/// The failure of a screen mirror that could not be started.
pub fn mirror_start_failed(reason: &str) -> (e: AppError)
    ensures
        e@ == session_error("Failed to start scrcpy: "@, reason@),
{
    failure("Failed to start scrcpy: ", reason)
}

/// The failure of a screen mirror whose process could not be killed.
pub fn mirror_stop_failed(reason: &str) -> (e: AppError)
    ensures
        e@ == session_error("Failed to stop scrcpy: "@, reason@),
{
    failure("Failed to stop scrcpy: ", reason)
}

/// The failure of a camera mirror that could not be started.
pub fn camera_start_failed(reason: &str) -> (e: AppError)
    ensures
        e@ == session_error("Failed to start camera: "@, reason@),
{
    failure("Failed to start camera: ", reason)
}

/// The failure of a camera mirror whose process could not be killed.
pub fn camera_stop_failed(reason: &str) -> (e: AppError)
    ensures
        e@ == session_error("Failed to stop camera: "@, reason@),
{
    failure("Failed to stop camera: ", reason)
}

} // verus!
