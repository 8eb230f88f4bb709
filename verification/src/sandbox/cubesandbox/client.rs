//! CubeSandbox control-plane records and the envd process stream: the Connect
//! `connect+json` framing and the folding of process events into a command result.
use vstd::prelude::*;
use crate::json::{array, items_view, members_view, object, push_item, push_member, str_json, Json, JsonView};
use crate::text::owned;
use crate::sandbox::process_sandbox::{lossy_text, utf8_lossy};

verus! {

/// Answer of the control plane to a sandbox creation.
#[derive(Debug)]
pub struct SandboxCreateResponse {
    pub sandbox_id: String,
    pub template_id: String,
    /// envd access token, when the control plane returns one.
    pub envd_access_token: Option<String>,
}

/// Details of a sandbox.
#[derive(Debug)]
pub struct SandboxInfo {
    pub sandbox_id: String,
    pub envd_access_token: Option<String>,
    /// envd service domain, when known.
    pub sandbox_domain: Option<String>,
}

impl SandboxInfo {
    /// The envd access token, or `dummy` when the sandbox has none.
    pub fn access_token(&self) -> (t: String)
        ensures
            t@ == (match self.envd_access_token {
                Some(x) => x@,
                None => "dummy"@,
            }),
    {
        match &self.envd_access_token {
            Some(x) => owned(x.as_str()),
            None => owned("dummy"),
        }
    }
}

/// Result of a command run through envd.
#[derive(Debug)]
pub struct CommandResult {
    pub exit_code: i32,
    pub stdout: String,
    pub stderr: String,
}

/// The shell line for a command and its arguments, separated by single spaces.
pub open spec fn command_line(command: Seq<char>, args: Seq<Seq<char>>) -> Seq<char>
    decreases args.len(),
{
    if args.len() == 0 {
        command
    } else {
        command_line(command, args.drop_last()) + " "@ + args.last()
    }
}

/// The `Process/Start` request for a shell line: `/bin/bash -l -c <line>`, without stdin.
pub open spec fn process_start_view(line: Seq<char>) -> JsonView {
    JsonView::Object(
        seq![
            ("process"@, JsonView::Object(seq![
                ("args"@, JsonView::Array(seq![JsonView::Str("-l"@), JsonView::Str("-c"@), JsonView::Str(line)])),
                ("cmd"@, JsonView::Str("/bin/bash"@)),
            ])),
            ("stdin"@, JsonView::Bool(false)),
        ],
    )
}

/// The body of a `Process/Start` call that runs `line` in a login shell.
pub fn process_start_body(line: &str) -> (j: Json)
    ensures
        crate::json::json_view(j) == process_start_view(line@),
{
    let mut args: Vec<Json> = Vec::new();
    push_item(&mut args, str_json("-l"));
    push_item(&mut args, str_json("-c"));
    push_item(&mut args, str_json(line));
    assert(items_view(args@) =~= seq![JsonView::Str("-l"@), JsonView::Str("-c"@), JsonView::Str(line@)]);
    let mut process: Vec<(String, Json)> = Vec::new();
    let a = array(args);
    push_member(&mut process, "args", a);
    push_member(&mut process, "cmd", str_json("/bin/bash"));
    assert(members_view(process@) =~= seq![
        ("args"@, JsonView::Array(seq![JsonView::Str("-l"@), JsonView::Str("-c"@), JsonView::Str(line@)])),
        ("cmd"@, JsonView::Str("/bin/bash"@)),
    ]);
    let mut body: Vec<(String, Json)> = Vec::new();
    let p = object(process);
    push_member(&mut body, "process", p);
    push_member(&mut body, "stdin", Json::Bool(false));
    assert(crate::json::json_view(Json::Bool(false)) == JsonView::Bool(false));
    assert(members_view(body@) =~= seq![
        ("process"@, JsonView::Object(seq![
            ("args"@, JsonView::Array(seq![JsonView::Str("-l"@), JsonView::Str("-c"@), JsonView::Str(line@)])),
            ("cmd"@, JsonView::Str("/bin/bash"@)),
        ])),
        ("stdin"@, JsonView::Bool(false)),
    ]);
    let j = object(body);
    j
}

/// The shell line for `command` and `args`.
pub fn full_command(command: &str, args: &[String]) -> (r: String)
    ensures
        r@ == command_line(command@, args@.map_values(|a: String| a@)),
{
    let mut r = owned(command);
    let mut i: usize = 0;
    while i < args.len()
        invariant
            i <= args.len(),
            r@ == command_line(command@, args@.subrange(0, i as int).map_values(|a: String| a@)),
        decreases args.len() - i,
    {
        let ghost before = args@.subrange(0, i as int).map_values(|a: String| a@);
        r.append(" ");
        r.append(args[i].as_str());
        proof {
            let after = args@.subrange(0, i + 1).map_values(|a: String| a@);
            assert(after.drop_last() =~= before);
            assert(after.last() == args@[i as int]@);
        }
        i = i + 1;
    }
    assert(args@.subrange(0, args.len() as int) =~= args@);
    r
}

/// A frame of a Connect stream: its flag byte and its payload.
pub struct ConnectFrame {
    pub flags: u8,
    pub payload: Vec<u8>,
}

/// The big-endian value of four bytes.
pub open spec fn be_u32(a: u8, b: u8, c: u8, d: u8) -> nat {
    (a as nat) * 16777216 + (b as nat) * 65536 + (c as nat) * 256 + (d as nat)
}

/// The message frames of a Connect stream: each frame is a flag byte, a four-byte
/// big-endian length and that many payload bytes. Reading stops at an incomplete frame
/// and at the end-of-stream frame (flag bit `0x80`), which is not a message.
pub open spec fn connect_frames(d: Seq<u8>) -> Seq<(u8, Seq<u8>)>
    decreases d.len(),
{
    if d.len() < 5 {
        Seq::empty()
    } else {
        let n = be_u32(d[1], d[2], d[3], d[4]);
        let rest = d.subrange(5, d.len() as int);
        if rest.len() < n {
            Seq::empty()
        } else if d[0] & 0x80u8 != 0 {
            Seq::empty()
        } else {
            seq![(d[0], rest.subrange(0, n as int))] + connect_frames(rest.subrange(n as int, rest.len() as int))
        }
    }
}

/// Frames as (flags, payload) pairs.
pub open spec fn frames_view(v: Seq<ConnectFrame>) -> Seq<(u8, Seq<u8>)> {
    v.map_values(|f: ConnectFrame| (f.flags, f.payload@))
}

/// Splits a Connect response body into its message frames.
pub fn split_connect_frames(data: &[u8]) -> (frames: Vec<ConnectFrame>)
    ensures
        frames_view(frames@) == connect_frames(data@),
{
    let mut frames: Vec<ConnectFrame> = Vec::new();
    let mut pos: usize = 0;
    assert(data@.subrange(0, data@.len() as int) =~= data@);
    while pos < data.len()
        invariant
            pos <= data.len(),
            frames_view(frames@) + connect_frames(data@.subrange(pos as int, data@.len() as int)) == connect_frames(data@),
        decreases data.len() - pos,
    {
        let ghost d = data@.subrange(pos as int, data@.len() as int);
        if data.len() - pos < 5 {
            assert(connect_frames(d) =~= Seq::<(u8, Seq<u8>)>::empty());
            assert(frames_view(frames@) + connect_frames(d) =~= frames_view(frames@));
            return frames;
        }
        let flags = data[pos];
        let n: u64 = (data[pos + 1] as u64) * 16777216 + (data[pos + 2] as u64) * 65536 + (data[pos + 3] as u64) * 256 + (data[pos + 4] as u64);
        assert(n == be_u32(d[1], d[2], d[3], d[4]));
        let start = pos + 5;
        let remaining = data.len() - start;
        if (remaining as u64) < n {
            assert(frames_view(frames@) + connect_frames(d) =~= frames_view(frames@));
            return frames;
        }
        if flags & 0x80u8 != 0 {
            assert(frames_view(frames@) + connect_frames(d) =~= frames_view(frames@));
            return frames;
        }
        let len = n as usize;
        let mut payload: Vec<u8> = Vec::new();
        let mut k: usize = 0;
        while k < len
            invariant
                k <= len,
                start + len <= data.len(),
                payload@ == data@.subrange(start as int, start + k),
            decreases len - k,
        {
            payload.push(data[start + k]);
            k = k + 1;
            assert(payload@ =~= data@.subrange(start as int, start + k));
        }
        let ghost before = frames_view(frames@);
        frames.push(ConnectFrame { flags, payload });
        proof {
            let rest = d.subrange(5, d.len() as int);
            assert(rest.subrange(0, n as int) =~= data@.subrange(start as int, start + len));
            assert(rest.subrange(n as int, rest.len() as int) =~= data@.subrange(start + len, data@.len() as int));
            assert(frames_view(frames@) =~= before.push((flags, data@.subrange(start as int, start + len))));
            assert(connect_frames(d) =~= seq![(flags, rest.subrange(0, n as int))] + connect_frames(rest.subrange(n as int, rest.len() as int)));
            assert(frames_view(frames@) + connect_frames(data@.subrange(start + len, data@.len() as int)) =~= before + connect_frames(d));
        }
        pos = start + len;
    }
    assert(connect_frames(data@.subrange(pos as int, data@.len() as int)) =~= Seq::<(u8, Seq<u8>)>::empty());
    assert(frames_view(frames@) + Seq::<(u8, Seq<u8>)>::empty() =~= frames_view(frames@));
    frames
}

/// The bytes of an array of numbers: each integer element in the `u64` range, cut to
/// its low byte; other elements are skipped.
pub open spec fn byte_values(a: Seq<Json>) -> Seq<u8>
    decreases a.len(),
{
    if a.len() == 0 {
        Seq::empty()
    } else {
        byte_values(a.drop_last()) + match a.last().u64_spec() {
            Some(n) => seq![n as u8],
            None => Seq::empty(),
        }
    }
}

/// Text of one output stream of a data event: its byte array decoded, or nothing.
pub open spec fn stream_text(data: Json, key: Seq<char>) -> Seq<char> {
    match data.get_spec(key) {
        Some(v) => match v.array_spec() {
            Some(a) => lossy_text(byte_values(a)),
            None => Seq::empty(),
        },
        None => Seq::empty(),
    }
}

/// State of the folding of process events: stdout, stderr and exit code so far.
pub type EventFold = (Seq<char>, Seq<char>, i32);

/// One process event applied to the state. A `start` event changes nothing; a `data`
/// event appends its stdout and stderr bytes; an `end` event with an `exitCode` sets the
/// exit code (-1 when it is not an integer, cut to 32 bits). A payload that was not JSON
/// (`None`) or has no `event` member changes nothing.
pub open spec fn apply_event(st: EventFold, ev: Option<Json>) -> EventFold {
    match ev {
        None => st,
        Some(j) => match j.get_spec("event"@) {
            None => st,
            Some(e) => if e.get_spec("start"@) is Some {
                st
            } else {
                match e.get_spec("data"@) {
                    Some(data) => (st.0 + stream_text(data, "stdout"@), st.1 + stream_text(data, "stderr"@), st.2),
                    None => match e.get_spec("end"@) {
                        Some(end) => match end.get_spec("exitCode"@) {
                            Some(code) => (st.0, st.1, match code.i64_spec() {
                                Some(x) => x as i32,
                                None => -1i32,
                            }),
                            None => st,
                        },
                        None => st,
                    },
                }
            },
        },
    }
}

/// All events applied in order, from empty output and exit code -1.
pub open spec fn fold_events(events: Seq<Option<Json>>) -> EventFold
    decreases events.len(),
{
    if events.len() == 0 {
        (Seq::empty(), Seq::empty(), -1i32)
    } else {
        apply_event(fold_events(events.drop_last()), events.last())
    }
}

/// The bytes of an array of numbers.
fn bytes_of(a: &Vec<Json>) -> (b: Vec<u8>)
    ensures
        b@ == byte_values(a@),
{
    let mut b: Vec<u8> = Vec::new();
    let mut i: usize = 0;
    while i < a.len()
        invariant
            i <= a.len(),
            b@ == byte_values(a@.subrange(0, i as int)),
        decreases a.len() - i,
    {
        let ghost before = b@;
        proof {
            assert(a@.subrange(0, i + 1).drop_last() =~= a@.subrange(0, i as int));
        }
        match a[i].as_u64() {
            Some(n) => {
                b.push(n as u8);
                assert(b@ =~= before + seq![n as u8]);
            },
            None => {
                assert(b@ =~= before + Seq::<u8>::empty());
            },
        }
        i = i + 1;
    }
    assert(a@.subrange(0, a.len() as int) =~= a@);
    b
}

/// Appends the decoded bytes of stream `key` of a data event to `out`.
fn append_stream(out: &mut String, data: &Json, key: &str)
    ensures
        final(out)@ == old(out)@ + stream_text(*data, key@),
{
    match data.get(key) {
        Some(v) => match v.as_array() {
            Some(a) => {
                let bytes = bytes_of(a);
                let text = utf8_lossy(bytes.as_slice());
                out.append(text.as_str());
            },
            None => {
                assert(old(out)@ + Seq::<char>::empty() =~= old(out)@);
            },
        },
        None => {
            assert(old(out)@ + Seq::<char>::empty() =~= old(out)@);
        },
    }
}

/// Folds the decoded payloads of the message frames into the command's result.
pub fn collect_process_events(events: &Vec<Option<Json>>) -> (r: CommandResult)
    ensures
        (r.stdout@, r.stderr@, r.exit_code) == fold_events(events@),
{
    let mut stdout = String::new();
    let mut stderr = String::new();
    let mut exit_code: i32 = -1;
    let mut i: usize = 0;
    proof {
        reveal_strlit("event");
        reveal_strlit("start");
        reveal_strlit("data");
        reveal_strlit("end");
        reveal_strlit("exitCode");
        reveal_strlit("stdout");
        reveal_strlit("stderr");
    }
    while i < events.len()
        invariant
            i <= events.len(),
            (stdout@, stderr@, exit_code) == fold_events(events@.subrange(0, i as int)),
        decreases events.len() - i,
    {
        proof {
            assert(events@.subrange(0, i + 1).drop_last() =~= events@.subrange(0, i as int));
        }
        match &events[i] {
            None => {},
            Some(j) => match j.get("event") {
                None => {},
                Some(e) => {
                    if e.get("start").is_some() {
                    } else {
                        match e.get("data") {
                            Some(data) => {
                                append_stream(&mut stdout, data, "stdout");
                                append_stream(&mut stderr, data, "stderr");
                            },
                            None => match e.get("end") {
                                Some(end) => match end.get("exitCode") {
                                    Some(code) => {
                                        exit_code = match code.as_i64() {
                                            Some(x) => x as i32,
                                            None => -1,
                                        };
                                    },
                                    None => {},
                                },
                                None => {},
                            },
                        }
                    }
                },
            },
        }
        i = i + 1;
    }
    assert(events@.subrange(0, events.len() as int) =~= events@);
    CommandResult { exit_code, stdout, stderr }
}

} // verus!
