//! RDP: the clipboard directions, the login parameters handed to the
//! connector, the input events sent on the fast path, the stream that
//! replays the bytes read before the TLS upgrade, and the HTTP exchange that
//! carries CredSSP tokens, and what the session loop writes back for the
//! outputs of the active stage.
use vstd::prelude::*;
use vstd::string::StringExecFns;

use crate::models::Profile;
use crate::text::{
    canonical_decimal, decimal, decimal_value, lemma_decimal_reads_back, push_decimal_u64,
};

verus! {

/// Flags of the RDP clipboard channel (cliprdr), given to the connector.
#[derive(Debug, Clone, Copy, PartialEq, Eq, Structural)]
pub struct ClipboardConfig {
    /// The clipboard channel is on.
    pub enabled: bool,
    /// Local -> remote (copy locally, paste on the server).
    pub to_remote: bool,
    /// Remote -> local (copy on the server, paste locally).
    pub from_remote: bool,
}

impl ClipboardConfig {
    /// From the profile's settings: with the clipboard on and no direction
    /// chosen, both directions are on.
    pub fn from_profile(p: &Profile) -> (c: Self)
        ensures
            c.enabled == p.rdp_options.clipboard,
            c.to_remote == (p.rdp_options.clipboard && (p.rdp_options.clipboard_to_remote || (
            !p.rdp_options.clipboard_to_remote && !p.rdp_options.clipboard_from_remote))),
            c.from_remote == (p.rdp_options.clipboard && (p.rdp_options.clipboard_from_remote || (
            !p.rdp_options.clipboard_to_remote && !p.rdp_options.clipboard_from_remote))),
    {
        let o = &p.rdp_options;
        let neither = !o.clipboard_to_remote && !o.clipboard_from_remote;
        ClipboardConfig {
            enabled: o.clipboard,
            to_remote: o.clipboard && (o.clipboard_to_remote || neither),
            from_remote: o.clipboard && (o.clipboard_from_remote || neither),
        }
    }
}

/// Law: a direction of the clipboard is on only when the clipboard is on,
/// a direction that the profile chooses is on, and with none chosen the
/// clipboard works both ways.
pub proof fn lemma_clipboard_directions(p: Profile, c: ClipboardConfig)
    requires
        c.enabled == p.rdp_options.clipboard,
        c.to_remote == (p.rdp_options.clipboard && (p.rdp_options.clipboard_to_remote || (
        !p.rdp_options.clipboard_to_remote && !p.rdp_options.clipboard_from_remote))),
        c.from_remote == (p.rdp_options.clipboard && (p.rdp_options.clipboard_from_remote || (
        !p.rdp_options.clipboard_to_remote && !p.rdp_options.clipboard_from_remote))),
    ensures
        c.to_remote ==> c.enabled,
        c.from_remote ==> c.enabled,
        c.enabled ==> (c.to_remote || c.from_remote),
        c.enabled && p.rdp_options.clipboard_to_remote ==> c.to_remote,
        c.enabled && p.rdp_options.clipboard_from_remote ==> c.from_remote,
        c.enabled && !p.rdp_options.clipboard_to_remote && !p.rdp_options.clipboard_from_remote
            ==> c.to_remote && c.from_remote,
{
}

/// The parameters of an RDP login that the connector is configured with.
#[derive(Debug)]
pub struct RdpLogin {
    pub username: String,
    pub password: String,
    /// The Windows domain; none when the profile's domain is empty.
    pub domain: Option<String>,
    /// Desktop width in pixels: the profile's width, at least 1, cut to 16 bits.
    pub width: u16,
    /// Desktop height in pixels: the profile's height, at least 1, cut to 16 bits.
    pub height: u16,
}

/// A desktop dimension as the connector takes it: at least 1, cut to 16 bits.
pub open spec fn desktop_dimension(v: u32) -> u16 {
    if v < 1 {
        1u16
    } else {
        v as u16
    }
}

/// The login parameters of an RDP profile; an error when it has no login.
pub fn rdp_login(p: &Profile) -> (r: Result<RdpLogin, String>)
    ensures
        p.username is None ==> (r matches Err(e) && e@ == "не указан логин"@),
        p.username matches Some(u) ==> (r matches Ok(l) && {
            &&& l.username@ == u@
            &&& l.password@ == (match p.password {
                Some(x) => x@,
                None => Seq::<char>::empty(),
            })
            &&& (p.rdp_options.domain@.len() == 0 ==> l.domain is None)
            &&& (p.rdp_options.domain@.len() > 0 ==> (l.domain matches Some(d) && d@
                == p.rdp_options.domain@))
            &&& l.width == desktop_dimension(p.rdp_options.width)
            &&& l.height == desktop_dimension(p.rdp_options.height)
        }),
{
    let username = match &p.username {
        Some(u) => u.clone(),
        None => return Err(String::from_str("не указан логин")),
    };
    let password = match &p.password {
        Some(x) => x.clone(),
        None => String::new(),
    };
    let o = &p.rdp_options;
    let domain = if o.domain.as_str().unicode_len() == 0 {
        None
    } else {
        Some(o.domain.clone())
    };
    let w: u32 = if o.width < 1 { 1 } else { o.width };
    let h: u32 = if o.height < 1 { 1 } else { o.height };
    Ok(RdpLogin {
        username,
        password,
        domain,
        width: #[verifier::truncate] (w as u16),
        height: #[verifier::truncate] (h as u16),
    })
}

/// A key event on the fast path: a Unicode key event.
#[derive(Debug, Clone, Copy, PartialEq, Eq, Structural)]
pub struct KeyInput {
    /// The key was released (else pressed).
    pub release: bool,
    /// The UTF-16 code unit; 0 when the code point does not fit in 16 bits.
    pub code: u16,
}

/// The fast-path key event of a key press or release; `keysym` is taken as
/// a Unicode code point.
pub fn key_input(keysym: u32, pressed: bool) -> (k: KeyInput)
    ensures
        k.release == !pressed,
        keysym <= 0xFFFF ==> k.code == keysym,
        keysym > 0xFFFF ==> k.code == 0,
{
    let code: u16 = if keysym <= 0xFFFF { keysym as u16 } else { 0 };
    KeyInput { release: !pressed, code }
}

/// The mouse buttons that a click can press.
#[derive(Debug, Clone, Copy, PartialEq, Eq, Structural)]
pub enum MouseButton {
    Left,
    Right,
    Middle,
}

/// A pointer event on the fast path, as flags and coordinates.
#[derive(Debug, Clone, Copy, PartialEq, Eq, Structural)]
pub struct PointerInput {
    /// The MOVE flag.
    pub moved: bool,
    /// The DOWN flag (a button is pressed).
    pub down: bool,
    /// The button flag.
    pub button: Option<MouseButton>,
    /// The VERTICAL_WHEEL flag.
    pub vertical_wheel: bool,
    /// The WHEEL_NEGATIVE flag.
    pub wheel_negative: bool,
    /// Wheel rotation units.
    pub wheel_units: i16,
    pub x: u16,
    pub y: u16,
}

/// A coordinate clamped to 16 bits.
pub open spec fn clamp_coordinate(v: u32) -> u16 {
    if v > 0xFFFF {
        0xFFFFu16
    } else {
        v as u16
    }
}

fn clamp16(v: u32) -> (r: u16)
    ensures
        r == clamp_coordinate(v),
{
    if v > 0xFFFF {
        0xFFFF
    } else {
        v as u16
    }
}

/// The button that a button number presses: 1 left, 2 right, 3 middle.
pub open spec fn button_of(buttons: u8) -> Option<MouseButton> {
    if buttons == 1 {
        Some(MouseButton::Left)
    } else if buttons == 2 {
        Some(MouseButton::Right)
    } else if buttons == 3 {
        Some(MouseButton::Middle)
    } else {
        None
    }
}

/// The pointer event of a move or a click at (x, y). A click sets DOWN and
/// the flag of the button (1 left, 2 right, 3 middle).
pub fn mouse_input(x: u32, y: u32, buttons: u8, is_move: bool) -> (e: PointerInput)
    ensures
        e.moved,
        e.down == !is_move,
        e.button == (if is_move { None } else { button_of(buttons) }),
        !e.vertical_wheel,
        !e.wheel_negative,
        e.wheel_units == 0,
        e.x == clamp_coordinate(x),
        e.y == clamp_coordinate(y),
{
    let button = if is_move {
        None
    } else if buttons == 1 {
        Some(MouseButton::Left)
    } else if buttons == 2 {
        Some(MouseButton::Right)
    } else if buttons == 3 {
        Some(MouseButton::Middle)
    } else {
        None
    };
    PointerInput {
        moved: true,
        down: !is_move,
        button,
        vertical_wheel: false,
        wheel_negative: false,
        wheel_units: 0,
        x: clamp16(x),
        y: clamp16(y),
    }
}

/// The rotation units of a wheel delta: its magnitude, at most `i16::MAX`.
pub open spec fn wheel_units_of(delta: i32) -> i16 {
    let m = if delta < 0 { -(delta as int) } else { delta as int };
    if m > 0x7FFF {
        0x7FFFi16
    } else {
        m as i16
    }
}

/// The pointer event of a turn of the vertical wheel at (x, y); a negative
/// delta sets WHEEL_NEGATIVE.
pub fn wheel_input(x: u32, y: u32, delta: i32) -> (e: PointerInput)
    ensures
        !e.moved,
        !e.down,
        e.button is None,
        e.vertical_wheel,
        e.wheel_negative == (delta < 0),
        e.wheel_units == wheel_units_of(delta),
        e.x == clamp_coordinate(x),
        e.y == clamp_coordinate(y),
{
    let magnitude: u32 = if delta < 0 {
        if delta == i32::MIN {
            0x8000_0000u32
        } else {
            (-delta) as u32
        }
    } else {
        delta as u32
    };
    let units: i16 = if magnitude > 0x7FFF { 0x7FFF } else { magnitude as i16 };
    PointerInput {
        moved: false,
        down: false,
        button: None,
        vertical_wheel: true,
        wheel_negative: delta < 0,
        wheel_units: units,
        x: clamp16(x),
        y: clamp16(y),
    }
}

/// A stream that first gives back the bytes read from TCP before the TLS
/// upgrade, then reads from the wrapped stream.
pub struct PrefixedStream<S> {
    prefix: Vec<u8>,
    prefix_pos: usize,
    inner: S,
}

impl<S> PrefixedStream<S> {
    /// The prefix bytes not given back yet.
    pub closed spec fn remaining(self) -> Seq<u8> {
        if self.prefix_pos <= self.prefix@.len() {
            self.prefix@.subrange(self.prefix_pos as int, self.prefix@.len() as int)
        } else {
            Seq::empty()
        }
    }

    /// The wrapped stream.
    pub closed spec fn spec_inner(self) -> S {
        self.inner
    }

    pub fn new(prefix: Vec<u8>, inner: S) -> (s: Self)
        ensures
            s.remaining() == prefix@,
            s.spec_inner() == inner,
    {
        let s = PrefixedStream { prefix, prefix_pos: 0, inner };
        assert(s.prefix@.subrange(0, s.prefix@.len() as int) == s.prefix@);
        s
    }

    /// Reads from the prefix while bytes of it remain: copies as many as fit
    /// into `buf` and returns their count; `None` once the prefix is spent,
    /// when the caller reads from the wrapped stream instead.
    pub fn read_prefix(&mut self, buf: &mut [u8]) -> (r: Option<usize>)
        ensures
            final(self).spec_inner() == old(self).spec_inner(),
            old(self).remaining().len() == 0 ==> (r is None && final(self).remaining() == old(
                self,
            ).remaining() && final(buf)@ == old(buf)@),
            old(self).remaining().len() > 0 ==> (r matches Some(n) && {
                &&& n == (if old(self).remaining().len() < old(buf)@.len() {
                    old(self).remaining().len()
                } else {
                    old(buf)@.len()
                })
                &&& final(buf)@ == old(self).remaining().subrange(0, n as int) + old(buf)@.subrange(
                    n as int,
                    old(buf)@.len() as int,
                )
                &&& final(self).remaining() == old(self).remaining().subrange(
                    n as int,
                    old(self).remaining().len() as int,
                )
            }),
    {
        let len = self.prefix.len();
        let pos = self.prefix_pos;
        if pos >= len {
            return None;
        }
        let avail = len - pos;
        let n = if avail < buf.len() { avail } else { buf.len() };
        let mut i: usize = 0;
        while i < n
            invariant
                n <= buf@.len(),
                len == self.prefix@.len(),
                pos + n <= len,
                i <= n,
                buf@.len() == old(buf)@.len(),
                forall|j: int| 0 <= j < i ==> buf@[j] == self.prefix@[pos + j],
                forall|j: int| n <= j < buf@.len() ==> buf@[j] == old(buf)@[j],
            decreases n - i,
        {
            let v = self.prefix[pos + i];
            buf[i] = v;
            i = i + 1;
        }
        self.prefix_pos = pos + n;
        proof {
            assert(buf@ =~= old(self).remaining().subrange(0, n as int) + old(buf)@.subrange(
                n as int,
                old(buf)@.len() as int,
            ));
            assert(self.remaining() =~= old(self).remaining().subrange(
                n as int,
                old(self).remaining().len() as int,
            ));
        }
        Some(n)
    }

    /// The wrapped stream, for reading once the prefix is spent and for
    /// writing.
    pub fn inner_mut(&mut self) -> (r: &mut S)
        ensures
            *r == old(self).spec_inner(),
    {
        &mut self.inner
    }
}

/// The HTTP/1.1 request head that carries a CredSSP token of `len` bytes to
/// the RDP server over TLS: every line, and the blank line that ends the
/// head, ends with CR LF.
pub open spec fn credssp_request_head_of(host: Seq<char>, len: usize) -> Seq<char> {
    "POST / HTTP/1.1\r\nHost: "@ + host + "\r\nContent-Type: application/octet-stream\r\nContent-Length: "@
        + decimal(len as int) + "\r\nConnection: close\r\n\r\n"@
}

/// The part of the CredSSP request head before the Content-Length value.
pub open spec fn credssp_head_start(host: Seq<char>) -> Seq<char> {
    "POST / HTTP/1.1\r\nHost: "@ + host + "\r\nContent-Type: application/octet-stream\r\nContent-Length: "@
}

/// The part of the CredSSP request head after the Content-Length value.
pub open spec fn credssp_head_end() -> Seq<char> {
    "\r\nConnection: close\r\n\r\n"@
}

/// Law: the request head starts with the request line, the Host, the
/// Content-Type and the Content-Length name, ends with the Connection line
/// and the blank line, and between them stands a canonical decimal numeral
/// that reads back as the full length of the token.
pub proof fn lemma_content_length_reads_back(host: Seq<char>, len: usize)
    ensures
        ({
            let h = credssp_request_head_of(host, len);
            let a = credssp_head_start(host).len() as int;
            let b = h.len() - credssp_head_end().len();
            &&& a <= b
            &&& h.subrange(0, a) == credssp_head_start(host)
            &&& h.subrange(b, h.len() as int) == credssp_head_end()
            &&& canonical_decimal(h.subrange(a, b))
            &&& decimal_value(h.subrange(a, b)) == len
        }),
{
    let h = credssp_request_head_of(host, len);
    let st = credssp_head_start(host);
    let en = credssp_head_end();
    let d = decimal(len as int);
    lemma_decimal_reads_back(len as nat);
    assert(h == st + d + en);
    assert(h.subrange(0, st.len() as int) == st);
    assert(h.subrange(h.len() - en.len(), h.len() as int) == en);
    assert(h.subrange(st.len() as int, h.len() - en.len()) == d);
}

/// Formats the HTTP request head that carries a CredSSP token.
pub fn credssp_request_head(host: &str, len: usize) -> (h: String)
    ensures
        h@ == credssp_request_head_of(host@, len),
{
    let mut h = String::from_str("POST / HTTP/1.1\r\nHost: ");
    h.append(host);
    h.append("\r\nContent-Type: application/octet-stream\r\nContent-Length: ");
    push_decimal_u64(&mut h, len as u64);
    h.append("\r\nConnection: close\r\n\r\n");
    h
}

/// Where the body of an HTTP response starts, searching from `i`: after the
/// first blank line ("\r\n\r\n"), or at the end when there is none.
pub open spec fn body_start(raw: Seq<u8>, i: int) -> int
    decreases raw.len() - i,
{
    if i < 0 || i >= raw.len() {
        raw.len() as int
    } else if raw[i] == 0x0d && i + 3 < raw.len() && raw[i + 1] == 0x0a && raw[i + 2] == 0x0d
        && raw[i + 3] == 0x0a {
        i + 4
    } else {
        body_start(raw, i + 1)
    }
}

fn find_body_start(raw: &[u8]) -> (k: usize)
    ensures
        k == body_start(raw@, 0),
        k <= raw@.len(),
{
    let n = raw.len();
    let mut i: usize = 0;
    while i < n
        invariant
            n == raw@.len(),
            i <= n,
            body_start(raw@, i as int) == body_start(raw@, 0),
        decreases n - i,
    {
        if raw[i] == 0x0d && n - i > 3 && raw[i + 1] == 0x0a && raw[i + 2] == 0x0d && raw[i + 3]
            == 0x0a {
            return i + 4;
        }
        i = i + 1;
    }
    n
}

/// The body of a raw HTTP response: what follows the first blank line;
/// empty when there is none.
pub fn response_body(raw: &[u8]) -> (body: Vec<u8>)
    ensures
        body@ == raw@.subrange(body_start(raw@, 0), raw@.len() as int),
{
    let n = raw.len();
    let split = find_body_start(raw);
    let mut body: Vec<u8> = Vec::new();
    let mut k = split;
    while k < n
        invariant
            n == raw@.len(),
            split <= k <= n,
            body@ == raw@.subrange(split as int, k as int),
        decreases n - k,
    {
        body.push(raw[k]);
        k = k + 1;
    }
    body
}

/// One output of the active RDP stage, as the session loop sees it.
#[derive(Debug)]
pub enum StageOutput {
    /// A frame to send back to the server.
    ResponseFrame(Vec<u8>),
    /// The server ended the session.
    Terminate,
    /// Graphics, pointer or other output that sends nothing.
    Other,
}

/// The frames written back for the outputs from index `i` on: each response
/// frame in order, up to the first `Terminate`, which ends the batch.
pub open spec fn frames_from(outs: Seq<StageOutput>, i: int) -> Seq<Seq<u8>>
    decreases outs.len() - i,
{
    if i < 0 || i >= outs.len() {
        Seq::empty()
    } else {
        match outs[i] {
            StageOutput::ResponseFrame(f) => seq![f@] + frames_from(outs, i + 1),
            StageOutput::Terminate => Seq::empty(),
            StageOutput::Other => frames_from(outs, i + 1),
        }
    }
}

/// The bytes of each frame of a list.
pub open spec fn frame_bytes(frames: Seq<Vec<u8>>) -> Seq<Seq<u8>> {
    frames.map_values(|f: Vec<u8>| f@)
}

/// The batch ends the session: one of its outputs is `Terminate`.
pub open spec fn ends_session(outs: Seq<StageOutput>) -> bool {
    exists|i: int| 0 <= i < outs.len() && #[trigger] outs[i] is Terminate
}

/// What the session does with one batch of outputs of the active stage: the
/// frames it writes back, in order (the response frames before the first
/// `Terminate`), and whether the server ended the session.
pub fn frames_to_write(outs: &Vec<StageOutput>) -> (r: (Vec<Vec<u8>>, bool))
    ensures
        frame_bytes(r.0@) == frames_from(outs@, 0),
        r.1 == ends_session(outs@),
{
    let n = outs.len();
    let mut frames: Vec<Vec<u8>> = Vec::new();
    let mut i: usize = 0;
    while i < n
        invariant
            n == outs@.len(),
            i <= n,
            frame_bytes(frames@) + frames_from(outs@, i as int) == frames_from(outs@, 0),
            forall|j: int| 0 <= j < i ==> !(#[trigger] outs@[j] is Terminate),
        decreases n - i,
    {
        match &outs[i] {
            StageOutput::ResponseFrame(f) => {
                let c = f.clone();
                assert(c@ == f@);
                proof {
                    assert(frame_bytes(frames@.push(c)) == frame_bytes(frames@).push(f@));
                    assert(frame_bytes(frames@).push(f@) + frames_from(outs@, i + 1)
                        == frame_bytes(frames@) + (seq![f@] + frames_from(outs@, i + 1)));
                }
                frames.push(c);
            },
            StageOutput::Terminate => {
                proof {
                    assert(frame_bytes(frames@) + Seq::<Seq<u8>>::empty() == frame_bytes(frames@));
                    assert(outs@[i as int] is Terminate);
                }
                return (frames, true);
            },
            StageOutput::Other => {},
        }
        i = i + 1;
    }
    proof {
        assert(frame_bytes(frames@) + Seq::<Seq<u8>>::empty() == frame_bytes(frames@));
    }
    (frames, false)
}

} // verus!
