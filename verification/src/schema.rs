//! The portal's view of the compositor protocol.
//!
//! Only compositor-owned portal resources belong here.

use vstd::prelude::*;

verus! {

/// Newest protocol version that is spoken. The handshake asks for this
/// version and accepts a downgrade to [`MIN_PROTOCOL_VERSION`].
pub const PROTOCOL_VERSION: u32 = 25;

/// Oldest protocol version that can be negotiated down to.
pub const MIN_PROTOCOL_VERSION: u32 = 24;

/// The scope under which the portal connects.
pub const LOCAL_PORTAL_SCOPE: &'static str = "aegis-portal";

/// What a connection may do.
#[derive(Debug, Clone, Copy, PartialEq, Eq, Structural)]
pub struct ConnectionCapabilities {
    pub query: bool,
    pub control: bool,
    pub input: bool,
    pub session: bool,
    pub interaction_domain: bool,
}

impl Default for ConnectionCapabilities {
    fn default() -> (caps: Self)
        ensures
            caps == (ConnectionCapabilities {
                query: false,
                control: false,
                input: false,
                session: false,
                interaction_domain: false,
            }),
    {
        ConnectionCapabilities {
            query: false,
            control: false,
            input: false,
            session: false,
            interaction_domain: false,
        }
    }
}

impl ConnectionCapabilities {
    /// A connection that only asks.
    pub fn query() -> (caps: Self)
        ensures
            caps == (ConnectionCapabilities {
                query: true,
                control: false,
                input: false,
                session: false,
                interaction_domain: false,
            }),
    {
        ConnectionCapabilities {
            query: true,
            control: false,
            input: false,
            session: false,
            interaction_domain: false,
        }
    }

    /// More than asking is wanted, so a lease is needed.
    pub fn privileged(self) -> (yes: bool)
        ensures
            yes == (self.control || self.input || self.session || self.interaction_domain),
    {
        self.control || self.input || self.session || self.interaction_domain
    }
}

/// A request for a time-bounded lease.
#[derive(Debug, Clone, Copy, PartialEq, Eq, Structural)]
pub struct LeaseRequest {
    pub ttl_ms: u64,
}

impl Default for LeaseRequest {
    fn default() -> (lease: Self)
        ensures
            lease.ttl_ms == 900_000,
    {
        LeaseRequest { ttl_ms: 900_000 }
    }
}

/// A lease that the compositor granted.
#[derive(Debug, Clone, Copy, PartialEq, Eq, Structural)]
pub struct LeaseGrant {
    pub id: u64,
    pub ttl_ms: u64,
    pub renewable: bool,
}

/// A point in compositor coordinates.
#[derive(Debug, Clone, Copy, PartialEq, Eq, Structural)]
pub struct Point {
    pub x: i32,
    pub y: i32,
}

impl Default for Point {
    fn default() -> (p: Self)
        ensures
            p.x == 0 && p.y == 0,
    {
        Point { x: 0, y: 0 }
    }
}

/// An extent in compositor coordinates.
#[derive(Debug, Clone, Copy, PartialEq, Eq, Structural)]
pub struct Size {
    pub w: i32,
    pub h: i32,
}

impl Default for Size {
    fn default() -> (s: Self)
        ensures
            s.w == 0 && s.h == 0,
    {
        Size { w: 0, h: 0 }
    }
}

/// A rectangle in compositor coordinates.
#[derive(Debug, Clone, Copy, PartialEq, Eq, Structural)]
pub struct Rect {
    pub origin: Point,
    pub size: Size,
}

impl Default for Rect {
    fn default() -> (r: Self)
        ensures
            r == (Rect { origin: Point { x: 0, y: 0 }, size: Size { w: 0, h: 0 } }),
    {
        Rect::new(0, 0, 0, 0)
    }
}

impl Rect {
    /// The rectangle at (`x`, `y`) with the given extent.
    pub fn new(x: i32, y: i32, w: i32, h: i32) -> (r: Self)
        ensures
            r == (Rect { origin: Point { x, y }, size: Size { w, h } }),
    {
        Rect { origin: Point { x, y }, size: Size { w, h } }
    }
}

/// The color scheme that the user prefers.
#[derive(Debug, Clone, Copy, PartialEq, Eq, Structural)]
pub enum ColorScheme {
    System,
    Dark,
    Light,
}

impl Default for ColorScheme {
    fn default() -> (c: Self)
        ensures
            c == ColorScheme::System,
    {
        ColorScheme::System
    }
}

/// The contrast that the user prefers.
#[derive(Debug, Clone, Copy, PartialEq, Eq, Structural)]
pub enum Contrast {
    Normal,
    High,
}

impl Default for Contrast {
    fn default() -> (c: Self)
        ensures
            c == Contrast::Normal,
    {
        Contrast::Normal
    }
}

/// The accent color that the user prefers.
#[derive(Debug, Clone, Copy, PartialEq, Eq, Structural)]
pub struct AccentColor {
    pub red: u8,
    pub green: u8,
    pub blue: u8,
}

/// How the pixels of a stream are laid out.
#[derive(Debug, Clone, Copy, PartialEq, Eq, Structural)]
pub enum StreamPixelFormat {
    Bgra8,
    Rgba8,
    Dmabuf { drm_format: u32, modifier: u64 },
}

/// What a stream shows.
#[derive(Debug, Clone, Copy, PartialEq, Eq, Structural)]
pub enum StreamTarget {
    Output,
    Window { window: WindowId },
}

impl Default for StreamTarget {
    fn default() -> (t: Self)
        ensures
            t == StreamTarget::Output,
    {
        StreamTarget::Output
    }
}

impl StreamTarget {
    /// The stream shows a whole output.
    pub fn is_output(&self) -> (yes: bool)
        ensures
            yes == (*self == StreamTarget::Output),
    {
        match self {
            StreamTarget::Output => true,
            StreamTarget::Window { .. } => false,
        }
    }
}

/// A window of the compositor.
#[derive(Debug, Clone, Copy, PartialEq, Eq, Structural)]
pub struct WindowId(pub u64);

/// What the user is asked to pick.
#[derive(Debug, Clone, Copy, PartialEq, Eq, Structural)]
pub enum PickKind {
    Region,
    Pixel,
    Window,
}

/// What the user picked.
#[derive(Debug, Clone, Copy, PartialEq, Eq)]
pub enum PickResult {
    Region { rect: Rect },
    Pixel { point: Point, rgb: [u8; 3] },
    Window { id: WindowId },
    Output,
    Cancelled,
}

/// How the user answered a confirmation.
#[derive(Debug, Clone, Copy, PartialEq, Eq, Structural)]
pub enum ConfirmPickResult {
    Confirmed,
    Cancelled,
}

/// What the compositor reports on its own.
#[derive(Debug, Clone, PartialEq, Eq)]
pub enum Event {
    SettingsChanged { revision: u64 },
    StreamFrame {
        stream_id: u64,
        sequence: u64,
        width: u32,
        height: u32,
        stride: u32,
        format: StreamPixelFormat,
        damage: Vec<Rect>,
        dropped: u64,
        byte_len: u64,
        /// Slot of a zero-copy stream; no descriptor follows such a frame.
        slot: Option<u32>,
    },
    StreamEnded { stream_id: u64, reason: String },
    Other,
}

/// What the portal asks of the compositor.
#[derive(Debug, Clone, PartialEq, Eq)]
pub enum Request {
    Hello {
        version: u32,
        caps: ConnectionCapabilities,
        scope: Option<String>,
        lease: Option<LeaseRequest>,
    },
    GetSettings,
    Subscribe,
    RenewLease { ttl_ms: u64 },
    CaptureOutput { region: Option<Rect> },
    StreamOutputStart { max_fps: Option<u32>, target: StreamTarget, dmabuf: Option<bool> },
    StreamBufferRelease { stream_id: u64, slot: u32 },
    StreamOutputStop { stream_id: u64 },
    PickTarget { kind: PickKind },
    PickConfirm { title: String, body: String, accept_label: Option<String> },
}

/// What the compositor answers. Settings are told apart here and read where
/// they are used.
#[derive(Debug, Clone, PartialEq, Eq)]
pub enum Response {
    Hello { version: u32, caps: ConnectionCapabilities, lease: Option<LeaseGrant> },
    Settings,
    CaptureOutput { width: u32, height: u32, png_bytes: u64 },
    StreamOutputStarted {
        stream_id: u64,
        width: u32,
        height: u32,
        format: StreamPixelFormat,
        slots: Option<u32>,
        slot_stride: Option<u32>,
        slot_bytes: Option<u64>,
    },
    StreamBufferReleased { stream_id: u64, slot: u32 },
    StreamOutputStopped { stream_id: u64 },
    Picked { result: PickResult },
    ConfirmPicked { result: ConfirmPickResult },
    LeaseRenewed { lease: LeaseGrant },
    Subscribed,
    Error { message: String },
}

} // verus!
